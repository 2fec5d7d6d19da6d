//! Progress reporting, as a callback trait.
//!
//! The library never prints. Long-running phases call into a [`Progress`]
//! implementation supplied by the caller; the command line renders that as a
//! bar or as log lines, and a GUI would render it as a widget.

use vstd::prelude::*;
use crate::pipeline::AdapterKind;

verus! {

/// The phases a render moves through, in order.
#[derive(Debug, Clone, Copy, PartialEq, Eq, Hash, Structural)]
pub enum Phase {
    /// Decoding audio and building the feature timeline.
    Analyzing,
    /// Rendering frames on the GPU and piping them to the encoder.
    Rendering,
    /// Waiting on ffmpeg to flush and finalize the container.
    Finalizing,
}

pub open spec fn phase_label(p: Phase) -> Seq<char> {
    match p {
        Phase::Analyzing => "analyzing"@,
        Phase::Rendering => "rendering"@,
        Phase::Finalizing => "finalizing"@,
    }
}

impl Phase {
    /// A lowercase label suitable for a progress bar or log line.
    pub fn label(self) -> (s: &'static str)
        ensures
            s@ == phase_label(self),
    {
        match self {
            Phase::Analyzing => "analyzing",
            Phase::Rendering => "rendering",
            Phase::Finalizing => "finalizing",
        }
    }
}

/// Callbacks the pipeline invokes as work proceeds.
///
/// Implementations must be cheap and must not block the pipeline. They may be
/// called from worker threads, hence `Send + Sync`.
pub trait Progress: Send + Sync {
    /// A phase began. `total` is the unit count when known (frames, windows).
    fn phase_started(&self, phase: Phase, total: Option<u64>);

    /// `units` more units of the current phase completed.
    fn advance(&self, phase: Phase, units: u64);

    /// A phase completed.
    fn phase_finished(&self, phase: Phase);

    /// An actionable, non-fatal warning the user should see.
    fn warn(&self, message: &str);

    /// The renderer settled on an adapter.
    fn adapter_selected(&self, kind: AdapterKind, name: &str);
}

/// A [`Progress`] that discards everything.
#[derive(Debug, Default, Clone, Copy)]
pub struct NoopProgress;

impl Progress for NoopProgress {
    fn phase_started(&self, phase: Phase, total: Option<u64>) {
    }

    fn advance(&self, phase: Phase, units: u64) {
    }

    fn phase_finished(&self, phase: Phase) {
    }

    fn warn(&self, message: &str) {
    }

    fn adapter_selected(&self, kind: AdapterKind, name: &str) {
    }
}

} // verus!
