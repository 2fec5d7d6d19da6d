//! The integer side of audio analysis: which samples each video frame hears,
//! how many frames a span of time covers, and what to say about a song that
//! will not decode.

use vstd::prelude::*;
use crate::config::file::ReadFailure;
use crate::config::value::Seconds;
use crate::error::Error;
use crate::text::{decimal, push_decimal, push_str, string_from};

verus! {

/// The shortest gap between two hits: 100 ms caps onsets at ten a second.
pub const DEFAULT_REFRACTORY_NANOS: u64 = 100_000_000;

/// Half the window the adaptive onset threshold is measured over: 1 s.
pub const DEFAULT_HALF_WINDOW_NANOS: u64 = 1_000_000_000;

/// The time constant an onset impulse decays with: 150 ms.
pub const DEFAULT_DECAY_NANOS: u64 = 150_000_000;

/// `nanos * fps / 10^9`, rounded to the nearest whole frame, halves up.
pub open spec fn frames_spanned(nanos: nat, fps: nat) -> nat {
    (2 * nanos * fps + 1_000_000_000) / 2_000_000_000
}

/// How many video frames `duration` spans at `fps`, rounded to the nearest;
/// a count past the largest `usize` saturates there.
pub fn frames_in(duration: Seconds, fps: u32) -> (n: usize)
    ensures
        n == if frames_spanned(duration@ as nat, fps as nat) > usize::MAX {
            usize::MAX as nat
        } else {
            frames_spanned(duration@ as nat, fps as nat)
        },
{
    let ns = duration.as_nanos() as u128;
    assert(ns * (fps as u128) <= 0xffff_ffff_ffff_ffff * 0xffff_ffff) by (nonlinear_arith)
        requires
            ns <= 0xffff_ffff_ffff_ffff,
            fps <= 0xffff_ffff,
    ;
    let p: u128 = ns * (fps as u128);
    assert(2 * (duration@ as nat) * (fps as nat) == 2 * p) by (nonlinear_arith)
        requires
            p == ns * fps,
            ns == duration@,
    ;
    let twice: u128 = 2 * p + 1_000_000_000;
    let q = twice / 2_000_000_000;
    if q > usize::MAX as u128 {
        usize::MAX
    } else {
        q as usize
    }
}


/// The analysis window, in samples, unless the video frames lie further apart.
pub const NOMINAL_WINDOW: usize = 2048;

/// How many video frames cover `len` samples: rounded up, because a final
/// partial frame still shows on screen and still needs features.
pub open spec fn frames_covering(len: nat, sample_rate: nat, fps: nat) -> nat {
    ((len * fps + sample_rate - 1) as nat) / sample_rate
}

/// How many video frames it takes to cover `len` samples.
pub fn frame_count(len: usize, sample_rate: u32, fps: u32) -> (n: usize)
    requires
        sample_rate > 0,
        frames_covering(len as nat, sample_rate as nat, fps as nat) <= usize::MAX,
    ensures
        n == frames_covering(len as nat, sample_rate as nat, fps as nat),
{
    assert(len as u128 * (fps as u128) <= 0xffff_ffff_ffff_ffff * 0xffff_ffff) by (nonlinear_arith)
        requires
            len <= 0xffff_ffff_ffff_ffff,
            fps <= 0xffff_ffff,
    ;
    let p: u128 = len as u128 * fps as u128;
    ((p + sample_rate as u128 - 1) / sample_rate as u128) as usize
}

/// The sample at video frame `index`'s exact timestamp, `index / fps`,
/// rounded to the nearest sample.
pub open spec fn sample_at(index: nat, sample_rate: nat, fps: nat) -> nat {
    (index * sample_rate + fps / 2) / fps
}

/// The sample index at video frame `index`'s exact timestamp.
///
/// Integer math from the frame index: adding a truncated hop per frame would
/// instead shed up to a sample per frame and drift from the picture.
pub fn center_sample(index: usize, sample_rate: u64, fps: u64) -> (n: usize)
    requires
        fps > 0,
        index * sample_rate + fps / 2 <= u64::MAX,
        sample_at(index as nat, sample_rate as nat, fps as nat) <= usize::MAX,
    ensures
        n == sample_at(index as nat, sample_rate as nat, fps as nat),
{
    ((index as u64 * sample_rate + fps / 2) / fps) as usize
}

/// Samples between two video frames, rounded up.
pub open spec fn hop(sample_rate: nat, fps: nat) -> nat {
    ((sample_rate + fps - 1) as nat) / fps
}

/// The analysis window: [`NOMINAL_WINDOW`], widened to the hop when a low
/// frame rate spaces video frames further apart than that, so no audio falls
/// between two windows.
pub fn window_len(sample_rate: u32, fps: u32) -> (n: usize)
    requires
        fps > 0,
    ensures
        n == if hop(sample_rate as nat, fps as nat) > NOMINAL_WINDOW {
            hop(sample_rate as nat, fps as nat)
        } else {
            NOMINAL_WINDOW as nat
        },
{
    let total: u64 = sample_rate as u64 + fps as u64 - 1;
    let q: u64 = total / fps as u64;
    assert(q <= sample_rate) by (nonlinear_arith)
        requires
            q == total / (fps as u64),
            total == sample_rate + fps - 1,
            fps > 0,
    ;
    let hop = q as usize;
    if hop > NOMINAL_WINDOW {
        hop
    } else {
        NOMINAL_WINDOW
    }
}

/// Where a window of `window` samples centered on `center` sits in a song of
/// `len` samples: it slides in at the edges rather than hanging out of them,
/// and a song shorter than one window is all heard.
pub open spec fn window_at(len: nat, center: nat, window: nat) -> (nat, nat) {
    let lead = window / 2;
    let from = if center >= lead {
        (center - lead) as nat
    } else {
        0
    };
    let latest = if len >= window {
        (len - window) as nat
    } else {
        0
    };
    let start = if from < latest {
        from
    } else {
        latest
    };
    let end = if start + window < len {
        start + window
    } else {
        len
    };
    (start, end)
}

/// The samples a window centered on `center` hears: `start..end`.
pub fn window_bounds(len: usize, center: usize, window: usize) -> (r: (usize, usize))
    ensures
        (r.0 as nat, r.1 as nat) == window_at(len as nat, center as nat, window as nat),
        r.0 <= r.1 <= len,
        r.1 - r.0 <= window,
{
    let lead = window / 2;
    let from = if center >= lead {
        center - lead
    } else {
        0
    };
    let latest = if len >= window {
        len - window
    } else {
        0
    };
    let start = if from < latest {
        from
    } else {
        latest
    };
    let end = if window < len - start {
        start + window
    } else {
        len
    };
    (start, end)
}

/// Why the song could not be opened; every one of these is the song, not
/// the machine.
pub fn unopenable(path: &str, failure: &ReadFailure) -> (e: Error)
    ensures
        e matches Error::Input(m) && m@ == crate::config::file::unreadable_message(
            path@,
            *failure,
        ),
{
    let mut m = string_from(path);
    match failure {
        ReadFailure::NotFound => push_str(&mut m, ": no such file"),
        ReadFailure::PermissionDenied => push_str(&mut m, ": permission denied"),
        ReadFailure::Other(detail) => {
            push_str(&mut m, ": cannot be read: ");
            push_str(&mut m, detail.as_str());
        },
    }
    Error::Input(m)
}

/// What went wrong decoding a song, as the decoder reports it.
#[derive(Debug, Clone, PartialEq, Eq)]
pub enum DecodeProblem {
    /// The file ends before the audio does.
    Truncated,
    /// Reading the file failed.
    Read(ReadFailure),
    /// The bytes are not an audio format avz reads.
    Unsupported,
    /// The stream is malformed, as described.
    Malformed(String),
    /// The stream exceeds a decoder limit, as described.
    Limit(String),
    /// Anything else, as described.
    Other(String),
}

pub open spec fn undecodable_message(path: Seq<char>, problem: DecodeProblem) -> Seq<char> {
    match problem {
        DecodeProblem::Truncated => path + ": the file ends before the audio does; it is truncated"@,
        DecodeProblem::Read(f) => crate::config::file::unreadable_message(path, f),
        DecodeProblem::Unsupported => path + ": not a recognized audio file; avz reads mp3"@,
        DecodeProblem::Malformed(what) => path + ": malformed audio stream: "@ + what@,
        DecodeProblem::Limit(what) => path + ": audio stream exceeds a limit: "@ + what@,
        DecodeProblem::Other(what) => path + ": this audio stream cannot be decoded: "@ + what@,
    }
}

/// A decoding failure as an input error the user can act on: a file that is
/// not audio, one that stops early, and audio avz cannot read.
pub fn undecodable(path: &str, problem: &DecodeProblem) -> (e: Error)
    ensures
        e matches Error::Input(m) && m@ == undecodable_message(path@, *problem),
{
    match problem {
        DecodeProblem::Read(f) => unopenable(path, f),
        _ => {
            let mut m = string_from(path);
            match problem {
                DecodeProblem::Truncated => push_str(
                    &mut m,
                    ": the file ends before the audio does; it is truncated",
                ),
                DecodeProblem::Unsupported => push_str(&mut m, ": not a recognized audio file; avz reads mp3"),
                DecodeProblem::Malformed(what) => {
                    push_str(&mut m, ": malformed audio stream: ");
                    push_str(&mut m, what.as_str());
                },
                DecodeProblem::Limit(what) => {
                    push_str(&mut m, ": audio stream exceeds a limit: ");
                    push_str(&mut m, what.as_str());
                },
                DecodeProblem::Other(what) => {
                    push_str(&mut m, ": this audio stream cannot be decoded: ");
                    push_str(&mut m, what.as_str());
                },
                DecodeProblem::Read(_) => {},
            }
            Error::Input(m)
        },
    }
}


/// The envelope's rise time constant: 10 ms.
pub const DEFAULT_ATTACK_NANOS: u64 = 10_000_000;

/// The envelope's fall time constant: 300 ms.
pub const DEFAULT_ENVELOPE_DECAY_NANOS: u64 = 300_000_000;

/// The time constants an envelope follows its feature with.
#[derive(Debug, Clone, Copy, PartialEq, Eq, Structural)]
pub struct EnvelopeParams {
    /// Rise time constant.
    pub attack: Seconds,
    /// Fall time constant.
    pub decay: Seconds,
}

impl Default for EnvelopeParams {
    fn default() -> (p: EnvelopeParams)
        ensures
            p.attack@ == DEFAULT_ATTACK_NANOS,
            p.decay@ == DEFAULT_ENVELOPE_DECAY_NANOS,
    {
        EnvelopeParams {
            attack: Seconds::from_nanos(DEFAULT_ATTACK_NANOS),
            decay: Seconds::from_nanos(DEFAULT_ENVELOPE_DECAY_NANOS),
        }
    }
}


/// The song holds no audio track at all.
pub fn no_audio_track(path: &str) -> (e: Error)
    ensures
        e matches Error::Input(m) && m@ == path@ + ": no audio track"@,
{
    let mut m = string_from(path);
    push_str(&mut m, ": no audio track");
    Error::Input(m)
}

/// The song's audio track names no codec to decode it with.
pub fn no_codec(path: &str) -> (e: Error)
    ensures
        e matches Error::Input(m) && m@ == path@ + ": the audio track declares no codec; avz reads mp3"@,
{
    let mut m = string_from(path);
    push_str(&mut m, ": the audio track declares no codec; avz reads mp3");
    Error::Input(m)
}

/// The song's sample rate changed partway through.
pub fn rate_changed(path: &str, known: u32, rate: u32) -> (e: Error)
    ensures
        e matches Error::Input(m) && m@ == path@ + ": sample rate changes from "@ + decimal(
            known as nat,
        ) + " Hz to "@ + decimal(rate as nat) + " Hz mid-stream"@,
{
    let mut m = string_from(path);
    push_str(&mut m, ": sample rate changes from ");
    push_decimal(&mut m, known as u64);
    push_str(&mut m, " Hz to ");
    push_decimal(&mut m, rate as u64);
    push_str(&mut m, " Hz mid-stream");
    Error::Input(m)
}

/// The song probed as audio and still yielded none.
pub fn nothing_decoded(path: &str) -> (e: Error)
    ensures
        e matches Error::Input(m) && m@ == path@ + ": no audio could be decoded from this file"@,
{
    let mut m = string_from(path);
    push_str(&mut m, ": no audio could be decoded from this file");
    Error::Input(m)
}

} // verus!
