//! The terminal end of the [`Progress`](crate::progress::Progress) callbacks.
//!
//! Three presentations, chosen once at startup: bars on a terminal, one line
//! per phase and per decile of progress on a pipe or in a CI log, and nothing
//! at all under `--quiet`.

use vstd::prelude::*;
use crate::pipeline::AdapterKind;
use crate::progress::{Phase, phase_label};
use crate::text::{decimal, push_decimal, push_str, string_from};

verus! {

/// The bar for a phase whose total is known: the frame count, the live render
/// fps, and an ETA.
pub const BAR_TEMPLATE: &'static str = "{msg:<10} [{bar:30.cyan/blue}] {pos}/{len} frames  {fps}  eta {eta}";

/// The spinner for a phase whose length nobody knows until it ends.
pub const SPINNER_TEMPLATE: &'static str = "{spinner:.cyan} {msg:<10} {elapsed_precise}";

/// How much of a phase must complete before the line-based fallback says so.
pub const LINE_STEP_PERCENT: u64 = 10;

/// How the terminal is written to.
#[derive(Debug, Clone, Copy, PartialEq, Eq, Structural)]
pub enum Mode {
    /// Errors only.
    Silent,
    /// One line per phase and per decile of progress, for pipes and CI logs.
    Lines,
    /// Bars, for a terminal.
    Bars,
}

impl Mode {
    /// `--quiet` beats everything; a bar is drawn only where it can be redrawn.
    pub fn select(quiet: bool, stderr_is_a_terminal: bool) -> (m: Mode)
        ensures
            m == (if quiet {
                Mode::Silent
            } else if stderr_is_a_terminal {
                Mode::Bars
            } else {
                Mode::Lines
            }),
    {
        if quiet {
            Mode::Silent
        } else if stderr_is_a_terminal {
            Mode::Bars
        } else {
            Mode::Lines
        }
    }
}

/// The template a phase's progress is drawn from: a bar when its length is
/// known, a spinner when it is not.
pub fn template(total: Option<u64>) -> (t: &'static str)
    ensures
        t@ == (if total is Some {
            BAR_TEMPLATE@
        } else {
            SPINNER_TEMPLATE@
        }),
{
    match total {
        Some(_) => BAR_TEMPLATE,
        None => SPINNER_TEMPLATE,
    }
}

/// The line-based fallback's state for one phase.
#[derive(Debug, Clone, Copy, PartialEq, Eq, Structural)]
pub struct LineState {
    total: u64,
    done: u64,
    next_percent: u64,
}

pub ghost struct LineModel {
    /// Units the phase will take; zero when unknown.
    pub total: nat,
    /// Units completed so far.
    pub done: nat,
    /// The next percentage worth printing a line for.
    pub next_percent: nat,
}

impl View for LineState {
    type V = LineModel;

    closed spec fn view(&self) -> LineModel {
        LineModel {
            total: self.total as nat,
            done: self.done as nat,
            next_percent: self.next_percent as nat,
        }
    }
}

/// What every state of a phase satisfies: no more done than the total, the
/// next line due on a whole decile above what was last reported, and never
/// past 100% while the phase is unfinished.
pub open spec fn line_state_ok(s: LineModel) -> bool {
    &&& s.done <= s.total
    &&& s.total <= 0xffff_ffff_ffff_ffff
    &&& s.next_percent % 10 == 0
    &&& 10 <= s.next_percent <= 110
    &&& s.done < s.total ==> s.next_percent <= 100
    &&& s.total > 0 ==> s.done * 100 / s.total < s.next_percent
}

/// A report line: `PHASE PERCENT% (DONE/TOTAL)`.
pub open spec fn report_line(phase: Phase, percent: nat, done: nat, total: nat) -> Seq<char> {
    phase_label(phase) + " "@ + decimal(percent) + "% ("@ + decimal(done) + "/"@ + decimal(total)
        + ")"@
}

/// One step of the fallback: the new state, and the percentage to report if
/// this step reached the next decile due. A phase with no total reports
/// nothing.
pub open spec fn line_step(s: LineModel, units: nat) -> (LineModel, Option<nat>) {
    if s.total == 0 {
        (s, None)
    } else {
        let done = if s.done + units < s.total {
            s.done + units
        } else {
            s.total
        };
        let percent = done * 100 / s.total;
        if percent < s.next_percent {
            (LineModel { done, ..s }, None)
        } else {
            (LineModel { done, next_percent: (percent / 10 + 1) * 10, ..s }, Some(percent))
        }
    }
}

impl LineState {
    /// Begin a phase of `total` units; an unknown total reports nothing.
    pub fn start(total: Option<u64>) -> (s: LineState)
        ensures
            s@ == (LineModel {
                total: match total {
                    Some(t) => t as nat,
                    None => 0,
                },
                done: 0,
                next_percent: 10,
            }),
            line_state_ok(s@),
    {
        let total = match total {
            Some(t) => t,
            None => 0,
        };
        LineState { total, done: 0, next_percent: LINE_STEP_PERCENT }
    }

    /// Absorb `units` of progress, and return the line to print if this
    /// crossed a decile.
    pub fn advance(&mut self, phase: Phase, units: u64) -> (r: Option<String>)
        requires
            line_state_ok(old(self)@),
        ensures
            line_state_ok(final(self)@),
            final(self)@ == line_step(old(self)@, units as nat).0,
            match line_step(old(self)@, units as nat).1 {
                Some(p) => r matches Some(line) && line@ == report_line(
                    phase,
                    p,
                    final(self)@.done,
                    final(self)@.total,
                ),
                None => r is None,
            },
    {
        if self.total == 0 {
            return None;
        }
        let done = if units < self.total - self.done {
            self.done + units
        } else {
            self.total
        };
        self.done = done;
        let wide: u128 = done as u128 * 100 / self.total as u128;
        assert(wide <= 100) by (nonlinear_arith)
            requires
                wide == (done as int * 100) / (self.total as int),
                done <= self.total,
                self.total > 0,
        ;
        let percent = wide as u64;
        if percent < self.next_percent {
            return None;
        }
        self.next_percent = (percent / LINE_STEP_PERCENT + 1) * LINE_STEP_PERCENT;
        proof {
            if done < self.total {
                assert(done * 100 < self.total * 100) by (nonlinear_arith)
                    requires
                        done < self.total,
                ;
                assert(percent < 100) by (nonlinear_arith)
                    requires
                        percent == (done as int * 100) / (self.total as int),
                        done * 100 < self.total * 100,
                        self.total > 0,
                ;
            }
        }
        let mut line = string_from(phase.label());
        push_str(&mut line, " ");
        push_decimal(&mut line, percent);
        push_str(&mut line, "% (");
        push_decimal(&mut line, done);
        push_str(&mut line, "/");
        push_decimal(&mut line, self.total);
        push_str(&mut line, ")");
        Some(line)
    }
}

/// The line fallback always ends at a hundred percent: the step that
/// completes an unfinished phase reports `100% (TOTAL/TOTAL)`.
pub proof fn law_the_finishing_step_reports_a_hundred_percent(s: LineModel, units: nat)
    requires
        line_state_ok(s),
        s.done < s.total,
        s.done + units >= s.total,
    ensures
        line_step(s, units).1 == Some(100nat),
        line_step(s, units).0.done == s.total,
{
    assert(s.total * 100 / s.total == 100) by (nonlinear_arith)
        requires
            s.total > 0,
    ;
}

/// Lines come once per decile: a reported percentage is at least the decile
/// that was due, and the next one due lies strictly above it. An unfinished
/// step never reports past 100%, and a phase of unknown length never reports.
pub proof fn law_one_line_per_decile(s: LineModel, units: nat)
    requires
        line_state_ok(s),
    ensures
        line_step(s, units).1 matches Some(p) ==> s.next_percent <= p <= 100 && p
            < line_step(s, units).0.next_percent,
        s.total == 0 ==> line_step(s, units).1 is None,
        line_state_ok(line_step(s, units).0),
{
    if s.total > 0 {
        let done = if s.done + units < s.total {
            s.done + units
        } else {
            s.total
        };
        let percent = done * 100 / s.total;
        assert(percent <= 100) by (nonlinear_arith)
            requires
                percent == done * 100 / s.total,
                done <= s.total,
                s.total > 0,
        ;
        if done < s.total {
            assert(percent < 100) by (nonlinear_arith)
                requires
                    percent == done * 100 / s.total,
                    done < s.total,
                    s.total > 0,
            ;
        }
    }
}

/// What a phase-start line says.
pub open spec fn start_text(phase: Phase, total: Option<u64>) -> Seq<char> {
    match total {
        Some(t) => phase_label(phase) + " "@ + decimal(t as nat) + " frames"@,
        None => phase_label(phase),
    }
}

/// What a phase-start line says.
pub fn start_line(phase: Phase, total: Option<u64>) -> (s: String)
    ensures
        s@ == start_text(phase, total),
{
    let mut s = string_from(phase.label());
    match total {
        Some(t) => {
            push_str(&mut s, " ");
            push_decimal(&mut s, t);
            push_str(&mut s, " frames");
        },
        None => {},
    }
    s
}

pub open spec fn announce_text(kind: AdapterKind, name: Seq<char>) -> Seq<char> {
    match kind {
        AdapterKind::Hardware => "rendering on "@ + name + " — hardware GPU"@,
        AdapterKind::Software => "rendering on "@ + name + " — software rasterizer, no GPU"@,
    }
}

/// The one line that says who is doing the drawing.
pub fn announce(kind: AdapterKind, name: &str) -> (s: String)
    ensures
        s@ == announce_text(kind, name@),
{
    let mut s = string_from("rendering on ");
    push_str(&mut s, name);
    match kind {
        AdapterKind::Hardware => push_str(&mut s, " — hardware GPU"),
        AdapterKind::Software => push_str(&mut s, " — software rasterizer, no GPU"),
    }
    s
}

} // verus!
