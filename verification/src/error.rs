//! Everything the library can fail with.
//!
//! Each variant stays classifiable as "the user's arguments", "the user's input
//! file", or "the pipeline broke", which is what the exit code is chosen by.

use vstd::prelude::*;
use crate::text::{push_str, string_from};

verus! {

/// Everything avz can fail with.
#[derive(Debug, Clone, PartialEq, Eq)]
pub enum Error {
    /// A command or code path that is planned but not yet built.
    NotImplemented {
        /// The user-facing command name, e.g. `render`.
        command: &'static str,
    },
    /// Bad configuration: unknown keys, out-of-range values, conflicting flags.
    Config(String),
    /// The input file is missing, unreadable, or not the format we expected.
    Input(String),
    /// Analysis of decoded audio failed.
    Analysis(String),
    /// GPU adapter selection, shader compilation, or frame readback failed.
    Render(String),
    /// The ffmpeg subprocess is missing, died, or rejected our stream.
    Encode(String),
}

/// What an error says when it is printed.
pub open spec fn error_message(e: Error) -> Seq<char> {
    match e {
        Error::NotImplemented { command } => "`avz "@ + command@ + "` is not implemented yet"@,
        Error::Config(m) => "invalid configuration: "@ + m@,
        Error::Input(m) => "input problem: "@ + m@,
        Error::Analysis(m) => "analysis failed: "@ + m@,
        Error::Render(m) => "render failed: "@ + m@,
        Error::Encode(m) => "encode failed: "@ + m@,
    }
}

impl Error {
    /// The error as the user reads it.
    pub fn to_string(&self) -> (s: String)
        ensures
            s@ == error_message(*self),
    {
        let mut s;
        match self {
            Error::NotImplemented { command } => {
                s = string_from("`avz ");
                push_str(&mut s, command);
                push_str(&mut s, "` is not implemented yet");
            },
            Error::Config(m) => {
                s = string_from("invalid configuration: ");
                push_str(&mut s, m.as_str());
            },
            Error::Input(m) => {
                s = string_from("input problem: ");
                push_str(&mut s, m.as_str());
            },
            Error::Analysis(m) => {
                s = string_from("analysis failed: ");
                push_str(&mut s, m.as_str());
            },
            Error::Render(m) => {
                s = string_from("render failed: ");
                push_str(&mut s, m.as_str());
            },
            Error::Encode(m) => {
                s = string_from("encode failed: ");
                push_str(&mut s, m.as_str());
            },
        }
        s
    }
}

} // verus!
