//! avz: an abstract music video generator.
//!
//! The verified core of the tool: configuration values and their parsers, the
//! precedence chain that merges configuration layers, the ffmpeg argument
//! vector, the integer arithmetic of frame timing, and the text every command
//! prints. Everything that touches a file, a process, a terminal, or a float
//! lives in the thin program around it.

pub mod analysis;
pub mod cli;
pub mod config;
pub mod encode;
pub mod error;
pub mod exit;
pub mod meta;
pub mod pipeline;
pub mod progress;
pub mod registry;
pub mod text;

use vstd::prelude::*;

verus! {

} // verus!
