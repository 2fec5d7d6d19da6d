//! What the command line says: the progress lines, the probe report, the
//! render summary, and the preset listing, as text built from plain values.

pub mod args;
pub mod presets;
pub mod probe;
pub mod progress;
pub mod render;
