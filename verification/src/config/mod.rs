//! Configuration: the typed values, the layers they arrive in, and the
//! precedence chain that merges the layers into one validated [`Config`].

pub mod params;
pub mod resolve;
pub mod set;
pub mod suggest;
pub mod example;
pub mod file;
pub mod layer;
pub mod number;
pub mod value;
