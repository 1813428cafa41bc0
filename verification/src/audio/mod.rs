//! Audio: bus names and validated audio clips.

pub mod bus;
pub mod clip;
