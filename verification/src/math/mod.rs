//! Math helpers on integers.

pub mod utils;
