//! Platform helpers: per-application directories.

pub mod filesystem;
