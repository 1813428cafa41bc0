//! Physics: collision events gathered during a physics step.

pub mod collision;
