//! Core engine services: the event bus, the main loop's decisions and the
//! crash report.

pub mod crash;
pub mod event;
pub mod main_loop;
