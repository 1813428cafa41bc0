//! Veltrix: the verified core of a modular 2D game engine.
//!
//! This crate holds the engine's data structures and decision logic, each with a
//! proved contract: the sparse-set component storage, entity ids,
//! typed asset handles, keyed resource and asset stores, the event bus, input
//! edge tracking and the helpers around them.

pub mod engine_core;
pub mod animation;
pub mod assets;
pub mod audio;
pub mod ecs;
pub mod erased;
pub mod input;
pub mod math;
pub mod physics;
pub mod platform;
