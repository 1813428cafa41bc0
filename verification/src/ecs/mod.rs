//! ECS building blocks: entity ids and sparse-set component storage.

pub mod commands;
pub mod entity;
pub mod resources;
pub mod storage;
pub mod system;
pub mod world;
