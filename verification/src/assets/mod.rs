//! Assets: typed handles, the keyed asset cache and the asset server.

pub mod cache;
pub mod handle;
pub mod server;
