//! Plugin architecture for interchangeable compression backends: the
//! capability traits, the lifecycle wrapper, the registry, the loader's
//! discovery rules, the built-in adapters and the commands of the host.
//!
//! The library computes on values: files are held in an in-memory tree
//! that the host fills from disk and writes back.

pub mod host;
pub mod plugin_api;
pub mod plugins;
