//! The capability model: what every plugin offers, and the data it exchanges
//! with the host.

pub mod base;
pub mod compression;
pub mod files;
pub mod paths;
pub mod platform;
pub mod types;
