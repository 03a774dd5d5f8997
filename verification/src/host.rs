//! What the host application builds on: the plugin manager and the values
//! it reports.

pub mod commands;
pub mod logging;
pub mod plugin_manager;
pub mod types;
