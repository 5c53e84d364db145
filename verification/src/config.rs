//! What the process is started with.

pub mod config_loader;
pub mod config_model;
pub mod stage;
