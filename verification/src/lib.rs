//! Mission and crew coordination with machine-checked rules.
//!
//! The crate keeps a record of missions and of the crew that joined them.
//! Three guarantees are proved of every operation it offers: a mission never
//! holds more crew than the configured capacity, a mission's status only moves
//! along the legal edges of its lifecycle, and only the owner of a mission can
//! move it.

pub mod application;
pub mod config;
pub mod decimal;
pub mod domain;
pub mod infrastructure;
