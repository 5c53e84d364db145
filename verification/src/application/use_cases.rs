//! The services, one module for each.

pub mod brawlers;
pub mod crew_operation;
pub mod mission_operation;
pub mod mission_viewing;
