//! The rules of missions and crews: rows, value objects and the stores that hold them.

pub mod board;
pub mod capacity_guard;
pub mod entities;
pub mod laws;
pub mod lifecycle;
pub mod stores;
pub mod value_objects;
