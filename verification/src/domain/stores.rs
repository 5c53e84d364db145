//! The two durable records: missions, and who crews them.

pub mod crew_store;
pub mod mission_store;
