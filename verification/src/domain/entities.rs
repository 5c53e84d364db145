//! Rows of the two stores, and the read model of a brawler.

pub mod brawler_view;
pub mod crew_memberships;
pub mod missions;
