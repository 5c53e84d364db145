//! Checks that every protected request passes first.

pub mod auth;
