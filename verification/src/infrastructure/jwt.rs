//! Tokens that say who an actor is.

pub mod jwt_model;
