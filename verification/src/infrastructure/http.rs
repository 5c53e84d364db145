//! What is read from a request before it reaches a service.

pub mod middleware;
