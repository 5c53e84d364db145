//! What stands between the board and the outside: tokens and request headers.

pub mod http;
pub mod jwt;
