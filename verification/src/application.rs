//! What a caller can ask of the board.

pub mod use_cases;
