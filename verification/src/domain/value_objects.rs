//! Values that carry no identity of their own.

pub mod base64_image;
pub mod errors;
pub mod mission_brawler_model;
pub mod mission_filter;
pub mod mission_model;
pub mod mission_statuses;
pub mod uploaded_image;
