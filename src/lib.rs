//! Conversion between UTC calendar values and a uniform epoch-based instant,
//! with the historical leap seconds taken into account.

pub mod instant;
pub mod render;
pub mod utc;
