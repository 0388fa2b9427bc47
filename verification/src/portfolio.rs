//! The tiles of the portfolio page.

pub mod budget;
pub mod currency;
pub mod tile;
