//! What the controls that every page shows do when they are used.

pub mod clear_cart;
pub mod navbar;
