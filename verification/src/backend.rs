//! Data of the menu and the table of routes.

pub mod cart;
pub mod decimal;
pub mod route;
pub mod text;
