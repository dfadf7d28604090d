//! The ordering state of a restaurant menu front end: the cart that collects
//! order lines, the table of routes, and the handlers that change the cart
//! and move between routes.

pub mod backend;
pub mod components;
pub mod navigation;
pub mod pages;
pub mod stores;
