//! State that every page shares.

pub mod cart_store;
