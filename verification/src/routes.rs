//! The request and response shapes of the HTTP surface, as plain values.

pub mod cart;
pub mod customers;
pub mod orders;
pub mod products;
