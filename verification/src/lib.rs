//! In-memory shopping-cart domain: exact decimal money, cart line items with
//! merge-on-add semantics, a store of carts keyed by identifier, and the
//! plain request and response shapes of the HTTP surface around it.

pub mod address;
pub mod auth;
pub mod cart;
pub mod laws;
pub mod money;
pub mod routes;
pub mod store;
