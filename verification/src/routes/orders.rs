//! Request, response and listing shapes of the order endpoints.

use vstd::prelude::*;

verus! {

/// A request to create an order; the total is carried as a decimal string
/// that the boundary parses.
#[derive(Debug, Clone)]
pub struct CreateOrderRequest {
    pub mid: i32,
    pub orderid: String,
    pub cartid: String,
    pub customer: i32,
    pub pool: String,
    pub total: String,
}

/// One order as returned by the API, its total rendered as a decimal string.
#[derive(Debug, Clone)]
pub struct OrderResponse {
    pub id: i32,
    pub mid: i32,
    pub orderid: String,
    pub cartid: String,
    pub customer: i32,
    pub pool: String,
    pub total: String,
    pub created_gmt: i32,
    pub paid_gmt: Option<i32>,
    pub shipped_gmt: Option<i32>,
}

/// Paging parameters of the order listing.
#[derive(Debug, Clone, Copy, PartialEq, Eq)]
pub struct ListQuery {
    pub mid: i32,
    pub limit: u64,
    pub offset: u64,
}

/// The page size used when a listing request names none.
pub fn default_limit() -> (r: u64)
    ensures
        r == 20,
{
    20
}

} // verus!
