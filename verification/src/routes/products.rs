//! Request, response and listing shapes of the product endpoints.

use vstd::prelude::*;

verus! {

/// A request to create a product; prices are carried as decimal strings that
/// the boundary parses.
#[derive(Debug, Clone)]
pub struct CreateProductRequest {
    pub mid: i32,
    pub merchant: String,
    pub product_id: String,
    pub product_name: String,
    pub category: String,
    pub base_price: String,
    pub base_cost: String,
}

/// One product as returned by the API, its prices rendered as decimal
/// strings.
#[derive(Debug, Clone)]
pub struct ProductResponse {
    pub id: i32,
    pub mid: i32,
    pub merchant: String,
    pub product: String,
    pub ts: i32,
    pub product_name: String,
    pub category: String,
    pub base_price: String,
    pub base_cost: String,
    pub supplier: String,
    pub supplier_id: String,
    pub upc: String,
    pub created_gmt: i32,
    pub lastsold_gmt: Option<i32>,
}

/// Paging parameters of the product listing.
#[derive(Debug, Clone, Copy, PartialEq, Eq)]
pub struct ListQuery {
    pub mid: i32,
    pub limit: u64,
    pub offset: u64,
}

/// The page size used when a listing request names none.
pub fn default_limit() -> (r: u64)
    ensures
        r == 20,
{
    20
}

} // verus!
