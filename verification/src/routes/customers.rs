//! Request, response and listing shapes of the customer endpoints.

use vstd::prelude::*;

verus! {

/// A request to create a customer; the password is optional.
#[derive(Debug, Clone)]
pub struct CreateCustomerRequest {
    pub mid: i32,
    pub email: String,
    pub firstname: String,
    pub lastname: String,
    pub password: Option<String>,
}

/// One customer as returned by the API; password material never leaves.
#[derive(Debug, Clone)]
pub struct CustomerResponse {
    pub cid: i32,
    pub mid: i32,
    pub email: String,
    pub firstname: String,
    pub lastname: String,
    pub created_gmt: i32,
    pub modified_gmt: i32,
}

/// Paging parameters of the customer listing.
#[derive(Debug, Clone, Copy, PartialEq, Eq)]
pub struct ListQuery {
    pub mid: i32,
    pub limit: u64,
    pub offset: u64,
}

/// The page size used when a listing request names none.
pub fn default_limit() -> (r: u64)
    ensures
        r == 20,
{
    20
}

} // verus!
