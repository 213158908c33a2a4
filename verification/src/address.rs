//! A customer's postal address, as plain fields.

use vstd::prelude::*;

verus! {

/// One address on file for a customer of a merchant.
#[derive(Debug, Clone)]
pub struct CustomerAddress {
    pub id: i32,
    pub cid: i32,
    pub mid: i32,
    pub label: String,
    pub firstname: String,
    pub lastname: String,
    pub company: String,
    pub address1: String,
    pub address2: String,
    pub city: String,
    pub state: String,
    pub zip: String,
    pub country: String,
    pub phone: String,
}

} // verus!
