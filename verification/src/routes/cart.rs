//! Request and response shapes of the cart endpoints, and the mapping from a
//! cart to its response.

use vstd::prelude::*;
use crate::cart::{prices_wf, quantity_total, spec_subtotal, subtotal_fits, Cart, CartItem};
use crate::money::Money;

verus! {

/// A request to add a line: the wire form carries the unit price as a decimal
/// string, which the boundary parses before it reaches the cart.
#[derive(Debug, Clone)]
pub struct AddItemRequest {
    pub sku: String,
    pub product_name: String,
    pub quantity: i32,
    pub unit_price: String,
}

/// A request to set a line's quantity.
#[derive(Debug, Clone, Copy, PartialEq, Eq)]
pub struct UpdateQuantityRequest {
    pub quantity: i32,
}

/// A snapshot of one cart for a response: its lines and both aggregates.
#[derive(Debug, Clone)]
pub struct CartResponse {
    pub cart_id: String,
    pub items: Vec<CartItem>,
    pub subtotal: Money,
    pub item_count: i32,
}

impl CartResponse {
    /// The response snapshot of `cart`: the same identifier and lines, with
    /// the aggregates computed from them.
    pub fn from_cart(cart: &Cart) -> (r: CartResponse)
        requires
            prices_wf(cart.items@),
            subtotal_fits(cart.items@),
            i32::MIN <= quantity_total(cart.items@) <= i32::MAX,
        ensures
            r.cart_id == cart.cart_id,
            r.items@ == cart.items@,
            r.subtotal == spec_subtotal(cart.items@),
            r.item_count as int == quantity_total(cart.items@),
    {
        let items = cart.items.clone();
        proof {
            assert forall|i: int| 0 <= i < cart.items@.len() implies items@[i]
                == cart.items@[i] by {
                assert(vstd::pervasive::cloned::<CartItem>(cart.items@[i], items@[i]));
            }
            assert(items@ =~= cart.items@);
        }
        CartResponse {
            cart_id: cart.cart_id.clone(),
            items,
            subtotal: cart.subtotal(),
            item_count: cart.item_count(),
        }
    }
}

} // verus!
