//! Laws of the cart model: what sequences of additions amount to, how a
//! repeated sku merges, and what holds of an emptied cart.

use vstd::prelude::*;
use crate::cart::{
    has_sku, items_val, quantity_total, skus_unique, spec_add_item, spec_remove_item,
    spec_subtotal, spec_update_quantity, subtotal_fits, lemma_sku_index, CartItem,
};
use crate::money::Money;

verus! {

/// The lines after a batch of additions, applied first to last.
pub open spec fn apply_adds(items: Seq<CartItem>, calls: Seq<CartItem>) -> Seq<CartItem>
    decreases calls.len(),
{
    if calls.len() == 0 {
        items
    } else {
        spec_add_item(apply_adds(items, calls.drop_last()), calls.last())
    }
}

/// Additions under distinct skus, none already present, simply append: the
/// number of lines grows by the number of calls and the total quantity by the
/// sum of the quantities given, with nothing merged and nothing lost.
pub proof fn lemma_distinct_adds(items: Seq<CartItem>, calls: Seq<CartItem>)
    requires
        skus_unique(calls),
        forall|k: int| 0 <= k < calls.len() ==> !has_sku(items, (#[trigger] calls[k]).sku@),
    ensures
        apply_adds(items, calls) == items + calls,
        quantity_total(apply_adds(items, calls)) == quantity_total(items) + quantity_total(calls),
        apply_adds(items, calls).len() == items.len() + calls.len(),
    decreases calls.len(),
{
    if calls.len() == 0 {
        assert(items + calls =~= items);
    } else {
        let prior = calls.drop_last();
        let c = calls.last();
        assert forall|k: int| 0 <= k < prior.len() implies !has_sku(
            items,
            (#[trigger] prior[k]).sku@,
        ) by {
            assert(prior[k] == calls[k]);
        }
        lemma_distinct_adds(items, prior);
        let mid = apply_adds(items, prior);
        assert(!has_sku(mid, c.sku@)) by {
            if has_sku(mid, c.sku@) {
                let i = choose|i: int| 0 <= i < mid.len() && mid[i].sku@ == c.sku@;
                if i < items.len() {
                    assert(items[i] == mid[i]);
                    assert(!has_sku(items, calls[calls.len() - 1].sku@));
                } else {
                    assert(mid[i] == prior[i - items.len()]);
                    assert(calls[i - items.len()].sku@ != calls[calls.len() - 1].sku@);
                }
            }
        }
        assert(apply_adds(items, calls) == mid.push(c));
        assert(mid.push(c) =~= items + calls);
        assert((mid.push(c)).drop_last() =~= mid);
        assert((items + calls).drop_last() =~= mid);
        assert(quantity_total(calls) == quantity_total(prior) + c.quantity);
    }
}

/// From an empty cart, additions under distinct skus yield exactly those
/// lines: as many lines as skus, holding in total the sum of the quantities
/// given.
pub proof fn lemma_distinct_adds_from_empty(calls: Seq<CartItem>)
    requires
        skus_unique(calls),
    ensures
        apply_adds(Seq::<CartItem>::empty(), calls) == calls,
        quantity_total(apply_adds(Seq::<CartItem>::empty(), calls)) == quantity_total(calls),
        apply_adds(Seq::<CartItem>::empty(), calls).len() == calls.len(),
{
    lemma_distinct_adds(Seq::<CartItem>::empty(), calls);
    assert(Seq::<CartItem>::empty() + calls =~= calls);
}

/// Adding the same sku twice yields one line holding the summed quantity and
/// the name and price of the first addition, whatever the second one carried.
pub proof fn lemma_same_sku_merges(items: Seq<CartItem>, first: CartItem, second: CartItem)
    requires
        !has_sku(items, first.sku@),
        second.sku@ == first.sku@,
    ensures
        spec_add_item(spec_add_item(items, first), second) == items.push(
            (CartItem {
                sku: first.sku,
                product_name: first.product_name,
                quantity: (first.quantity + second.quantity) as i32,
                unit_price: first.unit_price,
            }),
        ),
{
    let mid = spec_add_item(items, first);
    assert(mid == items.push(first));
    let n = items.len() as int;
    lemma_sku_index(mid, second.sku@);
    assert(mid[n].sku@ == second.sku@);
    assert(has_sku(mid, second.sku@));
    let k = crate::cart::sku_index(mid, second.sku@);
    assert(k == n) by {
        if k < n {
            assert(mid[k] == items[k]);
            assert(!has_sku(items, first.sku@));
        }
    }
    let merged = CartItem {
        sku: mid[n].sku,
        product_name: mid[n].product_name,
        quantity: (mid[n].quantity + second.quantity) as i32,
        unit_price: mid[n].unit_price,
    };
    assert(spec_add_item(mid, second) == mid.update(n, merged));
    assert(mid.update(n, merged) =~= items.push(
        (CartItem {
            sku: first.sku,
            product_name: first.product_name,
            quantity: (first.quantity + second.quantity) as i32,
            unit_price: first.unit_price,
        }),
    ));
}

/// A quantity update to zero or below is exactly a removal.
pub proof fn lemma_nonpositive_update_removes(
    items: Seq<CartItem>,
    sku: Seq<char>,
    quantity: i32,
)
    requires
        quantity <= 0,
    ensures
        spec_update_quantity(items, sku, quantity) == spec_remove_item(items, sku),
{
}

/// A cart without lines is empty and its aggregates are zero: no quantity, a
/// subtotal of exactly zero, and nothing left to overflow.
pub proof fn lemma_empty_cart_aggregates(items: Seq<CartItem>)
    requires
        items.len() == 0,
    ensures
        quantity_total(items) == 0,
        items_val(items) == 0,
        spec_subtotal(items) == Money::spec_zero(),
        subtotal_fits(items),
{
}

} // verus!
