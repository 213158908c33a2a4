//! A shopping cart: an identifier plus an ordered list of line items, with
//! merge-on-add, quantity updates that drop non-positive quantities, and exact
//! decimal aggregates.

use vstd::prelude::*;
use crate::money::{Money, MAX_MANTISSA};

verus! {

/// One line of a cart: a merchant sku with the quantity and the unit price
/// fixed when the line was first added.
#[derive(Debug, PartialEq)]
pub struct CartItem {
    pub sku: String,
    pub product_name: String,
    pub quantity: i32,
    pub unit_price: Money,
}

impl CartItem {
    /// A line item with the given fields.
    pub fn new(sku: String, product_name: String, quantity: i32, unit_price: Money) -> (r:
        CartItem)
        ensures
            r == (CartItem { sku, product_name, quantity, unit_price }),
    {
        CartItem { sku, product_name, quantity, unit_price }
    }

    /// The line's exact subtotal: its unit price times its quantity.
    pub fn subtotal(&self) -> (r: Money)
        requires
            self.unit_price.wf(),
            -(MAX_MANTISSA as int) <= self.unit_price.mantissa * self.quantity <= MAX_MANTISSA
                as int,
        ensures
            r == line_subtotal(*self),
            r.wf(),
            r.val() == self.unit_price.val() * self.quantity,
    {
        self.unit_price.mul_i32(self.quantity)
    }
}

impl Clone for CartItem {
    /// An equal line item.
    fn clone(&self) -> (r: CartItem)
        ensures
            r == *self,
    {
        CartItem {
            sku: self.sku.clone(),
            product_name: self.product_name.clone(),
            quantity: self.quantity,
            unit_price: self.unit_price,
        }
    }
}

/// Whether some line of `items` carries the sku `sku`.
pub open spec fn has_sku(items: Seq<CartItem>, sku: Seq<char>) -> bool {
    exists|i: int| 0 <= i < items.len() && items[i].sku@ == sku
}

/// The index of the first line carrying `sku`, or `items.len()` when none does.
pub open spec fn sku_index(items: Seq<CartItem>, sku: Seq<char>) -> int
    decreases items.len(),
{
    if items.len() == 0 {
        0
    } else if items[0].sku@ == sku {
        0
    } else {
        1 + sku_index(items.drop_first(), sku)
    }
}

/// What `sku_index` finds: an in-range index exactly when the sku occurs, the
/// line there carries the sku, and no earlier line does.
pub proof fn lemma_sku_index(items: Seq<CartItem>, sku: Seq<char>)
    ensures
        0 <= sku_index(items, sku) <= items.len(),
        has_sku(items, sku) <==> sku_index(items, sku) < items.len(),
        sku_index(items, sku) < items.len() ==> items[sku_index(items, sku)].sku@ == sku,
        forall|j: int| 0 <= j < sku_index(items, sku) ==> items[j].sku@ != sku,
    decreases items.len(),
{
    if items.len() == 0 {
    } else if items[0].sku@ == sku {
    } else {
        let rest = items.drop_first();
        lemma_sku_index(rest, sku);
        assert forall|j: int| 0 <= j < sku_index(items, sku) implies items[j].sku@ != sku by {
            if j > 0 {
                assert(items[j] == rest[j - 1]);
            }
        }
        if has_sku(items, sku) {
            let i = choose|i: int| 0 <= i < items.len() && items[i].sku@ == sku;
            assert(rest[i - 1] == items[i]);
            assert(has_sku(rest, sku));
        }
        if has_sku(rest, sku) {
            let i = choose|i: int| 0 <= i < rest.len() && rest[i].sku@ == sku;
            assert(items[i + 1] == rest[i]);
            assert(has_sku(items, sku));
        }
    }
}

/// Whether every line carries a distinct sku.
pub open spec fn skus_unique(items: Seq<CartItem>) -> bool {
    forall|i: int, j: int|
        0 <= i < j < items.len() ==> items[i].sku@ != items[j].sku@
}

/// Whether every line's unit price is a valid amount.
pub open spec fn prices_wf(items: Seq<CartItem>) -> bool {
    forall|i: int| 0 <= i < items.len() ==> (#[trigger] items[i]).unit_price.wf()
}

/// Relies on `str`'s `PartialEq`: strings are equal exactly when their
/// character sequences are equal.
#[verifier::external_body]
pub(crate) fn str_eq(a: &String, b: &str) -> (r: bool)
    ensures
        r == (a@ == b@),
{
    a.as_str() == b
}

/// What adding a line does: merge the quantity into the first line with the
/// same sku, leaving its name and price as they were, or append the line.
pub open spec fn spec_add_item(items: Seq<CartItem>, call: CartItem) -> Seq<CartItem> {
    if has_sku(items, call.sku@) {
        let i = sku_index(items, call.sku@);
        items.update(
            i,
            CartItem {
                sku: items[i].sku,
                product_name: items[i].product_name,
                quantity: (items[i].quantity + call.quantity) as i32,
                unit_price: items[i].unit_price,
            },
        )
    } else {
        items.push(call)
    }
}

/// What removing a sku does: drop the first line carrying it, or nothing.
pub open spec fn spec_remove_item(items: Seq<CartItem>, sku: Seq<char>) -> Seq<CartItem> {
    if has_sku(items, sku) {
        items.remove(sku_index(items, sku))
    } else {
        items
    }
}

/// What a quantity update does: a non-positive quantity removes the line; a
/// positive one replaces the quantity of the first line carrying the sku.
pub open spec fn spec_update_quantity(items: Seq<CartItem>, sku: Seq<char>, quantity: i32) -> Seq<
    CartItem,
> {
    if quantity <= 0 {
        spec_remove_item(items, sku)
    } else if has_sku(items, sku) {
        let i = sku_index(items, sku);
        items.update(
            i,
            CartItem {
                sku: items[i].sku,
                product_name: items[i].product_name,
                quantity,
                unit_price: items[i].unit_price,
            },
        )
    } else {
        items
    }
}

/// The total quantity over all lines.
pub open spec fn quantity_total(items: Seq<CartItem>) -> int
    decreases items.len(),
{
    if items.len() == 0 {
        0
    } else {
        quantity_total(items.drop_last()) + items.last().quantity
    }
}

/// The exact sum over all lines of unit price times quantity, in units of
/// 10^-28.
pub open spec fn items_val(items: Seq<CartItem>) -> int
    decreases items.len(),
{
    if items.len() == 0 {
        0
    } else {
        items_val(items.drop_last()) + items.last().unit_price.val() * items.last().quantity
    }
}

/// The subtotal of one line: its unit price times its quantity, at the price's
/// scale.
pub open spec fn line_subtotal(it: CartItem) -> Money {
    Money { mantissa: (it.unit_price.mantissa * it.quantity) as i128, scale: it.unit_price.scale }
}

/// The cart subtotal: line subtotals summed left to right, starting from zero.
pub open spec fn spec_subtotal(items: Seq<CartItem>) -> Money
    decreases items.len(),
{
    if items.len() == 0 {
        Money::spec_zero()
    } else {
        let prev = spec_subtotal(items.drop_last());
        let line = line_subtotal(items.last());
        Money {
            mantissa: Money::sum_mantissa(prev, line) as i128,
            scale: Money::sum_scale(prev, line),
        }
    }
}

/// Whether the subtotal can be summed without leaving the valid mantissa
/// range: every line product and every running sum stays within 96 bits.
pub open spec fn subtotal_fits(items: Seq<CartItem>) -> bool
    decreases items.len(),
{
    if items.len() == 0 {
        true
    } else {
        let prev = spec_subtotal(items.drop_last());
        let last = items.last();
        &&& subtotal_fits(items.drop_last())
        &&& -(MAX_MANTISSA as int) <= last.unit_price.mantissa * last.quantity <= MAX_MANTISSA
            as int
        &&& -(MAX_MANTISSA as int) <= Money::sum_mantissa(prev, line_subtotal(last))
            <= MAX_MANTISSA as int
    }
}

/// A summable sequence of lines is summable over every prefix.
proof fn lemma_subtotal_fits_take(items: Seq<CartItem>, i: int)
    requires
        subtotal_fits(items),
        0 <= i <= items.len(),
    ensures
        subtotal_fits(items.take(i)),
    decreases items.len() - i,
{
    if i == items.len() {
        assert(items.take(i) =~= items);
    } else {
        lemma_subtotal_fits_take(items, i + 1);
        assert(items.take(i + 1).drop_last() =~= items.take(i));
    }
}

/// Replacing a line by one with the same sku keeps the skus distinct.
proof fn lemma_update_keeps_unique(items: Seq<CartItem>, i: int, it: CartItem)
    requires
        skus_unique(items),
        0 <= i < items.len(),
        it.sku@ == items[i].sku@,
    ensures
        skus_unique(items.update(i, it)),
{
    let new = items.update(i, it);
    assert forall|a: int, b: int| 0 <= a < b < new.len() implies new[a].sku@ != new[b].sku@ by {
        assert(items[a].sku@ != items[b].sku@);
    }
}

/// Appending a line with a sku that no line carries keeps the skus distinct.
proof fn lemma_push_fresh_unique(items: Seq<CartItem>, it: CartItem)
    requires
        skus_unique(items),
        !has_sku(items, it.sku@),
    ensures
        skus_unique(items.push(it)),
{
    let new = items.push(it);
    assert forall|a: int, b: int| 0 <= a < b < new.len() implies new[a].sku@ != new[b].sku@ by {
        if b < items.len() {
            assert(items[a].sku@ != items[b].sku@);
        } else {
            assert(new[b] == it);
            assert(items[a].sku@ != it.sku@);
        }
    }
}

/// Dropping a line keeps the skus distinct.
proof fn lemma_remove_keeps_unique(items: Seq<CartItem>, i: int)
    requires
        skus_unique(items),
        0 <= i < items.len(),
    ensures
        skus_unique(items.remove(i)),
{
    items.remove_ensures(i);
    let new = items.remove(i);
    assert forall|a: int, b: int| 0 <= a < b < new.len() implies new[a].sku@ != new[b].sku@ by {
        let oa = if a < i {
            a
        } else {
            a + 1
        };
        let ob = if b < i {
            b
        } else {
            b + 1
        };
        assert(new[a] == items[oa]);
        assert(new[b] == items[ob]);
        assert(items[oa].sku@ != items[ob].sku@);
    }
}

/// The index of the first line of `items` carrying `sku`, if any does.
fn find_index(items: &Vec<CartItem>, sku: &str) -> (r: Option<usize>)
    ensures
        r is Some <==> has_sku(items@, sku@),
        r is Some ==> r->Some_0 as int == sku_index(items@, sku@),
{
    proof {
        lemma_sku_index(items@, sku@);
    }
    let n = items.len();
    let mut i: usize = 0;
    while i < n
        invariant
            i <= n == items@.len(),
            forall|j: int| 0 <= j < i ==> items@[j].sku@ != sku@,
        decreases n - i,
    {
        if str_eq(&items[i].sku, sku) {
            proof {
                lemma_sku_index(items@, sku@);
                assert(items@[i as int].sku@ == sku@);
                let k = sku_index(items@, sku@);
                assert(k <= i);
                assert(i <= k);
            }
            return Some(i);
        }
        i = i + 1;
    }
    proof {
        lemma_sku_index(items@, sku@);
    }
    None
}

/// Relies on `uuid`'s `Uuid::new_v4` and its hyphenated `Display` form: a
/// fresh random identifier rendered as 36 characters.
#[verifier::external_body]
fn fresh_cart_id() -> (r: String)
    ensures
        r@.len() == 36,
{
    uuid::Uuid::new_v4().to_string()
}

/// A shopping cart: an immutable identifier and the ordered line items,
/// first-added first.
#[derive(Debug, Clone)]
pub struct Cart {
    pub cart_id: String,
    pub items: Vec<CartItem>,
}

impl Cart {
    /// An empty cart under a freshly generated random identifier.
    pub fn new() -> (c: Cart)
        ensures
            c.items@ =~= Seq::<CartItem>::empty(),
            c.cart_id@.len() == 36,
    {
        Cart { cart_id: fresh_cart_id(), items: Vec::new() }
    }

    /// An empty cart under the given identifier, taken verbatim.
    pub fn with_id(cart_id: String) -> (c: Cart)
        ensures
            c.items@ =~= Seq::<CartItem>::empty(),
            c.cart_id == cart_id,
    {
        Cart { cart_id, items: Vec::new() }
    }

    /// Add a line. A line with the same sku absorbs the quantity and keeps its
    /// stored name and price; otherwise the new line is appended as given,
    /// with no check of the quantity or the price.
    pub fn add_item(&mut self, sku: String, product_name: String, quantity: i32, unit_price: Money)
        requires
            has_sku(old(self).items@, sku@) ==> i32::MIN <= old(self).items@[sku_index(
                old(self).items@,
                sku@,
            )].quantity + quantity <= i32::MAX,
        ensures
            final(self).cart_id == old(self).cart_id,
            final(self).items@ == spec_add_item(
                old(self).items@,
                (CartItem { sku, product_name, quantity, unit_price }),
            ),
            skus_unique(old(self).items@) ==> skus_unique(final(self).items@),
            prices_wf(old(self).items@) && unit_price.wf() ==> prices_wf(final(self).items@),
    {
        proof {
            lemma_sku_index(self.items@, sku@);
        }
        let found = find_index(&self.items, sku.as_str());
        match found {
            Some(i) => {
                let ghost old_items = self.items@;
                let it = &mut self.items[i];
                it.quantity = it.quantity + quantity;
                proof {
                    if skus_unique(old_items) {
                        lemma_update_keeps_unique(
                            old_items,
                            i as int,
                            self.items@[i as int],
                        );
                    }
                    if prices_wf(old_items) && unit_price.wf() {
                        assert forall|k: int|
                            0 <= k < self.items@.len() implies (
                        #[trigger] self.items@[k]).unit_price.wf() by {
                            assert(old_items[k].unit_price.wf());
                        }
                    }
                }
            },
            None => {
                let ghost old_items = self.items@;
                let ghost call = CartItem { sku, product_name, quantity, unit_price };
                self.items.push(CartItem::new(sku, product_name, quantity, unit_price));
                proof {
                    if skus_unique(old_items) {
                        lemma_push_fresh_unique(old_items, call);
                    }
                    if prices_wf(old_items) && unit_price.wf() {
                        assert forall|k: int|
                            0 <= k < self.items@.len() implies (
                        #[trigger] self.items@[k]).unit_price.wf() by {
                            if k < old_items.len() {
                                assert(old_items[k].unit_price.wf());
                            }
                        }
                    }
                }
            },
        }
    }

    /// Remove the line carrying `sku`; report whether one was there. A missing
    /// sku is an ordinary outcome and leaves the cart untouched.
    pub fn remove_item(&mut self, sku: &str) -> (removed: bool)
        ensures
            removed == has_sku(old(self).items@, sku@),
            final(self).cart_id == old(self).cart_id,
            final(self).items@ == spec_remove_item(old(self).items@, sku@),
            !has_sku(old(self).items@, sku@) ==> *final(self) == *old(self),
            skus_unique(old(self).items@) ==> skus_unique(final(self).items@),
            prices_wf(old(self).items@) ==> prices_wf(final(self).items@),
    {
        proof {
            lemma_sku_index(self.items@, sku@);
        }
        let found = find_index(&self.items, sku);
        match found {
            Some(i) => {
                let ghost old_items = self.items@;
                self.items.remove(i);
                proof {
                    old_items.remove_ensures(i as int);
                    if skus_unique(old_items) {
                        lemma_remove_keeps_unique(old_items, i as int);
                    }
                    if prices_wf(old_items) {
                        assert forall|k: int|
                            0 <= k < self.items@.len() implies (
                        #[trigger] self.items@[k]).unit_price.wf() by {
                            if k < i {
                                assert(old_items[k].unit_price.wf());
                            } else {
                                assert(self.items@[k] == old_items[k + 1]);
                                assert(old_items[k + 1].unit_price.wf());
                            }
                        }
                    }
                }
                true
            },
            None => false,
        }
    }

    /// Set the quantity of the line carrying `sku`. A non-positive quantity
    /// removes the line instead, reporting what `remove_item` would; a
    /// positive one reports whether the line was there.
    pub fn update_quantity(&mut self, sku: &str, new_quantity: i32) -> (updated: bool)
        ensures
            updated == has_sku(old(self).items@, sku@),
            final(self).cart_id == old(self).cart_id,
            final(self).items@ == spec_update_quantity(old(self).items@, sku@, new_quantity),
            skus_unique(old(self).items@) ==> skus_unique(final(self).items@),
            prices_wf(old(self).items@) ==> prices_wf(final(self).items@),
    {
        if new_quantity <= 0 {
            return self.remove_item(sku);
        }
        proof {
            lemma_sku_index(self.items@, sku@);
        }
        let found = find_index(&self.items, sku);
        match found {
            Some(i) => {
                let ghost old_items = self.items@;
                let it = &mut self.items[i];
                it.quantity = new_quantity;
                proof {
                    if skus_unique(old_items) {
                        lemma_update_keeps_unique(
                            old_items,
                            i as int,
                            self.items@[i as int],
                        );
                    }
                    if prices_wf(old_items) {
                        assert forall|k: int|
                            0 <= k < self.items@.len() implies (
                        #[trigger] self.items@[k]).unit_price.wf() by {
                            assert(old_items[k].unit_price.wf());
                        }
                    }
                }
                true
            },
            None => false,
        }
    }

    /// The line carrying `sku`, if any, with no side effect.
    pub fn get_item(&self, sku: &str) -> (r: Option<&CartItem>)
        ensures
            r is Some <==> has_sku(self.items@, sku@),
            r is Some ==> *r->Some_0 == self.items@[sku_index(self.items@, sku@)],
    {
        proof {
            lemma_sku_index(self.items@, sku@);
        }
        let found = find_index(&self.items, sku);
        match found {
            Some(i) => Some(&self.items[i]),
            None => None,
        }
    }

    /// The exact decimal sum of unit price times quantity over all lines;
    /// exactly zero for an empty cart.
    pub fn subtotal(&self) -> (total: Money)
        requires
            prices_wf(self.items@),
            subtotal_fits(self.items@),
        ensures
            total == spec_subtotal(self.items@),
            total.wf(),
            total.val() == items_val(self.items@),
            self.items@.len() == 0 ==> total == Money::spec_zero(),
    {
        let ghost items = self.items@;
        let mut total = Money::zero();
        let n = self.items.len();
        let mut i: usize = 0;
        while i < n
            invariant
                i <= n == items.len(),
                self.items@ == items,
                prices_wf(items),
                subtotal_fits(items),
                total == spec_subtotal(items.take(i as int)),
                total.wf(),
                total.val() == items_val(items.take(i as int)),
            decreases n - i,
        {
            proof {
                lemma_subtotal_fits_take(items, i + 1);
                assert(items.take(i + 1).drop_last() =~= items.take(i as int));
                assert(items.take(i + 1).last() == items[i as int]);
            }
            let line = self.items[i].subtotal();
            total = total.add(&line);
            i = i + 1;
        }
        proof {
            assert(items.take(n as int) =~= items);
        }
        total
    }

    /// The total quantity over all lines; zero for an empty cart.
    pub fn item_count(&self) -> (count: i32)
        requires
            i32::MIN <= quantity_total(self.items@) <= i32::MAX,
        ensures
            count as int == quantity_total(self.items@),
    {
        let ghost items = self.items@;
        let mut acc: i128 = 0;
        let n = self.items.len();
        let mut i: usize = 0;
        while i < n
            invariant
                i <= n == items.len(),
                self.items@ == items,
                acc as int == quantity_total(items.take(i as int)),
                -((i as int) * 2147483648) <= acc as int <= (i as int) * 2147483648,
            decreases n - i,
        {
            proof {
                assert(items.take(i + 1).drop_last() =~= items.take(i as int));
                assert(items.take(i + 1).last() == items[i as int]);
            }
            acc = acc + (self.items[i].quantity as i128);
            i = i + 1;
        }
        proof {
            assert(items.take(n as int) =~= items);
        }
        acc as i32
    }

    /// Drop every line; the identifier stays.
    pub fn clear(&mut self)
        ensures
            final(self).cart_id == old(self).cart_id,
            final(self).items@ =~= Seq::<CartItem>::empty(),
    {
        self.items.clear();
    }

    /// Whether the cart holds no line.
    pub fn is_empty(&self) -> (r: bool)
        ensures
            r == (self.items@.len() == 0),
    {
        self.items.is_empty()
    }
}

impl Default for Cart {
    /// An empty cart under a fresh identifier, as `new` gives.
    fn default() -> (c: Cart)
        ensures
            c.items@ =~= Seq::<CartItem>::empty(),
            c.cart_id@.len() == 36,
    {
        Cart::new()
    }
}

} // verus!
