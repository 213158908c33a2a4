//! The registry of carts: a mapping from cart identifier to cart, with
//! create, lookup, upsert and delete. Identifiers stay distinct; lookups that
//! find nothing are ordinary outcomes, never faults.
//!
//! The store itself performs no I/O and never blocks. Callers that share one
//! store across concurrent request handlers put it behind a single exclusive
//! lock covering the whole store, and hold that lock for one full
//! read-modify-write sequence at a time, so that operations on one cart are
//! serialised end to end.

use vstd::prelude::*;
use crate::cart::{str_eq, Cart};

verus! {

/// Whether some stored cart carries the identifier `id`.
pub open spec fn has_cart(carts: Seq<Cart>, id: Seq<char>) -> bool {
    exists|i: int| 0 <= i < carts.len() && carts[i].cart_id@ == id
}

/// The index of the first stored cart carrying `id`, or `carts.len()` when
/// none does.
pub open spec fn cart_index(carts: Seq<Cart>, id: Seq<char>) -> int
    decreases carts.len(),
{
    if carts.len() == 0 {
        0
    } else if carts[0].cart_id@ == id {
        0
    } else {
        1 + cart_index(carts.drop_first(), id)
    }
}

/// The stored cart carrying `id`, if any.
pub open spec fn spec_cart(carts: Seq<Cart>, id: Seq<char>) -> Option<Cart> {
    if has_cart(carts, id) {
        Some(carts[cart_index(carts, id)])
    } else {
        None
    }
}

/// Whether every stored cart carries a distinct identifier.
pub open spec fn ids_unique(carts: Seq<Cart>) -> bool {
    forall|i: int, j: int|
        0 <= i < j < carts.len() ==> carts[i].cart_id@ != carts[j].cart_id@
}

/// What `cart_index` finds: an in-range index exactly when the identifier
/// occurs, the cart there carries it, and no earlier cart does.
pub proof fn lemma_cart_index(carts: Seq<Cart>, id: Seq<char>)
    ensures
        0 <= cart_index(carts, id) <= carts.len(),
        has_cart(carts, id) <==> cart_index(carts, id) < carts.len(),
        cart_index(carts, id) < carts.len() ==> carts[cart_index(carts, id)].cart_id@ == id,
        forall|j: int| 0 <= j < cart_index(carts, id) ==> carts[j].cart_id@ != id,
    decreases carts.len(),
{
    if carts.len() == 0 {
    } else if carts[0].cart_id@ == id {
    } else {
        let rest = carts.drop_first();
        lemma_cart_index(rest, id);
        assert forall|j: int| 0 <= j < cart_index(carts, id) implies carts[j].cart_id@ != id by {
            if j > 0 {
                assert(carts[j] == rest[j - 1]);
            }
        }
        if has_cart(carts, id) {
            let i = choose|i: int| 0 <= i < carts.len() && carts[i].cart_id@ == id;
            assert(rest[i - 1] == carts[i]);
            assert(has_cart(rest, id));
        }
        if has_cart(rest, id) {
            let i = choose|i: int| 0 <= i < rest.len() && rest[i].cart_id@ == id;
            assert(carts[i + 1] == rest[i]);
            assert(has_cart(carts, id));
        }
    }
}

/// An index known to carry `id` after none that does is the first one.
proof fn lemma_first_index(carts: Seq<Cart>, id: Seq<char>, i: int)
    requires
        0 <= i < carts.len(),
        carts[i].cart_id@ == id,
        forall|j: int| 0 <= j < i ==> carts[j].cart_id@ != id,
    ensures
        cart_index(carts, id) == i,
        has_cart(carts, id),
{
    lemma_cart_index(carts, id);
    let k = cart_index(carts, id);
    assert(has_cart(carts, id));
    assert(k <= i);
    assert(i <= k);
}

/// When every entry either stays or swaps among carts carrying `changed`, and
/// everything appended carries `changed`, lookups of every other identifier
/// stay what they were.
proof fn lemma_other_ids_unchanged(olds: Seq<Cart>, news: Seq<Cart>, changed: Seq<char>)
    requires
        olds.len() <= news.len(),
        forall|k: int|
            0 <= k < olds.len() ==> (news[k] == olds[k] || ((#[trigger] olds[k]).cart_id@
                == changed && (#[trigger] news[k]).cart_id@ == changed)),
        forall|k: int|
            olds.len() <= k < news.len() ==> (#[trigger] news[k]).cart_id@ == changed,
    ensures
        forall|id: Seq<char>|
            id != changed ==> spec_cart(news, id) == spec_cart(olds, id),
{
    assert forall|id: Seq<char>| id != changed implies spec_cart(news, id) == spec_cart(
        olds,
        id,
    ) by {
        lemma_cart_index(olds, id);
        lemma_cart_index(news, id);
        if has_cart(olds, id) {
            let k = cart_index(olds, id);
            assert(news[k] == olds[k]);
            assert forall|j: int| 0 <= j < k implies news[j].cart_id@ != id by {
                assert(olds[j].cart_id@ != id);
                assert(news[j] == olds[j] || news[j].cart_id@ == changed);
            }
            lemma_first_index(news, id, k);
        } else if has_cart(news, id) {
            let k = cart_index(news, id);
            assert(news[k].cart_id@ == id);
            assert(k < olds.len() && news[k] == olds[k]);
            assert(has_cart(olds, id));
        }
    }
}

/// Lookups of every other identifier survive the removal of one cart.
proof fn lemma_remove_other_ids(olds: Seq<Cart>, i: int)
    requires
        0 <= i < olds.len(),
    ensures
        forall|id: Seq<char>|
            id != olds[i].cart_id@ ==> spec_cart(olds.remove(i), id) == spec_cart(olds, id),
{
    olds.remove_ensures(i);
    let news = olds.remove(i);
    assert forall|id: Seq<char>| id != olds[i].cart_id@ implies spec_cart(news, id) == spec_cart(
        olds,
        id,
    ) by {
        lemma_cart_index(olds, id);
        lemma_cart_index(news, id);
        if has_cart(olds, id) {
            let k = cart_index(olds, id);
            assert(k != i);
            if k < i {
                assert(news[k] == olds[k]);
                assert forall|j: int| 0 <= j < k implies news[j].cart_id@ != id by {
                    assert(news[j] == olds[j]);
                }
                lemma_first_index(news, id, k);
            } else {
                assert(news[k - 1] == olds[k]);
                assert forall|j: int| 0 <= j < k - 1 implies news[j].cart_id@ != id by {
                    if j < i {
                        assert(news[j] == olds[j]);
                    } else {
                        assert(news[j] == olds[j + 1]);
                    }
                }
                lemma_first_index(news, id, k - 1);
            }
        } else {
            if has_cart(news, id) {
                let k = choose|k: int| 0 <= k < news.len() && news[k].cart_id@ == id;
                if k < i {
                    assert(news[k] == olds[k]);
                } else {
                    assert(news[k] == olds[k + 1]);
                }
                assert(has_cart(olds, id));
            }
        }
    }
}

/// The store of carts, keyed by each cart's own identifier.
pub struct CartStore {
    carts: Vec<Cart>,
}

impl View for CartStore {
    type V = Seq<Cart>;

    closed spec fn view(&self) -> Seq<Cart> {
        self.carts@
    }
}

impl CartStore {
    /// Validity: stored identifiers are distinct.
    pub open spec fn wf(self) -> bool {
        ids_unique(self@)
    }

    /// An empty store.
    pub fn new() -> (s: CartStore)
        ensures
            s@ =~= Seq::<Cart>::empty(),
            s.wf(),
    {
        CartStore { carts: Vec::new() }
    }

    /// The index of the first stored cart carrying `cart_id`, if any does.
    fn find_cart(&self, cart_id: &str) -> (r: Option<usize>)
        ensures
            r is Some <==> has_cart(self@, cart_id@),
            r is Some ==> r->Some_0 as int == cart_index(self@, cart_id@),
    {
        proof {
            lemma_cart_index(self@, cart_id@);
        }
        let n = self.carts.len();
        let mut i: usize = 0;
        while i < n
            invariant
                i <= n == self@.len(),
                forall|j: int| 0 <= j < i ==> self@[j].cart_id@ != cart_id@,
            decreases n - i,
        {
            if str_eq(&self.carts[i].cart_id, cart_id) {
                proof {
                    lemma_first_index(self@, cart_id@, i as int);
                }
                return Some(i);
            }
            i = i + 1;
        }
        proof {
            lemma_cart_index(self@, cart_id@);
        }
        None
    }

    /// Store `cart` under its own identifier, replacing any cart already
    /// stored under it.
    pub fn save_cart(&mut self, cart: Cart)
        requires
            old(self).wf(),
        ensures
            final(self).wf(),
            spec_cart(final(self)@, cart.cart_id@) == Some(cart),
            forall|id: Seq<char>|
                id != cart.cart_id@ ==> spec_cart(final(self)@, id) == spec_cart(old(self)@, id),
    {
        let ghost olds = self@;
        let ghost changed = cart.cart_id@;
        let found = self.find_cart(cart.cart_id.as_str());
        match found {
            Some(i) => {
                proof {
                    lemma_cart_index(olds, changed);
                }
                self.carts[i] = cart;
                proof {
                    lemma_first_index(self@, changed, i as int);
                    assert(spec_cart(self@, changed) == Some(cart));
                    lemma_other_ids_unchanged(olds, self@, changed);
                    assert forall|a: int, b: int|
                        0 <= a < b < self@.len() implies self@[a].cart_id@ != self@[b].cart_id@ by {
                        assert(olds[a].cart_id@ != olds[b].cart_id@);
                        assert(olds[i as int].cart_id@ == changed);
                    }
                }
            },
            None => {
                self.carts.push(cart);
                proof {
                    assert forall|j: int| 0 <= j < olds.len() implies self@[j].cart_id@
                        != changed by {
                        assert(self@[j] == olds[j]);
                        assert(!has_cart(olds, changed));
                    }
                    lemma_first_index(self@, changed, olds.len() as int);
                    lemma_other_ids_unchanged(olds, self@, changed);
                    assert forall|a: int, b: int|
                        0 <= a < b < self@.len() implies self@[a].cart_id@ != self@[b].cart_id@ by {
                        if b < olds.len() {
                            assert(olds[a].cart_id@ != olds[b].cart_id@);
                        } else {
                            assert(self@[b] == cart);
                            assert(self@[a].cart_id@ != changed);
                        }
                    }
                }
            },
        }
    }

    /// Make a fresh empty cart, store it, and hand back its identifier.
    pub fn create_cart(&mut self) -> (id: String)
        requires
            old(self).wf(),
        ensures
            final(self).wf(),
            id@.len() == 36,
            spec_cart(final(self)@, id@) matches Some(c) && c.items@.len() == 0 && c.cart_id@
                == id@,
            forall|other: Seq<char>|
                other != id@ ==> spec_cart(final(self)@, other) == spec_cart(old(self)@, other),
    {
        let cart = Cart::new();
        let id = cart.cart_id.clone();
        self.save_cart(cart);
        id
    }

    /// An exclusive handle to the cart stored under `cart_id`, if any, for
    /// one mutation in place.
    pub fn get_cart_mut(&mut self, cart_id: &str) -> (r: Option<&mut Cart>)
        ensures
            r.is_some() <==> has_cart(old(self)@, cart_id@),
            r.is_none() ==> *final(self) == *old(self),
            r.is_some() ==> *r.unwrap() == old(self)@[cart_index(old(self)@, cart_id@)]
                && final(self)@ == old(self)@.update(
                cart_index(old(self)@, cart_id@),
                *final(r.unwrap()),
            ),
    {
        proof {
            lemma_cart_index(old(self)@, cart_id@);
        }
        let found = self.find_cart(cart_id);
        match found {
            Some(i) => Some(&mut self.carts[i]),
            None => None,
        }
    }

    /// Remove the cart stored under `cart_id`; report whether one was there.
    pub fn delete_cart(&mut self, cart_id: &str) -> (deleted: bool)
        requires
            old(self).wf(),
        ensures
            final(self).wf(),
            deleted == has_cart(old(self)@, cart_id@),
            spec_cart(final(self)@, cart_id@) is None,
            forall|id: Seq<char>|
                id != cart_id@ ==> spec_cart(final(self)@, id) == spec_cart(old(self)@, id),
            !deleted ==> *final(self) == *old(self),
    {
        let ghost olds = self@;
        let found = self.find_cart(cart_id);
        match found {
            Some(i) => {
                proof {
                    lemma_cart_index(olds, cart_id@);
                }
                self.carts.remove(i);
                proof {
                    olds.remove_ensures(i as int);
                    lemma_remove_other_ids(olds, i as int);
                    assert forall|a: int, b: int|
                        0 <= a < b < self@.len() implies self@[a].cart_id@ != self@[b].cart_id@ by {
                        let oa = if a < i {
                            a
                        } else {
                            a + 1
                        };
                        let ob = if b < i {
                            b
                        } else {
                            b + 1
                        };
                        assert(self@[a] == olds[oa]);
                        assert(self@[b] == olds[ob]);
                        assert(olds[oa].cart_id@ != olds[ob].cart_id@);
                    }
                    assert forall|k: int| 0 <= k < self@.len() implies self@[k].cart_id@
                        != cart_id@ by {
                        let ok = if k < i {
                            k
                        } else {
                            k + 1
                        };
                        assert(self@[k] == olds[ok]);
                        assert(olds[i as int].cart_id@ == cart_id@);
                        if olds[ok].cart_id@ == cart_id@ {
                            if ok < i {
                                assert(olds[ok].cart_id@ != olds[i as int].cart_id@);
                            } else {
                                assert(olds[i as int].cart_id@ != olds[ok].cart_id@);
                            }
                        }
                    }
                }
                true
            },
            None => false,
        }
    }

    /// A read-only view of the cart stored under `cart_id`, if any.
    pub fn get_cart(&self, cart_id: &str) -> (r: Option<&Cart>)
        ensures
            r is Some <==> spec_cart(self@, cart_id@) is Some,
            r is Some ==> Some(*r->Some_0) == spec_cart(self@, cart_id@),
    {
        let found = self.find_cart(cart_id);
        proof {
            lemma_cart_index(self@, cart_id@);
        }
        match found {
            Some(i) => Some(&self.carts[i]),
            None => None,
        }
    }
}

impl Default for CartStore {
    /// An empty store, as `new` gives.
    fn default() -> (s: CartStore)
        ensures
            s@ =~= Seq::<Cart>::empty(),
            s.wf(),
    {
        CartStore::new()
    }
}

} // verus!
