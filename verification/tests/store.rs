use commercerack::cart::Cart;
use commercerack::money::Money;
use commercerack::store::CartStore;

#[test]
fn test_cart_store() {
    let mut store = CartStore::new();

    // Create cart
    let cart_id = store.create_cart();
    assert!(store.get_cart(&cart_id).is_some());

    // Add items to cart
    if let Some(cart) = store.get_cart_mut(&cart_id) {
        cart.add_item("SKU001".to_string(), "Widget".to_string(), 2, Money::new(1999, 2));
    }

    // Verify cart has item
    let cart = store.get_cart(&cart_id).unwrap();
    assert_eq!(cart.items.len(), 1);
    assert_eq!(cart.item_count(), 2);

    // Delete cart
    assert!(store.delete_cart(&cart_id));
    assert!(store.get_cart(&cart_id).is_none());
}

#[test]
fn test_create_get_delete_lifecycle() {
    let mut store = CartStore::new();
    let id = store.create_cart();
    assert_eq!(id.len(), 36);
    // A created cart can be fetched and is empty.
    let cart = store.get_cart(&id).unwrap();
    assert!(cart.is_empty());
    assert_eq!(cart.cart_id, id);
    // Deletion succeeds once and reports false the second time.
    assert!(store.delete_cart(&id));
    assert!(!store.delete_cart(&id));
    assert!(store.get_cart(&id).is_none());
}

#[test]
fn test_unknown_cart_is_absent_not_a_fault() {
    let mut store = CartStore::new();
    assert!(store.get_cart("no-such-cart").is_none());
    assert!(store.get_cart_mut("no-such-cart").is_none());
    assert!(!store.delete_cart("no-such-cart"));
}

#[test]
fn test_save_cart_upserts_by_id() {
    let mut store = CartStore::new();
    let mut cart = Cart::with_id("cart-1".to_string());
    cart.add_item("SKU001".to_string(), "Widget".to_string(), 2, Money::new(1999, 2));
    store.save_cart(cart);
    assert_eq!(store.get_cart("cart-1").unwrap().items.len(), 1);

    // Saving another cart under the same identifier replaces the first.
    store.save_cart(Cart::with_id("cart-1".to_string()));
    assert!(store.get_cart("cart-1").unwrap().is_empty());
}

#[test]
fn test_stores_hold_independent_carts() {
    let mut store = CartStore::default();
    let a = store.create_cart();
    let b = store.create_cart();
    if let Some(cart) = store.get_cart_mut(&a) {
        cart.add_item("SKU001".to_string(), "Widget".to_string(), 2, Money::new(1999, 2));
    }
    // The other cart is untouched.
    assert!(store.get_cart(&b).unwrap().is_empty());
    assert_eq!(store.get_cart(&a).unwrap().item_count(), 2);
    // Deleting one leaves the other fetchable.
    assert!(store.delete_cart(&a));
    assert!(store.get_cart(&b).is_some());
}

#[test]
fn test_many_distinct_adds_accumulate() {
    // The store serialises read-modify-write sequences; applied one after
    // another, distinct adds to one cart lose nothing.
    let mut store = CartStore::new();
    let id = store.create_cart();
    let mut expected: i32 = 0;
    for k in 0..50 {
        let sku = format!("SKU{}", k);
        let qty = (k % 7) + 1;
        expected += qty;
        if let Some(cart) = store.get_cart_mut(&id) {
            cart.add_item(sku, "Item".to_string(), qty, Money::new(100, 2));
        }
    }
    let cart = store.get_cart(&id).unwrap();
    assert_eq!(cart.items.len(), 50);
    assert_eq!(cart.item_count(), expected);
}
