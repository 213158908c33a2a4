use commercerack::cart::{Cart, CartItem};
use commercerack::money::Money;

#[test]
fn test_line_item_subtotal() {
    let item = CartItem::new("SKU001".to_string(), "Widget".to_string(), 3, Money::new(1999, 2));
    assert_eq!(item.sku, "SKU001");
    assert_eq!(item.product_name, "Widget");
    assert_eq!(item.quantity, 3);
    assert!(item.subtotal().eq_value(&Money::new(5997, 2)));
}

#[test]
fn test_cart_operations() {
    let mut cart = Cart::new();
    assert!(cart.is_empty());
    assert_eq!(cart.item_count(), 0);

    // Add items
    cart.add_item(
        "SKU001".to_string(),
        "Widget".to_string(),
        2,
        Money::new(1999, 2), // $19.99
    );
    assert_eq!(cart.items.len(), 1);
    assert_eq!(cart.item_count(), 2);
    assert!(cart.subtotal().eq_value(&Money::new(3998, 2))); // $39.98

    // Add same SKU again (should merge)
    cart.add_item(
        "SKU001".to_string(),
        "Widget".to_string(),
        3,
        Money::new(1999, 2),
    );
    assert_eq!(cart.items.len(), 1); // Still 1 unique item
    assert_eq!(cart.item_count(), 5); // 2 + 3 = 5 total
    assert!(cart.subtotal().eq_value(&Money::new(9995, 2))); // $99.95

    // Add different SKU
    cart.add_item(
        "SKU002".to_string(),
        "Gadget".to_string(),
        1,
        Money::new(2999, 2), // $29.99
    );
    assert_eq!(cart.items.len(), 2);
    assert_eq!(cart.item_count(), 6);
    assert!(cart.subtotal().eq_value(&Money::new(12994, 2))); // $129.94
}

#[test]
fn test_cart_update_and_remove() {
    let mut cart = Cart::new();

    cart.add_item("SKU001".to_string(), "Widget".to_string(), 5, Money::new(1000, 2));
    cart.add_item("SKU002".to_string(), "Gadget".to_string(), 3, Money::new(2000, 2));

    // Update quantity
    assert!(cart.update_quantity("SKU001", 10));
    assert_eq!(cart.get_item("SKU001").unwrap().quantity, 10);

    // Update to zero should remove
    assert!(cart.update_quantity("SKU001", 0));
    assert_eq!(cart.items.len(), 1);
    assert!(cart.get_item("SKU001").is_none());

    // Remove item
    assert!(cart.remove_item("SKU002"));
    assert!(cart.is_empty());
    assert!(cart.subtotal().eq_value(&Money::zero()));
}

#[test]
fn test_merge_keeps_first_name_and_price() {
    let mut cart = Cart::with_id("c".to_string());
    cart.add_item("SKU001".to_string(), "Widget".to_string(), 2, Money::new(1999, 2));
    // A later add of the same sku changes neither the name nor the price.
    cart.add_item("SKU001".to_string(), "Renamed".to_string(), 3, Money::new(9999, 2));
    assert_eq!(cart.items.len(), 1);
    let item = cart.get_item("SKU001").unwrap();
    assert_eq!(item.product_name, "Widget");
    assert_eq!(item.quantity, 5);
    assert!(item.unit_price.eq_value(&Money::new(1999, 2)));
    // The subtotal uses the stored price.
    assert!(cart.subtotal().eq_value(&Money::new(9995, 2)));
}

#[test]
fn test_distinct_adds_append() {
    let mut cart = Cart::with_id("c".to_string());
    cart.add_item("A".to_string(), "a".to_string(), 1, Money::new(100, 2));
    cart.add_item("B".to_string(), "b".to_string(), 2, Money::new(100, 2));
    cart.add_item("C".to_string(), "c".to_string(), 3, Money::new(100, 2));
    assert_eq!(cart.items.len(), 3);
    assert_eq!(cart.item_count(), 6);
    // Insertion order is preserved.
    assert_eq!(cart.items[0].sku, "A");
    assert_eq!(cart.items[1].sku, "B");
    assert_eq!(cart.items[2].sku, "C");
}

#[test]
fn test_remove_absent_leaves_cart_unchanged() {
    let mut cart = Cart::with_id("c".to_string());
    cart.add_item("SKU001".to_string(), "Widget".to_string(), 2, Money::new(1999, 2));
    assert!(!cart.remove_item("SKU999"));
    assert_eq!(cart.items.len(), 1);
    assert_eq!(cart.item_count(), 2);
    assert_eq!(cart.cart_id, "c");
}

#[test]
fn test_update_absent_returns_false() {
    let mut cart = Cart::with_id("c".to_string());
    cart.add_item("SKU001".to_string(), "Widget".to_string(), 2, Money::new(1999, 2));
    assert!(!cart.update_quantity("SKU999", 4));
    assert!(!cart.update_quantity("SKU999", 0));
    assert_eq!(cart.items.len(), 1);
    assert_eq!(cart.get_item("SKU001").unwrap().quantity, 2);
}

#[test]
fn test_negative_update_removes_like_remove() {
    let mut one = Cart::with_id("c".to_string());
    one.add_item("SKU001".to_string(), "Widget".to_string(), 2, Money::new(1999, 2));
    let mut other = one.clone();
    // A negative quantity behaves exactly as a removal would.
    assert_eq!(one.update_quantity("SKU001", -3), other.remove_item("SKU001"));
    assert!(one.is_empty());
    assert!(other.is_empty());
}

#[test]
fn test_negative_quantity_is_stored_on_add() {
    // addItem performs no validation: a negative quantity becomes a negative
    // contribution to the aggregates.
    let mut cart = Cart::with_id("c".to_string());
    cart.add_item("SKU001".to_string(), "Widget".to_string(), -1, Money::new(1999, 2));
    assert_eq!(cart.items.len(), 1);
    assert_eq!(cart.item_count(), -1);
    assert!(cart.subtotal().eq_value(&Money::new(-1999, 2)));
}

#[test]
fn test_clear_resets_aggregates() {
    let mut cart = Cart::new();
    cart.add_item("SKU001".to_string(), "Widget".to_string(), 2, Money::new(1999, 2));
    cart.add_item("SKU002".to_string(), "Gadget".to_string(), 1, Money::new(2999, 2));
    let id = cart.cart_id.clone();
    cart.clear();
    assert!(cart.is_empty());
    assert!(cart.subtotal().eq_value(&Money::zero()));
    assert_eq!(cart.item_count(), 0);
    // The identifier survives a clear.
    assert_eq!(cart.cart_id, id);
}

#[test]
fn test_new_cart_has_36_char_id() {
    let cart = Cart::new();
    assert_eq!(cart.cart_id.len(), 36);
    assert!(cart.is_empty());
    let other = Cart::default();
    assert_eq!(other.cart_id.len(), 36);
    assert!(other.is_empty());
}

#[test]
fn test_with_id_uses_identifier_verbatim() {
    let cart = Cart::with_id("restored-cart-7".to_string());
    assert_eq!(cart.cart_id, "restored-cart-7");
    assert!(cart.is_empty());
}
