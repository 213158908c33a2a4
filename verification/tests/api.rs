use commercerack::address::CustomerAddress;
use commercerack::auth::Claims;
use commercerack::cart::Cart;
use commercerack::money::Money;
use commercerack::routes::cart::{AddItemRequest, CartResponse, UpdateQuantityRequest};
use commercerack::routes::customers;
use commercerack::routes::orders;
use commercerack::routes::products;

#[test]
fn test_claims_lifetime_and_subject() {
    let claims = Claims::new(42, 7);
    assert_eq!(claims.sub, "42");
    assert_eq!(claims.mid, 7);
    assert_eq!(claims.exp - claims.iat, 86400);
    assert!(claims.iat > 0);
    let negative = Claims::new(-7, 1);
    assert_eq!(negative.sub, "-7");
}

#[test]
fn test_default_limits_are_twenty() {
    assert_eq!(customers::default_limit(), 20);
    assert_eq!(orders::default_limit(), 20);
    assert_eq!(products::default_limit(), 20);
}

#[test]
fn test_cart_response_snapshot() {
    let mut cart = Cart::with_id("cart-9".to_string());
    cart.add_item("SKU001".to_string(), "Widget".to_string(), 2, Money::new(1999, 2));
    cart.add_item("SKU002".to_string(), "Gadget".to_string(), 1, Money::new(2999, 2));
    let response = CartResponse::from_cart(&cart);
    assert_eq!(response.cart_id, "cart-9");
    assert_eq!(response.items.len(), 2);
    assert_eq!(response.item_count, 3);
    assert!(response.subtotal.eq_value(&Money::new(6997, 2)));
    // The snapshot carries the lines themselves.
    assert_eq!(response.items[0].sku, "SKU001");
    assert_eq!(response.items[1].sku, "SKU002");
}

#[test]
fn test_request_shapes_carry_plain_values() {
    let add = AddItemRequest {
        sku: "SKU001".to_string(),
        product_name: "Widget".to_string(),
        quantity: 2,
        unit_price: "19.99".to_string(),
    };
    assert_eq!(add.quantity, 2);
    assert_eq!(add.unit_price, "19.99");
    let update = UpdateQuantityRequest { quantity: 4 };
    assert_eq!(update.quantity, 4);
    let query = products::ListQuery { mid: 1, limit: products::default_limit(), offset: 0 };
    assert_eq!(query.limit, 20);
    let address = CustomerAddress {
        id: 1,
        cid: 2,
        mid: 3,
        label: "home".to_string(),
        firstname: "Test".to_string(),
        lastname: "User".to_string(),
        company: String::new(),
        address1: "1 Main St".to_string(),
        address2: String::new(),
        city: "Springfield".to_string(),
        state: "IL".to_string(),
        zip: "62701".to_string(),
        country: "US".to_string(),
        phone: String::new(),
    };
    assert_eq!(address.cid, 2);
}
