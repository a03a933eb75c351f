use store_lib::cart::{Cart, CartError, CartItem, CartStore};
use store_lib::store::{Money, Product, ProductStore};

fn product(id: u128, cents: u128) -> Product {
    Product {
        listing_id: id,
        name: format!("item {id}"),
        price: Money::from_cents(cents),
        description: "d".to_string(),
        image: "i.jpg".to_string(),
    }
}

#[test]
fn repeated_add_merges_into_one_line() {
    let mut catalog = ProductStore::new();
    catalog.seed(product(10, 500));
    let mut carts = CartStore::new();
    carts.add_item(1, 10, 2, &catalog).unwrap();
    let cart = carts.add_item(1, 10, 3, &catalog).unwrap();
    assert_eq!(cart.items.len(), 1);
    assert_eq!(cart.items[0].number, 5);
}

#[test]
fn carts_of_different_identities_are_isolated() {
    let mut catalog = ProductStore::new();
    catalog.seed(product(10, 500));
    catalog.seed(product(11, 700));
    let mut carts = CartStore::new();
    carts.add_item(1, 10, 1, &catalog).unwrap();
    carts.add_item(2, 11, 4, &catalog).unwrap();
    carts.remove_item(1, 10);
    let b = carts.get_cart(2);
    assert_eq!(b.items.len(), 1);
    assert_eq!(b.items[0].listing.listing_id, 11);
    assert_eq!(b.items[0].number, 4);
    assert_eq!(carts.get_cart(1).items.len(), 0);
}

#[test]
fn unknown_listing_fails_and_leaves_cart_alone() {
    let mut catalog = ProductStore::new();
    catalog.seed(product(10, 500));
    let mut carts = CartStore::new();
    carts.add_item(1, 10, 2, &catalog).unwrap();
    let r = carts.add_item(1, 99, 1, &catalog);
    assert!(matches!(r, Err(CartError::MissingInventory)));
    let cart = carts.get_cart(1);
    assert_eq!(cart.items.len(), 1);
    assert_eq!(cart.items[0].number, 2);
}

#[test]
fn zero_quantity_is_refused() {
    let mut catalog = ProductStore::new();
    catalog.seed(product(10, 500));
    let mut carts = CartStore::new();
    assert!(matches!(carts.add_item(1, 10, 0, &catalog), Err(CartError::InvalidQuantity)));
    assert_eq!(carts.get_cart(1).items.len(), 0);
}

#[test]
fn overflowing_quantity_is_refused() {
    let mut catalog = ProductStore::new();
    catalog.seed(product(10, 500));
    let mut carts = CartStore::new();
    carts.add_item(1, 10, usize::MAX, &catalog).unwrap();
    assert!(matches!(carts.add_item(1, 10, 1, &catalog), Err(CartError::InvalidQuantity)));
    assert_eq!(carts.get_cart(1).items[0].number, usize::MAX);
}

#[test]
fn get_cart_is_empty_then_stable() {
    let mut carts = CartStore::new();
    let first = carts.get_cart(3);
    let second = carts.get_cart(3);
    assert_eq!(first.items.len(), 0);
    assert_eq!(second.items.len(), 0);
}

#[test]
fn remove_absent_listing_is_a_no_op() {
    let mut catalog = ProductStore::new();
    catalog.seed(product(10, 500));
    let mut carts = CartStore::new();
    carts.add_item(1, 10, 2, &catalog).unwrap();
    let cart = carts.remove_item(1, 77);
    assert_eq!(cart.items.len(), 1);
    let cart = carts.remove_item(1, 10);
    assert_eq!(cart.items.len(), 0);
}

#[test]
fn subtotal_is_exact() {
    let cart = Cart::new(vec![
        CartItem { listing: product(1, 1250), number: 2 },
        CartItem { listing: product(2, 333), number: 1 },
    ]);
    assert_eq!(cart.subtotal(), Some(Money::from_cents(2833)));
}

#[test]
fn subtotal_of_empty_cart_is_zero() {
    assert_eq!(Cart::default().subtotal(), Some(Money::from_cents(0)));
}

#[test]
fn subtotal_that_does_not_fit_is_none() {
    let cart = Cart::new(vec![
        CartItem { listing: product(1, u128::MAX / 2), number: 2 },
        CartItem { listing: product(2, 2), number: 1 },
    ]);
    assert_eq!(cart.subtotal(), None);
}

#[test]
fn duplicate_copies_every_line() {
    let cart = Cart::new(vec![CartItem { listing: product(1, 1250), number: 2 }]);
    let copy = cart.duplicate();
    assert_eq!(copy.items.len(), 1);
    assert_eq!(copy.items[0].listing.listing_id, 1);
    assert_eq!(copy.items[0].number, 2);
    assert_eq!(copy.items[0].listing.name, "item 1");
}
