use store_lib::api::{
    add_to_cart, fetch_cart, remove_from_cart, AddToCart, ErrorCause, StoreError,
};
use store_lib::cart::CartStore;
use store_lib::components::{get_color, Color};
use store_lib::store::{Money, Product, ProductStore};

#[test]
fn export_typescript() {}

fn product(id: u128, cents: u128) -> Product {
    Product {
        listing_id: id,
        name: "Ruby".to_string(),
        price: Money::from_cents(cents),
        description: "red".to_string(),
        image: "ruby.jpg".to_string(),
    }
}

#[test]
fn store_error_constructors_set_cause() {
    let e = StoreError::internal("boom".to_string());
    assert_eq!(e.reason, ErrorCause::Internal);
    assert_eq!(e.message, "boom");
    assert_eq!(StoreError::unauthorized("x".to_string()).reason, ErrorCause::Unauthorized);
    assert_eq!(
        StoreError::missing_inventory("y".to_string()).reason,
        ErrorCause::MissingInventory
    );
}

#[test]
fn anonymous_callers_are_refused() {
    let mut carts = CartStore::new();
    let catalog = ProductStore::new();
    let e = fetch_cart(&mut carts, None).unwrap_err();
    assert_eq!(e.reason, ErrorCause::Unauthorized);
    assert_eq!(e.message, "Must be logged in to view cart");
    let e = add_to_cart(&mut carts, &catalog, None, 1, AddToCart { number: 1 }).unwrap_err();
    assert_eq!(e.reason, ErrorCause::Unauthorized);
    assert_eq!(e.message, "user not found");
    let e = remove_from_cart(&mut carts, None, 1).unwrap_err();
    assert_eq!(e.reason, ErrorCause::Unauthorized);
}

#[test]
fn unknown_listing_reports_its_uuid() {
    let mut carts = CartStore::new();
    let catalog = ProductStore::new();
    let id: u128 = 0x67e5504410b1426f9247bb680e5fe0c8;
    let e = add_to_cart(&mut carts, &catalog, Some(7), id, AddToCart { number: 1 }).unwrap_err();
    assert_eq!(e.reason, ErrorCause::MissingInventory);
    assert_eq!(e.message, "67e55044-10b1-426f-9247-bb680e5fe0c8");
    assert_eq!(fetch_cart(&mut carts, Some(7)).unwrap().items.len(), 0);
}

#[test]
fn zero_quantity_is_an_internal_error() {
    let mut carts = CartStore::new();
    let mut catalog = ProductStore::new();
    catalog.seed(product(1, 100));
    let e = add_to_cart(&mut carts, &catalog, Some(7), 1, AddToCart { number: 0 }).unwrap_err();
    assert_eq!(e.reason, ErrorCause::Internal);
    assert_eq!(e.message, "invalid quantity");
}

#[test]
fn add_then_remove_through_the_api() {
    let mut carts = CartStore::new();
    let mut catalog = ProductStore::new();
    catalog.seed(product(1, 250));
    let cart = add_to_cart(&mut carts, &catalog, Some(7), 1, AddToCart { number: 2 }).unwrap();
    assert_eq!(cart.items.len(), 1);
    assert_eq!(cart.items[0].number, 2);
    assert_eq!(cart.items[0].listing.listing_id, 1);
    let fetched = fetch_cart(&mut carts, Some(7)).unwrap();
    assert_eq!(fetched.items.len(), 1);
    let cart = remove_from_cart(&mut carts, Some(7), 1).unwrap();
    assert_eq!(cart.items.len(), 0);
}

#[test]
fn color_classes() {
    assert_eq!(get_color(Color::Default), "");
    assert_eq!(get_color(Color::Primary), "is-primary");
    assert_eq!(get_color(Color::Info), "is-info");
    assert_eq!(get_color(Color::Link), "is-link");
    assert_eq!(get_color(Color::Success), "is-success");
    assert_eq!(get_color(Color::Warning), "is-warning");
    assert_eq!(get_color(Color::Danger), "is-danger");
}
