use store_lib::store::{seed, CounterStore, Inventory, ItemListing, Money, Product, ProductStore};

fn product(id: u128, cents: u128, name: &str) -> Product {
    Product {
        listing_id: id,
        name: name.to_string(),
        price: Money::from_cents(cents),
        description: "d".to_string(),
        image: "i.jpg".to_string(),
    }
}

#[test]
fn random_products_stay_in_range() {
    let names = ["Amethyst", "Pothos", "Ruby", "Aroid", "Garnet", "Diamond", "Succulent"];
    for _ in 0..50 {
        let p = Product::random();
        assert!(p.price.cents >= 100 && p.price.cents < 3000);
        assert!(names.contains(&p.name.as_str()));
        assert_eq!(p.description, "The description of the item we are looking at");
    }
    let a = ItemListing::random();
    let b = ItemListing::random();
    assert_ne!(a.listing_id, b.listing_id);
}

#[test]
fn seed_get_and_list() {
    let mut catalog = ProductStore::new();
    catalog.seed(product(1, 100, "a"));
    catalog.seed(product(2, 200, "b"));
    assert_eq!(catalog.get(2).unwrap().name, "b");
    assert!(catalog.get(3).is_none());
    catalog.seed(product(1, 150, "c"));
    let mut all = catalog.list();
    all.sort_by_key(|p| p.listing_id);
    assert_eq!(all.len(), 2);
    assert_eq!(all[0].name, "c");
    assert_eq!(all[0].price, Money::from_cents(150));
    assert_eq!(all[1].listing_id, 2);
}

#[test]
fn random_listing_from_fixes_every_field() {
    let p = Product::listing_from("Ruby", "blue.jpg", 9, 1234);
    assert_eq!(p.listing_id, 9);
    assert_eq!(p.name, "Ruby");
    assert_eq!(p.image, "blue.jpg");
    assert_eq!(p.price, Money::from_cents(1234));
    assert_eq!(p.description, "The description of the item we are looking at");
}

#[test]
fn counters_are_kept_per_listing() {
    let mut catalog = ProductStore::new();
    let mut stock = CounterStore::new();
    seed(&mut catalog, &mut stock, product(5, 100, "a"), Inventory::new(12, 3, 15));
    assert_eq!(stock.get(5), Some(Inventory { free: 12, ordered: 3, sent: 15 }));
    assert_eq!(stock.get(6), None);
    stock.set(5, Inventory::new(11, 4, 15));
    assert_eq!(stock.get(5).unwrap().free, 11);
    assert_eq!(catalog.get(5).unwrap().listing_id, 5);
}
