//! The product catalog and the stock counters kept for each listing.

use crate::ident::random_uuid;
use rand::distributions::Uniform;
use rand::seq::SliceRandom;
use rand::{thread_rng, Rng};
use std::collections::HashMap;
use vstd::prelude::*;

verus! {

broadcast use vstd::std_specs::hash::group_hash_axioms;

/// An exact amount of money, in hundredths of the currency unit.
#[derive(Clone, Copy, Debug, PartialEq, Eq, Structural)]
pub struct Money {
    pub cents: u128,
}

impl Money {
    pub fn from_cents(cents: u128) -> (r: Money)
        ensures
            r.cents == cents,
    {
        Money { cents }
    }
}

/// A catalog entry.
#[derive(Clone, Debug)]
pub struct Product {
    pub listing_id: u128,
    pub name: String,
    pub price: Money,
    pub description: String,
    pub image: String,
}

/// The older name of a catalog entry.
pub type ItemListing = Product;

/// The value of a `Product`, as the contracts speak of it.
pub struct ProductView {
    pub listing_id: u128,
    pub name: Seq<char>,
    pub price: Money,
    pub description: Seq<char>,
    pub image: Seq<char>,
}

impl View for Product {
    type V = ProductView;

    open spec fn view(&self) -> ProductView {
        ProductView {
            listing_id: self.listing_id,
            name: self.name@,
            price: self.price,
            description: self.description@,
            image: self.image@,
        }
    }
}

/// Lowest price of a generated listing, in cents (inclusive).
pub const MIN_RANDOM_PRICE: u64 = 100;

/// Highest price of a generated listing, in cents (exclusive).
pub const MAX_RANDOM_PRICE: u64 = 3000;

/// Relies on `SliceRandom::choose` with `thread_rng`: `None` only for an
/// empty list, otherwise one of its items.
#[verifier::external_body]
fn choose_one(options: &Vec<&'static str>) -> (r: Option<&'static str>)
    ensures
        r is None <==> options@.len() == 0,
        r is Some ==> options@.contains(r->Some_0),
{
    options.choose(&mut thread_rng()).copied()
}

/// Relies on `Rng::sample` of `Uniform::new(low, high)` with `thread_rng`: a
/// value in `low..high`. `Uniform::new` panics unless `low < high`.
#[verifier::external_body]
fn sample_uniform(low: u64, high: u64) -> (r: u64)
    requires
        low < high,
    ensures
        low <= r < high,
{
    thread_rng().sample(Uniform::new(low, high))
}

pub open spec fn is_random_name(n: Seq<char>) -> bool {
    n == "Amethyst"@ || n == "Pothos"@ || n == "Ruby"@ || n == "Aroid"@ || n == "Garnet"@ || n
        == "Diamond"@ || n == "Succulent"@
}

pub open spec fn is_random_image(n: Seq<char>) -> bool {
    n == "amethyst.jpg"@ || n == "blue.jpg"@ || n == "blue_rock.jpg"@ || n == "Chalcanthite.webp"@
        || n == "quartz.jpg"@ || n == "talc.webp"@ || n == "pothos.jpg"@
}

impl Product {
    /// A made-up listing for demonstration: a name and an image drawn from
    /// fixed lists, a freshly drawn id, and a price drawn between 1.00 and
    /// 29.99; the rest is `listing_from`.
    pub fn random() -> (r: Product)
        ensures
            is_random_name(r@.name),
            is_random_image(r@.image),
            MIN_RANDOM_PRICE <= r.price.cents < MAX_RANDOM_PRICE,
            r@.description == "The description of the item we are looking at"@,
    {
        let names: Vec<&'static str> = vec![
            "Amethyst",
            "Pothos",
            "Ruby",
            "Aroid",
            "Garnet",
            "Diamond",
            "Succulent",
        ];
        let images: Vec<&'static str> = vec![
            "amethyst.jpg",
            "blue.jpg",
            "blue_rock.jpg",
            "Chalcanthite.webp",
            "quartz.jpg",
            "talc.webp",
            "pothos.jpg",
        ];
        let name = choose_one(&names).unwrap();
        let image = choose_one(&images).unwrap();
        let listing_id = random_uuid();
        let cents = sample_uniform(MIN_RANDOM_PRICE, MAX_RANDOM_PRICE);
        Product::listing_from(name, image, listing_id, cents)
    }

    /// The demonstration listing with the given name, image, id and price in
    /// cents.
    pub fn listing_from(name: &str, image: &str, listing_id: u128, cents: u64) -> (r: Product)
        ensures
            r@ == (ProductView {
                listing_id,
                name: name@,
                price: Money { cents: cents as u128 },
                description: "The description of the item we are looking at"@,
                image: image@,
            }),
    {
        let description = "The description of the item we are looking at";
        Product {
            name: name.to_owned(),
            listing_id,
            price: Money { cents: cents as u128 },
            image: image.to_owned(),
            description: description.to_owned(),
        }
    }

    /// A copy of this listing.
    pub fn duplicate(&self) -> (r: Product)
        ensures
            r@ == self@,
    {
        Product {
            listing_id: self.listing_id,
            name: self.name.clone(),
            price: self.price,
            description: self.description.clone(),
            image: self.image.clone(),
        }
    }
}

/// Stock counters of one listing: units free to sell, units allocated to
/// orders, and units shipped.
#[derive(Clone, Copy, Debug, PartialEq, Eq, Structural)]
pub struct Inventory {
    pub free: usize,
    pub ordered: usize,
    pub sent: usize,
}

impl Inventory {
    pub fn new(free: usize, ordered: usize, sent: usize) -> (r: Inventory)
        ensures
            r == (Inventory { free, ordered, sent }),
    {
        Inventory { free, ordered, sent }
    }
}

/// Every listing is filed under its own id.
pub open spec fn listings_wf(s: Map<u128, ProductView>) -> bool {
    forall|id: u128| #[trigger] s.contains_key(id) ==> s[id].listing_id == id
}

pub open spec fn has_listing(s: Map<u128, ProductView>, id: u128) -> bool {
    s.contains_key(id)
}

/// The listing with id `id` (meaningful when `has_listing`).
pub open spec fn listing(s: Map<u128, ProductView>, id: u128) -> ProductView {
    s[id]
}

/// The catalog after seeding `p`: it replaces the listing with its id, or is
/// added when there is none.
pub open spec fn seeded(s: Map<u128, ProductView>, p: ProductView) -> Map<u128, ProductView> {
    s.insert(p.listing_id, p)
}

/// The product catalog, by listing id.
pub struct ProductStore {
    products: HashMap<u128, Product>,
}

impl View for ProductStore {
    type V = Map<u128, ProductView>;

    closed spec fn view(&self) -> Map<u128, ProductView> {
        self.products@.map_values(|p: Product| p@)
    }
}

impl ProductStore {
    #[verifier::type_invariant]
    spec fn inv(&self) -> bool {
        forall|id: u128| #[trigger]
            self.products@.contains_key(id) ==> self.products@[id].listing_id == id
    }

    pub fn new() -> (r: ProductStore)
        ensures
            r@ == Map::<u128, ProductView>::empty(),
    {
        let r = ProductStore { products: HashMap::new() };
        assert(r@ =~= Map::<u128, ProductView>::empty());
        r
    }

    /// A copy of every listing, in no particular order.
    pub fn list(&self) -> (r: Vec<Product>)
        ensures
            r@.len() == self@.len(),
            r@.map_values(|p: Product| p@).to_set() == self@.values(),
            listings_wf(self@),
    {
        proof {
            use_type_invariant(self);
        }
        let mut r: Vec<Product> = Vec::new();
        let values = self.products.values();
        let ghost all = vstd::std_specs::iter::IteratorSpec::remaining(&values);
        for p in it: values
            invariant
                it.seq() == all,
                r@.len() == it.index(),
                forall|k: int| 0 <= k < it.index() ==> #[trigger] r@[k]@ == (*all[k])@,
        {
            r.push(p.duplicate());
        }
        proof {
            let vs = all.unref();
            assert(vs.to_set() == self.products@.values());
            assert(vs.len() == self.products@.dom().len());
            assert(r@.map_values(|p: Product| p@) =~= vs.map_values(|p: Product| p@));
            assert forall|v: ProductView|
                r@.map_values(|p: Product| p@).to_set().contains(v) <==> self@.values().contains(v) by {
                if r@.map_values(|p: Product| p@).to_set().contains(v) {
                    let k = choose|k: int| 0 <= k < vs.len() && #[trigger] vs[k]@ == v;
                    assert(vs.to_set().contains(vs[k]));
                    let id = choose|id: u128| #[trigger] self.products@.contains_key(id)
                        && self.products@[id] == vs[k];
                    assert(self@.contains_key(id) && self@[id] == v);
                }
                if self@.values().contains(v) {
                    let id = choose|id: u128| #[trigger] self@.contains_key(id) && self@[id] == v;
                    assert(self.products@.values().contains(self.products@[id]));
                    assert(vs.to_set().contains(self.products@[id]));
                    let k = choose|k: int| 0 <= k < vs.len() && vs[k] == self.products@[id];
                    assert(r@.map_values(|p: Product| p@)[k] == v);
                }
            }
            assert(r@.map_values(|p: Product| p@).to_set() =~= self@.values());
            assert(self@.dom() =~= self.products@.dom());
        }
        r
    }

    /// Looks a listing up by id.
    pub fn get(&self, listing_id: u128) -> (r: Option<Product>)
        ensures
            match r {
                Some(p) => has_listing(self@, listing_id) && p@ == listing(self@, listing_id),
                None => !has_listing(self@, listing_id),
            },
            listings_wf(self@),
    {
        proof {
            use_type_invariant(self);
        }
        match self.products.get(&listing_id) {
            Some(p) => Some(p.duplicate()),
            None => None,
        }
    }

    /// Adds `product` to the catalog, replacing the listing with the same id.
    pub fn seed(&mut self, product: Product)
        ensures
            final(self)@ == seeded(old(self)@, product@),
            listings_wf(final(self)@),
    {
        proof {
            use_type_invariant(&*self);
        }
        let ghost before = self@;
        let ghost p = product@;
        let mut products = HashMap::new();
        std::mem::swap(&mut products, &mut self.products);
        products.insert(product.listing_id, product);
        self.products = products;
        assert(self@ =~= seeded(before, p));
    }
}

/// The stock counters of every listing.
pub struct CounterStore {
    pub counters: HashMap<u128, Inventory>,
}

impl CounterStore {
    pub fn new() -> (r: CounterStore)
        ensures
            r.counters@ == Map::<u128, Inventory>::empty(),
    {
        CounterStore { counters: HashMap::new() }
    }

    /// The counters of a listing.
    pub fn get(&self, listing_id: u128) -> (r: Option<Inventory>)
        ensures
            r == self.counters@.get(listing_id),
    {
        match self.counters.get(&listing_id) {
            Some(c) => Some(*c),
            None => None,
        }
    }

    /// Sets the counters of a listing.
    pub fn set(&mut self, listing_id: u128, counts: Inventory)
        ensures
            final(self).counters@ == old(self).counters@.insert(listing_id, counts),
    {
        self.counters.insert(listing_id, counts);
    }
}

/// Startup seeding: puts `product` into the catalog and sets its counters.
/// The catalog comes first, the order in which both are always taken.
pub fn seed(catalog: &mut ProductStore, stock: &mut CounterStore, product: Product, counts: Inventory)
    ensures
        final(catalog)@ == seeded(old(catalog)@, product@),
        final(stock).counters@ == old(stock).counters@.insert(product.listing_id, counts),
{
    let listing_id = product.listing_id;
    catalog.seed(product);
    stock.set(listing_id, counts);
}

} // verus!
