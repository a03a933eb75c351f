//! Shopping carts: one per identity, each holding at most one line per
//! listing.

use crate::store::{has_listing, listing, Money, Product, ProductStore, ProductView};
use std::collections::HashMap;
use vstd::prelude::*;

verus! {

broadcast use vstd::std_specs::hash::group_hash_axioms;

/// One line of a cart: a listing and how many units of it.
#[derive(Clone, Debug)]
pub struct CartItem {
    pub listing: Product,
    pub number: usize,
}

/// The value of a `CartItem`, as the contracts speak of it.
pub struct CartItemView {
    pub listing: ProductView,
    pub number: nat,
}

impl View for CartItem {
    type V = CartItemView;

    open spec fn view(&self) -> CartItemView {
        CartItemView { listing: self.listing@, number: self.number as nat }
    }
}

/// The lines of one identity's cart.
#[derive(Clone, Debug)]
pub struct Cart {
    pub items: Vec<CartItem>,
}

impl View for Cart {
    type V = Seq<CartItemView>;

    open spec fn view(&self) -> Seq<CartItemView> {
        self.items@.map_values(|i: CartItem| i@)
    }
}

/// Why a cart operation was refused.
#[derive(Clone, Copy, Debug, PartialEq, Eq, Structural)]
pub enum CartError {
    /// The catalog has no listing with the requested id.
    MissingInventory,
    /// The quantity is zero, or the line's total would not fit a `usize`.
    InvalidQuantity,
}

/// Every line holds at least one unit, and no two lines hold the same listing.
pub open spec fn cart_wf(items: Seq<CartItemView>) -> bool {
    &&& forall|i: int| 0 <= i < items.len() ==> #[trigger] items[i].number >= 1
    &&& forall|i: int, j: int|
        0 <= i < items.len() && 0 <= j < items.len() && i != j ==> #[trigger] items[i].listing.listing_id
            != #[trigger] items[j].listing.listing_id
}

pub open spec fn has_item(items: Seq<CartItemView>, listing_id: u128) -> bool {
    exists|i: int| 0 <= i < items.len() && #[trigger] items[i].listing.listing_id == listing_id
}

/// The position of the line for `listing_id` (meaningful when `has_item`).
pub open spec fn item_index(items: Seq<CartItemView>, listing_id: u128) -> int {
    choose|i: int| 0 <= i < items.len() && #[trigger] items[i].listing.listing_id == listing_id
}

/// The lines after adding `number` units of `p`: the line for `p` grows, or a
/// new line is appended when there is none.
pub open spec fn with_added(items: Seq<CartItemView>, p: ProductView, number: nat) -> Seq<
    CartItemView,
> {
    if has_item(items, p.listing_id) {
        let i = item_index(items, p.listing_id);
        items.update(i, CartItemView { listing: items[i].listing, number: items[i].number + number })
    } else {
        items.push(CartItemView { listing: p, number })
    }
}

/// Whether adding `number` units of `listing_id` keeps the line's count
/// within `usize`.
pub open spec fn add_fits(items: Seq<CartItemView>, listing_id: u128, number: nat) -> bool {
    has_item(items, listing_id) ==> items[item_index(items, listing_id)].number + number
        <= usize::MAX
}

/// The lines after removing the line for `listing_id`, if there is one.
pub open spec fn without(items: Seq<CartItemView>, listing_id: u128) -> Seq<CartItemView> {
    if has_item(items, listing_id) {
        items.remove(item_index(items, listing_id))
    } else {
        items
    }
}

/// The exact sum, in cents, of unit price times quantity over the lines.
pub open spec fn items_total(items: Seq<CartItemView>) -> int
    decreases items.len(),
{
    if items.len() == 0 {
        0
    } else {
        items_total(items.drop_last()) + items.last().listing.price.cents * items.last().number
    }
}

/// The cart that an identity has in `carts`: empty when none was made yet.
pub open spec fn cart_of(carts: Map<u128, Seq<CartItemView>>, user: u128) -> Seq<CartItemView> {
    if carts.contains_key(user) {
        carts[user]
    } else {
        Seq::empty()
    }
}

proof fn lemma_total_grows(items: Seq<CartItemView>, i: int)
    requires
        0 <= i <= items.len(),
    ensures
        items_total(items.subrange(0, i)) <= items_total(items),
    decreases items.len() - i,
{
    if i < items.len() {
        lemma_total_grows(items, i + 1);
        let s = items.subrange(0, i + 1);
        assert(s.drop_last() =~= items.subrange(0, i));
        assert(s.last().listing.price.cents * s.last().number >= 0) by (nonlinear_arith);
    } else {
        assert(items.subrange(0, i) =~= items);
    }
}

impl Default for Cart {
    fn default() -> (r: Cart)
        ensures
            r@ == Seq::<CartItemView>::empty(),
    {
        let r = Cart { items: Vec::new() };
        assert(r@ =~= Seq::<CartItemView>::empty());
        r
    }
}

impl Cart {
    pub fn new(items: Vec<CartItem>) -> (r: Cart)
        ensures
            r.items == items,
    {
        Cart { items }
    }

    /// The exact sum of unit price times quantity over the lines; `None` when
    /// it does not fit in a `u128` of cents.
    pub fn subtotal(&self) -> (r: Option<Money>)
        ensures
            r == (if items_total(self@) <= u128::MAX {
                Some(Money { cents: items_total(self@) as u128 })
            } else {
                None::<Money>
            }),
    {
        let mut acc: u128 = 0;
        let mut i: usize = 0;
        while i < self.items.len()
            invariant
                i <= self.items@.len(),
                self@.len() == self.items@.len(),
                acc == items_total(self@.subrange(0, i as int)),
            decreases self.items@.len() - i,
        {
            let ghost s = self@.subrange(0, i + 1);
            assert(s.drop_last() =~= self@.subrange(0, i as int));
            assert(s.last() == self.items@[i as int]@);
            let item = &self.items[i];
            let line = match item.listing.price.cents.checked_mul(item.number as u128) {
                Some(v) => v,
                None => {
                    proof {
                        lemma_total_grows(self@, i + 1);
                        assert(acc >= 0);
                    }
                    return None;
                },
            };
            acc = match acc.checked_add(line) {
                Some(v) => v,
                None => {
                    proof {
                        lemma_total_grows(self@, i + 1);
                    }
                    return None;
                },
            };
            i = i + 1;
        }
        assert(self@.subrange(0, i as int) =~= self@);
        Some(Money { cents: acc })
    }

    /// A copy of this cart.
    pub fn duplicate(&self) -> (r: Cart)
        ensures
            r@ == self@,
    {
        let mut items: Vec<CartItem> = Vec::new();
        let mut i: usize = 0;
        while i < self.items.len()
            invariant
                i <= self.items@.len(),
                items@.len() == i,
                forall|k: int| 0 <= k < i ==> #[trigger] items@[k]@ == self.items@[k]@,
            decreases self.items@.len() - i,
        {
            let item = &self.items[i];
            items.push(CartItem { listing: item.listing.duplicate(), number: item.number });
            i = i + 1;
        }
        let r = Cart { items };
        assert(r@ =~= self@);
        r
    }

    fn position(&self, listing_id: u128) -> (r: Option<usize>)
        requires
            cart_wf(self@),
        ensures
            match r {
                Some(i) => has_item(self@, listing_id) && i == item_index(self@, listing_id)
                    && i < self@.len(),
                None => !has_item(self@, listing_id),
            },
    {
        let mut i: usize = 0;
        while i < self.items.len()
            invariant
                i <= self.items@.len(),
                self@.len() == self.items@.len(),
                cart_wf(self@),
                forall|k: int| 0 <= k < i ==> #[trigger] self@[k].listing.listing_id != listing_id,
            decreases self.items@.len() - i,
        {
            assert(self@[i as int] == self.items@[i as int]@);
            if self.items[i].listing.listing_id == listing_id {
                proof {
                    assert(self@[i as int].listing.listing_id == listing_id);
                    assert(has_item(self@, listing_id));
                    let k = item_index(self@, listing_id);
                    assert(self@[k].listing.listing_id == listing_id);
                    assert(k == i);
                }
                return Some(i);
            }
            i = i + 1;
        }
        None
    }

    /// Adds `number` units of `product`: the line for it grows, or a new line
    /// is appended.
    fn add_units(&mut self, product: Product, number: usize)
        requires
            cart_wf(old(self)@),
            number >= 1,
            add_fits(old(self)@, product.listing_id, number as nat),
        ensures
            final(self)@ == with_added(old(self)@, product@, number as nat),
            cart_wf(final(self)@),
    {
        let ghost before = self@;
        match self.position(product.listing_id) {
            Some(i) => {
                let count = self.items[i].number + number;
                self.items[i].number = count;
                proof {
                    let after = before.update(
                        i as int,
                        CartItemView { listing: before[i as int].listing, number: count as nat },
                    );
                    assert(self@ =~= after);
                    assert forall|a: int, b: int|
                        0 <= a < after.len() && 0 <= b < after.len() && a != b implies
                        #[trigger] after[a].listing.listing_id != #[trigger] after[b].listing.listing_id by {
                        assert(before[a].listing.listing_id != before[b].listing.listing_id);
                    }
                    assert forall|a: int| 0 <= a < after.len() implies #[trigger] after[a].number >= 1 by {
                        assert(before[a].number >= 1);
                    }
                }
            },
            None => {
                let ghost p = product@;
                self.items.push(CartItem { listing: product, number });
                proof {
                    let after = before.push(CartItemView { listing: p, number: number as nat });
                    assert(self@ =~= after);
                    assert forall|a: int, b: int|
                        0 <= a < after.len() && 0 <= b < after.len() && a != b implies
                        #[trigger] after[a].listing.listing_id != #[trigger] after[b].listing.listing_id by {
                        if a < before.len() && b < before.len() {
                            assert(after[a] == before[a]);
                            assert(after[b] == before[b]);
                        } else if a < before.len() {
                            assert(after[a] == before[a]);
                        } else {
                            assert(after[b] == before[b]);
                        }
                    }
                    assert forall|a: int| 0 <= a < after.len() implies #[trigger] after[a].number >= 1 by {
                        if a < before.len() {
                            assert(after[a] == before[a]);
                        }
                    }
                }
            },
        }
    }

    /// Removes the line for `listing_id`, if there is one.
    fn remove_listing(&mut self, listing_id: u128)
        requires
            cart_wf(old(self)@),
        ensures
            final(self)@ == without(old(self)@, listing_id),
            cart_wf(final(self)@),
    {
        let ghost before = self@;
        match self.position(listing_id) {
            Some(i) => {
                self.items.remove(i);
                proof {
                    let after = before.remove(i as int);
                    assert(self@ =~= after);
                    assert forall|a: int, b: int|
                        0 <= a < after.len() && 0 <= b < after.len() && a != b implies
                        #[trigger] after[a].listing.listing_id != #[trigger] after[b].listing.listing_id by {
                        let a0 = if a < i { a } else { a + 1 };
                        let b0 = if b < i { b } else { b + 1 };
                        assert(after[a] == before[a0]);
                        assert(after[b] == before[b0]);
                    }
                    assert forall|a: int| 0 <= a < after.len() implies #[trigger] after[a].number >= 1 by {
                        let a0 = if a < i { a } else { a + 1 };
                        assert(after[a] == before[a0]);
                    }
                }
            },
            None => {},
        }
    }
}

/// Every identity's cart.
pub struct CartStore {
    carts: HashMap<u128, Cart>,
}

impl View for CartStore {
    type V = Map<u128, Seq<CartItemView>>;

    closed spec fn view(&self) -> Map<u128, Seq<CartItemView>> {
        self.carts@.map_values(|c: Cart| c@)
    }
}

impl CartStore {
    #[verifier::type_invariant]
    spec fn inv(&self) -> bool {
        forall|u: u128| #[trigger] self.carts@.contains_key(u) ==> cart_wf(self.carts@[u]@)
    }

    pub fn new() -> (r: CartStore)
        ensures
            r@ == Map::<u128, Seq<CartItemView>>::empty(),
    {
        let r = CartStore { carts: HashMap::new() };
        assert(r@ =~= Map::<u128, Seq<CartItemView>>::empty());
        r
    }

    /// Takes the identity's cart out of `carts` (an empty one when it has
    /// none yet).
    fn take_cart(carts: &mut HashMap<u128, Cart>, user: u128) -> (r: Cart)
        requires
            forall|u: u128| #[trigger] old(carts)@.contains_key(u) ==> cart_wf(old(carts)@[u]@),
        ensures
            final(carts)@ == old(carts)@.remove(user),
            r@ == cart_of(old(carts)@.map_values(|c: Cart| c@), user),
            cart_wf(r@),
    {
        match carts.remove(&user) {
            Some(c) => c,
            None => Cart::default(),
        }
    }

    /// Puts `cart` back as the identity's cart and hands out a copy of it.
    fn put_back(&mut self, carts: HashMap<u128, Cart>, user: u128, cart: Cart) -> (r: Cart)
        requires
            forall|u: u128| #[trigger] carts@.contains_key(u) ==> cart_wf(carts@[u]@),
            cart_wf(cart@),
        ensures
            final(self)@ == carts@.map_values(|c: Cart| c@).insert(user, cart@),
            r@ == cart@,
    {
        let mut carts = carts;
        let r = cart.duplicate();
        carts.insert(user, cart);
        self.carts = carts;
        assert(self@ =~= carts@.map_values(|c: Cart| c@));
        r
    }

    /// The identity's cart, made empty on first access.
    pub fn get_cart(&mut self, user: u128) -> (r: Cart)
        ensures
            r@ == cart_of(old(self)@, user),
            final(self)@ == old(self)@.insert(user, r@),
            forall|other: u128| other != user ==> #[trigger] cart_of(final(self)@, other) == cart_of(
                old(self)@,
                other,
            ),
            cart_wf(r@),
    {
        proof {
            use_type_invariant(&*self);
        }
        let ghost before = self@;
        let mut carts = HashMap::new();
        std::mem::swap(&mut carts, &mut self.carts);
        assert(carts@.map_values(|c: Cart| c@) =~= before);
        let cart = CartStore::take_cart(&mut carts, user);
        let r = self.put_back(carts, user, cart);
        assert(self@ =~= before.insert(user, r@));
        r
    }

    /// Adds `number` units of the listing `listing_id` to the identity's cart
    /// and returns the cart. Fails, changing nothing, with `MissingInventory`
    /// when the catalog has no such listing, and with `InvalidQuantity` when
    /// `number` is zero or the line's count would overflow.
    pub fn add_item(&mut self, user: u128, listing_id: u128, number: usize, catalog: &ProductStore) -> (r:
        Result<Cart, CartError>)
        ensures
            !has_listing(catalog@, listing_id) ==> r == Err::<Cart, CartError>(
                CartError::MissingInventory,
            ),
            has_listing(catalog@, listing_id) && (number == 0 || !add_fits(
                cart_of(old(self)@, user),
                listing_id,
                number as nat,
            )) ==> r == Err::<Cart, CartError>(CartError::InvalidQuantity),
            has_listing(catalog@, listing_id) && number >= 1 && add_fits(
                cart_of(old(self)@, user),
                listing_id,
                number as nat,
            ) ==> r is Ok,
            r is Err ==> final(self)@ == old(self)@,
            r is Ok ==> {
                &&& r->Ok_0@ == with_added(
                    cart_of(old(self)@, user),
                    listing(catalog@, listing_id),
                    number as nat,
                )
                &&& final(self)@ == old(self)@.insert(user, r->Ok_0@)
                &&& cart_wf(r->Ok_0@)
            },
            forall|other: u128| other != user ==> #[trigger] cart_of(final(self)@, other) == cart_of(
                old(self)@,
                other,
            ),
    {
        proof {
            use_type_invariant(&*self);
        }
        let ghost before = self@;
        let product = match catalog.get(listing_id) {
            Some(p) => p,
            None => {
                return Err(CartError::MissingInventory);
            },
        };
        if number == 0 {
            return Err(CartError::InvalidQuantity);
        }
        let mut carts = HashMap::new();
        std::mem::swap(&mut carts, &mut self.carts);
        assert(carts@.map_values(|c: Cart| c@) =~= before);
        let mut cart = CartStore::take_cart(&mut carts, user);
        match cart.position(listing_id) {
            Some(i) => {
                if cart.items[i].number > usize::MAX - number {
                    let _ = self.put_back(carts, user, cart);
                    proof {
                        if before.contains_key(user) {
                            assert(self@ =~= before);
                        } else {
                            assert(false);
                        }
                    }
                    return Err(CartError::InvalidQuantity);
                }
            },
            None => {},
        }
        cart.add_units(product, number);
        let r = self.put_back(carts, user, cart);
        assert(self@ =~= before.insert(user, r@));
        Ok(r)
    }

    /// Removes the listing's line from the identity's cart, if there is one,
    /// and returns the cart.
    pub fn remove_item(&mut self, user: u128, listing_id: u128) -> (r: Cart)
        ensures
            r@ == without(cart_of(old(self)@, user), listing_id),
            final(self)@ == old(self)@.insert(user, r@),
            forall|other: u128| other != user ==> #[trigger] cart_of(final(self)@, other) == cart_of(
                old(self)@,
                other,
            ),
            cart_wf(r@),
    {
        proof {
            use_type_invariant(&*self);
        }
        let ghost before = self@;
        let mut carts = HashMap::new();
        std::mem::swap(&mut carts, &mut self.carts);
        assert(carts@.map_values(|c: Cart| c@) =~= before);
        let mut cart = CartStore::take_cart(&mut carts, user);
        cart.remove_listing(listing_id);
        let r = self.put_back(carts, user, cart);
        assert(self@ =~= before.insert(user, r@));
        r
    }
}

/// Adding `a` units of a listing and then `b` more leaves a single line for
/// it, the same cart as adding `a + b` units at once.
pub proof fn lemma_add_twice(items: Seq<CartItemView>, p: ProductView, a: nat, b: nat)
    requires
        cart_wf(items),
        a >= 1,
        b >= 1,
    ensures
        with_added(with_added(items, p, a), p, b) == with_added(items, p, a + b),
        cart_wf(with_added(items, p, a + b)),
        with_added(items, p, a + b).len() == (if has_item(items, p.listing_id) {
            items.len()
        } else {
            items.len() + 1
        }),
        has_item(with_added(items, p, a + b), p.listing_id),
        with_added(items, p, a + b)[item_index(with_added(items, p, a + b), p.listing_id)].number
            == (if has_item(items, p.listing_id) {
            items[item_index(items, p.listing_id)].number
        } else {
            0
        }) + a + b,
{
    let id = p.listing_id;
    let s1 = with_added(items, p, a);
    let s = with_added(items, p, a + b);
    lemma_added_wf(items, p, a);
    lemma_added_wf(items, p, a + b);
    if has_item(items, id) {
        let i = item_index(items, id);
        assert(s1[i].listing.listing_id == id);
        assert(has_item(s1, id));
        assert(item_index(s1, id) == i);
        assert(s[i].listing.listing_id == id);
        assert(item_index(s, id) == i);
        assert(with_added(s1, p, b) =~= s);
    } else {
        let n = items.len() as int;
        assert(s1[n].listing.listing_id == id);
        assert(has_item(s1, id));
        let j = item_index(s1, id);
        if j < n {
            assert(items[j] == s1[j]);
        }
        assert(j == n);
        assert(s[n].listing.listing_id == id);
        let k = item_index(s, id);
        if k < n {
            assert(items[k] == s[k]);
        }
        assert(with_added(s1, p, b) =~= s);
    }
}

/// Adding at least one unit keeps a cart well formed.
pub proof fn lemma_added_wf(items: Seq<CartItemView>, p: ProductView, number: nat)
    requires
        cart_wf(items),
        number >= 1,
    ensures
        cart_wf(with_added(items, p, number)),
{
    let after = with_added(items, p, number);
    if has_item(items, p.listing_id) {
        let i = item_index(items, p.listing_id);
        assert forall|x: int, y: int|
            0 <= x < after.len() && 0 <= y < after.len() && x != y implies #[trigger] after[x].listing.listing_id
            != #[trigger] after[y].listing.listing_id by {
            assert(items[x].listing.listing_id != items[y].listing.listing_id);
        }
        assert forall|x: int| 0 <= x < after.len() implies #[trigger] after[x].number >= 1 by {
            assert(items[x].number >= 1);
        }
    } else {
        assert forall|x: int, y: int|
            0 <= x < after.len() && 0 <= y < after.len() && x != y implies #[trigger] after[x].listing.listing_id
            != #[trigger] after[y].listing.listing_id by {
            if x < items.len() && y < items.len() {
                assert(after[x] == items[x]);
                assert(after[y] == items[y]);
            } else if x < items.len() {
                assert(after[x] == items[x]);
            } else {
                assert(after[y] == items[y]);
            }
        }
        assert forall|x: int| 0 <= x < after.len() implies #[trigger] after[x].number >= 1 by {
            if x < items.len() {
                assert(after[x] == items[x]);
            }
        }
    }
}

/// Reading an identity's cart twice in a row, with no change in between,
/// gives equal carts and leaves the store as the first read left it.
pub proof fn lemma_get_cart_twice(carts: Map<u128, Seq<CartItemView>>, user: u128)
    ensures
        ({
            let after_first = carts.insert(user, cart_of(carts, user));
            &&& cart_of(after_first, user) == cart_of(carts, user)
            &&& after_first.insert(user, cart_of(after_first, user)) == after_first
        }),
{
    let after_first = carts.insert(user, cart_of(carts, user));
    assert(after_first.insert(user, cart_of(after_first, user)) =~= after_first);
}

} // verus!
