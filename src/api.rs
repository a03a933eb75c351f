//! The cart operations as the HTTP layer asks for them: the caller's identity
//! may be missing, and failures come back as a cause and a message.

use crate::cart::{add_fits, cart_of, cart_wf, with_added, without, Cart, CartError, CartStore};
use crate::ident::{hyphenated, uuid_text};
use crate::store::{has_listing, listing, ProductStore};
use vstd::prelude::*;

verus! {

/// The kind of a failure reported to the client.
#[derive(Clone, Copy, Debug, PartialEq, Eq, Structural)]
pub enum ErrorCause {
    Internal,
    Unauthorized,
    MissingInventory,
}

/// A failure reported to the client.
#[derive(Clone, Debug)]
pub struct StoreError {
    pub reason: ErrorCause,
    pub message: String,
}

impl StoreError {
    pub fn internal(message: String) -> (r: StoreError)
        ensures
            r.reason == ErrorCause::Internal,
            r.message == message,
    {
        StoreError { reason: ErrorCause::Internal, message }
    }

    pub fn unauthorized(message: String) -> (r: StoreError)
        ensures
            r.reason == ErrorCause::Unauthorized,
            r.message == message,
    {
        StoreError { reason: ErrorCause::Unauthorized, message }
    }

    pub fn missing_inventory(message: String) -> (r: StoreError)
        ensures
            r.reason == ErrorCause::MissingInventory,
            r.message == message,
    {
        StoreError { reason: ErrorCause::MissingInventory, message }
    }
}

/// The body of a request to add units of a listing to the cart.
#[derive(Clone, Copy, Debug, PartialEq, Eq, Structural)]
pub struct AddToCart {
    pub number: usize,
}

/// The body of a request to remove a listing from the cart.
#[derive(Clone, Copy, Debug, PartialEq, Eq, Structural)]
pub struct RemoveFromCart {
    pub listing_id: u128,
}

/// The caller's cart; anonymous callers are refused.
pub fn fetch_cart(carts: &mut CartStore, user: Option<u128>) -> (r: Result<Cart, StoreError>)
    ensures
        match user {
            None => {
                &&& r is Err
                &&& r->Err_0.reason == ErrorCause::Unauthorized
                &&& r->Err_0.message@ == "Must be logged in to view cart"@
                &&& final(carts)@ == old(carts)@
            },
            Some(u) => {
                &&& r is Ok
                &&& r->Ok_0@ == cart_of(old(carts)@, u)
                &&& final(carts)@ == old(carts)@.insert(u, r->Ok_0@)
                &&& cart_wf(r->Ok_0@)
            },
        },
{
    match user {
        None => Err(StoreError::unauthorized("Must be logged in to view cart".to_owned())),
        Some(u) => Ok(carts.get_cart(u)),
    }
}

/// Adds units of a listing to the caller's cart. Anonymous callers are
/// refused; an unknown listing is reported with its id, a zero or
/// overflowing quantity as an internal error.
pub fn add_to_cart(
    carts: &mut CartStore,
    catalog: &ProductStore,
    user: Option<u128>,
    listing_id: u128,
    item: AddToCart,
) -> (r: Result<Cart, StoreError>)
    ensures
        r is Err ==> final(carts)@ == old(carts)@,
        user is None ==> r is Err && r->Err_0.reason == ErrorCause::Unauthorized
            && r->Err_0.message@ == "user not found"@,
        user is Some && !has_listing(catalog@, listing_id) ==> r is Err && r->Err_0.reason
            == ErrorCause::MissingInventory && r->Err_0.message@ == uuid_text(listing_id),
        user is Some && has_listing(catalog@, listing_id) && (item.number == 0 || !add_fits(
            cart_of(old(carts)@, user->Some_0),
            listing_id,
            item.number as nat,
        )) ==> r is Err && r->Err_0.reason == ErrorCause::Internal && r->Err_0.message@
            == "invalid quantity"@,
        user is Some && has_listing(catalog@, listing_id) && item.number >= 1 && add_fits(
            cart_of(old(carts)@, user->Some_0),
            listing_id,
            item.number as nat,
        ) ==> r is Ok,
        r is Ok ==> {
            let u = user->Some_0;
            &&& user is Some
            &&& r->Ok_0@ == with_added(
                cart_of(old(carts)@, u),
                listing(catalog@, listing_id),
                item.number as nat,
            )
            &&& final(carts)@ == old(carts)@.insert(u, r->Ok_0@)
            &&& cart_wf(r->Ok_0@)
        },
{
    let u = match user {
        Some(u) => u,
        None => {
            return Err(StoreError::unauthorized("user not found".to_owned()));
        },
    };
    match carts.add_item(u, listing_id, item.number, catalog) {
        Ok(cart) => Ok(cart),
        Err(CartError::MissingInventory) => Err(StoreError::missing_inventory(hyphenated(listing_id))),
        Err(CartError::InvalidQuantity) => Err(StoreError::internal("invalid quantity".to_owned())),
    }
}

/// Removes a listing from the caller's cart; anonymous callers are refused.
pub fn remove_from_cart(carts: &mut CartStore, user: Option<u128>, listing_id: u128) -> (r: Result<
    Cart,
    StoreError,
>)
    ensures
        match user {
            None => {
                &&& r is Err
                &&& r->Err_0.reason == ErrorCause::Unauthorized
                &&& r->Err_0.message@ == "user not found"@
                &&& final(carts)@ == old(carts)@
            },
            Some(u) => {
                &&& r is Ok
                &&& r->Ok_0@ == without(cart_of(old(carts)@, u), listing_id)
                &&& final(carts)@ == old(carts)@.insert(u, r->Ok_0@)
                &&& cart_wf(r->Ok_0@)
            },
        },
{
    match user {
        None => Err(StoreError::unauthorized("user not found".to_owned())),
        Some(u) => Ok(carts.remove_item(u, listing_id)),
    }
}

} // verus!
