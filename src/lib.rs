//! In-memory core of a small storefront: user identities with argon2
//! credentials, cookie sessions, the product catalog with its stock counters,
//! and one shopping cart per identity.

pub mod account;
pub mod api;
pub mod cart;
pub mod components;
pub mod credential;
mod ident;
pub mod session;
pub mod store;
