//! Fresh identifiers for identities and listings.

use uuid::Uuid;
use vstd::prelude::*;

verus! {

/// Relies on `Uuid::new_v4`: a random version-4 identifier, read as its
/// 128-bit value. Nothing is known of which value comes back.
#[verifier::external_body]
pub(crate) fn random_uuid() -> (r: u128) {
    Uuid::new_v4().as_u128()
}

/// The lowercase hex digit of `n` (0 to 15).
pub open spec fn hex_digit(n: int) -> char {
    seq!['0', '1', '2', '3', '4', '5', '6', '7', '8', '9', 'a', 'b', 'c', 'd', 'e', 'f'][n]
}

/// The `k`-th of the 32 hex digits of `id`, most significant first.
pub open spec fn uuid_nibble(id: u128, k: int) -> int {
    (id as int / vstd::arithmetic::power::pow(16, (31 - k) as nat)) % 16
}

/// Which hex digit stands at position `i` of the hyphenated text.
pub open spec fn digit_at(i: int) -> int {
    if i < 8 {
        i
    } else if i < 13 {
        i - 1
    } else if i < 18 {
        i - 2
    } else if i < 23 {
        i - 3
    } else {
        i - 4
    }
}

/// The hyphenated lowercase text of a UUID: 32 hex digits, most significant
/// first, in groups of 8, 4, 4, 4 and 12 joined by hyphens.
pub open spec fn uuid_text(id: u128) -> Seq<char> {
    Seq::new(
        36,
        |i: int|
            if i == 8 || i == 13 || i == 18 || i == 23 {
                '-'
            } else {
                hex_digit(uuid_nibble(id, digit_at(i)))
            },
    )
}

/// Relies on `Uuid::from_u128` (big-endian bytes) and `Uuid`'s `Display`,
/// which writes the hyphenated lowercase form.
#[verifier::external_body]
pub(crate) fn hyphenated(id: u128) -> (r: String)
    ensures
        r@ == uuid_text(id),
{
    Uuid::from_u128(id).to_string()
}

} // verus!
