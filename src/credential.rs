//! Password credentials: salted argon2 digests and their verification.

use argon2::password_hash::{PasswordHash, PasswordHasher, PasswordVerifier, Salt, SaltString};
use argon2::Argon2;
use rand::rngs::OsRng;
use vstd::prelude::*;

verus! {

#[verifier::external_type_specification]
#[verifier::external_body]
pub struct ExHashError(argon2::password_hash::Error);

/// Why a credential operation failed: the hashing primitive itself reported
/// an error (bad parameters, or a digest that does not parse).
#[derive(Clone, Copy, Debug, PartialEq, Eq, Structural)]
pub enum CredentialError {
    HashingFailed,
}

/// What argon2's verifier (with default settings) says of `password` against
/// the PHC string `digest`: `Some(true)` when it matches, `Some(false)` when
/// argon2 reports a password mismatch, `None` when it reports any other error.
pub uninterp spec fn argon2_verdict(password: Seq<char>, digest: Seq<char>) -> Option<bool>;

/// A character of the B64 alphabet: standard Base64 without padding.
pub open spec fn is_b64_char(c: char) -> bool {
    ('A' <= c && c <= 'Z') || ('a' <= c && c <= 'z') || ('0' <= c && c <= '9') || c == '+' || c
        == '/'
}

/// The B64 text of 16 bytes: 22 characters, the last of which carries no
/// bits beyond the 128 encoded ones.
pub open spec fn is_salt_text(s: Seq<char>) -> bool {
    &&& s.len() == 22
    &&& forall|i: int| 0 <= i < 22 ==> is_b64_char(#[trigger] s[i])
    &&& (s[21] == 'A' || s[21] == 'Q' || s[21] == 'g' || s[21] == 'w')
}

/// How every digest made with argon2's defaults begins.
pub open spec fn argon2_prefix() -> Seq<char> {
    "$argon2id$v=19$m=19456,t=2,p=1$"@
}

/// A PHC string as argon2's defaults write it: the prefix, a 22-character
/// salt, a separator and the 43-character B64 text of a 32-byte output.
pub open spec fn is_argon2_digest(d: Seq<char>) -> bool {
    d.len() == 97 && d.subrange(0, 31) == argon2_prefix()
}

/// A password short enough for argon2 whatever its characters: at most four
/// bytes each, within argon2's limit of `u32::MAX` bytes.
pub open spec fn hashable(password: Seq<char>) -> bool {
    password.len() <= 0x3fff_ffff
}

/// Relies on `SaltString::generate` over `OsRng`: 16 random bytes written in
/// B64. Nothing is known of which bytes come back.
#[verifier::external_body]
fn random_salt() -> (r: String)
    ensures
        is_salt_text(r@),
{
    SaltString::generate(&mut OsRng).as_str().to_owned()
}

/// Relies on `Argon2::hash_password` with argon2's defaults (Argon2id v19,
/// m=19456, t=2, p=1, 32-byte output), rendered as a PHC string; the salt
/// text is read by `Salt::from_b64`. With the B64 text of 16 bytes as salt it
/// fails only on a password over `u32::MAX` bytes. Argon2's documentation
/// shows that the string verifies against the password it was made from.
#[verifier::external_body]
fn argon2_hash(password: &str, salt: &str) -> (r: Result<String, argon2::password_hash::Error>)
    ensures
        is_salt_text(salt@) && hashable(password@) ==> r is Ok,
        r is Ok ==> argon2_verdict(password@, r->Ok_0@) == Some(true),
        r is Ok && is_salt_text(salt@) ==> is_argon2_digest(r->Ok_0@) && r->Ok_0@.subrange(31, 53)
            == salt@,
{
    let salt = Salt::from_b64(salt)?;
    match Argon2::default().hash_password(password.as_bytes(), salt) {
        Ok(h) => Ok(h.to_string()),
        Err(e) => Err(e),
    }
}

/// Relies on `PasswordHash::new` (parsing the PHC string) and on
/// `Argon2::verify_password`: `Ok(true)` when it accepts, `Ok(false)` on its
/// `Error::Password` (mismatch), the error it reported otherwise.
#[verifier::external_body]
fn argon2_verify(password: &str, digest: &str) -> (r: Result<bool, argon2::password_hash::Error>)
    ensures
        match r {
            Ok(b) => argon2_verdict(password@, digest@) == Some(b),
            Err(_) => argon2_verdict(password@, digest@) is None,
        },
{
    let parsed = PasswordHash::new(digest)?;
    match Argon2::default().verify_password(password.as_bytes(), &parsed) {
        Ok(()) => Ok(true),
        Err(argon2::password_hash::Error::Password) => Ok(false),
        Err(e) => Err(e),
    }
}

/// Derives a salted digest of `plaintext`: a PHC string that verifies against
/// `plaintext`, with a fresh random salt on every call. Fails only when argon2
/// reports an error, which a password of `hashable` length never causes.
pub fn hash(plaintext: &str) -> (r: Result<String, CredentialError>)
    ensures
        hashable(plaintext@) ==> r is Ok,
        r is Ok ==> argon2_verdict(plaintext@, r->Ok_0@) == Some(true) && is_argon2_digest(
            r->Ok_0@,
        ),
{
    let salt = random_salt();
    match argon2_hash(plaintext, salt.as_str()) {
        Ok(d) => Ok(d),
        Err(_) => Err(CredentialError::HashingFailed),
    }
}

/// What `verify` returns: argon2's verdict, or `HashingFailed` when argon2
/// cannot use the digest.
pub open spec fn verify_result(plaintext: Seq<char>, digest: Seq<char>) -> Result<bool, CredentialError> {
    match argon2_verdict(plaintext, digest) {
        Some(b) => Ok(b),
        None => Err(CredentialError::HashingFailed),
    }
}

/// Checks `plaintext` against `digest`. A digest that argon2 cannot use is an
/// error, never a match.
pub fn verify(plaintext: &str, digest: &str) -> (r: Result<bool, CredentialError>)
    ensures
        r == verify_result(plaintext@, digest@),
{
    match argon2_verify(plaintext, digest) {
        Ok(b) => Ok(b),
        Err(_) => Err(CredentialError::HashingFailed),
    }
}

/// Every digest that `hash` returns for a plaintext verifies against that
/// plaintext.
pub proof fn lemma_password_round_trip(plaintext: Seq<char>, digest: Seq<char>)
    requires
        argon2_verdict(plaintext, digest) == Some(true),
    ensures
        verify_result(plaintext, digest) == Ok::<bool, CredentialError>(true),
{
}

} // verus!
