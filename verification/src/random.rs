//! Randomness: challenge nonces, refresh-token bytes and session ids.

use vstd::prelude::*;
use rand::{Rng, RngCore};

verus! {

/// Whether a character is an ASCII letter or digit.
pub open spec fn is_ascii_alphanumeric(c: char) -> bool {
    ('0' <= c <= '9') || ('a' <= c <= 'z') || ('A' <= c <= 'Z')
}

/// `thread_rng().sample_iter(&Alphanumeric).take(n)` collected into a
/// `String`: `n` characters drawn from `a-z`, `A-Z` and `0-9`.  Which ones
/// is left open.
#[verifier::external_body]
pub(crate) fn random_alphanumeric(n: usize) -> (s: String)
    ensures
        s@.len() == n,
        forall|i: int| 0 <= i < n ==> is_ascii_alphanumeric(#[trigger] s@[i]),
{
    rand::thread_rng().sample_iter(&rand::distributions::Alphanumeric).take(n).map(char::from).collect()
}

/// `thread_rng().fill_bytes` on 32 bytes; which bytes is left open.
#[verifier::external_body]
pub(crate) fn random_bytes_32() -> (b: [u8; 32]) {
    let mut bytes = [0u8; 32];
    rand::thread_rng().fill_bytes(&mut bytes);
    bytes
}

/// `Uuid::new_v4().as_u128()`: a random version-4 UUID as its 128-bit
/// value; which one is left open.
#[verifier::external_body]
pub(crate) fn new_uuid_v4() -> (id: u128) {
    uuid::Uuid::new_v4().as_u128()
}

} // verus!
