//! Row identifiers: fresh ids carry a kind byte in front of random bytes.

use vstd::prelude::*;

verus! {

/// Which table a fresh identifier is minted for.
pub enum IdPrefix {
    Org,
    Project,
    Campaign,
    Reward,
}

/// The byte each kind stamps into a fresh identifier.
pub open spec fn prefix_code(kind: IdPrefix) -> u8 {
    match kind {
        IdPrefix::Org => 1u8,
        IdPrefix::Project => 2u8,
        IdPrefix::Campaign => 3u8,
        IdPrefix::Reward => 4u8,
    }
}

impl IdPrefix {
    pub fn code(&self) -> (c: u8)
        ensures
            c == prefix_code(*self),
    {
        match self {
            IdPrefix::Org => 1,
            IdPrefix::Project => 2,
            IdPrefix::Campaign => 3,
            IdPrefix::Reward => 4,
        }
    }
}

/// Relies on uuid::Uuid::new_v4 and to_bytes_le: sixteen bytes of a fresh
/// random identifier; nothing is promised of their values. The call aborts
/// only if the operating system's randomness source fails — an environmental
/// failure, independent of any input.
#[verifier::external_body]
fn random_uuid_bytes() -> (r: Vec<u8>)
    ensures
        r@.len() == 16,
{
    uuid::Uuid::new_v4().to_bytes_le().to_vec()
}

/// A fresh identifier, its first byte stamped with the kind: sixteen bytes
/// in the store's little-endian layout.
pub fn new_uuid(kind: IdPrefix) -> (r: Vec<u8>)
    ensures
        r@.len() == 16,
        r@[0] == prefix_code(kind),
{
    let mut b = random_uuid_bytes();
    let code = kind.code();
    b[0] = code;
    b
}

} // verus!
