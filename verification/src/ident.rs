//! Identifiers of rooms and users.

use vstd::prelude::*;

verus! {

/// Whether `id` has the fixed bits of a random (version 4) UUID: the
/// version field holds 4 and the variant field holds binary 10.
pub open spec fn is_random_uuid(id: u128) -> bool {
    id & 0xF000_C000_0000_0000_0000u128 == 0x4000_8000_0000_0000_0000u128
}

/// A new identifier.
///
/// Trusted: the body calls `uuid::Uuid::new_v4` and hands the UUID out as the
/// integer that `uuid::Uuid::as_u128` gives, the first byte being the most
/// significant. `new_v4` draws 128 random bits and then forces the version
/// and variant fields, and that is all the contract claims: nothing is said
/// of the other bits, so two calls may give any two such values. `new_v4`
/// panics if the operating system's random source fails.
#[verifier::external_body]
pub(crate) fn fresh_id() -> (id: u128)
    ensures
        is_random_uuid(id),
{
    uuid::Uuid::new_v4().as_u128()
}

} // verus!
