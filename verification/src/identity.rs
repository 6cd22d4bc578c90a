//! The outside types that rows carry.

use spacetimedb::Identity;
use vstd::prelude::*;

verus! {

/// `spacetimedb::Identity`, who a client is. Opaque here: identities are only
/// carried and compared.
#[verifier::external_type_specification]
#[verifier::external_body]
pub struct ExIdentity(spacetimedb::Identity);

/// `spacetimedb::Timestamp`, a point in time. Opaque here: it is only carried.
#[verifier::external_type_specification]
#[verifier::external_body]
pub struct ExTimestamp(spacetimedb::Timestamp);

/// Whether two identities are the same, by `==` on `spacetimedb::Identity`,
/// which compares the 256-bit numbers that the two values consist of. The
/// contract claims that `==` holds exactly of equal values.
#[verifier::external_body]
pub(crate) fn same_identity(a: &Identity, b: &Identity) -> (same: bool)
    ensures
        same == (*a == *b),
{
    *a == *b
}

/// Whether the optional identity is the given one.
pub fn is_identity(a: &Option<Identity>, b: &Identity) -> (same: bool)
    ensures
        same == (*a == Some(*b)),
{
    match a {
        Some(id) => same_identity(id, b),
        None => false,
    }
}

} // verus!
