//! Identifiers for entities.  Every concept, experiment and artifact gets a
//! 128-bit identifier drawn from a random generator; nothing in the
//! simulation depends on the value of an identifier, only on equality.

use vstd::prelude::*;

verus! {

/// Relies on `uuid::Uuid::new_v4` for a freshly drawn random identifier;
/// nothing is promised of the value.
#[verifier::external_body]
pub(crate) fn fresh_id() -> u128 {
    uuid::Uuid::new_v4().as_u128()
}

} // verus!
