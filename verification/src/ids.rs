use vstd::prelude::*;

verus! {

/// Relies on uuid::Uuid::new_v4 (and Uuid::as_u128, which returns the
/// UUID's 128 bits as an integer): a freshly generated random version-4
/// UUID. The value is random, so nothing is promised of it; the store
/// checks generated identifiers for collisions before committing.
#[verifier::external_body]
pub(crate) fn fresh_id() -> u128 {
    uuid::Uuid::new_v4().as_u128()
}

} // verus!
