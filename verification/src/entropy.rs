//! Draws of fresh identifiers from the process-wide random generator.

use vstd::prelude::*;

verus! {

/// Relies on fastrand::u128 over the full range: a pseudo-random draw from the
/// process-wide generator. Nothing is promised of the value; the full range is
/// never empty, so the call cannot panic.
#[verifier::external_body]
pub(crate) fn random_u128() -> u128 {
    fastrand::u128(..)
}

/// Relies on fastrand::u64 over the full range: a pseudo-random draw from the
/// process-wide generator. Nothing is promised of the value; the full range is
/// never empty, so the call cannot panic.
#[verifier::external_body]
pub(crate) fn random_u64() -> u64 {
    fastrand::u64(..)
}

} // verus!
