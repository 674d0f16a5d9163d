//! What the string type takes from `core::fmt`, which the verifier does not
//! look into: the two types that a formatted write passes around, and the
//! two operations on them that the trait impls need. Nothing is claimed of
//! their results.

use vstd::prelude::*;

verus! {

/// `core::fmt::Error`, the error of a formatted write. It holds nothing.
#[verifier::external_type_specification]
#[verifier::external_body]
pub struct ExFmtError(core::fmt::Error);

/// `core::fmt::Formatter`, the destination and settings of a formatting run.
#[verifier::external_type_specification]
#[verifier::external_body]
pub struct ExFormatter<'a>(core::fmt::Formatter<'a>);

/// Makes a `core::fmt::Error`, the one value of that type.
#[verifier::external_body]
pub(crate) fn fmt_error() -> core::fmt::Error {
    core::fmt::Error
}

/// Renders `s` into `f` as `str`'s own `core::fmt::Debug::fmt` does: quoted
/// and escaped. What was written, and whether it succeeded, is up to `f`.
#[verifier::external_body]
pub(crate) fn debug_str(s: &str, f: &mut core::fmt::Formatter<'_>) -> core::fmt::Result {
    core::fmt::Debug::fmt(s, f)
}

} // verus!
