//! Native core of a desktop onboarding wizard: persists the wizard's
//! progress document as JSON, stores an opaque configuration text for an
//! external background service, resolves the fixed on-disk layout under the
//! user's home directory, and decides the best-effort shutdown cleanup of
//! the recorded service process.

use vstd::prelude::*;

pub mod assemble;
pub mod document;
pub mod json;
pub mod laws;
pub mod lifecycle;
pub mod parse;
pub mod paths;
pub mod probe;
pub mod store;
pub mod render;
pub mod roundtrip;
pub mod state;
pub mod statedoc;

verus! {

/// A single character as a one-character string.
///
/// Relies on String::from(char): the resulting string contains exactly
/// that character.
#[verifier::external_body]
pub(crate) fn char_to_string(c: char) -> (r: String)
    ensures
        r@ == seq![c],
{
    String::from(c)
}

} // verus!
