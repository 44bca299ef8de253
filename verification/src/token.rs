//! Generation of fresh ownership tokens: random 128-bit identifiers rendered
//! as text, so that guessing one is the only way to hijack a claimed name.

use vstd::prelude::*;

verus! {

/// Relies on uuid::Uuid::new_v4 and its Display form: a random version-4
/// identifier rendered as 36 characters of hyphenated lowercase hex. The
/// result is random, so nothing relates it to earlier calls or arguments.
#[verifier::external_body]
pub(crate) fn fresh_token() -> (r: String)
    ensures
        r@.len() == 36,
{
    uuid::Uuid::new_v4().to_string()
}

} // verus!
