//! Small helpers on text.

use vstd::prelude::*;
use vstd::string::*;

verus! {

/// The text that lower-casing `s` gives, character by character as Unicode
/// defines it.
pub uninterp spec fn lowercase_of(s: Seq<char>) -> Seq<char>;

/// Calls `str::to_lowercase` of the standard library. The contract only
/// names the result: it is the lower-case form of `s`, a function of `s`
/// alone.
#[verifier::external_body]
pub(crate) fn lowercase(s: &str) -> (low: String)
    ensures
        low@ == lowercase_of(s@),
{
    s.to_lowercase()
}

/// Tells whether two texts hold the same characters.
pub fn same_text(a: &str, b: &str) -> (same: bool)
    ensures
        same == (a@ == b@),
{
    let left = a.to_owned();
    let right = b.to_owned();
    left == right
}

} // verus!
