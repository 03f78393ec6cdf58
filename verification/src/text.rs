//! Two operations of `str` that the library takes from the standard
//! library as they are.

use vstd::prelude::*;

verus! {

/// What `str::trim` keeps of a text.
pub uninterp spec fn trimmed(text: Seq<char>) -> Seq<char>;

/// `str::trim`: the text without the whitespace at its start and at its
/// end. What counts as whitespace is the standard library's to say.
#[verifier::external_body]
pub(crate) fn trim_text(text: &str) -> (kept: &str)
    ensures
        kept@ == trimmed(text@),
{
    text.trim()
}

/// `==` of `str`: whether two string slices hold the same text.
#[verifier::external_body]
pub(crate) fn same_text(a: &str, b: &str) -> (same: bool)
    ensures
        same == (a@ == b@),
{
    a == b
}

} // verus!
