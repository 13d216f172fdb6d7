//! Unicode case mapping, which the standard library computes from its Unicode tables.
use vstd::prelude::*;

verus! {

/// What `str::to_lowercase` returns for a string.
pub uninterp spec fn lowercase_of(s: Seq<char>) -> Seq<char>;

/// Calls `str::to_lowercase`: the lowercase equivalent of `s` under the Unicode case tables
/// of the standard library. Its result depends on `s` alone; the contract names it and says
/// nothing more of it.
#[verifier::external_body]
pub(crate) fn to_lowercase(s: &str) -> (r: String)
    ensures
        r@ == lowercase_of(s@),
{
    s.to_lowercase()
}


} // verus!
