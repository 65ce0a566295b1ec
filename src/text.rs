//! Text primitives the matcher is built on: case folding and edit distance.
use vstd::prelude::*;

verus! {

/// What `str::to_lowercase` makes of a sequence of characters.
pub uninterp spec fn lower_of(s: Seq<char>) -> Seq<char>;

/// What `strsim::levenshtein` reports for two sequences of characters.
pub uninterp spec fn levenshtein_of(a: Seq<char>, b: Seq<char>) -> nat;

/// Relies on `str::to_lowercase`: the lowercase form of a string depends on
/// its characters alone, and the empty string stays empty.
#[verifier::external_body]
pub(crate) fn lowercase(s: &str) -> (r: String)
    ensures
        r@ == lower_of(s@),
        s@.len() == 0 ==> r@.len() == 0,
{
    s.to_lowercase()
}

/// Relies on `strsim::levenshtein`: the number of single-character
/// insertions, deletions and substitutions between the two strings, counted
/// over Unicode scalar values, which depends on the two strings alone.
#[verifier::external_body]
pub(crate) fn levenshtein(a: &str, b: &str) -> (r: usize)
    ensures
        r as nat == levenshtein_of(a@, b@),
{
    strsim::levenshtein(a, b)
}

} // verus!
