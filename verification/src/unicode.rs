//! What this library needs from Unicode: counting grapheme clusters (user
//! perceived characters) and changing the case of strings.
use vstd::prelude::*;
use unicode_segmentation::UnicodeSegmentation;

verus! {

/// The number of extended grapheme clusters of a text.
pub uninterp spec fn grapheme_count_of(s: Seq<char>) -> nat;

/// Calls `UnicodeSegmentation::graphemes(s, true)` of the
/// `unicode-segmentation` crate and counts the clusters it yields. The
/// result is named `grapheme_count_of`; the clusters are non-empty pieces
/// of the text, so there are no more of them than characters.
#[verifier::external_body]
pub(crate) fn grapheme_count(s: &str) -> (n: usize)
    ensures
        n == grapheme_count_of(s@),
        n <= s@.len(),
{
    s.graphemes(true).count()
}

/// The text `s` in upper case, as `str::to_uppercase` gives it.
pub uninterp spec fn uppercase_of(s: Seq<char>) -> Seq<char>;

/// The text `s` in lower case, as `str::to_lowercase` gives it.
pub uninterp spec fn lowercase_of(s: Seq<char>) -> Seq<char>;

/// Calls `str::to_uppercase`; the result is named `uppercase_of`.
#[verifier::external_body]
pub(crate) fn to_uppercase(s: &str) -> (r: String)
    ensures
        r@ == uppercase_of(s@),
{
    s.to_uppercase()
}

/// Calls `str::to_lowercase`; the result is named `lowercase_of`.
#[verifier::external_body]
pub(crate) fn to_lowercase(s: &str) -> (r: String)
    ensures
        r@ == lowercase_of(s@),
{
    s.to_lowercase()
}

} // verus!
