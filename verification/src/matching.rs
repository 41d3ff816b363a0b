//! Case-insensitive substring matching, the single text-matching rule the
//! whole catalog uses: a query matches a field when the lower-cased query
//! occurs inside the lower-cased field.

use vstd::prelude::*;

verus! {

/// True when `needle` occurs as a contiguous run inside `hay`.
pub open spec fn is_substring_of(needle: Seq<char>, hay: Seq<char>) -> bool {
    exists|i: int|
        0 <= i <= hay.len() - needle.len() && #[trigger] hay.subrange(
            i,
            i + needle.len() as int,
        ) == needle
}

/// What `str::to_lowercase` returns: a fixed function of the characters
/// alone, left unspecified beyond that.
pub uninterp spec fn lower_of(s: Seq<char>) -> Seq<char>;

/// Relies on `str::to_lowercase`: the result depends on the characters of
/// the input alone.
#[verifier::external_body]
fn to_lowercase(s: &str) -> (r: String)
    ensures
        r@ == lower_of(s@),
{
    s.to_lowercase()
}

/// Relies on `str::contains`: true exactly when the pattern occurs as a
/// sub-slice of the string.
#[verifier::external_body]
fn contains_str(hay: &str, needle: &str) -> (r: bool)
    ensures
        r == is_substring_of(needle@, hay@),
{
    hay.contains(needle)
}

/// The matching rule of the catalog: the lower-cased needle occurs inside
/// the lower-cased hay.
pub open spec fn spec_matches_ci(hay: Seq<char>, needle: Seq<char>) -> bool {
    is_substring_of(lower_of(needle), lower_of(hay))
}

/// Case-insensitive substring test, the executable form of
/// [`spec_matches_ci`].
pub fn matches_ci(hay: &str, needle: &str) -> (r: bool)
    ensures
        r == spec_matches_ci(hay@, needle@),
{
    let hay_lower = to_lowercase(hay);
    let needle_lower = to_lowercase(needle);
    contains_str(hay_lower.as_str(), needle_lower.as_str())
}

/// What `char::is_alphanumeric` returns: a fixed Unicode property of the
/// character, left unspecified beyond that.
pub uninterp spec fn is_alphanumeric_char(c: char) -> bool;

/// Relies on `char::is_alphanumeric`: a fixed Unicode character property.
#[verifier::external_body]
pub(crate) fn char_is_alphanumeric(c: char) -> (r: bool)
    ensures
        r == is_alphanumeric_char(c),
{
    c.is_alphanumeric()
}

/// True when the text contains a space, i.e. splits into two or more words.
pub open spec fn multi_word(s: Seq<char>) -> bool {
    exists|i: int| 0 <= i < s.len() && s[i] == ' '
}

/// Whether the text is more than one word (contains a space).
pub fn is_multi_word(s: &str) -> (r: bool)
    ensures
        r == multi_word(s@),
{
    let r = contains_str(s, " ");
    proof {
        reveal_strlit(" ");
        if r {
            let i = choose|i: int|
                0 <= i <= s@.len() - 1 && #[trigger] s@.subrange(i, i + 1) == " "@;
            assert(s@[i] == s@.subrange(i, i + 1)[0]);
        }
        if multi_word(s@) {
            let i = choose|i: int| 0 <= i < s@.len() && s@[i] == ' ';
            assert(s@.subrange(i, i + 1) =~= " "@);
        }
    }
    r
}

} // verus!
