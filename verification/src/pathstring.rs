//! Pure functions over path-shaped strings. Paths here are plain strings
//! with the Windows separator `\`; whether a path exists on disk is never
//! decided here — callers pass that in as a probe.

use vstd::prelude::*;
use vstd::string::StrSliceExecFns;
use vstd::string::StringExecFns;

verus! {

/// The path separator.
pub open spec fn is_sep(c: char) -> bool {
    c == '\\'
}

/// Index of the last separator in `s`, or -1 when there is none.
pub open spec fn last_sep_index(s: Seq<char>) -> int
    decreases s.len(),
{
    if s.len() == 0 {
        -1
    } else if is_sep(s[s.len() - 1]) {
        s.len() - 1
    } else {
        last_sep_index(s.drop_last())
    }
}

/// A separator at `k` with none after it is the last one.
proof fn lemma_last_sep_at(s: Seq<char>, k: int)
    requires
        0 <= k < s.len(),
        is_sep(s[k]),
        forall|j: int| k < j < s.len() ==> !is_sep(#[trigger] s[j]),
    ensures
        last_sep_index(s) == k,
    decreases s.len(),
{
    if k < s.len() - 1 {
        lemma_last_sep_at(s.drop_last(), k);
    }
}

/// With no separator at all, `last_sep_index` is -1.
proof fn lemma_no_sep(s: Seq<char>)
    requires
        forall|j: int| 0 <= j < s.len() ==> !is_sep(#[trigger] s[j]),
    ensures
        last_sep_index(s) == -1,
    decreases s.len(),
{
    if s.len() > 0 {
        lemma_no_sep(s.drop_last());
    }
}

/// `last_sep_index` stays within bounds.
pub proof fn lemma_last_sep_index_bounds(s: Seq<char>)
    ensures
        -1 <= last_sep_index(s) < s.len(),
    decreases s.len(),
{
    if s.len() > 0 && !is_sep(s[s.len() - 1]) {
        lemma_last_sep_index_bounds(s.drop_last());
    }
}

/// True when `s` ends with a separator.
pub open spec fn ends_with_sep(s: Seq<char>) -> bool {
    s.len() > 0 && is_sep(s[s.len() - 1])
}

/// An ASCII drive letter.
pub open spec fn is_drive_letter(c: char) -> bool {
    (97 <= c as u32 && c as u32 <= 122) || (65 <= c as u32 && c as u32 <= 90)
}

/// A path that names its own root: a drive prefix such as `C:\`, or a UNC
/// prefix `\\`.
pub open spec fn is_absolute_path(s: Seq<char>) -> bool {
    ||| (s.len() >= 3 && is_drive_letter(s[0]) && s[1] == ':' && is_sep(s[2]))
    ||| (s.len() >= 2 && is_sep(s[0]) && is_sep(s[1]))
}

/// Everything up to and including the last separator; empty when there is
/// no separator.
pub open spec fn parent_of(s: Seq<char>) -> Seq<char> {
    s.subrange(0, last_sep_index(s) + 1)
}

/// Everything after the last separator; the whole string when there is no
/// separator.
pub open spec fn file_name_of(s: Seq<char>) -> Seq<char> {
    s.subrange(last_sep_index(s) + 1, s.len() as int)
}

/// One past the index of the last separator of `s`, or 0 when there is
/// none.
pub fn split_point(s: &str) -> (r: usize)
    ensures
        r == last_sep_index(s@) + 1,
{
    let n = s.unicode_len();
    let mut i: usize = n;
    loop
        invariant
            0 <= i <= n,
            n == s@.len(),
            forall|j: int| i <= j < n ==> !is_sep(#[trigger] s@[j]),
        decreases i,
    {
        if i == 0 {
            proof {
                lemma_no_sep(s@);
            }
            return 0;
        }
        let c = s.get_char(i - 1);
        if c == '\\' {
            proof {
                lemma_last_sep_at(s@, i - 1);
            }
            return i;
        }
        i = i - 1;
    }
}

/// The parent prefix of `s`, up to and including the last separator.
pub fn parent_string(s: &str) -> (r: String)
    ensures
        r@ == parent_of(s@),
{
    let p = split_point(s);
    proof {
        lemma_last_sep_index_bounds(s@);
    }
    String::from_str(s.substring_char(0, p))
}

/// The file-name component of `s`, after the last separator.
pub fn file_name_string(s: &str) -> (r: String)
    ensures
        r@ == file_name_of(s@),
{
    let p = split_point(s);
    proof {
        lemma_last_sep_index_bounds(s@);
    }
    String::from_str(s.substring_char(p, s.unicode_len()))
}

/// True when `p` is a prefix of `s`.
pub open spec fn spec_starts_with(s: Seq<char>, p: Seq<char>) -> bool {
    p.len() <= s.len() && s.subrange(0, p.len() as int) == p
}

/// Whether `s` starts with `p`, by characters.
pub fn str_starts_with(s: &str, p: &str) -> (r: bool)
    ensures
        r == spec_starts_with(s@, p@),
{
    let n = p.unicode_len();
    if s.unicode_len() < n {
        return false;
    }
    let mut i: usize = 0;
    while i < n
        invariant
            0 <= i <= n,
            n == p@.len(),
            n <= s@.len(),
            forall|j: int| 0 <= j < i ==> s@[j] == p@[j],
        decreases n - i,
    {
        if s.get_char(i) != p.get_char(i) {
            assert(s@.subrange(0, n as int)[i as int] != p@[i as int]);
            return false;
        }
        i = i + 1;
    }
    assert(s@.subrange(0, n as int) =~= p@);
    true
}

/// Whether `s` ends with the path separator.
pub fn str_ends_with_sep(s: &str) -> (r: bool)
    ensures
        r == ends_with_sep(s@),
{
    let n = s.unicode_len();
    if n == 0 {
        return false;
    }
    s.get_char(n - 1) == '\\'
}

/// Whether `s` names its own root (drive or UNC prefix).
pub fn str_is_absolute(s: &str) -> (r: bool)
    ensures
        r == is_absolute_path(s@),
{
    let n = s.unicode_len();
    if n >= 3 {
        let c0 = s.get_char(0);
        let c1 = s.get_char(1);
        let c2 = s.get_char(2);
        let d = c0 as u32;
        if ((97 <= d && d <= 122) || (65 <= d && d <= 90)) && c1 == ':' && c2 == '\\' {
            return true;
        }
    }
    if n >= 2 {
        let c0 = s.get_char(0);
        let c1 = s.get_char(1);
        if c0 == '\\' && c1 == '\\' {
            return true;
        }
    }
    false
}

} // verus!
