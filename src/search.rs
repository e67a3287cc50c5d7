//! Case-insensitive counting of the occurrences of a pattern in a text.
use vstd::prelude::*;
use vstd::utf8::{decode_utf8, valid_utf8};

use crate::error::GlyphError;
use crate::text::{chars_of, lower_of, lowercase, utf8_text};

verus! {

/// The result of searching one file for a pattern.
#[derive(Debug)]
pub struct SearchResult {
    pub file_path: String,
    /// The pattern as the caller gave it, not lower-cased.
    pub pattern: String,
    pub occurrences: usize,
}

/// The number of matches of `p` in `h` found by a left-to-right scan from
/// position `i` that resumes after the end of each match. An empty pattern
/// has no matches.
pub open spec fn matches_from(h: Seq<char>, p: Seq<char>, i: int) -> nat
    decreases h.len() - i,
{
    if p.len() == 0 || i < 0 || i + p.len() > h.len() {
        0
    } else if h.subrange(i, i + p.len() as int) == p {
        1 + matches_from(h, p, i + p.len())
    } else {
        matches_from(h, p, i + 1)
    }
}

/// The number of non-overlapping matches of `p` in `h`, scanning from the left.
pub open spec fn match_count(h: Seq<char>, p: Seq<char>) -> nat {
    matches_from(h, p, 0)
}

/// Whether `p` occurs in `h` at position `i`.
fn matches_at(h: &Vec<char>, p: &Vec<char>, i: usize) -> (r: bool)
    requires
        i + p.len() <= h.len(),
    ensures
        r == (h@.subrange(i as int, i + p.len()) == p@),
{
    let mut k: usize = 0;
    while k < p.len()
        invariant
            k <= p.len(),
            i + p.len() <= h.len(),
            h@.subrange(i as int, i + k) == p@.take(k as int),
        decreases p.len() - k,
    {
        if h[i + k] != p[k] {
            assert(h@.subrange(i as int, i + p.len())[k as int] != p@[k as int]);
            return false;
        }
        assert(h@.subrange(i as int, i + k + 1) == h@.subrange(i as int, i + k).push(h@[i + k]));
        assert(p@.take(k + 1) == p@.take(k as int).push(p@[k as int]));
        k = k + 1;
    }
    assert(p@.take(k as int) == p@);
    true
}

/// Counts the non-overlapping matches of `needle` in `haystack`, scanning
/// from the left; an empty needle has no matches. The comparison is exact:
/// callers lower-case both sides for a case-insensitive count.
pub fn count_matches(haystack: &str, needle: &str) -> (r: usize)
    ensures
        r == match_count(haystack@, needle@),
{
    let h = chars_of(haystack);
    let p = chars_of(needle);
    if p.len() == 0 {
        return 0;
    }
    let mut count: usize = 0;
    let mut i: usize = 0;
    while p.len() <= h.len() - i
        invariant
            p.len() > 0,
            i <= h.len(),
            count <= i,
            count + matches_from(h@, p@, i as int) == matches_from(h@, p@, 0),
        decreases h.len() - i,
    {
        if matches_at(&h, &p, i) {
            count = count + 1;
            i = i + p.len();
        } else {
            i = i + 1;
        }
    }
    count
}

/// Searches a text for a pattern, ignoring case: both are lower-cased, then
/// the non-overlapping matches are counted.
pub fn search_content(file_path: String, content: &str, pattern: &str) -> (r: SearchResult)
    ensures
        r.file_path@ == file_path@,
        r.pattern@ == pattern@,
        r.occurrences == match_count(lower_of(content@), lower_of(pattern@)),
{
    let lower_content = lowercase(content);
    let lower_pattern = lowercase(pattern);
    let occurrences = count_matches(lower_content.as_str(), lower_pattern.as_str());
    SearchResult { file_path, pattern: pattern.to_owned(), occurrences }
}

/// Searches the contents of a file, given as bytes, for a pattern, ignoring
/// case. Fails with `InvalidUtf8` holding the path exactly when the bytes are
/// not valid UTF-8.
pub fn search_file(file_path: String, bytes: &Vec<u8>, pattern: &str) -> (r: Result<
    SearchResult,
    GlyphError,
>)
    ensures
        !valid_utf8(bytes@) <==> (r matches Err(GlyphError::InvalidUtf8(p)) && p@ == file_path@),
        valid_utf8(bytes@) ==> (r matches Ok(res) && res.file_path@ == file_path@
            && res.pattern@ == pattern@ && res.occurrences == match_count(
            lower_of(decode_utf8(bytes@)),
            lower_of(pattern@),
        )),
{
    match utf8_text(bytes) {
        Some(content) => Ok(search_content(file_path, content.as_str(), pattern)),
        None => Err(GlyphError::InvalidUtf8(file_path)),
    }
}

/// Searching is blind to case: two patterns with the same lower-case form
/// have the same number of matches in any text.
pub proof fn lemma_search_ignores_case(content: Seq<char>, p1: Seq<char>, p2: Seq<char>)
    requires
        lower_of(p1) == lower_of(p2),
    ensures
        match_count(lower_of(content), lower_of(p1)) == match_count(
            lower_of(content),
            lower_of(p2),
        ),
{
}

} // verus!
