//! The analysis of one file: every statistic computed from one reading of
//! its content.
use vstd::prelude::*;
use vstd::utf8::{decode_utf8, valid_utf8};

use crate::classify::{char_breakdown, class_count, CharClass};
use crate::error::GlyphError;
use crate::frequency::{char_views, distinct_words, is_top_ranking, normalized_words, split_tokens, tokens, word_frequencies};
use crate::lines::{is_longest, is_shortest, lines_of, longest_line, shortest_line, split_lines};
use crate::models::FileStats;
use crate::text::{chars_of, utf8_text};

verus! {

/// Average adult reading speed, in words per minute.
pub const WORDS_PER_MINUTE: u64 = 200;

/// Every statistic of `r` that depends on the content is the one of `content`,
/// with at most `top_n` ranked words.
pub open spec fn describes(r: FileStats, content: Seq<char>, top_n: nat) -> bool {
    &&& r.lines == lines_of(content).len()
    &&& r.words == tokens(content).len()
    &&& r.characters == content.len()
    &&& r.reading_time_millis == r.words * 300
    &&& r.char_breakdown.uppercase == class_count(content, CharClass::Uppercase)
    &&& r.char_breakdown.lowercase == class_count(content, CharClass::Lowercase)
    &&& r.char_breakdown.digits == class_count(content, CharClass::Digit)
    &&& r.char_breakdown.punctuation == class_count(content, CharClass::Punctuation)
    &&& r.char_breakdown.whitespace == class_count(content, CharClass::Whitespace)
    &&& r.emoji_count == class_count(content, CharClass::Emoji)
    &&& is_longest(lines_of(content), r.longest_line.line_number as int, r.longest_line.content@)
    &&& is_shortest(
        lines_of(content),
        r.shortest_line.line_number as int,
        r.shortest_line.content@,
    )
    &&& is_top_ranking(normalized_words(content), top_n, r.top_words@)
}

/// The time needed to read `words` words at `WORDS_PER_MINUTE`, in
/// milliseconds: 300 ms a word.
pub fn reading_time_millis(words: usize) -> (r: u128)
    ensures
        r == words * 300,
{
    let per_word: u128 = 60_000 / (WORDS_PER_MINUTE as u128);
    assert(per_word == 300) by (nonlinear_arith)
        requires
            per_word == 60_000u128 / (WORDS_PER_MINUTE as u128),
            WORDS_PER_MINUTE == 200,
    ;
    (words as u128) * per_word
}

/// Computes all statistics of a text that was read from `file_path` and was
/// `size_bytes` bytes long.
pub fn analyze_content(file_path: String, size_bytes: u64, content: &str, top_n: usize) -> (r:
    FileStats)
    ensures
        r.file_path@ == file_path@,
        r.size_bytes == size_bytes,
        describes(r, content@, top_n as nat),
{
    let chars = chars_of(content);
    let lines = split_lines(&chars);
    let words = split_tokens(&chars).len();
    assert(char_views(lines@).len() == lines.len());
    let (breakdown, emoji_count) = char_breakdown(content);
    FileStats {
        file_path,
        size_bytes,
        lines: lines.len(),
        words,
        characters: chars.len(),
        reading_time_millis: reading_time_millis(words),
        char_breakdown: breakdown,
        longest_line: longest_line(&lines),
        shortest_line: shortest_line(&lines),
        top_words: word_frequencies(content, top_n),
        emoji_count,
    }
}

/// Analyzes the contents of a file, given as bytes. Fails with `InvalidUtf8`
/// holding the path exactly when the bytes are not valid UTF-8; otherwise the
/// size is the number of bytes and every other statistic is that of the text
/// they encode.
pub fn analyze(file_path: String, bytes: &Vec<u8>, top_n: usize) -> (r: Result<
    FileStats,
    GlyphError,
>)
    ensures
        !valid_utf8(bytes@) <==> (r matches Err(GlyphError::InvalidUtf8(p)) && p@ == file_path@),
        valid_utf8(bytes@) ==> (r matches Ok(s) && s.file_path@ == file_path@ && s.size_bytes
            == bytes.len() && describes(s, decode_utf8(bytes@), top_n as nat)),
{
    match utf8_text(bytes) {
        Some(content) => Ok(
            analyze_content(file_path, bytes.len() as u64, content.as_str(), top_n),
        ),
        None => Err(GlyphError::InvalidUtf8(file_path)),
    }
}

/// An empty text has no words, no characters, no ranked words, and the
/// placeholder `(0, "")` for both its longest and its shortest line.
pub proof fn lemma_empty_text(r: FileStats, top_n: nat)
    requires
        describes(r, seq![], top_n),
    ensures
        r.words == 0,
        r.characters == 0,
        r.lines == 0,
        r.reading_time_millis == 0,
        r.top_words.len() == 0,
        r.longest_line.line_number == 0,
        r.longest_line.content@.len() == 0,
        r.shortest_line.line_number == 0,
        r.shortest_line.content@.len() == 0,
{
    let e: Seq<char> = seq![];
    assert(tokens(e).len() == 0);
    assert(normalized_words(e).len() == 0);
    assert(distinct_words(normalized_words(e)).len() == 0);
    assert(lines_of(e).len() == 0);
}

} // verus!
