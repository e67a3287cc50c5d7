//! The records that an analysis produces.
use vstd::prelude::*;

verus! {

/// How many characters of a text fall in each of five classes.
#[derive(Debug, Clone, Copy, PartialEq, Eq, Structural)]
pub struct CharBreakdown {
    pub uppercase: usize,
    pub lowercase: usize,
    pub digits: usize,
    pub punctuation: usize,
    pub whitespace: usize,
}

/// A normalized word and the number of tokens that normalize to it.
#[derive(Debug)]
pub struct WordFrequency {
    pub word: String,
    pub count: usize,
}

/// A line of the text and its 1-based number; number 0 with empty content
/// stands for "no such line".
#[derive(Debug)]
pub struct LineInfo {
    pub line_number: usize,
    pub content: String,
}

/// Everything that an analysis reports of one file.
///
/// The reading-time estimate is held exactly, in milliseconds.
#[derive(Debug)]
pub struct FileStats {
    pub file_path: String,
    pub size_bytes: u64,
    pub lines: usize,
    pub words: usize,
    pub characters: usize,
    pub reading_time_millis: u128,
    pub char_breakdown: CharBreakdown,
    pub longest_line: LineInfo,
    pub shortest_line: LineInfo,
    pub top_words: Vec<WordFrequency>,
    pub emoji_count: usize,
}

} // verus!
