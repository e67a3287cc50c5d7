//! The options of one run of the tool.
use vstd::prelude::*;

verus! {

/// The number of ranked words reported when the caller names none.
pub const DEFAULT_TOP: usize = 10;

/// What to analyze and how to report it.
#[derive(Debug)]
pub struct Cli {
    /// A file, or a directory whose text files are all analyzed.
    pub path: String,
    /// Report in JSON instead of the formatted report.
    pub json: bool,
    /// Count the occurrences of this pattern instead of analyzing.
    pub search: Option<String>,
    /// How many of the most frequent words to report.
    pub top: usize,
}

} // verus!
