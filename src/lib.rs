//! Descriptive statistics over the text of a file: counts, character
//! classes, word frequencies, line extrema and case-insensitive search.
pub mod analyzer;
pub mod classify;
pub mod cli;
pub mod discovery;
pub mod error;
pub mod format;
pub mod frequency;
pub mod lines;
pub mod models;
pub mod search;
pub mod text;
