//! The ways in which analyzing or searching a file can fail.
use vstd::prelude::*;

verus! {

/// `std::io::Error`, carried unchanged as the cause of an I/O failure.
#[verifier::external_type_specification]
#[verifier::external_body]
pub struct ExIoError(std::io::Error);

/// Why an analysis or a search produced no result.
#[derive(Debug)]
pub enum GlyphError {
    /// Reading the file failed for a reason other than its encoding.
    Io(std::io::Error),
    /// The file's bytes are not valid UTF-8; holds the file's path.
    InvalidUtf8(String),
    /// The path given does not exist.
    PathNotFound(String),
    /// A directory held no file with a known text extension.
    NoFilesFound,
}

} // verus!
