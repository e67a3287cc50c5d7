//! Which files count as text: the policy that decides, by extension, the
//! files of a directory that are analyzed.
use vstd::prelude::*;

use crate::text::{chars_of, lower_of, lowercase, same_chars};

verus! {

/// What `Path::extension` gives for a path: the part of its file name after
/// the last dot, if there is one (and the name is not a lone leading dot).
pub uninterp spec fn path_extension(p: Seq<char>) -> Option<Seq<char>>;

/// The known extensions of text files, in lower case.
pub open spec fn known_extension(e: Seq<char>) -> bool {
    e == "txt"@
        || e == "md"@
        || e == "rs"@
        || e == "py"@
        || e == "js"@
        || e == "ts"@
        || e == "jsx"@
        || e == "tsx"@
        || e == "html"@
        || e == "css"@
        || e == "json"@
        || e == "toml"@
        || e == "yaml"@
        || e == "yml"@
        || e == "xml"@
        || e == "csv"@
        || e == "log"@
        || e == "sh"@
        || e == "bat"@
        || e == "c"@
        || e == "cpp"@
        || e == "h"@
        || e == "hpp"@
        || e == "java"@
        || e == "go"@
        || e == "rb"@
        || e == "php"@
        || e == "sql"@
        || e == "swift"@
        || e == "kt"@
        || e == "scala"@
        || e == "r"@
        || e == "lua"@
        || e == "pl"@
        || e == "ex"@
        || e == "exs"@
        || e == "vim"@
        || e == "conf"@
        || e == "cfg"@
        || e == "ini"@
        || e == "env"@
        || e == "dockerfile"@
}

/// Relies on `Path::extension`, with the extension read back as text.
#[verifier::external_body]
fn extension_of(path: &str) -> (r: Option<String>)
    ensures
        r is Some <==> path_extension(path@) is Some,
        r is Some ==> r->0@ == path_extension(path@)->0,
{
    std::path::Path::new(path).extension().map(|e| e.to_string_lossy().into_owned())
}

/// Whether two strings hold the same characters.
fn same_str(a: &str, b: &str) -> (r: bool)
    ensures
        r == (a@ == b@),
{
    same_chars(&chars_of(a), &chars_of(b))
}

/// Whether an extension, already lower-cased, is one of the known text extensions.
pub fn is_text_extension(ext: &str) -> (r: bool)
    ensures
        r == known_extension(ext@),
{
    same_str(ext, "txt")
        || same_str(ext, "md")
        || same_str(ext, "rs")
        || same_str(ext, "py")
        || same_str(ext, "js")
        || same_str(ext, "ts")
        || same_str(ext, "jsx")
        || same_str(ext, "tsx")
        || same_str(ext, "html")
        || same_str(ext, "css")
        || same_str(ext, "json")
        || same_str(ext, "toml")
        || same_str(ext, "yaml")
        || same_str(ext, "yml")
        || same_str(ext, "xml")
        || same_str(ext, "csv")
        || same_str(ext, "log")
        || same_str(ext, "sh")
        || same_str(ext, "bat")
        || same_str(ext, "c")
        || same_str(ext, "cpp")
        || same_str(ext, "h")
        || same_str(ext, "hpp")
        || same_str(ext, "java")
        || same_str(ext, "go")
        || same_str(ext, "rb")
        || same_str(ext, "php")
        || same_str(ext, "sql")
        || same_str(ext, "swift")
        || same_str(ext, "kt")
        || same_str(ext, "scala")
        || same_str(ext, "r")
        || same_str(ext, "lua")
        || same_str(ext, "pl")
        || same_str(ext, "ex")
        || same_str(ext, "exs")
        || same_str(ext, "vim")
        || same_str(ext, "conf")
        || same_str(ext, "cfg")
        || same_str(ext, "ini")
        || same_str(ext, "env")
        || same_str(ext, "dockerfile")
}

/// Whether a path names a text file: its extension, lower-cased, is a known one.
pub fn is_text_file(path: &str) -> (r: bool)
    ensures
        r == match path_extension(path@) {
            Some(e) => known_extension(lower_of(e)),
            None => false,
        },
{
    match extension_of(path) {
        Some(ext) => {
            let lower = lowercase(ext.as_str());
            is_text_extension(lower.as_str())
        },
        None => false,
    }
}

} // verus!
