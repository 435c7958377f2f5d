//! Path manipulation on paths written as text, through `std::path::Path`.
use vstd::prelude::*;
use vstd::string::*;
use crate::error::{PdfError, PdfErrorModel};

verus! {

/// The text of `Path::parent` of the path `p`.
pub uninterp spec fn path_parent_text(p: Seq<char>) -> Option<Seq<char>>;

/// The text of `Path::file_stem` of the path `p`.
pub uninterp spec fn path_file_stem_text(p: Seq<char>) -> Option<Seq<char>>;

/// The text of `Path::file_name` of the path `p`.
pub uninterp spec fn path_file_name_text(p: Seq<char>) -> Option<Seq<char>>;

/// The text of `Path::join` of `base` and `name`.
pub uninterp spec fn path_join_text(base: Seq<char>, name: Seq<char>) -> Seq<char>;

/// The path without its final component.
///
/// Calls `std::path::Path::parent`; its result is named `path_parent_text` and
/// nothing more is stated of it.
#[verifier::external_body]
pub(crate) fn path_parent(p: &str) -> (r: Option<String>)
    ensures
        match r {
            Some(q) => path_parent_text(p@) == Some(q@),
            None => path_parent_text(p@) == None::<Seq<char>>,
        },
{
    match std::path::Path::new(p).parent() {
        Some(q) => Some(q.to_string_lossy().into_owned()),
        None => None,
    }
}

/// The final component of the path without its extension.
///
/// Calls `std::path::Path::file_stem`; its result is named `path_file_stem_text`
/// and nothing more is stated of it.
#[verifier::external_body]
pub(crate) fn path_file_stem(p: &str) -> (r: Option<String>)
    ensures
        match r {
            Some(q) => path_file_stem_text(p@) == Some(q@),
            None => path_file_stem_text(p@) == None::<Seq<char>>,
        },
{
    match std::path::Path::new(p).file_stem() {
        Some(q) => Some(q.to_string_lossy().into_owned()),
        None => None,
    }
}

/// The final component of the path.
///
/// Calls `std::path::Path::file_name`; its result is named `path_file_name_text`
/// and nothing more is stated of it.
#[verifier::external_body]
pub(crate) fn path_file_name(p: &str) -> (r: Option<String>)
    ensures
        match r {
            Some(q) => path_file_name_text(p@) == Some(q@),
            None => path_file_name_text(p@) == None::<Seq<char>>,
        },
{
    match std::path::Path::new(p).file_name() {
        Some(q) => Some(q.to_string_lossy().into_owned()),
        None => None,
    }
}

/// `name` appended to the path `base`.
///
/// Calls `std::path::Path::join`; its result is named `path_join_text` and
/// nothing more is stated of it.
#[verifier::external_body]
pub(crate) fn path_join(base: &str, name: &str) -> (r: String)
    ensures
        r@ == path_join_text(base@, name@),
{
    std::path::Path::new(base).join(name).to_string_lossy().into_owned()
}

/// The directory of the path `p`: its parent, or `.` when it has none.
pub open spec fn directory_text(p: Seq<char>) -> Seq<char> {
    match path_parent_text(p) {
        Some(d) => d,
        None => "."@,
    }
}

/// The directory and the file stem of `path`; a path without a file name is
/// refused as an invalid input filename.
pub fn directory_and_stem(path: &str) -> (r: Result<(String, String), PdfError>)
    ensures
        match r {
            Ok((dir, stem)) => dir@ == directory_text(path@) && path_file_stem_text(path@) == Some(
                stem@,
            ),
            Err(e) => path_file_stem_text(path@) == None::<Seq<char>> && e@
                == PdfErrorModel::SubprocessFailed("Invalid input filename"@),
        },
{
    let dir = match path_parent(path) {
        Some(d) => d,
        None => String::from_str("."),
    };
    match path_file_stem(path) {
        Some(stem) => Ok((dir, stem)),
        None => Err(PdfError::SubprocessFailed(String::from_str("Invalid input filename"))),
    }
}

} // verus!
