//! What the library reads off a path: its extension and its file name.
//!
//! Paths are kept as text. Taking one apart is left to the standard library,
//! so that a path means here what it means to the file system calls of the
//! host.

use vstd::prelude::*;

verus! {

/// The extension that `std::path::Path::extension` finds in `path`.
pub uninterp spec fn path_extension(path: Seq<char>) -> Option<Seq<char>>;

/// The file name that `std::path::Path::file_name` finds in `path`.
pub uninterp spec fn path_file_name(path: Seq<char>) -> Option<Seq<char>>;

/// `std::path::Path::extension` on a path given as text. The result is the
/// standard library's answer for this text and nothing more is claimed of it.
#[verifier::external_body]
pub(crate) fn extension_of(path: &str) -> (extension: Option<String>)
    ensures
        extension.deep_view() == path_extension(path@),
{
    let extension = std::path::Path::new(path).extension()?;
    Some(extension.to_string_lossy().into_owned())
}

/// `std::path::Path::file_name` on a path given as text. The result is the
/// standard library's answer for this text and nothing more is claimed of it.
#[verifier::external_body]
pub(crate) fn file_name_of(path: &str) -> (name: Option<String>)
    ensures
        name.deep_view() == path_file_name(path@),
{
    let name = std::path::Path::new(path).file_name()?;
    Some(name.to_string_lossy().into_owned())
}

} // verus!
