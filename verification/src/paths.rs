//! Paths as the standard library holds them: their bytes, and the path
//! operations it computes on them. Paths are kept as `PathBuf`, so that a
//! name that is not valid UTF-8 keeps its bytes.

use std::path::PathBuf;
use std::rc::Rc;
use vstd::prelude::*;

verus! {

#[verifier::external_type_specification]
#[verifier::external_body]
pub struct ExPathBuf(PathBuf);

/// The bytes of a path, as `OsStr::as_encoded_bytes` gives them (on Unix,
/// the bytes the system uses).
pub uninterp spec fn path_bytes(path: PathBuf) -> Seq<u8>;

/// The parent that `Path::parent` gives for the path with these bytes.
pub uninterp spec fn path_parent(path: Seq<u8>) -> Option<Seq<u8>>;

/// The final component that `Path::file_name` gives for the path with these bytes.
pub uninterp spec fn path_file_name(path: Seq<u8>) -> Option<Seq<u8>>;

/// Whether `Path`'s equality, which compares paths component by component,
/// holds between the two paths.
pub uninterp spec fn paths_equal(a: Seq<u8>, b: Seq<u8>) -> bool;

/// The text that `Path::display` writes for the path with these bytes.
pub uninterp spec fn shown_path(path: Seq<u8>) -> Seq<char>;

/// Calls `Path::parent`: the path without its final component, or `None`
/// for a root or an empty path. Claimed: the result is what `path_parent`
/// names.
#[verifier::external_body]
pub(crate) fn parent_of(path: &PathBuf) -> (parent: Option<PathBuf>)
    ensures
        match parent {
            Some(p) => path_parent(path_bytes(*path)) == Some(path_bytes(p)),
            None => path_parent(path_bytes(*path)) is None,
        },
{
    path.parent().map(|p| p.to_path_buf())
}

/// Calls `Path::file_name` and `OsStr::as_encoded_bytes`: the bytes of the
/// final component, or `None` when the path ends in `..` or is a root.
/// Claimed: the result is what `path_file_name` names.
#[verifier::external_body]
pub(crate) fn file_name_of(path: &PathBuf) -> (name: Option<Vec<u8>>)
    ensures
        match name {
            Some(n) => path_file_name(path_bytes(*path)) == Some(n@),
            None => path_file_name(path_bytes(*path)) is None,
        },
{
    path.file_name().map(|n| n.as_encoded_bytes().to_vec())
}

/// Calls `Path`'s `==`. Claimed: the result is what `paths_equal` names.
#[verifier::external_body]
pub(crate) fn same_path(a: &PathBuf, b: &PathBuf) -> (same: bool)
    ensures
        same == paths_equal(path_bytes(*a), path_bytes(*b)),
{
    a.as_path() == b.as_path()
}

/// Calls `Path::display` and writes it out. Claimed: the text is what
/// `shown_path` names.
#[verifier::external_body]
pub(crate) fn display_path(path: &PathBuf) -> (text: String)
    ensures
        text@ == shown_path(path_bytes(*path)),
{
    path.display().to_string()
}

/// Calls `OsStr::as_encoded_bytes` on the path. Claimed: the bytes are
/// what `path_bytes` names.
#[verifier::external_body]
pub(crate) fn bytes_of_path(path: &PathBuf) -> (bytes: Vec<u8>)
    ensures
        bytes@ == path_bytes(*path),
{
    path.as_os_str().as_encoded_bytes().to_vec()
}

/// Calls `PathBuf::clone`. Claimed: the copy has the same bytes.
#[verifier::external_body]
pub(crate) fn copy_path(path: &PathBuf) -> (copy: PathBuf)
    ensures
        path_bytes(copy) == path_bytes(*path),
{
    path.clone()
}

/// Calls `Rc::clone`, which gives another handle to the same value.
#[verifier::external_body]
pub(crate) fn share<T>(value: &Rc<T>) -> (shared: Rc<T>)
    ensures
        shared == *value,
{
    Rc::clone(value)
}

} // verus!
