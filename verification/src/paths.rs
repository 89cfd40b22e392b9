//! What the library takes from its surroundings: the user's home directory
//! and the platform's rules for file paths. Paths are held as text.
//!
//! Nothing in this file is proved. Each function hands one question to
//! `dirs` or to `std::path`, and its contract says what the rest of the
//! library relies on. The paths are those of Unix, where the root is `/`.

use vstd::prelude::*;
use crate::text::text_of;

verus! {

/// The path without its last component, as `std::path::Path::parent`
/// gives it; `None` where the path ends in a root or is empty.
pub uninterp spec fn path_parent(path: Seq<char>) -> Option<Seq<char>>;

/// `path` adjoined to `base`, as `std::path::Path::join` gives it.
pub uninterp spec fn path_join(base: Seq<char>, path: Seq<char>) -> Seq<char>;

/// The extension of the file that `path` names, as
/// `std::path::Path::extension` gives it; `None` where the name has none.
pub uninterp spec fn path_extension(path: Seq<char>) -> Option<Seq<char>>;

/// Whether two paths are the same path, however each is spelled: whether
/// `std::path::Path` holds them equal.
pub uninterp spec fn path_eq(path: Seq<char>, other: Seq<char>) -> bool;

/// Whether a path depends on the directory it is read in: whether it does
/// not start at the root, `/`.
pub open spec fn path_is_relative(path: Seq<char>) -> bool {
    path.len() == 0 || path[0] != '/'
}

/// Asks `dirs::home_dir` for the user's home directory. The answer depends
/// on the environment and on the user database, so nothing is promised of
/// it. A home directory that is not UTF-8 counts as unknown.
#[verifier::external_body]
pub(crate) fn home_dir() -> (home: Option<String>) {
    match dirs::home_dir() {
        Some(path) => path.into_os_string().into_string().ok(),
        None => None,
    }
}

/// Calls `std::path::Path::parent` and names what it returns. The parent
/// of a path that is text is text.
#[verifier::external_body]
pub(crate) fn parent(path: &str) -> (parent: Option<String>)
    ensures
        text_of(parent) == path_parent(path@),
{
    match std::path::Path::new(path).parent() {
        Some(parent) => Some(parent.to_string_lossy().into_owned()),
        None => None,
    }
}

/// Calls `std::path::Path::join` and names what it returns. Two paths
/// that are text join to text.
#[verifier::external_body]
pub(crate) fn join(base: &str, path: &str) -> (joined: String)
    ensures
        joined@ == path_join(base@, path@),
{
    std::path::Path::new(base).join(path).to_string_lossy().into_owned()
}

/// Calls `std::path::Path::extension` and names what it returns. The
/// extension of a path that is text is text.
#[verifier::external_body]
pub(crate) fn extension(path: &str) -> (extension: Option<String>)
    ensures
        text_of(extension) == path_extension(path@),
{
    match std::path::Path::new(path).extension() {
        Some(extension) => Some(extension.to_string_lossy().into_owned()),
        None => None,
    }
}

/// Compares two paths as `std::path::Path` compares them with `==`,
/// component by component, and names the answer. The comparison is an
/// equivalence, so a path is the same as itself.
#[verifier::external_body]
pub(crate) fn same_path(path: &str, other: &str) -> (same: bool)
    ensures
        same == path_eq(path@, other@),
        path@ == other@ ==> same,
{
    std::path::Path::new(path) == std::path::Path::new(other)
}

/// Calls `std::path::Path::canonicalize`, which asks the file system. The
/// answer depends on what is on disk, so it has no name; `None` where the
/// call fails or the canonical path is not UTF-8. What comes back is the
/// absolute form of the path, so it starts at the root.
#[verifier::external_body]
pub(crate) fn canonical(path: &str) -> (canonical: Option<String>)
    ensures
        canonical matches Some(found) ==> !path_is_relative(found@),
{
    match std::path::Path::new(path).canonicalize() {
        Ok(found) => found.into_os_string().into_string().ok(),
        Err(_) => None,
    }
}

} // verus!
