//! Path operations of the standard library on paths held as strings.
//!
//! Paths cross the library as `String`s. What std's `Path` computes from them is
//! not rebuilt here: each operation is a call, and its result carries a name
//! that the contracts of the library speak of. The names stand for what `Path`
//! does on the platform that the library is built for; on that platform each
//! result depends on the texts handed over and on nothing else. No call here
//! looks at the file system.

use std::path::Path;
use vstd::prelude::*;

verus! {

/// What `Path::join` gives for `base` and `rel`.
pub uninterp spec fn joined_path(base: Seq<char>, rel: Seq<char>) -> Seq<char>;

/// What `Path::strip_prefix` gives for `path` and `base`: the rest of `path` below
/// `base`, or `None` where `path` does not begin with the components of `base`.
pub uninterp spec fn relative_path(path: Seq<char>, base: Seq<char>) -> Option<Seq<char>>;

/// What `Path::file_name` gives for `path`: its last component, where it has one.
pub uninterp spec fn file_name_of(path: Seq<char>) -> Option<Seq<char>>;

/// What `Path::parent` gives for `path`.
pub uninterp spec fn parent_of(path: Seq<char>) -> Option<Seq<char>>;

/// What `Path::is_relative` gives for `path`.
pub uninterp spec fn is_relative_path(path: Seq<char>) -> bool;

/// What `Path::starts_with` gives for `path` and `base`: whether the components of
/// `base` are the first components of `path`.
pub uninterp spec fn path_has_base(path: Seq<char>, base: Seq<char>) -> bool;

/// Calls `Path::join`. The contract only names the result: it is a function of
/// the two texts on a given platform.
#[verifier::external_body]
pub(crate) fn path_join(base: &str, rel: &str) -> (joined: String)
    ensures
        joined@ == joined_path(base@, rel@),
{
    Path::new(base).join(rel).to_string_lossy().into_owned()
}

/// Calls `Path::strip_prefix`. The contract names the result, and says that the
/// call fails exactly where the name is `None`.
#[verifier::external_body]
pub(crate) fn path_relative(path: &str, base: &str) -> (rest: Option<String>)
    ensures
        rest is Some == relative_path(path@, base@) is Some,
        rest matches Some(r) ==> relative_path(path@, base@) == Some(r@),
{
    match Path::new(path).strip_prefix(base) {
        Ok(rest) => Some(rest.to_string_lossy().into_owned()),
        Err(_) => None,
    }
}

/// Calls `Path::file_name`. The contract names the result.
#[verifier::external_body]
pub(crate) fn path_file_name(path: &str) -> (name: Option<String>)
    ensures
        name is Some == file_name_of(path@) is Some,
        name matches Some(n) ==> file_name_of(path@) == Some(n@),
{
    Path::new(path).file_name().map(|name| name.to_string_lossy().into_owned())
}

/// Calls `Path::parent`. The contract names the result.
#[verifier::external_body]
pub(crate) fn path_parent(path: &str) -> (parent: Option<String>)
    ensures
        parent is Some == parent_of(path@) is Some,
        parent matches Some(p) ==> parent_of(path@) == Some(p@),
{
    Path::new(path).parent().map(|parent| parent.to_string_lossy().into_owned())
}

/// Calls `Path::is_relative`. The contract names the result.
#[verifier::external_body]
pub(crate) fn path_is_relative(path: &str) -> (relative: bool)
    ensures
        relative == is_relative_path(path@),
{
    Path::new(path).is_relative()
}

/// Calls `Path::starts_with`. The contract names the result.
#[verifier::external_body]
pub(crate) fn path_starts_with(path: &str, base: &str) -> (below: bool)
    ensures
        below == path_has_base(path@, base@),
{
    Path::new(path).starts_with(base)
}

} // verus!
