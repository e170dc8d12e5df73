//! Paths, held as strings: joining, parents and file names by the platform's rules, and the probes of the
//! file system that the configuration-file search makes.

use vstd::prelude::*;

use crate::opt_view;

verus! {

/// The path `base` adjoined by `rel`, by the platform's rules.
pub uninterp spec fn joined(base: Seq<char>, rel: Seq<char>) -> Seq<char>;

/// The path `p` without its final component, if it has one, by the platform's rules.
pub uninterp spec fn parent_of(p: Seq<char>) -> Option<Seq<char>>;

/// The final component of the path `p`, if it is a normal one, by the platform's rules.
pub uninterp spec fn file_name_of(p: Seq<char>) -> Option<Seq<char>>;

/// Relies on `std::path::Path::join`: the result depends on the two paths alone.
#[verifier::external_body]
pub(crate) fn join(base: &str, rel: &str) -> (r: String)
    ensures
        r@ == joined(base@, rel@),
{
    std::path::Path::new(base).join(rel).to_string_lossy().into_owned()
}

/// Relies on `std::path::Path::parent`: the path without its final component, which is shorter than the
/// path, or `None` if the path ends in a root or is empty.
#[verifier::external_body]
pub(crate) fn parent(p: &str) -> (r: Option<String>)
    ensures
        opt_view(r) == parent_of(p@),
        r matches Some(q) ==> q@.len() < p@.len(),
{
    match std::path::Path::new(p).parent() {
        Some(q) => Some(q.to_string_lossy().into_owned()),
        None => None,
    }
}

/// Relies on `std::path::Path::file_name`: the final component of the path, if it is a normal one.
#[verifier::external_body]
pub(crate) fn file_name(p: &str) -> (r: Option<String>)
    ensures
        opt_view(r) == file_name_of(p@),
{
    match std::path::Path::new(p).file_name() {
        Some(n) => Some(n.to_string_lossy().into_owned()),
        None => None,
    }
}

/// Relies on `std::path::Path::is_file`: whether the path names an existing regular file, as the file
/// system says at the time of the call.
#[verifier::external_body]
pub(crate) fn is_file(p: &str) -> (r: bool) {
    std::path::Path::new(p).is_file()
}

/// Relies on `std::path::Path::is_dir`: whether the path names an existing directory, as the file system
/// says at the time of the call.
#[verifier::external_body]
pub(crate) fn is_dir(p: &str) -> (r: bool) {
    std::path::Path::new(p).is_dir()
}

/// Relies on `dunce::canonicalize`: the canonical, absolute form of the path, as the file system says at
/// the time of the call, or `None` if it cannot be had (for instance, because the path does not exist). An
/// absolute path is not empty.
#[verifier::external_body]
pub(crate) fn canonicalize(p: &str) -> (r: Option<String>)
    ensures
        r matches Some(c) ==> c@.len() > 0,
{
    match dunce::canonicalize(p) {
        Ok(c) => Some(c.to_string_lossy().into_owned()),
        Err(_) => None,
    }
}

} // verus!
