//! Filesystem paths, held as text. The operations on them are those of
//! `std::path::Path`; each is named here and called through one wrapper.
use std::collections::hash_map::DefaultHasher;
use std::hash::{BuildHasher, BuildHasherDefault};
use vstd::prelude::*;

verus! {

/// `Path::starts_with`: whether `base` is a leading run of whole components
/// of `path`.
pub uninterp spec fn path_starts_with(path: Seq<char>, base: Seq<char>) -> bool;

/// `Path::file_name`: the final component of a path, unless the path ends
/// in `..` or has no normal final component.
pub uninterp spec fn path_file_name(path: Seq<char>) -> Option<Seq<char>>;

/// `Path::join`: `name` adjoined to `base` (or `name` itself when absolute).
pub uninterp spec fn path_join(base: Seq<char>, name: Seq<char>) -> Seq<char>;

/// `Path::parent`: the path without its final component, if it has one.
pub uninterp spec fn path_parent(path: Seq<char>) -> Option<Seq<char>>;

/// `Path == Path`: whether two paths have the same components.
pub uninterp spec fn path_eq(a: Seq<char>, b: Seq<char>) -> bool;

/// The hash of a text under `std`'s `DefaultHasher` created by `new`.
pub uninterp spec fn default_hash(s: Seq<char>) -> u64;

/// `Path::starts_with`. Claimed of std: the result is
/// `path_starts_with(path, base)`, a function of the two paths alone.
#[verifier::external_body]
pub(crate) fn path_is_at_or_below(path: &str, base: &str) -> (b: bool)
    ensures
        b == path_starts_with(path@, base@),
{
    std::path::Path::new(path).starts_with(std::path::Path::new(base))
}

/// `Path::file_name`, as text. Claimed of std: the result is
/// `path_file_name(path)`; the name of a path given as text is text.
#[verifier::external_body]
pub(crate) fn file_name_of(path: &str) -> (r: Option<String>)
    ensures
        r matches Some(n) ==> path_file_name(path@) == Some(n@),
        r is None ==> path_file_name(path@) is None,
{
    std::path::Path::new(path).file_name().and_then(|n| n.to_str()).map(|n| n.to_string())
}

/// `Path::join`, as text. Claimed of std: the result is
/// `path_join(base, name)`; joining two texts gives text.
#[verifier::external_body]
pub(crate) fn join_path(base: &str, name: &str) -> (r: String)
    ensures
        r@ == path_join(base@, name@),
{
    std::path::Path::new(base).join(name).to_string_lossy().into_owned()
}

/// `Path::parent`, as text. Claimed of std: the result is
/// `path_parent(path)`, and a parent, being the path without its final
/// component, is shorter than the path.
#[verifier::external_body]
pub(crate) fn parent_of(path: &str) -> (r: Option<String>)
    ensures
        r matches Some(p) ==> path_parent(path@) == Some(p@) && p@.len() < path@.len(),
        r is None ==> path_parent(path@) is None,
{
    std::path::Path::new(path).parent().map(|p| p.to_string_lossy().into_owned())
}

/// `Path == Path`. Claimed of std: the result is `path_eq(a, b)`, a
/// function of the two paths alone.
#[verifier::external_body]
pub(crate) fn paths_equal(a: &str, b: &str) -> (r: bool)
    ensures
        r == path_eq(a@, b@),
{
    std::path::Path::new(a) == std::path::Path::new(b)
}

/// `BuildHasher::hash_one` with `DefaultHasher`s made by `default`, which
/// all start alike: the text's hash. Claimed of std: the result is
/// `default_hash(s)`, a function of the text alone within one build of the
/// program.
#[verifier::external_body]
pub(crate) fn hash_text(s: &str) -> (h: u64)
    ensures
        h == default_hash(s@),
{
    BuildHasherDefault::<DefaultHasher>::default().hash_one(s)
}

} // verus!
