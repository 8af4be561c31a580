//! File-system path operations of `std::path`, on UTF-8 path strings.
//!
//! Path syntax is fixed by the platform the library is compiled for (separators, prefixes),
//! so the library names each result instead of spelling it out; the planner is verified
//! against these names. None of these reads the file system.
use std::path::Path;
use vstd::prelude::*;

verus! {

/// `Path::join`: `name` appended to `dir` as a new component.
pub uninterp spec fn joined_path(dir: Seq<char>, name: Seq<char>) -> Seq<char>;

/// `Path` equality: the two strings denote the same sequence of components.
pub uninterp spec fn same_path(a: Seq<char>, b: Seq<char>) -> bool;

/// `Path::parent`: the path without its final component, if there is one.
pub uninterp spec fn parent_of(path: Seq<char>) -> Option<Seq<char>>;

/// `Path::file_stem`: the final component without its extension, if there is one.
pub uninterp spec fn stem_of(path: Seq<char>) -> Option<Seq<char>>;

/// `Path::extension`: the text after the final component's last dot, if there is one.
pub uninterp spec fn extension_of(path: Seq<char>) -> Option<Seq<char>>;

/// `std::path::Path::join`, on UTF-8 strings. Joining two UTF-8 paths gives a UTF-8 path,
/// so the lossless conversion back to `String` never alters it.
#[verifier::external_body]
pub(crate) fn path_join(dir: &str, name: &str) -> (joined: String)
    ensures
        joined@ == joined_path(dir@, name@),
{
    Path::new(dir).join(name).to_string_lossy().into_owned()
}

/// `==` on `std::path::Path`, which compares paths component by component; `Path` is
/// `Eq`, so a path equals itself.
#[verifier::external_body]
pub(crate) fn path_eq(a: &str, b: &str) -> (same: bool)
    ensures
        same == same_path(a@, b@),
        a@ == b@ ==> same,
{
    Path::new(a) == Path::new(b)
}

/// `std::path::Path::parent`, converted back to a string.
#[verifier::external_body]
pub(crate) fn path_parent(path: &str) -> (parent: Option<String>)
    ensures
        match (parent, parent_of(path@)) {
            (Some(p), Some(q)) => p@ == q,
            (None, None) => true,
            _ => false,
        },
{
    Path::new(path).parent().map(|parent| parent.to_string_lossy().into_owned())
}

/// `std::path::Path::file_stem`, converted back to a string.
#[verifier::external_body]
pub(crate) fn path_file_stem(path: &str) -> (stem: Option<String>)
    ensures
        match (stem, stem_of(path@)) {
            (Some(s), Some(t)) => s@ == t,
            (None, None) => true,
            _ => false,
        },
{
    Path::new(path).file_stem().map(|stem| stem.to_string_lossy().into_owned())
}

/// `std::path::Path::extension`, converted back to a string.
#[verifier::external_body]
pub(crate) fn path_extension(path: &str) -> (extension: Option<String>)
    ensures
        match (extension, extension_of(path@)) {
            (Some(s), Some(t)) => s@ == t,
            (None, None) => true,
            _ => false,
        },
{
    Path::new(path).extension().map(|extension| extension.to_string_lossy().into_owned())
}

}
