//! Path and text operations of the standard library that the browser relies on.
//!
//! Their results are given names here; the functions at the end of this file
//! make the calls. Nothing in this file is proved: each contract records what
//! the standard library is trusted to do.

use vstd::prelude::*;

verus! {

/// The parent directory of `path`, or `None` where `path` ends in a root or is
/// empty, by the path rules of the platform the crate is built for.
pub uninterp spec fn parent_of(path: Seq<char>) -> Option<Seq<char>>;

/// The path that results from adjoining `name` to `base`.
pub uninterp spec fn joined(base: Seq<char>, name: Seq<char>) -> Seq<char>;

/// The extension of the last component of `path`, without its dot, or `None`
/// where that component has none.
pub uninterp spec fn extension_of(path: Seq<char>) -> Option<Seq<char>>;

/// `text` with every character replaced by its lower-case form.
pub uninterp spec fn lowercased(text: Seq<char>) -> Seq<char>;

/// Calls `std::path::Path::parent`. Trusted: the result is `parent_of` of the
/// argument, that is, the call depends on the text of `path` alone.
#[verifier::external_body]
pub(crate) fn parent(path: &str) -> (result: Option<String>)
    ensures
        match result {
            Some(dir) => parent_of(path@) == Some(dir@),
            None => parent_of(path@) is None,
        },
{
    match std::path::Path::new(path).parent() {
        Some(dir) => Some(dir.to_string_lossy().into_owned()),
        None => None,
    }
}

/// Calls `std::path::Path::join`. Trusted: the result is `joined` of the two
/// arguments, that is, the call depends on their text alone.
#[verifier::external_body]
pub(crate) fn join(base: &str, name: &str) -> (result: String)
    ensures
        result@ == joined(base@, name@),
{
    std::path::Path::new(base).join(name).to_string_lossy().into_owned()
}

/// Calls `std::path::Path::extension`. Trusted: the result is `extension_of`
/// of the argument, that is, the call depends on the text of `path` alone.
#[verifier::external_body]
pub(crate) fn extension(path: &str) -> (result: Option<String>)
    ensures
        match result {
            Some(found) => extension_of(path@) == Some(found@),
            None => extension_of(path@) is None,
        },
{
    match std::path::Path::new(path).extension() {
        Some(found) => Some(found.to_string_lossy().into_owned()),
        None => None,
    }
}

/// Calls `str::to_lowercase`. Trusted: the result is `lowercased` of the
/// argument, that is, the call depends on the text alone.
#[verifier::external_body]
pub(crate) fn to_lowercase(text: &str) -> (result: String)
    ensures
        result@ == lowercased(text@),
{
    text.to_lowercase()
}

} // verus!
