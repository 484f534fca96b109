//! The path operations of `std::path` that this crate relies on.
//!
//! A path is held as text. Verus does not see into `std::path`, so each operation is a
//! trusted wrapper, and what it returns has a name of its own: a spec function without a
//! body. The contracts of this crate say which operation was applied to which text; what
//! the operation makes of a given text is `std`'s to say, under the path conventions of
//! the platform the crate is built for.

use std::path::Path;
use std::path::PathBuf;
use vstd::prelude::*;

verus! {

/// The text of the path that `Path::join` makes of `base` and `child`.
pub uninterp spec fn joined(base: Seq<char>, child: Seq<char>) -> Seq<char>;

/// The final component of `path`, as `Path::file_name` gives it.
pub uninterp spec fn file_name_of(path: Seq<char>) -> Option<Seq<char>>;

/// The final component of `path` without its extension, as `Path::file_stem` gives it.
pub uninterp spec fn file_stem_of(path: Seq<char>) -> Option<Seq<char>>;

/// The text of `path` after `PathBuf::set_extension` has been applied with `extension`.
pub uninterp spec fn with_extension(path: Seq<char>, extension: Seq<char>) -> Seq<char>;

/// Whether `Path`'s `==` holds two paths to be equal. It compares component by component.
pub uninterp spec fn same_path(a: Seq<char>, b: Seq<char>) -> bool;

/// Whether `text` holds a character that some platform reads as a path separator.
pub open spec fn has_separator(text: Seq<char>) -> bool {
    exists|k: int| 0 <= k < text.len() && (#[trigger] text[k] == '/' || text[k] == '\\')
}

/// Calls `Path::join`. Trusted: the result is a function of the two texts alone, named
/// [`joined`].
#[verifier::external_body]
pub(crate) fn join(base: &str, child: &str) -> (path: String)
    ensures
        path@ == joined(base@, child@),
{
    Path::new(base).join(child).to_string_lossy().into_owned()
}

/// Calls `Path::file_name`. Trusted: the result is a function of the text alone, named
/// [`file_name_of`].
#[verifier::external_body]
pub(crate) fn file_name(path: &str) -> (name: Option<String>)
    ensures
        match name {
            Some(text) => file_name_of(path@) == Some(text@),
            None => file_name_of(path@) is None,
        },
{
    match Path::new(path).file_name() {
        Some(name) => Some(name.to_string_lossy().into_owned()),
        None => None,
    }
}

/// Calls `Path::file_stem`. Trusted: the result is a function of the text alone, named
/// [`file_stem_of`].
#[verifier::external_body]
pub(crate) fn file_stem(path: &str) -> (stem: Option<String>)
    ensures
        match stem {
            Some(text) => file_stem_of(path@) == Some(text@),
            None => file_stem_of(path@) is None,
        },
{
    match Path::new(path).file_stem() {
        Some(stem) => Some(stem.to_string_lossy().into_owned()),
        None => None,
    }
}

/// Calls `PathBuf::set_extension` on a copy of `path`. Trusted: the result is a function of
/// the two texts alone, named [`with_extension`]. `set_extension` panics on an extension
/// that holds a path separator, so such an extension is not admitted.
#[verifier::external_body]
pub(crate) fn set_extension(path: &str, extension: &str) -> (changed: String)
    requires
        !has_separator(extension@),
    ensures
        changed@ == with_extension(path@, extension@),
{
    let mut buf = PathBuf::from(path);
    buf.set_extension(extension);
    buf.to_string_lossy().into_owned()
}

/// Compares two paths with `Path`'s `==`. Trusted: the result is a function of the two
/// texts alone, named [`same_path`].
#[verifier::external_body]
pub(crate) fn paths_equal(a: &str, b: &str) -> (equal: bool)
    ensures
        equal == same_path(a@, b@),
{
    Path::new(a) == Path::new(b)
}

} // verus!
