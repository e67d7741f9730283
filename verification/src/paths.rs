//! Unix paths as text.

use crate::text::{concat, concat3};
use std::path::Path;
use vstd::prelude::*;

verus! {

/// The path without its final component.
pub uninterp spec fn path_parent_text(path: Seq<char>) -> Option<Seq<char>>;

/// The final component of a path.
pub uninterp spec fn path_file_name_text(path: Seq<char>) -> Option<Seq<char>>;

/// Two paths have the same components.
pub uninterp spec fn same_path(a: Seq<char>, b: Seq<char>) -> bool;

/// An optional text by its contents.
pub open spec fn optional_text(text: Option<String>) -> Option<Seq<char>> {
    match text {
        Some(t) => Some(t@),
        None => None,
    }
}

/// The path without its final component, from `std::path::Path::parent` on Unix.
///
/// The result is a function of the path.
#[verifier::external_body]
pub(crate) fn path_parent(path: &str) -> (parent: Option<String>)
    ensures
        optional_text(parent) == path_parent_text(path@),
{
    Path::new(path).parent().map(|parent| parent.to_string_lossy().into_owned())
}

/// The final component, from `std::path::Path::file_name` on Unix.
///
/// The result is a function of the path.
#[verifier::external_body]
pub(crate) fn path_file_name(path: &str) -> (name: Option<String>)
    ensures
        optional_text(name) == path_file_name_text(path@),
{
    Path::new(path).file_name().map(|name| name.to_string_lossy().into_owned())
}

/// Compares two paths with the `==` of `std::path::Path` on Unix, which goes by components.
///
/// The result is a function of the two paths, and a path equals itself.
#[verifier::external_body]
pub(crate) fn paths_equal(a: &str, b: &str) -> (equal: bool)
    ensures
        equal == same_path(a@, b@),
        a@ == b@ ==> equal,
{
    Path::new(a) == Path::new(b)
}

/// The final component without its extension.
pub uninterp spec fn path_file_stem_text(path: Seq<char>) -> Option<Seq<char>>;

/// The final component without its extension, from `std::path::Path::file_stem` on Unix.
///
/// The result is a function of the path.
#[verifier::external_body]
pub(crate) fn path_file_stem(path: &str) -> (stem: Option<String>)
    ensures
        optional_text(stem) == path_file_stem_text(path@),
{
    Path::new(path).file_stem().map(|stem| stem.to_string_lossy().into_owned())
}

/// A path with another extension.
pub uninterp spec fn path_with_extension_text(path: Seq<char>, extension: Seq<char>) -> Seq<char>;

/// The path with another extension, from `std::path::Path::with_extension` on Unix. An extension with a
/// separator, on which the call panics, is left out.
///
/// The result is a function of the two texts.
#[verifier::external_body]
pub(crate) fn path_with_extension(path: &str, extension: &str) -> (res: String)
    requires
        !extension@.contains('/'),
    ensures
        res@ == path_with_extension_text(path@, extension@),
{
    Path::new(path).with_extension(extension).to_string_lossy().into_owned()
}

/// A path followed by another: an absolute one replaces it, any other goes below it.
pub open spec fn joined(base: Seq<char>, name: Seq<char>) -> Seq<char> {
    if name.len() > 0 && name[0] == '/' {
        name
    } else if base.len() == 0 || base.last() == '/' {
        base + name
    } else {
        base + "/"@ + name
    }
}

/// Joins two paths.
pub fn join_path(base: &str, name: &str) -> (path: String)
    ensures
        path@ == joined(base@, name@),
{
    let base_len: usize = base.unicode_len();
    if name.unicode_len() > 0 && name.get_char(0) == '/' {
        return name.to_owned();
    }
    if base_len == 0 || base.get_char(base_len - 1) == '/' {
        concat(base, name)
    } else {
        concat3(base, "/", name)
    }
}

} // verus!
