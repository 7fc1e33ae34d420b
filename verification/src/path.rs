//! Path manipulation borrowed from the standard library.
//!
//! Paths are carried as UTF-8 strings. What `std::path` computes from them is
//! named here and believed, not proved.

use crate::views::optional_text;
use vstd::prelude::*;

verus! {

/// The extension `std::path::Path::extension` finds in `path`, if any.
pub uninterp spec fn path_extension(path: Seq<char>) -> Option<Seq<char>>;

/// The path `std::path::Path::with_extension` builds from `path` and `extension`.
pub uninterp spec fn path_with_extension(path: Seq<char>, extension: Seq<char>) -> Seq<char>;

/// The final component `std::path::Path::file_name` finds in `path`, if any.
pub uninterp spec fn path_file_name(path: Seq<char>) -> Option<Seq<char>>;

/// The parent `std::path::Path::parent` finds for `path`, if any.
pub uninterp spec fn path_parent(path: Seq<char>) -> Option<Seq<char>>;

/// The path `std::path::Path::join` builds from `base` and `component`.
pub uninterp spec fn path_join(base: Seq<char>, component: Seq<char>) -> Seq<char>;

/// Calls `std::path::Path::extension`. Trusted: the result is the extension
/// the standard library extracts from `path`, and nothing more is claimed.
#[verifier::external_body]
pub(crate) fn extension_of(path: &str) -> (r: Option<String>)
    ensures
        optional_text(r) == path_extension(path@),
{
    std::path::Path::new(path).extension().map(|e| e.to_string_lossy().into_owned())
}

/// Whether `extension` holds no path separator, neither a slash nor a
/// backslash.
pub open spec fn is_plain_extension(extension: Seq<char>) -> bool {
    !extension.contains('/') && !extension.contains('\\')
}

/// Calls `std::path::Path::with_extension`, which panics on an extension
/// that holds a path separator; such an extension is not admitted. Trusted:
/// the result is the path the standard library produces when the extension
/// of `path` is replaced by `extension`.
#[verifier::external_body]
pub(crate) fn with_extension(path: &str, extension: &str) -> (r: String)
    requires
        is_plain_extension(extension@),
    ensures
        r@ == path_with_extension(path@, extension@),
{
    std::path::Path::new(path).with_extension(extension).to_string_lossy().into_owned()
}

/// Calls `std::path::Path::file_name`. Trusted: the result is the final
/// component the standard library finds in `path`.
#[verifier::external_body]
pub(crate) fn file_name_of(path: &str) -> (r: Option<String>)
    ensures
        optional_text(r) == path_file_name(path@),
{
    std::path::Path::new(path).file_name().map(|e| e.to_string_lossy().into_owned())
}

/// Calls `std::path::Path::parent`. Trusted: the result is the parent the
/// standard library finds for `path`.
#[verifier::external_body]
pub(crate) fn parent_of(path: &str) -> (r: Option<String>)
    ensures
        optional_text(r) == path_parent(path@),
{
    std::path::Path::new(path).parent().map(|e| e.to_string_lossy().into_owned())
}

/// Calls `std::path::Path::join`. Trusted: the result is the path the standard
/// library builds by joining `component` onto `base`.
#[verifier::external_body]
pub(crate) fn join(base: &str, component: &str) -> (r: String)
    ensures
        r@ == path_join(base@, component@),
{
    std::path::Path::new(base).join(component).to_string_lossy().into_owned()
}

} // verus!
