//! Paths as text, and the questions about them that the standard library
//! answers.
//!
//! The library holds a path as a `String`. What `std::path` says about the
//! parts of a path is not restated here: each answer has a name, and the
//! functions below return what the name stands for. The answers are those
//! of the platform the library is built for; on that platform they depend
//! on the text of the path alone.
use vstd::prelude::*;
use crate::message::same_strings;

verus! {

/// The path without its last component, as `std::path::Path::parent`
/// gives it; `None` if the path ends in a root or is empty.
pub uninterp spec fn path_parent(path: Seq<char>) -> Option<Seq<char>>;

/// The last component of the path, as `std::path::Path::file_name` gives it;
/// `None` if the path ends in `..` or has no component.
pub uninterp spec fn path_file_name(path: Seq<char>) -> Option<Seq<char>>;

/// The path that `std::path::Path::join` makes of `base` and `name`.
pub uninterp spec fn path_join(base: Seq<char>, name: Seq<char>) -> Seq<char>;

/// The components of the path, as `std::path::Path::components` gives them,
/// each as text.
pub uninterp spec fn path_components(path: Seq<char>) -> Seq<Seq<char>>;

/// Calls `std::path::Path::parent`. The contract names the result and
/// claims nothing else of it.
#[verifier::external_body]
pub(crate) fn parent_of(path: &str) -> (parent: Option<String>)
    ensures
        parent.deep_view() == path_parent(path@),
{
    match std::path::Path::new(path).parent() {
        Some(parent) => Some(parent.to_string_lossy().into_owned()),
        None => None,
    }
}

/// Calls `std::path::Path::file_name`. The contract names the result and
/// claims nothing else of it.
#[verifier::external_body]
pub(crate) fn file_name_of(path: &str) -> (name: Option<String>)
    ensures
        name.deep_view() == path_file_name(path@),
{
    match std::path::Path::new(path).file_name() {
        Some(name) => Some(name.to_string_lossy().into_owned()),
        None => None,
    }
}

/// Calls `std::path::Path::join`. The contract names the result and claims
/// nothing else of it.
#[verifier::external_body]
pub(crate) fn join(base: &str, name: &str) -> (joined: String)
    ensures
        joined@ == path_join(base@, name@),
{
    std::path::Path::new(base).join(name).to_string_lossy().into_owned()
}

/// Calls `std::path::Path::components`. The contract names the result and
/// claims nothing else of it.
#[verifier::external_body]
pub(crate) fn components_of(path: &str) -> (components: Vec<String>)
    ensures
        components.deep_view() == path_components(path@),
{
    std::path::Path::new(path).components().map(
        |component| component.as_os_str().to_string_lossy().into_owned(),
    ).collect()
}

/// Whether the text ends in a slash.
pub open spec fn ends_with_slash(path: Seq<char>) -> bool {
    path.len() > 0 && path.last() == '/'
}

/// Whether the text ends in a slash.
pub fn has_trailing_slash(path: &str) -> (trailing: bool)
    ensures
        trailing == ends_with_slash(path@),
{
    let length = path.unicode_len();
    length > 0 && path.get_char(length - 1) == '/'
}

/// Whether two texts are the same path: whether they have the same
/// components. `/a/b` and `/a/b/` are the same path.
pub open spec fn same_path(a: Seq<char>, b: Seq<char>) -> bool {
    path_components(a) == path_components(b)
}

/// Whether two texts are the same path.
pub fn is_same_path(a: &str, b: &str) -> (same: bool)
    ensures
        same == same_path(a@, b@),
{
    let first = components_of(a);
    let second = components_of(b);
    same_strings(&first, &second)
}

/// Whether `path` is there and is the same path as `other`.
pub open spec fn same_as_some(path: Option<Seq<char>>, other: Seq<char>) -> bool {
    path is Some && same_path(other, path.unwrap())
}

} // verus!
