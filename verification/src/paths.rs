//! File paths held as text: joining, renaming and ordering them as `std::path` does.
use vstd::prelude::*;
use std::path::Path;
use crate::text::{concat, seq_ends_with, str_ends_with};

verus! {

/// A directory joined with a relative name, as `Path::join` does on Unix: a separator goes
/// between them unless the directory is empty or already ends with one.
pub open spec fn spec_join(dir: Seq<char>, name: Seq<char>) -> Seq<char> {
    if dir.len() == 0 || seq_ends_with(dir, "/"@) {
        dir + name
    } else {
        dir + "/"@ + name
    }
}

/// Joins a relative name to a directory.
pub fn join_path(dir: &str, name: &str) -> (r: String)
    ensures
        r@ == spec_join(dir@, name@),
{
    if dir.is_empty() || str_ends_with(dir, "/") {
        concat(dir, name)
    } else {
        let with_sep = concat(dir, "/");
        concat(with_sep.as_str(), name)
    }
}

/// The path `Path::with_file_name` makes of a path and a new last component.
pub uninterp spec fn spec_with_file_name(path: Seq<char>, name: Seq<char>) -> Seq<char>;

/// `Path::with_file_name`: the path with its last component replaced by `name`. The contract
/// names the result; it does not restate how `std::path` splits components.
#[verifier::external_body]
pub(crate) fn with_file_name(path: &str, name: &str) -> (r: String)
    ensures
        r@ == spec_with_file_name(path@, name@),
{
    Path::new(path).with_file_name(name).to_string_lossy().into_owned()
}

/// Whether `Path::new(a) < Path::new(b)`: paths are ordered component by component.
pub uninterp spec fn spec_path_lt(a: Seq<char>, b: Seq<char>) -> bool;

/// `<` on `std::path::Path`: the component-wise order in which `sort_by` on paths puts
/// files. The contract names the result; it does not restate the order.
#[verifier::external_body]
pub(crate) fn path_lt(a: &str, b: &str) -> (r: bool)
    ensures
        r == spec_path_lt(a@, b@),
{
    Path::new(a) < Path::new(b)
}

/// The parent `Path::parent` gives of a path, `None` for a root or an empty path.
pub uninterp spec fn spec_path_parent(path: Seq<char>) -> Option<Seq<char>>;

/// `Path::parent`: the path without its last component, or `None` when it has none. The
/// contract names the result; it does not restate how `std::path` splits components.
#[verifier::external_body]
pub(crate) fn path_parent(path: &str) -> (r: Option<String>)
    ensures
        r matches Some(p) ==> spec_path_parent(path@) == Some(p@),
        r is None ==> spec_path_parent(path@) is None,
{
    Path::new(path).parent().map(|p| p.to_string_lossy().into_owned())
}

/// The path `Path::with_extension` makes of a path and a new extension.
pub uninterp spec fn spec_with_extension(path: Seq<char>, extension: Seq<char>) -> Seq<char>;

/// `Path::with_extension`: the path with the extension of its last component replaced (or
/// added). The contract names the result; it does not restate how `std::path` finds the
/// extension. `Path::with_extension` panics on an extension that holds a path separator
/// (`/` on Unix), so such an extension is left out.
#[verifier::external_body]
pub(crate) fn with_extension(path: &str, extension: &str) -> (r: String)
    requires
        !extension@.contains('/'),
    ensures
        r@ == spec_with_extension(path@, extension@),
{
    Path::new(path).with_extension(extension).to_string_lossy().into_owned()
}

/// What `Path::strip_prefix` leaves of a path below a base, `None` when the path is not
/// below it.
pub uninterp spec fn spec_strip_prefix(path: Seq<char>, base: Seq<char>) -> Option<Seq<char>>;

/// `Path::strip_prefix`: the rest of the path below `base`, compared component by component,
/// or `None` when `base` is not a prefix of it. The contract names the result.
#[verifier::external_body]
pub(crate) fn strip_prefix(path: &str, base: &str) -> (r: Option<String>)
    ensures
        r matches Some(s) ==> spec_strip_prefix(path@, base@) == Some(s@),
        r is None ==> spec_strip_prefix(path@, base@) is None,
{
    Path::new(path).strip_prefix(base).ok().map(|p| p.to_string_lossy().into_owned())
}

} // verus!
