//! What the generator of service stubs needs from this library: how the
//! path of a `.proto` file below an include directory is written in an
//! import.

use vstd::prelude::*;
use vstd::string::*;

verus! {

/// Whether `path` is relative: it does not start at the root.
pub open spec fn is_relative_path(path: Seq<char>) -> bool {
    path.len() == 0 || path[0] != '/'
}

/// Whether `path` is relative.
pub fn is_relative(path: &str) -> (b: bool)
    ensures
        b == is_relative_path(path@),
{
    path.unicode_len() == 0 || path.get_char(0) != '/'
}

/// The path by which `.proto` files import the file at the relative path
/// `path`: its components with slashes between them, which is `path` as it
/// stands.
pub fn relative_path_to_protobuf_path(path: &str) -> (protobuf_path: String)
    requires
        is_relative_path(path@),
    ensures
        protobuf_path@ == path@,
{
    path.to_owned()
}

/// The path by which `.proto` files import the file at `path`, if `path` is
/// relative.
pub fn protobuf_path_of(path: &str) -> (r: Option<String>)
    ensures
        is_relative_path(path@) ==> (r matches Some(p) && p@ == path@),
        !is_relative_path(path@) ==> r is None,
{
    if is_relative(path) {
        Some(relative_path_to_protobuf_path(path))
    } else {
        None
    }
}

} // verus!
