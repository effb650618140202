//! Paths as texts, with the operations of `std::path` on them.

use vstd::prelude::*;
use std::path::Path;

verus! {

/// Whether `std::path::Path::starts_with` finds `base` to be a prefix of
/// `path`, component by component.
pub uninterp spec fn path_within(path: Seq<char>, base: Seq<char>) -> bool;

/// What `std::path::Path::parent` gives for `path`: the path without its
/// last component, if it has one to lose.
pub uninterp spec fn path_parent(path: Seq<char>) -> Option<Seq<char>>;

/// What `std::path::Path::join` makes of `base` and `child`.
pub uninterp spec fn path_joined(base: Seq<char>, child: Seq<char>) -> Seq<char>;

/// `Path::starts_with`: whether `base` is a prefix of `path`, whole
/// components only.
#[verifier::external_body]
pub(crate) fn starts_with(path: &str, base: &str) -> (r: bool)
    ensures
        r == path_within(path@, base@),
{
    Path::new(path).starts_with(Path::new(base))
}

/// `Path::parent`: the path without its last component, or nothing where the
/// path ends in a root or is empty.
#[verifier::external_body]
pub(crate) fn parent(path: &str) -> (r: Option<String>)
    ensures
        r.deep_view() == path_parent(path@),
{
    Path::new(path).parent().map(|p| p.to_string_lossy().into_owned())
}

/// `Path::join`: `child` appended to `base` as further components.
#[verifier::external_body]
pub(crate) fn join(base: &str, child: &str) -> (r: String)
    ensures
        r@ == path_joined(base@, child@),
{
    Path::new(base).join(child).to_string_lossy().into_owned()
}

} // verus!
