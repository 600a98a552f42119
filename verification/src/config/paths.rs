//! Filesystem paths, carried through as `std::path::PathBuf` values.
use std::path::PathBuf;
use vstd::prelude::*;

verus! {

/// `std::path::PathBuf`, carried through without a look inside.
#[verifier::external_type_specification]
#[verifier::external_body]
pub struct ExPathBuf(PathBuf);

/// What `Path::join` makes of `base` and the relative name `name`: `base` with `name`
/// adjoined.
pub uninterp spec fn spec_join_path(base: PathBuf, name: Seq<char>) -> PathBuf;

/// Calls `Path::join(base, name)`. Only the tie of the result to `spec_join_path` of the
/// arguments is claimed; how the path is composed (separators, absolute names) is std's and
/// is not stated here.
#[verifier::external_body]
pub(crate) fn join_path(base: &PathBuf, name: &str) -> (r: PathBuf)
    ensures
        r == spec_join_path(*base, name@),
{
    base.join(name)
}

} // verus!
