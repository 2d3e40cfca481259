//! Which files move when a package changes its component.

use vstd::prelude::*;
use crate::misc::{is_deb, spec_is_deb, INCLUDE_DDEB, INCLUDE_SRCS};
use crate::text::{joined, str_eq};

verus! {

/// Whether the walk through the pool of a component goes on at an entry:
/// through the directories of the architectures and of the first letters,
/// into the directory of the package, and to its package files.
pub open spec fn spec_is_migrated(depth: usize, file_name: Seq<char>, package: Seq<char>) -> bool {
    if depth == 1 || depth == 2 {
        true
    } else if depth == 3 {
        file_name == package
    } else if depth == 4 {
        spec_is_deb(file_name, INCLUDE_DDEB | INCLUDE_SRCS)
    } else {
        false
    }
}

/// Whether the walk goes on at the entry `file_name`, found `depth` levels
/// below the component, when `package` is moved.
pub fn is_migrated(depth: usize, file_name: &str, package: &str) -> (r: bool)
    ensures
        r == spec_is_migrated(depth, file_name@, package@),
{
    if depth == 1 || depth == 2 {
        true
    } else if depth == 3 {
        str_eq(file_name, package)
    } else if depth == 4 {
        is_deb(file_name, INCLUDE_DDEB | INCLUDE_SRCS)
    } else {
        false
    }
}

/// The pool of a component, with a closing `/`.
pub fn component_pool(archive: &str, component: &str) -> (r: String)
    ensures
        r@ == "repo/pool/"@ + archive@ + "/"@ + component@ + "/"@,
{
    let a = joined("repo/pool/", archive);
    let b = joined(a.as_str(), "/");
    let c = joined(b.as_str(), component);
    joined(c.as_str(), "/")
}

} // verus!
