//! Name and version of a package, read from the name of its file.

use vstd::prelude::*;
use crate::misc::tail_after_last;
use crate::text::{after_last, chars_of, ends_with, find_char, has_suffix_str, push_all, push_str, string_of};

verus! {

/// What the name of a package file says of the package.
///
/// The file name is what follows the last `/` of the path. It is split at its
/// first two `_`: the name stands before the first, the version between the
/// first and the second. A file whose name ends in `ddeb` is tracked under
/// its name followed by `_d`, apart from the package it holds the debug
/// symbols of. A file name with fewer than two `_` says nothing.
pub open spec fn package_info(path: Seq<char>) -> Option<(Seq<char>, Seq<char>)> {
    let file = after_last(path, '/');
    match file.index_of_first('_') {
        None => None,
        Some(p) => {
            let rest = file.skip(p + 1);
            match rest.index_of_first('_') {
                None => None,
                Some(q) => Some(
                    (
                        if ends_with(rest, "ddeb"@) {
                            file.take(p) + "_d"@
                        } else {
                            file.take(p)
                        },
                        rest.take(q),
                    ),
                ),
            }
        },
    }
}

/// The name and the version of the package stored at `package`, a path whose
/// parts are separated by `/`.
pub fn get_debian_package_info(package: &str) -> (r: Option<(String, String)>)
    ensures
        match r {
            Some((name, version)) => package_info(package@) == Some((name@, version@)),
            None => package_info(package@) is None,
        },
{
    let chars = chars_of(package);
    let file = tail_after_last(chars.as_slice(), '/');
    let p = match find_char(file, '_') {
        Some(p) => p,
        None => {
            return None;
        },
    };
    let n = file.len();
    let rest = &file[p + 1..n];
    assert(rest@ =~= file@.skip(p + 1));
    let q = match find_char(rest, '_') {
        Some(q) => q,
        None => {
            return None;
        },
    };
    let mut name: Vec<char> = Vec::new();
    let head = &file[0..p];
    assert(head@ =~= file@.take(p as int));
    push_all(&mut name, head);
    if has_suffix_str(rest, "ddeb") {
        push_str(&mut name, "_d");
    }
    let version = &rest[0..q];
    assert(version@ =~= rest@.take(q as int));
    Some((string_of(name.as_slice()), string_of(version)))
}

} // verus!
