//! Small helpers on file names and URLs.

use vstd::prelude::*;
use crate::text::{after_last, chars_of, ends_with, find_char, has_suffix_str, rfind_char, string_of};

verus! {

/// With this flag debug-symbol archives (`.ddeb`) count as package files.
pub const INCLUDE_DDEB: u8 = 1;

/// With this flag source files count as package files.
pub const INCLUDE_SRCS: u8 = 2;

/// Whether a file name ends as a source file does: in `.tar.gz`, `.tar.xz`,
/// `.tar.zst` or `.dsc`.
pub open spec fn has_source_extension(name: Seq<char>) -> bool {
    ends_with(name, ".tar.gz"@) || ends_with(name, ".tar.xz"@) || ends_with(name, ".tar.zst"@)
        || ends_with(name, ".dsc"@)
}

/// Whether a file of this name is a package file: one that ends in `.deb`;
/// with `INCLUDE_DDEB` also one that ends in `.ddeb`; with `INCLUDE_SRCS`
/// also a source file.
pub open spec fn spec_is_deb(name: Seq<char>, flags: u8) -> bool {
    ends_with(name, ".deb"@) || (flags & INCLUDE_DDEB != 0 && ends_with(name, ".ddeb"@)) || (flags
        & INCLUDE_SRCS != 0 && has_source_extension(name))
}

/// Whether `name` ends as a source file does.
pub fn is_source_name(name: &[char]) -> (r: bool)
    ensures
        r == has_source_extension(name@),
{
    has_suffix_str(name, ".tar.gz") || has_suffix_str(name, ".tar.xz") || has_suffix_str(
        name,
        ".tar.zst",
    ) || has_suffix_str(name, ".dsc")
}

/// Whether a file of this name is a package file.
pub fn is_deb(name: &str, flags: u8) -> (r: bool)
    ensures
        r == spec_is_deb(name@, flags),
{
    let chars = chars_of(name);
    let v = chars.as_slice();
    has_suffix_str(v, ".deb") || (flags & INCLUDE_DDEB != 0 && has_suffix_str(v, ".ddeb")) || (flags
        & INCLUDE_SRCS != 0 && is_source_name(v))
}

/// The file name a URL ends in: what follows its last `/`, or the whole
/// URL where it holds no `/`.
pub open spec fn spec_filename_from_url(url: Seq<char>) -> Seq<char> {
    after_last(url, '/')
}

/// The architecture that a file stem names.
///
/// A stem that ends in `amd64` or `i386` names that architecture. Otherwise
/// the architecture is what follows the last `_` (what follows the first
/// character where there is no `_`), cut before its first `-`.
pub open spec fn spec_arch_from_stem(stem: Seq<char>) -> Seq<char> {
    if ends_with(stem, "amd64"@) {
        "amd64"@
    } else if ends_with(stem, "i386"@) {
        "i386"@
    } else {
        let arch = match stem.index_of_last('_') {
            Some(i) => stem.skip(i + 1),
            None => if stem.len() == 0 {
                stem
            } else {
                stem.skip(1)
            },
        };
        match arch.index_of_first('-') {
            Some(p) => arch.take(p),
            None => arch,
        }
    }
}

/// What follows the last `c` in `v`, or all of `v`.
pub fn tail_after_last(v: &[char], c: char) -> (r: &[char])
    ensures
        r@ == after_last(v@, c),
{
    match rfind_char(v, c) {
        Some(i) => {
            let n = v.len();
            let r = &v[i + 1..n];
            assert(r@ =~= v@.skip(i + 1));
            r
        },
        None => v,
    }
}

/// The file name a URL ends in.
pub fn filename_from_url(url: &str) -> (name: String)
    ensures
        name@ == spec_filename_from_url(url@),
{
    let chars = chars_of(url);
    string_of(tail_after_last(chars.as_slice(), '/'))
}

/// The architecture that a file stem names.
pub fn get_arch_from_stem(stem: &str) -> (arch: String)
    ensures
        arch@ == spec_arch_from_stem(stem@),
{
    let chars = chars_of(stem);
    let v = chars.as_slice();
    if has_suffix_str(v, "amd64") {
        return "amd64".to_owned();
    }
    if has_suffix_str(v, "i386") {
        return "i386".to_owned();
    }
    let arch: &[char] = match rfind_char(v, '_') {
        Some(i) => {
            let n = v.len();
            let r = &v[i + 1..n];
            assert(r@ =~= v@.skip(i + 1));
            r
        },
        None => if v.len() == 0 {
            v
        } else {
            let r = &v[1..v.len()];
            assert(r@ =~= v@.skip(1));
            r
        },
    };
    match find_char(arch, '-') {
        Some(p) => {
            let r = &arch[0..p];
            assert(r@ =~= arch@.take(p as int));
            string_of(r)
        },
        None => string_of(arch),
    }
}

/// Which of the wanted packages a file belongs to, by what stands before
/// the first `_` of its name: the position of the first package of that
/// name. A name without `_` belongs to none.
pub open spec fn spec_match_deb(file_name: Seq<char>, packages: Seq<Seq<char>>) -> Option<int> {
    match file_name.index_of_first('_') {
        Some(p) => packages.index_of_first(file_name.take(p)),
        None => None,
    }
}

/// Which of the wanted packages the file `file_name` at `path` belongs to:
/// the path, and the position of the package among `packages`.
pub fn match_deb(file_name: &str, path: &str, packages: &Vec<String>) -> (r: Option<
    (String, usize),
>)
    ensures
        match r {
            Some((p, position)) => p@ == path@ && spec_match_deb(
                file_name@,
                packages@.map_values(|s: String| s@),
            ) == Some(position as int),
            None => spec_match_deb(file_name@, packages@.map_values(|s: String| s@)) is None,
        },
{
    let chars = chars_of(file_name);
    let v = chars.as_slice();
    let p = match find_char(v, '_') {
        Some(p) => p,
        None => {
            return None;
        },
    };
    let package = &v[0..p];
    assert(package@ =~= file_name@.take(p as int));
    let ghost names = packages@.map_values(|s: String| s@);
    let mut i: usize = 0;
    while i < packages.len()
        invariant
            i <= packages@.len(),
            names == packages@.map_values(|s: String| s@),
            file_name@.index_of_first('_') == Some(p as int),
            package@ == file_name@.take(p as int),
            forall|j: int| 0 <= j < i ==> names[j] != package@,
        decreases packages@.len() - i,
    {
        if crate::text::is_text(package, packages[i].as_str()) {
            proof {
                names.index_of_first_ensures(package@);
                assert(names[i as int] == package@);
                let k = names.index_of_first(package@)->0;
                assert(k == i) by {
                    if k < i {
                        assert(names[k] != package@);
                    }
                }
            }
            return Some((path.to_owned(), i));
        }
        assert(names[i as int] != package@);
        i += 1;
    }
    proof {
        names.index_of_first_ensures(package@);
    }
    None
}

} // verus!
