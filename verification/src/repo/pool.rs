//! Where the files of a build go in the pool.

use vstd::prelude::*;
use crate::misc::{get_arch_from_stem, spec_arch_from_stem};
use crate::text::{chars_of, ends_with, find_char, has_prefix, has_suffix_str, push_all, push_str, rfind_char, starts_with, string_of};

verus! {

/// With this flag source files are moved to the pool, too.
pub const KEEP_SOURCE: u8 = 1;

/// With this flag only package archives are moved to the pool.
pub const ARCHIVES_ONLY: u8 = 2;

/// Whether a path ends as a source file does: in `.dsc`, `.tar.gz`,
/// `.tar.xz` or `.tar.zst`.
pub open spec fn spec_is_source(path: Seq<char>) -> bool {
    ends_with(path, ".dsc"@) || ends_with(path, ".tar.gz"@) || ends_with(path, ".tar.xz"@)
        || ends_with(path, ".tar.zst"@)
}

/// Whether a path ends as a package archive does: in `.deb` or `.ddeb`.
pub open spec fn spec_is_archive(path: Seq<char>) -> bool {
    ends_with(path, ".deb"@) || ends_with(path, ".ddeb"@)
}

/// Whether a file name ends in the extension of a source file, with or
/// without the dot before it.
pub open spec fn names_source(filename: Seq<char>) -> bool {
    ends_with(filename, "tar.gz"@) || ends_with(filename, "tar.xz"@) || ends_with(
        filename,
        "tar.zst"@,
    ) || ends_with(filename, "dsc"@)
}

/// The name of a file without its last extension. A name whose only `.` is
/// its first character has no extension.
pub open spec fn spec_file_stem(filename: Seq<char>) -> Seq<char> {
    match filename.index_of_last('.') {
        Some(i) => if i > 0 {
            filename.take(i)
        } else {
            filename
        },
        None => filename,
    }
}

/// The package that a file belongs to: what stands before its first `_`,
/// without a closing `-dbgsym` for a file that is no source. A name
/// without `_` names no package.
pub open spec fn pool_package(filename: Seq<char>) -> Seq<char> {
    let package = match filename.index_of_first('_') {
        Some(p) => filename.take(p),
        None => Seq::empty(),
    };
    if !names_source(filename) && ends_with(package, "-dbgsym"@) {
        package.take(package.len() - 7)
    } else {
        package
    }
}

/// The first character of a text, as a text.
pub open spec fn initial(s: Seq<char>) -> Seq<char> {
    if s.len() >= 1 {
        s.take(1)
    } else {
        s
    }
}

/// The directory of the pool that a file goes to: the sources of a package
/// under `source`, its archives under the directory of their architecture,
/// each below the first letter of the package and the package itself.
pub open spec fn spec_pool_destination(
    filename: Seq<char>,
    suite: Seq<char>,
    component: Seq<char>,
) -> Seq<char> {
    let package = pool_package(filename);
    if names_source(filename) {
        "repo/pool/"@ + suite + "/"@ + component + "/source/"@ + initial(package) + "/"@ + package
    } else {
        "repo/pool/"@ + suite + "/"@ + component + "/binary-"@ + spec_arch_from_stem(
            spec_file_stem(filename),
        ) + "/"@ + initial(package) + "/"@ + package
    }
}

/// Whether a file is among those of the package `name`: whether its name
/// begins with the package's name and `_`, or with the name, `-dbgsym` and
/// `_`.
pub open spec fn spec_passes_filter(filename: Seq<char>, name: Seq<char>) -> bool {
    starts_with(filename, name + "_"@) || starts_with(filename, name + "-dbgsym_"@)
}

/// Whether a file is left where it is: a directory always, and with
/// `ARCHIVES_ONLY` every file that is no package archive.
pub open spec fn spec_is_skipped(is_dir: bool, path: Seq<char>, flags: u8) -> bool {
    is_dir || (flags & ARCHIVES_ONLY != 0 && !spec_is_archive(path))
}

/// What is done with a file on its way to the pool.
#[derive(Clone, Copy, PartialEq, Eq, Debug, Structural)]
pub enum PoolAction {
    /// It is moved to the pool.
    Move,
    /// It is removed.
    Remove,
}

/// What is done with the file at `path`: a source file is removed unless
/// sources are kept; every other file is moved.
pub open spec fn spec_pool_action(path: Seq<char>, flags: u8) -> PoolAction {
    if flags & KEEP_SOURCE != 0 || !spec_is_source(path) {
        PoolAction::Move
    } else {
        PoolAction::Remove
    }
}

/// Whether `path` ends as a source file does.
pub fn is_source(path: &str) -> (r: bool)
    ensures
        r == spec_is_source(path@),
{
    let chars = chars_of(path);
    let v = chars.as_slice();
    has_suffix_str(v, ".dsc") || has_suffix_str(v, ".tar.gz") || has_suffix_str(v, ".tar.xz")
        || has_suffix_str(v, ".tar.zst")
}

/// Whether `path` ends as a package archive does.
pub fn is_archive(path: &str) -> (r: bool)
    ensures
        r == spec_is_archive(path@),
{
    let chars = chars_of(path);
    let v = chars.as_slice();
    has_suffix_str(v, ".deb") || has_suffix_str(v, ".ddeb")
}

/// Whether the file at `path` is left where it is.
pub fn is_skipped(is_dir: bool, path: &str, flags: u8) -> (r: bool)
    ensures
        r == spec_is_skipped(is_dir, path@, flags),
{
    is_dir || (flags & ARCHIVES_ONLY != 0 && !is_archive(path))
}

/// What is done with the file at `path`.
pub fn pool_action(path: &str, flags: u8) -> (r: PoolAction)
    ensures
        r == spec_pool_action(path@, flags),
{
    if flags & KEEP_SOURCE != 0 || !is_source(path) {
        PoolAction::Move
    } else {
        PoolAction::Remove
    }
}

/// Whether the file `filename` is among those of the package `name`.
pub fn passes_filter(filename: &str, name: &str) -> (r: bool)
    ensures
        r == spec_passes_filter(filename@, name@),
{
    let file = chars_of(filename);
    let mut plain: Vec<char> = Vec::new();
    push_str(&mut plain, name);
    push_str(&mut plain, "_");
    let mut debug: Vec<char> = Vec::new();
    push_str(&mut debug, name);
    push_str(&mut debug, "-dbgsym_");
    assert(plain@ =~= name@ + "_"@);
    assert(debug@ =~= name@ + "-dbgsym_"@);
    has_prefix(file.as_slice(), plain.as_slice()) || has_prefix(file.as_slice(), debug.as_slice())
}

/// The name of a file without its last extension.
pub fn file_stem(filename: &str) -> (r: String)
    ensures
        r@ == spec_file_stem(filename@),
{
    let chars = chars_of(filename);
    let v = chars.as_slice();
    match rfind_char(v, '.') {
        Some(i) => if i > 0 {
            let s = &v[0..i];
            assert(s@ =~= filename@.take(i as int));
            string_of(s)
        } else {
            string_of(v)
        },
        None => string_of(v),
    }
}

fn names_a_source(v: &[char]) -> (r: bool)
    ensures
        r == names_source(v@),
{
    has_suffix_str(v, "tar.gz") || has_suffix_str(v, "tar.xz") || has_suffix_str(v, "tar.zst")
        || has_suffix_str(v, "dsc")
}

/// The directory of the pool that the file `filename` goes to.
pub fn pool_destination(filename: &str, suite: &str, component: &str) -> (r: String)
    ensures
        r@ == spec_pool_destination(filename@, suite@, component@),
{
    let chars = chars_of(filename);
    let v = chars.as_slice();
    let source = names_a_source(v);
    let head: &[char] = match find_char(v, '_') {
        Some(p) => {
            let h = &v[0..p];
            assert(h@ =~= filename@.take(p as int));
            h
        },
        None => {
            let h = &v[0..0];
            assert(h@ =~= Seq::<char>::empty());
            h
        },
    };
    let package: &[char] = if !source && has_suffix_str(head, "-dbgsym") {
        proof {
            reveal_strlit("-dbgsym");
        }
        let p = &head[0..head.len() - 7];
        assert(p@ =~= head@.take(head@.len() - 7));
        p
    } else {
        head
    };
    assert(package@ == pool_package(filename@));
    let mut out: Vec<char> = Vec::new();
    push_str(&mut out, "repo/pool/");
    push_str(&mut out, suite);
    push_str(&mut out, "/");
    push_str(&mut out, component);
    let ghost arch_text = spec_arch_from_stem(spec_file_stem(filename@));
    if source {
        push_str(&mut out, "/source/");
    } else {
        push_str(&mut out, "/binary-");
        let stem = file_stem(filename);
        let arch = get_arch_from_stem(stem.as_str());
        push_str(&mut out, arch.as_str());
        push_str(&mut out, "/");
    }
    if package.len() >= 1 {
        let first = &package[0..1];
        assert(first@ =~= package@.take(1));
        push_all(&mut out, first);
    } else {
        assert(initial(package@) =~= Seq::<char>::empty());
    }
    push_str(&mut out, "/");
    push_all(&mut out, package);
    let r = string_of(out.as_slice());
    assert(r@ =~= spec_pool_destination(filename@, suite@, component@));
    r
}

} // verus!
