//! Which files of the pool belong to a package, and which of them are kept.

use vstd::prelude::*;
use crate::text::texts;
use crate::text::{chars_of, ends_with, field, has_suffix_str, is_text, nth_field, push_str, str_eq, string_of};

verus! {

/// Where downloaded sources are kept between runs.
pub const CACHED_ASSETS: &'static str = "assets/cache/";

/// Where files shared by several packages lie.
pub const SHARED_ASSETS: &'static str = "assets/share/";

/// Where the files of one package lie.
pub const PACKAGE_ASSETS: &'static str = "assets/packages/";

/// A version without the extension of a source file that follows it.
pub open spec fn spec_get_version(e: Seq<char>) -> Seq<char> {
    if ends_with(e, ".tar.gz"@) {
        e.take(e.len() - 7)
    } else if ends_with(e, ".tar.xz"@) {
        e.take(e.len() - 7)
    } else if ends_with(e, ".tar.zst"@) {
        e.take(e.len() - 8)
    } else if ends_with(e, ".dsc"@) {
        e.take(e.len() - 4)
    } else {
        e
    }
}

/// Whether a file belongs to the package `name`: whether what stands before
/// its first `_` is the name, or the name followed by `-dbgsym`.
pub open spec fn spec_belongs_to(file_name: Seq<char>, name: Seq<char>) -> bool {
    let n = field(file_name, '_', 0)->0;
    n == name || (ends_with(n, "-dbgsym"@) && n.take(n.len() - 7) == name)
}

/// The version that a file of the pool has: what stands between its first
/// and its second `_`, without the extension of a source file.
pub open spec fn spec_located_version(file_name: Seq<char>) -> Option<Seq<char>> {
    match field(file_name, '_', 1) {
        Some(v) => Some(spec_get_version(v)),
        None => None,
    }
}

/// Whether a version is not among those that are kept.
pub open spec fn spec_is_stale(version: Seq<char>, keep: Seq<Seq<char>>) -> bool {
    !keep.contains(version)
}

/// The directories that are made for a suite before anything else is done.
pub open spec fn spec_working_directories(suite: Seq<char>) -> Seq<Seq<char>> {
    seq![
        CACHED_ASSETS@,
        SHARED_ASSETS@,
        PACKAGE_ASSETS@,
        "build/"@ + suite,
        "record/"@ + suite,
        "logs/"@ + suite,
    ]
}

fn version_in(e: &[char]) -> (r: &[char])
    ensures
        r@ == spec_get_version(e@),
{
    proof {
        reveal_strlit(".tar.gz");
        reveal_strlit(".tar.xz");
        reveal_strlit(".tar.zst");
        reveal_strlit(".dsc");
    }
    let n = e.len();
    if has_suffix_str(e, ".tar.gz") || has_suffix_str(e, ".tar.xz") {
        let r = &e[0..n - 7];
        assert(r@ =~= e@.take(n - 7));
        r
    } else if has_suffix_str(e, ".tar.zst") {
        let r = &e[0..n - 8];
        assert(r@ =~= e@.take(n - 8));
        r
    } else if has_suffix_str(e, ".dsc") {
        let r = &e[0..n - 4];
        assert(r@ =~= e@.take(n - 4));
        r
    } else {
        e
    }
}

/// A version without the extension of a source file that follows it.
pub fn get_version(e: &str) -> (r: String)
    ensures
        r@ == spec_get_version(e@),
{
    let chars = chars_of(e);
    string_of(version_in(chars.as_slice()))
}

/// Whether the file `file_name` belongs to the package `name`.
pub fn belongs_to(file_name: &str, name: &str) -> (r: bool)
    ensures
        r == spec_belongs_to(file_name@, name@),
{
    let chars = chars_of(file_name);
    match nth_field(chars.as_slice(), '_', 0) {
        Some(n) => {
            if is_text(n, name) {
                return true;
            }
            if has_suffix_str(n, "-dbgsym") {
                proof {
                    reveal_strlit("-dbgsym");
                }
                let base = &n[0..n.len() - 7];
                assert(base@ =~= n@.take(n@.len() - 7));
                is_text(base, name)
            } else {
                false
            }
        },
        None => {
            proof {
                chars@.index_of_first_ensures('_');
            }
            false
        },
    }
}

/// The version that the file `file_name` of the pool has.
pub fn located_version(file_name: &str) -> (r: Option<String>)
    ensures
        match r {
            Some(v) => spec_located_version(file_name@) == Some(v@),
            None => spec_located_version(file_name@) is None,
        },
{
    let chars = chars_of(file_name);
    match nth_field(chars.as_slice(), '_', 1) {
        Some(v) => Some(string_of(version_in(v))),
        None => None,
    }
}

/// Whether `version` is not among the versions that are kept.
pub fn is_stale(version: &str, keep: &Vec<String>) -> (r: bool)
    ensures
        r == spec_is_stale(version@, texts(keep@)),
{
    let mut i: usize = 0;
    while i < keep.len()
        invariant
            i <= keep@.len(),
            forall|j: int| 0 <= j < i ==> texts(keep@)[j] != version@,
        decreases keep@.len() - i,
    {
        if str_eq(keep[i].as_str(), version) {
            assert(texts(keep@)[i as int] == version@);
            return false;
        }
        i += 1;
    }
    true
}

/// The directories that are made for `suite` before anything else is done.
pub fn working_directories(suite: &str) -> (r: Vec<String>)
    ensures
        texts(r@) == spec_working_directories(suite@),
{
    let mut r: Vec<String> = Vec::new();
    r.push(CACHED_ASSETS.to_owned());
    r.push(SHARED_ASSETS.to_owned());
    r.push(PACKAGE_ASSETS.to_owned());
    let mut build: Vec<char> = Vec::new();
    push_str(&mut build, "build/");
    push_str(&mut build, suite);
    r.push(string_of(build.as_slice()));
    let mut record: Vec<char> = Vec::new();
    push_str(&mut record, "record/");
    push_str(&mut record, suite);
    r.push(string_of(record.as_slice()));
    let mut logs: Vec<char> = Vec::new();
    push_str(&mut logs, "logs/");
    push_str(&mut logs, suite);
    r.push(string_of(logs.as_slice()));
    assert(texts(r@) =~= spec_working_directories(suite@));
    r
}

} // verus!
