//! The decisions of a download: whether a file is fetched, what follows a
//! fetch, and where a file of a mirrored repository is stored.

use vstd::prelude::*;
use crate::apt::AptPackage;
use crate::debian::{gen_filename, is_source_extension, source_extension, spec_gen_filename};
use crate::repo::pool::initial;
use crate::text::{chars_of, ends_with, has_suffix_str, push_all, push_str, str_eq, string_of};

verus! {

/// How often a download whose checksum does not match is tried again.
pub const ATTEMPTS: u8 = 3;

/// What a file on disk is held against.
#[derive(Debug, Clone, PartialEq, Eq)]
pub enum RequestCompare {
    /// The SHA-256 digest that the file must have, where one is known.
    Checksum(Option<String>),
    /// The length that the file must have, and the time of its last change,
    /// where one is known.
    SizeAndModification(u64, Option<i64>),
}

/// What is known of a file on disk: its SHA-256 digest, its length and the
/// time of its last change.
#[derive(Debug, Clone, PartialEq, Eq)]
pub struct OnDisk {
    pub digest: String,
    pub length: u64,
    pub modified: i64,
}

/// Whether a file is fetched: always where it is not on disk; with a
/// checksum, where the digest of the file is another; with a length, where
/// the length or a known time of change is another. A file that is held
/// against nothing is fetched.
pub open spec fn spec_requires_download(compare: RequestCompare, on_disk: Option<OnDisk>) -> bool {
    match on_disk {
        None => true,
        Some(file) => match compare {
            RequestCompare::Checksum(Some(checksum)) => file.digest@ != checksum@,
            RequestCompare::Checksum(None) => true,
            RequestCompare::SizeAndModification(length, modified) => !(file.length == length && (
            match modified {
                Some(m) => m == file.modified,
                None => true,
            })),
        },
    }
}

/// Whether the file is fetched.
pub fn requires_download(compare: &RequestCompare, on_disk: Option<&OnDisk>) -> (r: bool)
    ensures
        r == spec_requires_download(
            *compare,
            match on_disk {
                Some(f) => Some(*f),
                None => None,
            },
        ),
{
    match on_disk {
        None => true,
        Some(file) => match compare {
            RequestCompare::Checksum(Some(checksum)) => !str_eq(
                file.digest.as_str(),
                checksum.as_str(),
            ),
            RequestCompare::Checksum(None) => true,
            RequestCompare::SizeAndModification(length, modified) => !(file.length == *length && (
            match modified {
                Some(m) => *m == file.modified,
                None => true,
            })),
        },
    }
}

/// What follows a fetch.
#[derive(Clone, Copy, PartialEq, Eq, Debug, Structural)]
pub enum AfterFetch {
    /// The file is as it should be.
    Done,
    /// The file gets the time of change that the repository gave.
    SetModified(i64),
    /// The file is removed and fetched again.
    Retry,
    /// The file is removed and the download has failed.
    Failed,
}

/// What follows a fetch: with a checksum, the file is done where its digest
/// matches; else it is tried again, unless it was tried `ATTEMPTS` times
/// before. With a known time of change the file gets that time.
pub open spec fn spec_after_fetch(compare: RequestCompare, digest: Seq<char>, tries: u8) -> AfterFetch {
    match compare {
        RequestCompare::Checksum(Some(checksum)) => if digest == checksum@ {
            AfterFetch::Done
        } else if tries == ATTEMPTS {
            AfterFetch::Failed
        } else {
            AfterFetch::Retry
        },
        RequestCompare::SizeAndModification(_, Some(modified)) => AfterFetch::SetModified(modified),
        _ => AfterFetch::Done,
    }
}

/// What follows a fetch after which the file has the SHA-256 digest
/// `digest`, when `tries` fetches have failed before.
pub fn after_fetch(compare: &RequestCompare, digest: &str, tries: u8) -> (r: AfterFetch)
    ensures
        r == spec_after_fetch(*compare, digest@, tries),
{
    match compare {
        RequestCompare::Checksum(Some(checksum)) => if str_eq(digest, checksum.as_str()) {
            AfterFetch::Done
        } else if tries == ATTEMPTS {
            AfterFetch::Failed
        } else {
            AfterFetch::Retry
        },
        RequestCompare::SizeAndModification(_, Some(modified)) => AfterFetch::SetModified(
            *modified,
        ),
        _ => AfterFetch::Done,
    }
}

/// The name of a package without a closing `-dbg` or `-dbgsym`.
pub open spec fn base_name(name: Seq<char>) -> Seq<char> {
    if ends_with(name, "-dbg"@) {
        name.take(name.len() - 4)
    } else if ends_with(name, "-dbgsym"@) {
        name.take(name.len() - 7)
    } else {
        name
    }
}

/// Where a file of a mirrored repository is stored in the pool.
pub open spec fn spec_get_destination(
    name: Seq<char>,
    version: Seq<char>,
    arch: Seq<char>,
    extension: Seq<char>,
    suite: Seq<char>,
    component: Seq<char>,
) -> Seq<char> {
    let branch = if is_source_extension(extension) {
        "/"@ + component + "/source/"@
    } else {
        "/"@ + component + "/binary-"@ + arch + "/"@
    };
    "repo/pool/"@ + suite + branch + initial(base_name(name)) + "/"@ + base_name(name) + "/"@
        + spec_gen_filename(name, version, arch, extension)
}

/// Where the file that `desc` describes is stored in the pool.
pub fn get_destination(desc: &AptPackage, suite: &str, component: &str) -> (r: String)
    ensures
        r@ == spec_get_destination(
            desc.name@,
            desc.version@,
            desc.arch@,
            desc.extension@,
            suite@,
            component@,
        ),
{
    let extension = chars_of(desc.extension.as_str());
    let name_chars = chars_of(desc.name.as_str());
    let n = name_chars.as_slice();
    let filename = gen_filename(
        desc.name.as_str(),
        desc.version.as_str(),
        desc.arch.as_str(),
        desc.extension.as_str(),
    );
    proof {
        reveal_strlit("-dbg");
        reveal_strlit("-dbgsym");
    }
    let base: &[char] = if has_suffix_str(n, "-dbg") {
        let b = &n[0..n.len() - 4];
        assert(b@ =~= desc.name@.take(desc.name@.len() - 4));
        b
    } else if has_suffix_str(n, "-dbgsym") {
        let b = &n[0..n.len() - 7];
        assert(b@ =~= desc.name@.take(desc.name@.len() - 7));
        b
    } else {
        n
    };
    let mut out: Vec<char> = Vec::new();
    push_str(&mut out, "repo/pool/");
    push_str(&mut out, suite);
    push_str(&mut out, "/");
    push_str(&mut out, component);
    if source_extension(extension.as_slice()) {
        push_str(&mut out, "/source/");
    } else {
        push_str(&mut out, "/binary-");
        push_str(&mut out, desc.arch.as_str());
        push_str(&mut out, "/");
    }
    if base.len() >= 1 {
        let first = &base[0..1];
        assert(first@ =~= base@.take(1));
        push_all(&mut out, first);
    } else {
        assert(initial(base@) =~= Seq::<char>::empty());
    }
    push_str(&mut out, "/");
    push_all(&mut out, base);
    push_str(&mut out, "/");
    push_str(&mut out, filename.as_str());
    let r = string_of(out.as_slice());
    assert(r@ =~= spec_get_destination(
        desc.name@,
        desc.version@,
        desc.arch@,
        desc.extension@,
        suite@,
        component@,
    ));
    r
}

} // verus!
