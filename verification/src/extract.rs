//! How a downloaded source is unpacked.

use vstd::prelude::*;
use crate::misc::tail_after_last;
use crate::text::{after_last, chars_of, ends_with, has_suffix_str};

verus! {

/// The tool that unpacks an archive.
#[derive(Clone, Copy, PartialEq, Eq, Debug, Structural)]
pub enum Extractor {
    /// `unzip`.
    Unzip,
    /// `tar`, which drops the first directory of every path.
    Untar,
}

/// The tool that unpacks the file at `path`, by the name of the file:
/// `unzip` for `.zip`, `tar` for `.tar.gz`, `.tar.xz` and `.tar.zst`. No
/// tool unpacks any other file.
pub open spec fn spec_extract(path: Seq<char>) -> Option<Extractor> {
    let name = after_last(path, '/');
    if ends_with(name, ".zip"@) {
        Some(Extractor::Unzip)
    } else if ends_with(name, ".tar.gz"@) || ends_with(name, ".tar.xz"@) || ends_with(
        name,
        ".tar.zst"@,
    ) {
        Some(Extractor::Untar)
    } else {
        None
    }
}

/// The tool that unpacks the file at `src`.
pub fn extract(src: &str) -> (r: Option<Extractor>)
    ensures
        r == spec_extract(src@),
{
    let chars = chars_of(src);
    let name = tail_after_last(chars.as_slice(), '/');
    if has_suffix_str(name, ".zip") {
        Some(Extractor::Unzip)
    } else if has_suffix_str(name, ".tar.gz") || has_suffix_str(name, ".tar.xz") || has_suffix_str(
        name,
        ".tar.zst",
    ) {
        Some(Extractor::Untar)
    } else {
        None
    }
}

} // verus!
