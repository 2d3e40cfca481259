//! Debian package naming and the entries of the generated indices.

use vstd::prelude::*;
use crate::text::{chars_of, ends_with, has_suffix_str, is_text, push_all, push_str, string_of};

pub mod arch;
pub mod contents;
pub mod control;
pub mod dist_files;
pub mod info;
pub mod package;
pub mod version;

verus! {

/// The extension of a debug-symbol package.
pub const DEB_DEBUG_EXTENSION: &'static str = ".ddeb";

/// The extension of a binary package.
pub const DEB_EXTENSION: &'static str = ".deb";

/// Whether `ext`, written without its leading dot, is the extension of a
/// source file: `tar.gz`, `tar.xz`, `tar.zst` or `dsc`.
pub open spec fn is_source_extension(ext: Seq<char>) -> bool {
    ext == "tar.gz"@ || ext == "tar.xz"@ || ext == "tar.zst"@ || ext == "dsc"@
}

/// The name under which a package version is stored.
///
/// A name that ends in `-dbg` loses that ending and becomes a `-dbgsym`
/// package with the extension `ddeb`; a name that ends in `-dbgsym` gets the
/// extension `ddeb`; the extension `ddeb` adds `-dbgsym` to the name. A
/// source file is `<name>_<version>.<ext>`, any other file
/// `<name>_<version>_<arch>.<ext>`.
pub open spec fn spec_gen_filename(
    name: Seq<char>,
    version: Seq<char>,
    arch: Seq<char>,
    ext: Seq<char>,
) -> Seq<char> {
    let (base, mark, e) = if ends_with(name, "-dbg"@) {
        (name.take(name.len() - 4), "-dbgsym"@, "ddeb"@)
    } else if ends_with(name, "-dbgsym"@) {
        (name, Seq::<char>::empty(), "ddeb"@)
    } else if ext == "ddeb"@ {
        (name, "-dbgsym"@, "ddeb"@)
    } else {
        (name, Seq::<char>::empty(), ext)
    };
    if is_source_extension(e) {
        base + mark + "_"@ + version + "."@ + e
    } else {
        base + mark + "_"@ + version + "_"@ + arch + "."@ + e
    }
}

/// Whether `ext` is the extension of a source file.
pub fn source_extension(ext: &[char]) -> (r: bool)
    ensures
        r == is_source_extension(ext@),
{
    is_text(ext, "tar.gz") || is_text(ext, "tar.xz") || is_text(ext, "tar.zst") || is_text(
        ext,
        "dsc",
    )
}

/// The name under which a package version is stored.
pub fn gen_filename(name: &str, version: &str, arch: &str, ext: &str) -> (r: String)
    ensures
        r@ == spec_gen_filename(name@, version@, arch@, ext@),
{
    let name_chars = chars_of(name);
    let n = name_chars.as_slice();
    let ext_chars = chars_of(ext);
    let mut out: Vec<char> = Vec::new();
    let mut e: Vec<char> = Vec::new();
    if has_suffix_str(n, "-dbg") {
        proof {
            reveal_strlit("-dbg");
        }
        let base = &n[0..n.len() - 4];
        assert(base@ =~= name@.take(name@.len() - 4));
        push_all(&mut out, base);
        push_str(&mut out, "-dbgsym");
        push_str(&mut e, "ddeb");
    } else if has_suffix_str(n, "-dbgsym") {
        push_all(&mut out, n);
        push_str(&mut e, "ddeb");
    } else if is_text(ext_chars.as_slice(), "ddeb") {
        push_all(&mut out, n);
        push_str(&mut out, "-dbgsym");
        push_str(&mut e, "ddeb");
    } else {
        push_all(&mut out, n);
        push_all(&mut e, ext_chars.as_slice());
    }
    push_str(&mut out, "_");
    push_str(&mut out, version);
    if source_extension(e.as_slice()) {
        push_str(&mut out, ".");
    } else {
        push_str(&mut out, "_");
        push_str(&mut out, arch);
        push_str(&mut out, ".");
    }
    push_all(&mut out, e.as_slice());
    let r = string_of(out.as_slice());
    assert(r@ =~= spec_gen_filename(name@, version@, arch@, ext@));
    r
}

} // verus!
