//! The architectures that the repository layout knows.

use vstd::prelude::*;
use crate::error::Error;
use crate::text::{chars_of, has_prefix_str, push_str, starts_with, str_eq, string_of};

verus! {

/// Whether `arch` is one of the architectures that have a directory.
pub open spec fn is_supported_arch(arch: Seq<char>) -> bool {
    arch == "amd64"@ || arch == "arm64"@ || arch == "armel"@ || arch == "armhf"@ || arch
        == "i386"@ || arch == "mips"@ || arch == "mipsel"@ || arch == "mips64el"@ || arch
        == "ppc64el"@ || arch == "s390x"@ || arch == "all"@
}

/// The directory that holds the packages of an architecture.
pub open spec fn spec_arch_directory(arch: Seq<char>) -> Seq<char> {
    "binary-"@ + arch
}

/// What a directory of the pool holds: nothing for an index of binary
/// packages where it is `source`, the packages of an architecture where it
/// is that architecture's directory. Any other name stands for nothing in
/// the layout.
pub open spec fn spec_binary_suite(directory: Seq<char>) -> Option<Option<Seq<char>>> {
    if directory == "source"@ {
        Some(None)
    } else if starts_with(directory, "binary-"@) && is_supported_arch(directory.skip(7)) {
        Some(Some(directory.skip(7)))
    } else {
        None
    }
}

/// Whether `arch` is one of the architectures that have a directory.
pub fn supported_arch(arch: &str) -> (r: bool)
    ensures
        r == is_supported_arch(arch@),
{
    str_eq(arch, "amd64") || str_eq(arch, "arm64") || str_eq(arch, "armel") || str_eq(
        arch,
        "armhf",
    ) || str_eq(arch, "i386") || str_eq(arch, "mips") || str_eq(arch, "mipsel") || str_eq(
        arch,
        "mips64el",
    ) || str_eq(arch, "ppc64el") || str_eq(arch, "s390x") || str_eq(arch, "all")
}

/// The directory that holds the packages of the architecture `arch`. An
/// architecture outside the table is a misconfiguration.
pub fn arch_directory(arch: &str) -> (r: Result<String, Error>)
    ensures
        match r {
            Ok(d) => is_supported_arch(arch@) && d@ == spec_arch_directory(arch@),
            Err(e) => !is_supported_arch(arch@) && (e matches Error::UnsupportedArchitecture {
                arch: a,
            } && a@ == arch@),
        },
{
    if supported_arch(arch) {
        let mut out: Vec<char> = Vec::new();
        push_str(&mut out, "binary-");
        push_str(&mut out, arch);
        let d = string_of(out.as_slice());
        assert(d@ =~= spec_arch_directory(arch@));
        Ok(d)
    } else {
        Err(Error::UnsupportedArchitecture { arch: arch.to_owned() })
    }
}

/// What the directory `directory` of the pool holds: `Ok(None)` for the
/// sources, `Ok(Some(arch))` for the packages of an architecture. A
/// directory that the layout does not know is a misconfiguration.
pub fn binary_suite(directory: &str) -> (r: Result<Option<String>, Error>)
    ensures
        match r {
            Ok(Some(arch)) => spec_binary_suite(directory@) == Some(Some(arch@)),
            Ok(None) => spec_binary_suite(directory@) == Some(None::<Seq<char>>),
            Err(e) => spec_binary_suite(directory@) is None && (e matches Error::UnsupportedArchitecture {
                arch: a,
            } && a@ == directory@),
        },
{
    if str_eq(directory, "source") {
        return Ok(None);
    }
    let chars = chars_of(directory);
    let v = chars.as_slice();
    if has_prefix_str(v, "binary-") {
        proof {
            reveal_strlit("binary-");
        }
        let n = v.len();
        let tail = &v[7..n];
        assert(tail@ =~= directory@.skip(7));
        let arch = string_of(tail);
        if supported_arch(arch.as_str()) {
            return Ok(Some(arch));
        }
    }
    Err(Error::UnsupportedArchitecture { arch: directory.to_owned() })
}

/// The name of an architecture's directory leads back to the architecture.
pub proof fn lemma_directory_names_its_arch(arch: Seq<char>)
    requires
        is_supported_arch(arch),
    ensures
        spec_binary_suite(spec_arch_directory(arch)) == Some(Some(arch)),
{
    reveal_strlit("binary-");
    reveal_strlit("source");
    let d = spec_arch_directory(arch);
    assert(d.skip(7) =~= arch);
    assert(d.subrange(0, 7) =~= "binary-"@);
    assert(d[0] == 'b');
    assert("source"@[0] == 's');
}

} // verus!
