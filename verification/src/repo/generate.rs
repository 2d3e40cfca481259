//! How the tools are called that finish a distribution, and where its files
//! lie.

use vstd::prelude::*;
use crate::config::Config;
use crate::text::texts;
use crate::text::{joined, push_all, push_str, string_of, trim_end, trimmed_end};

verus! {

/// The directories of a component in a distribution.
pub open spec fn spec_dist_directories(base: Seq<char>, component: Seq<char>) -> Seq<Seq<char>> {
    seq![
        base + "/"@ + component + "/"@ + "binary-amd64"@,
        base + "/"@ + component + "/"@ + "binary-arm64"@,
        base + "/"@ + component + "/"@ + "binary-armel"@,
        base + "/"@ + component + "/"@ + "binary-armhf"@,
        base + "/"@ + component + "/"@ + "binary-i386"@,
        base + "/"@ + component + "/"@ + "binary-mips"@,
        base + "/"@ + component + "/"@ + "binary-mipsel"@,
        base + "/"@ + component + "/"@ + "binary-mips64el"@,
        base + "/"@ + component + "/"@ + "binary-ppc64el"@,
        base + "/"@ + component + "/"@ + "binary-s390x"@,
        base + "/"@ + component + "/"@ + "binary-all"@,
        base + "/"@ + component + "/"@ + "source"@,
    ]
}

fn directory(base: &str, component: &str, last: &str) -> (r: String)
    ensures
        r@ == base@ + "/"@ + component@ + "/"@ + last@,
{
    let mut out: Vec<char> = Vec::new();
    push_str(&mut out, base);
    push_str(&mut out, "/");
    push_str(&mut out, component);
    push_str(&mut out, "/");
    push_str(&mut out, last);
    let r = string_of(out.as_slice());
    assert(r@ =~= base@ + "/"@ + component@ + "/"@ + last@);
    r
}

/// The directories that are made for a component in the distribution at
/// `base`: one for each architecture of the layout, and one for sources.
pub fn dist_directories(base: &str, component: &str) -> (r: Vec<String>)
    ensures
        texts(r@) == spec_dist_directories(base@, component@),
{
    let mut r: Vec<String> = Vec::new();
    r.push(directory(base, component, "binary-amd64"));
    r.push(directory(base, component, "binary-arm64"));
    r.push(directory(base, component, "binary-armel"));
    r.push(directory(base, component, "binary-armhf"));
    r.push(directory(base, component, "binary-i386"));
    r.push(directory(base, component, "binary-mips"));
    r.push(directory(base, component, "binary-mipsel"));
    r.push(directory(base, component, "binary-mips64el"));
    r.push(directory(base, component, "binary-ppc64el"));
    r.push(directory(base, component, "binary-s390x"));
    r.push(directory(base, component, "binary-all"));
    r.push(directory(base, component, "source"));
    assert(texts(r@) =~= spec_dist_directories(base@, component@));
    r
}

/// Where the files of a suite lie, below the repository.
pub struct DistPaths {
    /// The directory of the distribution.
    pub base: String,
    /// The directory of the pool, with a closing `/`.
    pub pool: String,
    pub release: String,
    pub in_release: String,
    pub release_gpg: String,
}

/// Where the files of the suite `archive` lie.
pub fn dist_paths(archive: &str) -> (r: DistPaths)
    ensures
        r.base@ == "dists/"@ + archive@,
        r.pool@ == "pool/"@ + archive@ + "/"@,
        r.release@ == "dists/"@ + archive@ + "/Release"@,
        r.in_release@ == "dists/"@ + archive@ + "/InRelease"@,
        r.release_gpg@ == "dists/"@ + archive@ + "/Release.gpg"@,
{
    let base = joined("dists/", archive);
    let pool = joined(joined("pool/", archive).as_str(), "/");
    let release = joined(base.as_str(), "/Release");
    let in_release = joined(base.as_str(), "/InRelease");
    let release_gpg = joined(base.as_str(), "/Release.gpg");
    DistPaths { base, pool, release, in_release, release_gpg }
}

/// The directory of the `Sources` index of a component.
pub fn sources_directory(dist_base: &str, component: &str) -> (r: String)
    ensures
        r@ == dist_base@ + "/"@ + component@ + "/source/"@,
{
    let mut out: Vec<char> = Vec::new();
    push_str(&mut out, dist_base);
    push_str(&mut out, "/");
    push_str(&mut out, component);
    push_str(&mut out, "/source/");
    let r = string_of(out.as_slice());
    assert(r@ =~= dist_base@ + "/"@ + component@ + "/source/"@);
    r
}

/// The components, each followed by a space.
pub open spec fn spaced(components: Seq<Seq<char>>) -> Seq<char>
    decreases components.len(),
{
    if components.len() == 0 {
        Seq::empty()
    } else {
        spaced(components.drop_last()) + components.last() + " "@
    }
}

/// The arguments of `apt-ftparchive` that make the `Release` file of a
/// suite.
pub open spec fn spec_release_arguments(config: Config, components: Seq<Seq<char>>) -> Seq<
    Seq<char>,
> {
    seq![
        "-o"@,
        "APT::FTPArchive::Release::Origin="@ + config.origin@,
        "-o"@,
        "APT::FTPArchive::Release::Label="@ + config.label@,
        "-o"@,
        "APT::FTPArchive::Release::Suite="@ + config.archive@,
        "-o"@,
        "APT::FTPArchive::Release::Version="@ + config.version@,
        "-o"@,
        "APT::FTPArchive::Release::Codename="@ + config.archive@,
        "-o"@,
        "APT::FTPArchive::Release::Architectures=i386 amd64 all"@,
        "-o"@,
        "APT::FTPArchive::Release::Components="@ + trimmed_end(spaced(components)),
        "-o"@,
        "APT::FTPArchive::Release::Description="@ + config.label@ + " ("@ + config.archive@ + " "@
            + config.version@ + ")"@,
        "release"@,
        "."@,
    ]
}

/// The arguments of `apt-ftparchive` that make the `Release` file of a
/// suite with the given components.
pub fn release_arguments(config: &Config, components: &Vec<String>) -> (r: Vec<String>)
    ensures
        texts(r@) == spec_release_arguments(*config, texts(components@)),
{
    let mut all: Vec<char> = Vec::new();
    let mut i: usize = 0;
    proof {
        assert(texts(components@).take(0) =~= Seq::empty());
    }
    while i < components.len()
        invariant
            i <= components@.len(),
            all@ == spaced(texts(components@).take(i as int)),
        decreases components@.len() - i,
    {
        proof {
            let next = texts(components@).take(i + 1);
            assert(next.drop_last() =~= texts(components@).take(i as int));
            assert(next.last() == components@[i as int]@);
        }
        push_str(&mut all, components[i].as_str());
        push_str(&mut all, " ");
        i += 1;
    }
    proof {
        assert(texts(components@).take(components@.len() as int) =~= texts(components@));
    }
    let mut list: Vec<char> = Vec::new();
    push_str(&mut list, "APT::FTPArchive::Release::Components=");
    push_all(&mut list, trim_end(all.as_slice()));
    let mut description: Vec<char> = Vec::new();
    push_str(&mut description, "APT::FTPArchive::Release::Description=");
    push_str(&mut description, config.label.as_str());
    push_str(&mut description, " (");
    push_str(&mut description, config.archive.as_str());
    push_str(&mut description, " ");
    push_str(&mut description, config.version.as_str());
    push_str(&mut description, ")");
    let description = string_of(description.as_slice());
    assert(description@ =~= "APT::FTPArchive::Release::Description="@ + config.label@ + " ("@
        + config.archive@ + " "@ + config.version@ + ")"@);
    let mut r: Vec<String> = Vec::new();
    r.push("-o".to_owned());
    r.push(joined("APT::FTPArchive::Release::Origin=", config.origin.as_str()));
    r.push("-o".to_owned());
    r.push(joined("APT::FTPArchive::Release::Label=", config.label.as_str()));
    r.push("-o".to_owned());
    r.push(joined("APT::FTPArchive::Release::Suite=", config.archive.as_str()));
    r.push("-o".to_owned());
    r.push(joined("APT::FTPArchive::Release::Version=", config.version.as_str()));
    r.push("-o".to_owned());
    r.push(joined("APT::FTPArchive::Release::Codename=", config.archive.as_str()));
    r.push("-o".to_owned());
    r.push("APT::FTPArchive::Release::Architectures=i386 amd64 all".to_owned());
    r.push("-o".to_owned());
    r.push(string_of(list.as_slice()));
    r.push("-o".to_owned());
    r.push(description);
    r.push("release".to_owned());
    r.push(".".to_owned());
    assert(texts(r@) =~= spec_release_arguments(*config, texts(components@)));
    r
}

/// The arguments of `gpg` that sign a `Release` file: as a clear-signed
/// copy with `clearsign`, as a detached signature without.
pub open spec fn spec_gpg_arguments(
    clearsign: bool,
    email: Seq<char>,
    release: Seq<char>,
    out: Seq<char>,
) -> Seq<Seq<char>> {
    seq![
        if clearsign {
            "--clearsign"@
        } else {
            "-abs"@
        },
        "--local-user"@,
        email,
        "--batch"@,
        "--yes"@,
        "--digest-algo"@,
        "sha512"@,
        "-o"@,
        out,
        release,
    ]
}

/// The arguments of `gpg` that sign the file at `release` for `email` and
/// write the result to `out`.
pub fn gpg_arguments(clearsign: bool, email: &str, release: &str, out: &str) -> (r: Vec<String>)
    ensures
        texts(r@) == spec_gpg_arguments(clearsign, email@, release@, out@),
{
    let mut r: Vec<String> = Vec::new();
    if clearsign {
        r.push("--clearsign".to_owned());
    } else {
        r.push("-abs".to_owned());
    }
    r.push("--local-user".to_owned());
    r.push(email.to_owned());
    r.push("--batch".to_owned());
    r.push("--yes".to_owned());
    r.push("--digest-algo".to_owned());
    r.push("sha512".to_owned());
    r.push("-o".to_owned());
    r.push(out.to_owned());
    r.push(release.to_owned());
    assert(texts(r@) =~= spec_gpg_arguments(clearsign, email@, release@, out@));
    r
}

} // verus!
