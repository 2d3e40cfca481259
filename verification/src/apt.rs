//! Packages of a remote APT repository, as their file names describe them.

use vstd::prelude::*;
use crate::text::{chars_of, ends_with, find, find_char, find_str, has_prefix_str, has_suffix_str, rfind_char, starts_with, string_of};

verus! {

/// What the file name of a package says.
#[derive(Debug, Clone)]
pub struct AptPackage {
    pub name: String,
    pub version: String,
    pub arch: String,
    pub extension: String,
}

/// Why a file name does not describe a package.
#[derive(Debug, Clone, Copy, PartialEq, Eq, Structural)]
pub enum ParseAptPackageError {
    NameNotFound,
    VersionNotFound,
    InvalidExtension,
}

/// Decides which packages of a repository are wanted.
pub trait AptPackageFilter {
    /// Whether the package with the given name, version, architecture and
    /// extension is wanted.
    spec fn wants(
        &self,
        name: Seq<char>,
        version: Seq<char>,
        arch: Seq<char>,
        extension: Seq<char>,
    ) -> bool;

    /// Whether the package is wanted.
    fn validate(&self, package: &AptPackage) -> (r: bool)
        ensures
            r == self.wants(package.name@, package.version@, package.arch@, package.extension@),
    ;
}

/// Where the extension of a file name begins: at its first `.d`, or, where
/// it has none, at its first `.t`.
pub open spec fn extension_start(tail: Seq<char>) -> Option<int> {
    match find(tail, ".d"@) {
        Some(i) => Some(i),
        None => find(tail, ".t"@),
    }
}

/// What a file name says of a package: its name up to the first `_`, its
/// version up to the next `_`, its architecture up to the extension, and
/// the extension without its dot.
pub open spec fn parse_apt_package(file_name: Seq<char>) -> Result<
    (Seq<char>, Seq<char>, Seq<char>, Seq<char>),
    ParseAptPackageError,
> {
    match file_name.index_of_first('_') {
        None => Err(ParseAptPackageError::NameNotFound),
        Some(p) => {
            let rest = file_name.skip(p + 1);
            match rest.index_of_first('_') {
                None => Err(ParseAptPackageError::VersionNotFound),
                Some(q) => {
                    let tail = rest.skip(q + 1);
                    match extension_start(tail) {
                        None => Err(ParseAptPackageError::InvalidExtension),
                        Some(i) => Ok(
                            (file_name.take(p), rest.take(q), tail.take(i), tail.skip(i + 1)),
                        ),
                    }
                },
            }
        },
    }
}

impl ParseAptPackageError {
    /// The text shown for this failure.
    pub fn message(&self) -> (r: String)
        ensures
            r@ == match self {
                ParseAptPackageError::NameNotFound => "apt package's filename does not have a name"@,
                ParseAptPackageError::VersionNotFound => "apt package's filename does not have a version"@,
                ParseAptPackageError::InvalidExtension => "apt package's filename does not have a proper extension"@,
            },
    {
        match self {
            ParseAptPackageError::NameNotFound => "apt package's filename does not have a name".to_owned(),
            ParseAptPackageError::VersionNotFound => "apt package's filename does not have a version".to_owned(),
            ParseAptPackageError::InvalidExtension => "apt package's filename does not have a proper extension".to_owned(),
        }
    }
}

impl AptPackage {
    /// What the file name `file_name` says of a package.
    pub fn from_str(file_name: &str) -> (r: Result<AptPackage, ParseAptPackageError>)
        ensures
            match r {
                Ok(p) => parse_apt_package(file_name@) == Ok::<
                    (Seq<char>, Seq<char>, Seq<char>, Seq<char>),
                    ParseAptPackageError,
                >((p.name@, p.version@, p.arch@, p.extension@)),
                Err(e) => parse_apt_package(file_name@) == Err::<
                    (Seq<char>, Seq<char>, Seq<char>, Seq<char>),
                    ParseAptPackageError,
                >(e),
            },
    {
        let chars = chars_of(file_name);
        let v = chars.as_slice();
        let p = match find_char(v, '_') {
            Some(p) => p,
            None => {
                return Err(ParseAptPackageError::NameNotFound);
            },
        };
        let n = v.len();
        let rest = &v[p + 1..n];
        assert(rest@ =~= file_name@.skip(p + 1));
        let q = match find_char(rest, '_') {
            Some(q) => q,
            None => {
                return Err(ParseAptPackageError::VersionNotFound);
            },
        };
        let m = rest.len();
        let tail = &rest[q + 1..m];
        assert(tail@ =~= rest@.skip(q + 1));
        let start = match find_str(tail, ".d") {
            Some(i) => Some(i),
            None => find_str(tail, ".t"),
        };
        let i = match start {
            Some(i) => i,
            None => {
                return Err(ParseAptPackageError::InvalidExtension);
            },
        };
        proof {
            reveal_strlit(".d");
            reveal_strlit(".t");
        }
        let name = &v[0..p];
        assert(name@ =~= file_name@.take(p as int));
        let version = &rest[0..q];
        assert(version@ =~= rest@.take(q as int));
        let arch = &tail[0..i];
        assert(arch@ =~= tail@.take(i as int));
        let t = tail.len();
        let extension = &tail[i + 1..t];
        assert(extension@ =~= tail@.skip(i + 1));
        Ok(
            AptPackage {
                name: string_of(name),
                version: string_of(version),
                arch: string_of(arch),
                extension: string_of(extension),
            },
        )
    }
}

/// The file name that a URL ends in, for a crawler: what follows the last
/// `/` of the URL, or its first character where it has no `/`. A URL of
/// fewer than two characters is its own file name.
pub open spec fn spec_filename_from_url(url: Seq<char>) -> Seq<char> {
    if url.len() < 2 {
        url
    } else {
        match url.index_of_last('/') {
            Some(i) => url.skip(i + 1),
            None => url.skip(1),
        }
    }
}

/// The file name that a URL ends in, for a crawler.
pub fn filename_from_url(url: &str) -> (r: String)
    ensures
        r@ == spec_filename_from_url(url@),
{
    let chars = chars_of(url);
    let v = chars.as_slice();
    let n = v.len();
    if n < 2 {
        return string_of(v);
    }
    match rfind_char(v, '/') {
        Some(i) => {
            let t = &v[i + 1..n];
            assert(t@ =~= url@.skip(i + 1));
            string_of(t)
        },
        None => {
            let t = &v[1..n];
            assert(t@ =~= url@.skip(1));
            string_of(t)
        },
    }
}

/// Whether a crawler follows a URL: a directory always, a file where its
/// URL describes a package that the filter wants.
pub open spec fn spec_wants_url<F: AptPackageFilter>(filter: F, url: Seq<char>) -> bool {
    ends_with(url, "/"@) || match parse_apt_package(url) {
        Ok(p) => filter.wants(p.0, p.1, p.2, p.3),
        Err(_) => false,
    }
}

/// Whether a crawler follows the URL `url`.
pub fn wants_url<F: AptPackageFilter>(filter: &F, url: &str) -> (r: bool)
    ensures
        r == spec_wants_url(*filter, url@),
{
    let chars = chars_of(url);
    if has_suffix_str(chars.as_slice(), "/") {
        return true;
    }
    match AptPackage::from_str(url) {
        Ok(package) => filter.validate(&package),
        Err(_) => false,
    }
}

/// With this flag a crawler follows links to other domains.
pub const CROSS_DOMAIN: u8 = 1;

/// With this flag a crawler follows links that lead out of the directory
/// it started in.
pub const CROSS_DIR: u8 = 2;

/// Whether a crawler follows a link: it stays in the domain it started in
/// and below the path it started at, unless its flags let it leave them.
pub open spec fn spec_is_followed(same_domain: bool, path: Seq<char>, root: Seq<char>, flags: u8) -> bool {
    (flags & CROSS_DOMAIN != 0 || same_domain) && (flags & CROSS_DIR != 0 || starts_with(
        path,
        root,
    ))
}

/// Whether a crawler that started at the path `root` follows a link with
/// the path `path`; `same_domain` says whether the link stays in the
/// domain.
pub fn is_followed(same_domain: bool, path: &str, root: &str, flags: u8) -> (r: bool)
    ensures
        r == spec_is_followed(same_domain, path@, root@, flags),
{
    let p = chars_of(path);
    (flags & CROSS_DOMAIN != 0 || same_domain) && (flags & CROSS_DIR != 0 || has_prefix_str(
        p.as_slice(),
        root,
    ))
}

/// Whether what a URL holds is a page with further links, by its content
/// type; anything else is a file.
pub fn is_page(content_type: &str) -> (r: bool)
    ensures
        r == starts_with(content_type@, "text/html"@),
{
    let c = chars_of(content_type);
    has_prefix_str(c.as_slice(), "text/html")
}

} // verus!
