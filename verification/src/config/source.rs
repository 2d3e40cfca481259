//! Packages that are built from source.

use vstd::prelude::*;

verus! {

/// A file that is kept between builds and linked into the build directory.
#[derive(Debug, Clone)]
pub struct SourceAsset {
    pub src: String,
    pub dst: String,
}

/// Where the `debian` directory of a source comes from, where the source
/// has none.
#[derive(Debug, Clone)]
pub enum DebianPath {
    /// It is fetched from a separate URL.
    URL { url: String, checksum: String },
    /// It is fetched from a branch of a repository.
    Branch { url: String, branch: String },
}

/// Where a source comes from.
#[derive(Debug, Clone)]
pub enum SourceLocation {
    /// A remote tarball.
    URL { url: String, checksum: String },
    /// A git repository.
    Git { git: String, branch: Option<String>, commit: Option<String> },
    /// A remote `.dsc` file.
    Dsc { dsc: String },
}

/// A package that is built from source.
#[derive(Debug, Clone)]
pub struct Source {
    pub name: String,
    pub version: Option<String>,
    pub location: Option<SourceLocation>,
    pub assets: Option<Vec<SourceAsset>>,
    pub starting_build: Option<Vec<String>>,
    pub prebuild: Option<Vec<String>>,
    pub build_on: Option<String>,
    pub repos: Option<Vec<String>>,
    pub keep_source: bool,
    pub debian: Option<DebianPath>,
    pub depends: Option<Vec<String>>,
    pub retain: usize,
    pub extract: bool,
}

/// Whether the sources of a package are kept, unless told otherwise.
pub fn default_build_source() -> (r: bool)
    ensures
        r,
{
    true
}

/// How many versions of a package are kept, unless told otherwise.
pub fn default_retain() -> (r: usize)
    ensures
        r == 3,
{
    3
}

/// Whether a downloaded source is unpacked, unless told otherwise.
pub fn default_requires_extract() -> (r: bool)
    ensures
        r,
{
    true
}

} // verus!
