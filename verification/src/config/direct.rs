//! Packages that are downloaded ready-made.

use vstd::prelude::*;
use crate::debian::{is_source_extension, source_extension};
use crate::misc::{get_arch_from_stem, spec_arch_from_stem};
use crate::text::{chars_of, is_text, push_all, push_str, rfind_char, string_of};
use crate::url::{rendered, tokens, UrlTokenizer};

verus! {

/// How a newer version of a package is looked for.
#[derive(Debug, Clone)]
pub struct Update {
    pub source: String,
    pub url: String,
    pub after: String,
    pub before: String,
    pub contains: Option<String>,
    pub build_from: Option<Vec<String>>,
}

/// Where a file can be downloaded, and where it is stored.
#[derive(Debug, Clone)]
pub struct BinaryDestinations {
    /// For a `deb` file: where the files to repackage it with would lie, and
    /// where the package is then stored as it came. Whether the first exists
    /// is for the caller to find out.
    pub assets: Option<(String, String)>,
    /// Where the file is stored in the pool.
    pub pool: String,
    /// Where the file can be obtained.
    pub url: String,
}

/// One file of a package that is downloaded ready-made.
#[derive(Debug, Clone)]
pub struct DirectPath {
    pub checksum: Option<String>,
    pub arch: Option<String>,
    pub name: Option<String>,
    pub url: String,
}

/// A Debian package which already exists and may be downloaded directly.
#[derive(Debug, Clone)]
pub struct Direct {
    pub name: String,
    pub version: String,
    pub urls: Vec<DirectPath>,
    pub checksum: Option<String>,
    pub update: Option<Update>,
}

/// A URL names a variable that is not known.
#[derive(Debug, Clone, PartialEq, Eq)]
pub struct UnsupportedVariable {
    pub variable: String,
}

/// The file that a URL names: what follows its last `/`; without a `/`,
/// what follows its first character.
pub open spec fn url_file(url: Seq<char>) -> Seq<char> {
    match url.index_of_last('/') {
        Some(i) => url.skip(i + 1),
        None => if url.len() == 0 {
            url
        } else {
            url.skip(1)
        },
    }
}

/// Where the extension of a file name begins: behind its last `.`, or, for
/// a compressed tarball, at `tar`. A name without `.` has no extension.
pub open spec fn extension_position(file: Seq<char>) -> int {
    let dot = match file.index_of_last('.') {
        Some(i) => i + 1,
        None => file.len() as int,
    };
    let ext = file.skip(dot);
    if (ext == "gz"@ || ext == "xz"@ || ext == "zst"@) && dot >= 4 && file.subrange(
        dot - 4,
        dot - 1,
    ) == "tar"@ {
        dot - 4
    } else {
        dot
    }
}

/// The file name without its extension and the dot before it.
pub open spec fn file_stem(file: Seq<char>) -> Seq<char> {
    if extension_position(file) >= 1 {
        file.take(extension_position(file) - 1)
    } else {
        Seq::empty()
    }
}

/// The name under which a downloaded file is stored.
pub open spec fn direct_filename(
    name: Seq<char>,
    version: Seq<char>,
    arch: Seq<char>,
    ext: Seq<char>,
) -> Seq<char> {
    let separator = if ext == "ddeb"@ {
        "-dbgsym_"@
    } else {
        "_"@
    };
    if is_source_extension(ext) {
        name + separator + version + "."@ + ext
    } else {
        name + separator + version + "_"@ + arch + "."@ + ext
    }
}

/// The directory of the pool that a file goes to, below the suite.
pub open spec fn pool_branch(component: Seq<char>, arch: Seq<char>, ext: Seq<char>) -> Seq<char> {
    if is_source_extension(ext) {
        "/"@ + component + "/source/"@
    } else {
        "/"@ + component + "/binary-"@ + arch + "/"@
    }
}

/// Where the file at `url` of the package `name` is stored.
pub open spec fn destination_of(
    name: Seq<char>,
    version: Seq<char>,
    arch: Option<Seq<char>>,
    url: Seq<char>,
    suite: Seq<char>,
    component: Seq<char>,
) -> (Option<(Seq<char>, Seq<char>)>, Seq<char>) {
    let file = url_file(url);
    let ext = file.skip(extension_position(file));
    let arch = match arch {
        Some(a) => a,
        None => spec_arch_from_stem(file_stem(file)),
    };
    let filename = direct_filename(name, version, arch, ext);
    let branch = pool_branch(component, arch, ext);
    let base = "assets/replace/"@ + suite + branch + "/"@ + name + "/"@;
    (
        if ext == "deb"@ {
            Some((base + "files"@, base + filename))
        } else {
            None
        },
        "repo/pool/"@ + suite + branch + name.take(if name.len() >= 1 {
            1int
        } else {
            0int
        }) + "/"@ + name + "/"@ + filename,
    )
}

/// The text of an optional string.
pub open spec fn opt_view(s: Option<String>) -> Option<Seq<char>> {
    match s {
        Some(t) => Some(t@),
        None => None,
    }
}

/// What is stored of a destination.
pub open spec fn destination_view(d: BinaryDestinations) -> (
    Option<(Seq<char>, Seq<char>)>,
    Seq<char>,
) {
    (
        match d.assets {
            Some((files, replace)) => Some((files@, replace@)),
            None => None,
        },
        d.pool@,
    )
}

fn file_of(url: &[char]) -> (r: &[char])
    ensures
        r@ == url_file(url@),
{
    let n = url.len();
    match rfind_char(url, '/') {
        Some(i) => {
            let r = &url[i + 1..n];
            assert(r@ =~= url@.skip(i + 1));
            r
        },
        None => if n == 0 {
            url
        } else {
            let r = &url[1..n];
            assert(r@ =~= url@.skip(1));
            r
        },
    }
}

fn extension_at(file: &[char]) -> (r: usize)
    ensures
        r == extension_position(file@),
        r <= file@.len(),
{
    let n = file.len();
    let dot = match rfind_char(file, '.') {
        Some(i) => i + 1,
        None => n,
    };
    let ext = &file[dot..n];
    assert(ext@ =~= file@.skip(dot as int));
    if (is_text(ext, "gz") || is_text(ext, "xz") || is_text(ext, "zst")) && dot >= 4 {
        let before = &file[dot - 4..dot - 1];
        if is_text(before, "tar") {
            return dot - 4;
        }
    }
    dot
}

fn filename_for(name: &str, version: &str, arch: &str, ext: &[char]) -> (r: Vec<char>)
    ensures
        r@ == direct_filename(name@, version@, arch@, ext@),
{
    let mut out: Vec<char> = Vec::new();
    push_str(&mut out, name);
    if is_text(ext, "ddeb") {
        push_str(&mut out, "-dbgsym_");
    } else {
        push_str(&mut out, "_");
    }
    push_str(&mut out, version);
    if source_extension(ext) {
        push_str(&mut out, ".");
    } else {
        push_str(&mut out, "_");
        push_str(&mut out, arch);
        push_str(&mut out, ".");
    }
    push_all(&mut out, ext);
    assert(out@ =~= direct_filename(name@, version@, arch@, ext@));
    out
}

fn branch_for(component: &str, arch: &str, ext: &[char]) -> (r: Vec<char>)
    ensures
        r@ == pool_branch(component@, arch@, ext@),
{
    let mut out: Vec<char> = Vec::new();
    push_str(&mut out, "/");
    push_str(&mut out, component);
    if source_extension(ext) {
        push_str(&mut out, "/source/");
    } else {
        push_str(&mut out, "/binary-");
        push_str(&mut out, arch);
        push_str(&mut out, "/");
    }
    assert(out@ =~= pool_branch(component@, arch@, ext@));
    out
}

/// Where the file at `url` of the package `name` is downloaded from and
/// stored.
pub fn destination(
    name: &str,
    version: &str,
    arch: Option<&String>,
    url: String,
    suite: &str,
    component: &str,
) -> (r: BinaryDestinations)
    ensures
        r.url == url,
        destination_view(r) == destination_of(
            name@,
            version@,
            match arch {
                Some(a) => Some(a@),
                None => None,
            },
            url@,
            suite@,
            component@,
        ),
{
    let chars = chars_of(url.as_str());
    let file = file_of(chars.as_slice());
    let position = extension_at(file);
    let n = file.len();
    let ext = &file[position..n];
    assert(ext@ =~= file@.skip(position as int));
    let arch: String = match arch {
        Some(a) => a.clone(),
        None => {
            let stem: &[char] = if position >= 1 {
                let s = &file[0..position - 1];
                assert(s@ =~= file@.take(position - 1));
                s
            } else {
                let s = &file[0..0];
                assert(s@ =~= Seq::<char>::empty());
                s
            };
            let stem = string_of(stem);
            get_arch_from_stem(stem.as_str())
        },
    };
    let filename = filename_for(name, version, arch.as_str(), ext);
    let branch = branch_for(component, arch.as_str(), ext);
    let assets = if is_text(ext, "deb") {
        let mut base: Vec<char> = Vec::new();
        push_str(&mut base, "assets/replace/");
        push_str(&mut base, suite);
        push_all(&mut base, branch.as_slice());
        push_str(&mut base, "/");
        push_str(&mut base, name);
        push_str(&mut base, "/");
        let ghost base_text = "assets/replace/"@ + suite@ + branch@ + "/"@ + name@ + "/"@;
        assert(base@ =~= base_text);
        let mut files: Vec<char> = Vec::new();
        push_all(&mut files, base.as_slice());
        push_str(&mut files, "files");
        let mut replace = base;
        push_all(&mut replace, filename.as_slice());
        let files = string_of(files.as_slice());
        let replace = string_of(replace.as_slice());
        assert(files@ =~= base_text + "files"@);
        assert(replace@ =~= base_text + filename@);
        Some((files, replace))
    } else {
        None
    };
    let name_chars = chars_of(name);
    let mut pool: Vec<char> = Vec::new();
    push_str(&mut pool, "repo/pool/");
    push_str(&mut pool, suite);
    push_all(&mut pool, branch.as_slice());
    if name_chars.len() >= 1 {
        let first = &name_chars.as_slice()[0..1];
        assert(first@ =~= name@.take(1));
        push_all(&mut pool, first);
    } else {
        assert(name@.take(0) =~= Seq::<char>::empty());
    }
    push_str(&mut pool, "/");
    push_str(&mut pool, name);
    push_str(&mut pool, "/");
    push_all(&mut pool, filename.as_slice());
    let pool = string_of(pool.as_slice());
    assert(pool@ =~= "repo/pool/"@ + suite@ + branch@ + name@.take(
        if name@.len() >= 1 {
            1int
        } else {
            0int
        },
    ) + "/"@ + name@ + "/"@ + filename@);
    BinaryDestinations { assets, pool, url }
}

impl Direct {
    /// The name under which the file `item` of this package goes.
    pub open spec fn item_name(self, item: DirectPath) -> Seq<char> {
        match item.name {
            Some(n) => n@,
            None => self.name@,
        }
    }

    /// The URL of the file `item`, with the package's name and version in
    /// the place of their variables.
    pub open spec fn item_url(self, item: DirectPath) -> Result<Seq<char>, Seq<char>> {
        rendered(tokens(item.url@, false), self.item_name(item), self.version@)
    }

    /// Where each file of this package is downloaded from and where it is
    /// stored, in the order of the files. Fails on the first file whose URL
    /// names a variable that is not known.
    pub fn get_destinations(&self, suite: &str, component: &str) -> (r: Result<
        Vec<BinaryDestinations>,
        UnsupportedVariable,
    >)
        ensures
            match r {
                Ok(list) => list@.len() == self.urls@.len() && forall|i: int|
                    0 <= i < list@.len() ==> self.item_url(self.urls@[i]) == Ok::<
                        Seq<char>,
                        Seq<char>,
                    >((#[trigger] list@[i]).url@) && destination_view(list@[i]) == destination_of(
                        self.item_name(self.urls@[i]),
                        self.version@,
                        opt_view(self.urls@[i].arch),
                        list@[i].url@,
                        suite@,
                        component@,
                    ),
                Err(e) => exists|i: int|
                    0 <= i < self.urls@.len() && self.item_url(#[trigger] self.urls@[i]) == Err::<
                        Seq<char>,
                        Seq<char>,
                    >(e.variable@) && forall|j: int|
                        0 <= j < i ==> (#[trigger] self.item_url(self.urls@[j])) is Ok,
            },
    {
        let mut output: Vec<BinaryDestinations> = Vec::new();
        let mut i: usize = 0;
        while i < self.urls.len()
            invariant
                i <= self.urls@.len(),
                output@.len() == i,
                forall|k: int|
                    0 <= k < i ==> self.item_url(self.urls@[k]) == Ok::<Seq<char>, Seq<char>>(
                        (#[trigger] output@[k]).url@,
                    ) && destination_view(output@[k]) == destination_of(
                        self.item_name(self.urls@[k]),
                        self.version@,
                        opt_view(self.urls@[k].arch),
                        output@[k].url@,
                        suite@,
                        component@,
                    ),
            decreases self.urls@.len() - i,
        {
            let item = &self.urls[i];
            let name: &str = match &item.name {
                Some(n) => n.as_str(),
                None => self.name.as_str(),
            };
            let url = match UrlTokenizer::finalize(item.url.as_str(), name, self.version.as_str()) {
                Ok(url) => url,
                Err(variable) => {
                    proof {
                        assert(self.item_url(self.urls@[i as int]) == Err::<Seq<char>, Seq<char>>(
                            variable@,
                        ));
                        assert forall|j: int| 0 <= j < i implies (#[trigger] self.item_url(
                            self.urls@[j],
                        )) is Ok by {
                            assert(self.item_url(self.urls@[j]) == Ok::<Seq<char>, Seq<char>>(
                                output@[j].url@,
                            ));
                        }
                    }
                    return Err(UnsupportedVariable { variable });
                },
            };
            let d = destination(
                name,
                self.version.as_str(),
                item.arch.as_ref(),
                url,
                suite,
                component,
            );
            output.push(d);
            i += 1;
        }
        Ok(output)
    }
}

} // verus!
