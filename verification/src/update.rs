//! Finding the version in the link of a release.

use vstd::prelude::*;
use crate::config::Update;
use crate::text::texts;
use crate::text::{chars_of, ends_with, find, find_str, has_prefix, has_prefix_str, has_suffix_str, push_str, starts_with, str_eq, string_of};

verus! {

/// What follows the first occurrence of `after` in `origin`.
pub open spec fn spec_get_after(origin: Seq<char>, after: Seq<char>) -> Option<Seq<char>> {
    match find(origin, after) {
        Some(p) => Some(origin.skip(p + after.len())),
        None => None,
    }
}

/// What stands before the first occurrence of `before` in `origin`.
pub open spec fn spec_get_before(origin: Seq<char>, before: Seq<char>) -> Option<Seq<char>> {
    match find(origin, before) {
        Some(p) => Some(origin.take(p)),
        None => None,
    }
}

/// What stands between the first `after` and the first `before` that
/// follows it.
pub open spec fn spec_between(origin: Seq<char>, after: Seq<char>, before: Seq<char>) -> Option<
    Seq<char>,
> {
    match spec_get_after(origin, after) {
        Some(rest) => spec_get_before(rest, before),
        None => None,
    }
}

fn after_in<'a>(origin: &'a [char], after: &str) -> (r: Option<&'a [char]>)
    ensures
        match r {
            Some(t) => spec_get_after(origin@, after@) == Some(t@),
            None => spec_get_after(origin@, after@) is None,
        },
{
    let pattern = chars_of(after);
    match find_str(origin, after) {
        Some(p) => {
            let n = origin.len();
            let t = &origin[p + pattern.len()..n];
            assert(t@ =~= origin@.skip(p + after@.len()));
            Some(t)
        },
        None => None,
    }
}

fn before_in<'a>(origin: &'a [char], before: &str) -> (r: Option<&'a [char]>)
    ensures
        match r {
            Some(t) => spec_get_before(origin@, before@) == Some(t@),
            None => spec_get_before(origin@, before@) is None,
        },
{
    match find_str(origin, before) {
        Some(p) => {
            let t = &origin[0..p];
            assert(t@ =~= origin@.take(p as int));
            Some(t)
        },
        None => None,
    }
}

/// What follows the first occurrence of `after` in `origin`.
pub fn get_after(origin: &str, after: &str) -> (r: Option<String>)
    ensures
        match r {
            Some(t) => spec_get_after(origin@, after@) == Some(t@),
            None => spec_get_after(origin@, after@) is None,
        },
{
    let chars = chars_of(origin);
    match after_in(chars.as_slice(), after) {
        Some(t) => Some(string_of(t)),
        None => None,
    }
}

/// What stands before the first occurrence of `before` in `origin`.
pub fn get_before(origin: &str, before: &str) -> (r: Option<String>)
    ensures
        match r {
            Some(t) => spec_get_before(origin@, before@) == Some(t@),
            None => spec_get_before(origin@, before@) is None,
        },
{
    let chars = chars_of(origin);
    match before_in(chars.as_slice(), before) {
        Some(t) => Some(string_of(t)),
        None => None,
    }
}

/// What stands in `origin` between the first `after` and the first
/// `before` that follows it.
pub fn between(origin: &str, after: &str, before: &str) -> (r: Option<String>)
    ensures
        match r {
            Some(t) => spec_between(origin@, after@, before@) == Some(t@),
            None => spec_between(origin@, after@, before@) is None,
        },
{
    let chars = chars_of(origin);
    match after_in(chars.as_slice(), after) {
        Some(rest) => match before_in(rest, before) {
            Some(t) => Some(string_of(t)),
            None => None,
        },
        None => None,
    }
}

/// Why no newer version of a package was found.
#[derive(Debug, Clone, PartialEq, Eq)]
pub enum UpdateError {
    /// The link of the release does not hold a version.
    NoVersion { link: String },
    /// No release of the package was found.
    NotFound { package: String },
    /// The parts that the URL is built from are fewer than three.
    BuildFrom { package: String },
}

/// Where a newer version is downloaded from.
#[derive(Debug, Clone, PartialEq, Eq)]
pub enum NewUrl {
    /// This URL.
    Url(String),
    /// The URL `base`, with `path` in the place of its path.
    Path { base: String, path: String },
}

/// A newer version of a package.
#[derive(Debug, Clone, PartialEq, Eq)]
pub struct Found {
    pub version: String,
    pub url: NewUrl,
}

/// What a newer version stands for.
pub enum FoundModel {
    Url { version: Seq<char>, url: Seq<char> },
    Path { version: Seq<char>, base: Seq<char>, path: Seq<char> },
}

impl View for Found {
    type V = FoundModel;

    open spec fn view(&self) -> FoundModel {
        match self.url {
            NewUrl::Url(url) => FoundModel::Url { version: self.version@, url: url@ },
            NewUrl::Path { base, path } => FoundModel::Path {
                version: self.version@,
                base: base@,
                path: path@,
            },
        }
    }
}

/// What a search for a newer version gives.
pub enum Outcome {
    /// This version.
    Found(FoundModel),
    /// Nothing, which is no failure.
    Nothing,
    /// The link does not hold a version.
    NoVersion(Seq<char>),
    /// No release was found.
    NotFound,
    /// The parts that the URL is built from are fewer than three.
    BuildFrom,
}

/// Whether a link is looked at: whether it holds `contains`, where that is
/// set.
pub open spec fn is_wanted(link: Seq<char>, contains: Option<Seq<char>>) -> bool {
    match contains {
        Some(c) => find(link, c) is Some,
        None => true,
    }
}

/// What the archives of an architecture end in: `amd64.deb` and `i386.deb`
/// for these two, `.deb` for any other.
pub open spec fn arch_suffix(arch: Seq<char>) -> Seq<char> {
    if arch == "amd64"@ {
        "amd64.deb"@
    } else if arch == "i386"@ {
        "i386.deb"@
    } else {
        ".deb"@
    }
}

/// `base` followed by `link`, with a `/` between them where `base` does
/// not end in one.
pub open spec fn below(base: Seq<char>, link: Seq<char>) -> Seq<char> {
    if ends_with(base, "/"@) {
        base + link
    } else {
        base + "/"@ + link
    }
}

/// The last of the links that is looked at and ends in `suffix`.
pub open spec fn last_release(links: Seq<Seq<char>>, contains: Option<Seq<char>>, suffix: Seq<char>) -> Option<
    Seq<char>,
>
    decreases links.len(),
{
    if links.len() == 0 {
        None
    } else if is_wanted(links.last(), contains) && ends_with(links.last(), suffix) {
        Some(links.last())
    } else {
        last_release(links.drop_last(), contains, suffix)
    }
}

/// The first of the links that is looked at and ends in `suffix`.
pub open spec fn first_release(links: Seq<Seq<char>>, contains: Option<Seq<char>>, suffix: Seq<char>) -> Option<
    Seq<char>,
>
    decreases links.len(),
{
    if links.len() == 0 {
        None
    } else if is_wanted(links.first(), contains) && ends_with(links.first(), suffix) {
        Some(links.first())
    } else {
        first_release(links.drop_first(), contains, suffix)
    }
}

/// The first of the links that begins with `prefix`.
pub open spec fn first_tag(links: Seq<Seq<char>>, prefix: Seq<char>) -> Option<Seq<char>>
    decreases links.len(),
{
    if links.len() == 0 {
        None
    } else if starts_with(links.first(), prefix) {
        Some(links.first())
    } else {
        first_tag(links.drop_first(), prefix)
    }
}

/// The newest release in the listing of a directory: the last link that
/// ends as an archive of the architecture does. Its version stands between
/// `after` and `before`, and it lies below the directory.
pub open spec fn spec_directory_update(update: Update, arch: Seq<char>, links: Seq<Seq<char>>) -> Outcome {
    match last_release(links, opt_string(update.contains), arch_suffix(arch)) {
        None => Outcome::Nothing,
        Some(link) => match spec_between(link, update.after@, update.before@) {
            Some(version) => Outcome::Found(
                FoundModel::Url { version, url: below(update.url@, link) },
            ),
            None => Outcome::NoVersion(link),
        },
    }
}

/// The text of an optional string.
pub open spec fn opt_string(s: Option<String>) -> Option<Seq<char>> {
    match s {
        Some(t) => Some(t@),
        None => None,
    }
}

/// The page that lists the latest release of a project on GitHub.
pub open spec fn spec_latest_page(project: Seq<char>) -> Seq<char> {
    "https://github.com/"@ + project + "/releases/latest/"@
}

/// The latest release of a project on GitHub.
///
/// With `build_from`, the version is what follows `after` in the first
/// link to a tag of the project, and the URL is built from the three parts
/// and the version. Without, the release is the first link that is looked
/// at and ends in `.deb`; its version stands between `after` and `before`,
/// and a link that is no URL of its own is a path on the page's host.
pub open spec fn spec_github_update(update: Update, links: Seq<Seq<char>>) -> Outcome {
    match update.build_from {
        Some(values) => if values@.len() < 3 {
            Outcome::BuildFrom
        } else {
            match first_tag(links, "/"@ + update.url@ + "/releases/tag/"@) {
                None => Outcome::NotFound,
                Some(link) => match spec_get_after(link, update.after@) {
                    None => Outcome::NoVersion(link),
                    Some(version) => Outcome::Found(
                        FoundModel::Url {
                            version,
                            url: below(values@[0]@, values@[1]@ + version + values@[2]@),
                        },
                    ),
                },
            }
        },
        None => match first_release(links, opt_string(update.contains), ".deb"@) {
            None => Outcome::NotFound,
            Some(link) => match spec_between(link, update.after@, update.before@) {
                None => Outcome::NoVersion(link),
                Some(version) => if starts_with(link, "https:/"@) || starts_with(link, "http:/"@) {
                    Outcome::Found(FoundModel::Url { version, url: link })
                } else {
                    Outcome::Found(
                        FoundModel::Path {
                            version,
                            base: spec_latest_page(update.url@),
                            path: link,
                        },
                    )
                },
            },
        },
    }
}

/// What the search for a newer version of a package gives, from the links
/// of the page that its `update` setting names: the listing of a directory
/// for the source `directory`, the page of the latest release for the
/// source `github`. Any other source gives nothing.
pub open spec fn spec_select_update(update: Update, arch: Seq<char>, links: Seq<Seq<char>>) -> Outcome {
    if update.source@ == "directory"@ {
        spec_directory_update(update, arch, links)
    } else if update.source@ == "github"@ {
        spec_github_update(update, links)
    } else {
        Outcome::Nothing
    }
}

/// Whether `r` is what the search gave, for the package `package`.
pub open spec fn is_outcome(outcome: Outcome, package: Seq<char>, r: Result<
    Option<Found>,
    UpdateError,
>) -> bool {
    match outcome {
        Outcome::Found(found) => r matches Ok(Some(f)) && f@ == found,
        Outcome::Nothing => r matches Ok(None),
        Outcome::NoVersion(link) => r matches Err(UpdateError::NoVersion { link: l }) && l@ == link,
        Outcome::NotFound => r matches Err(UpdateError::NotFound { package: p }) && p@ == package,
        Outcome::BuildFrom => r matches Err(UpdateError::BuildFrom { package: p }) && p@
            == package,
    }
}

fn wanted(link: &[char], contains: &Option<String>) -> (r: bool)
    ensures
        r == is_wanted(link@, opt_string(*contains)),
{
    match contains {
        Some(c) => find_str(link, c.as_str()).is_some(),
        None => true,
    }
}

fn suffix_of(arch: &str) -> (r: &'static str)
    ensures
        r@ == arch_suffix(arch@),
{
    if str_eq(arch, "amd64") {
        "amd64.deb"
    } else if str_eq(arch, "i386") {
        "i386.deb"
    } else {
        ".deb"
    }
}

fn join_below(base: &str, link: &[char]) -> (r: String)
    ensures
        r@ == below(base@, link@),
{
    let b = chars_of(base);
    let mut out: Vec<char> = Vec::new();
    push_str(&mut out, base);
    if !has_suffix_str(b.as_slice(), "/") {
        push_str(&mut out, "/");
    }
    crate::text::push_all(&mut out, link);
    let r = string_of(out.as_slice());
    assert(r@ =~= below(base@, link@));
    r
}

fn find_last_release(links: &Vec<String>, contains: &Option<String>, suffix: &str) -> (r: Option<
    usize,
>)
    ensures
        match r {
            Some(i) => i < links@.len() && last_release(
                texts(links@),
                opt_string(*contains),
                suffix@,
            ) == Some(links@[i as int]@),
            None => last_release(texts(links@), opt_string(*contains), suffix@) is None,
        },
{
    let mut i: usize = links.len();
    proof {
        assert(texts(links@).take(links@.len() as int) =~= texts(links@));
    }
    while i > 0
        invariant
            i <= links@.len(),
            last_release(texts(links@), opt_string(*contains), suffix@) == last_release(
                texts(links@).take(i as int),
                opt_string(*contains),
                suffix@,
            ),
        decreases i,
    {
        proof {
            let part = texts(links@).take(i as int);
            assert(part.drop_last() =~= texts(links@).take(i - 1));
            assert(part.last() == links@[i - 1]@);
        }
        i -= 1;
        let link = chars_of(links[i].as_str());
        if wanted(link.as_slice(), contains) && has_suffix_str(link.as_slice(), suffix) {
            return Some(i);
        }
    }
    None
}

fn find_first_release(links: &Vec<String>, contains: &Option<String>, suffix: &str) -> (r: Option<
    usize,
>)
    ensures
        match r {
            Some(i) => i < links@.len() && first_release(
                texts(links@),
                opt_string(*contains),
                suffix@,
            ) == Some(links@[i as int]@),
            None => first_release(texts(links@), opt_string(*contains), suffix@) is None,
        },
{
    let mut i: usize = 0;
    proof {
        assert(texts(links@).skip(0) =~= texts(links@));
    }
    while i < links.len()
        invariant
            i <= links@.len(),
            first_release(texts(links@), opt_string(*contains), suffix@) == first_release(
                texts(links@).skip(i as int),
                opt_string(*contains),
                suffix@,
            ),
        decreases links@.len() - i,
    {
        proof {
            let part = texts(links@).skip(i as int);
            assert(part.drop_first() =~= texts(links@).skip(i + 1));
            assert(part.first() == links@[i as int]@);
        }
        let link = chars_of(links[i].as_str());
        if wanted(link.as_slice(), contains) && has_suffix_str(link.as_slice(), suffix) {
            return Some(i);
        }
        i += 1;
    }
    None
}

fn find_first_tag(links: &Vec<String>, prefix: &[char]) -> (r: Option<usize>)
    ensures
        match r {
            Some(i) => i < links@.len() && first_tag(texts(links@), prefix@) == Some(
                links@[i as int]@,
            ),
            None => first_tag(texts(links@), prefix@) is None,
        },
{
    let mut i: usize = 0;
    proof {
        assert(texts(links@).skip(0) =~= texts(links@));
    }
    while i < links.len()
        invariant
            i <= links@.len(),
            first_tag(texts(links@), prefix@) == first_tag(texts(links@).skip(i as int), prefix@),
        decreases links@.len() - i,
    {
        proof {
            let part = texts(links@).skip(i as int);
            assert(part.drop_first() =~= texts(links@).skip(i + 1));
            assert(part.first() == links@[i as int]@);
        }
        let link = chars_of(links[i].as_str());
        if has_prefix(link.as_slice(), prefix) {
            return Some(i);
        }
        i += 1;
    }
    None
}

/// The page that lists the latest release of `project` on GitHub.
pub fn latest_page(project: &str) -> (r: String)
    ensures
        r@ == spec_latest_page(project@),
{
    let mut out: Vec<char> = Vec::new();
    push_str(&mut out, "https://github.com/");
    push_str(&mut out, project);
    push_str(&mut out, "/releases/latest/");
    let r = string_of(out.as_slice());
    assert(r@ =~= spec_latest_page(project@));
    r
}

/// The newest release in the listing of a directory.
pub fn directory_update(update: &Update, arch: &str, package: &str, links: &Vec<String>) -> (r:
    Result<Option<Found>, UpdateError>)
    ensures
        is_outcome(spec_directory_update(*update, arch@, texts(links@)), package@, r),
{
    match find_last_release(links, &update.contains, suffix_of(arch)) {
        None => Ok(None),
        Some(i) => {
            let link = chars_of(links[i].as_str());
            match after_in(link.as_slice(), update.after.as_str()) {
                Some(rest) => match before_in(rest, update.before.as_str()) {
                    Some(version) => Ok(
                        Some(
                            Found {
                                version: string_of(version),
                                url: NewUrl::Url(join_below(update.url.as_str(), link.as_slice())),
                            },
                        ),
                    ),
                    None => Err(UpdateError::NoVersion { link: links[i].clone() }),
                },
                None => Err(UpdateError::NoVersion { link: links[i].clone() }),
            }
        },
    }
}

/// The latest release of a project on GitHub.
pub fn github_update(update: &Update, package: &str, links: &Vec<String>) -> (r: Result<
    Option<Found>,
    UpdateError,
>)
    ensures
        is_outcome(spec_github_update(*update, texts(links@)), package@, r),
{
    match &update.build_from {
        Some(values) => {
            if values.len() < 3 {
                return Err(UpdateError::BuildFrom { package: package.to_owned() });
            }
            let mut prefix: Vec<char> = Vec::new();
            push_str(&mut prefix, "/");
            push_str(&mut prefix, update.url.as_str());
            push_str(&mut prefix, "/releases/tag/");
            assert(prefix@ =~= "/"@ + update.url@ + "/releases/tag/"@);
            match find_first_tag(links, prefix.as_slice()) {
                None => Err(UpdateError::NotFound { package: package.to_owned() }),
                Some(i) => {
                    let link = chars_of(links[i].as_str());
                    match after_in(link.as_slice(), update.after.as_str()) {
                        None => Err(UpdateError::NoVersion { link: links[i].clone() }),
                        Some(version) => {
                            let mut tail: Vec<char> = Vec::new();
                            push_str(&mut tail, values[1].as_str());
                            crate::text::push_all(&mut tail, version);
                            push_str(&mut tail, values[2].as_str());
                            assert(tail@ =~= values@[1]@ + version@ + values@[2]@);
                            Ok(
                                Some(
                                    Found {
                                        version: string_of(version),
                                        url: NewUrl::Url(
                                            join_below(values[0].as_str(), tail.as_slice()),
                                        ),
                                    },
                                ),
                            )
                        },
                    }
                },
            }
        },
        None => match find_first_release(links, &update.contains, ".deb") {
            None => Err(UpdateError::NotFound { package: package.to_owned() }),
            Some(i) => {
                let link = chars_of(links[i].as_str());
                let version = match after_in(link.as_slice(), update.after.as_str()) {
                    Some(rest) => match before_in(rest, update.before.as_str()) {
                        Some(version) => string_of(version),
                        None => {
                            return Err(UpdateError::NoVersion { link: links[i].clone() });
                        },
                    },
                    None => {
                        return Err(UpdateError::NoVersion { link: links[i].clone() });
                    },
                };
                if has_prefix_str(link.as_slice(), "https:/") || has_prefix_str(
                    link.as_slice(),
                    "http:/",
                ) {
                    Ok(Some(Found { version, url: NewUrl::Url(links[i].clone()) }))
                } else {
                    Ok(
                        Some(
                            Found {
                                version,
                                url: NewUrl::Path {
                                    base: latest_page(update.url.as_str()),
                                    path: links[i].clone(),
                                },
                            },
                        ),
                    )
                }
            },
        },
    }
}

/// The search for a newer version of the package `package`, among the
/// links of the page that its `update` setting names.
pub fn select_update(update: &Update, arch: &str, package: &str, links: &Vec<String>) -> (r: Result<
    Option<Found>,
    UpdateError,
>)
    ensures
        is_outcome(spec_select_update(*update, arch@, texts(links@)), package@, r),
{
    if str_eq(update.source.as_str(), "directory") {
        directory_update(update, arch, package, links)
    } else if str_eq(update.source.as_str(), "github") {
        github_update(update, package, links)
    } else {
        Ok(None)
    }
}

} // verus!
