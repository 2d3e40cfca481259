//! The configuration of a repository.

use vstd::prelude::*;
use crate::text::{chars_of, find_char, has_prefix_str, is_text, starts_with, str_eq, string_of};

pub mod direct;
pub mod repos;
pub mod source;

pub use self::direct::{BinaryDestinations, Direct, DirectPath, UnsupportedVariable, Update};
pub use self::repos::{Repo, RepoPattern};
pub use self::source::{DebianPath, Source, SourceAsset, SourceLocation};

verus! {

/// Why a setting could not be changed.
#[derive(Debug, Clone, Copy, PartialEq, Eq, Structural)]
pub enum ConfigError {
    /// The key names no setting that can be changed.
    InvalidKey,
}

/// The settings of one suite of the repository.
#[derive(Debug, Clone)]
pub struct Config {
    /// Where the configuration was read from.
    pub path: String,
    /// The name of the suite.
    pub archive: String,
    pub version: String,
    pub origin: String,
    pub label: String,
    /// Whose key signs the release.
    pub email: String,
    /// The architectures that packages are built for.
    pub architectures: Vec<String>,
    /// Packages which are already in the deb format.
    pub direct: Option<Vec<Direct>>,
    /// Projects which can be built from source.
    pub source: Option<Vec<Source>>,
    /// Repositories to pull packages from.
    pub repos: Option<Vec<Repo>>,
    /// The component that packages go to unless told otherwise.
    pub default_component: String,
    pub extra_repos: Option<Vec<String>>,
    pub extra_keys: Vec<String>,
}

/// What a key fetches.
#[derive(Debug, Clone, PartialEq, Eq)]
pub enum Value {
    /// The text of a setting.
    Text(String),
    /// All packages that are downloaded ready-made.
    AllPackages,
    /// The package of this name.
    Package(String),
    /// The files of the package of this name.
    Files(String),
}

impl Value {
    /// The text that was fetched, where a text was fetched.
    pub fn text(&self) -> (r: Option<&str>)
        ensures
            match r {
                Some(t) => self matches Value::Text(s) && s@ == t@,
                None => !(self is Text),
            },
    {
        match self {
            Value::Text(s) => Some(s.as_str()),
            _ => None,
        }
    }
}

/// Reading and changing settings by their keys.
pub trait ConfigFetch {
    /// What the setting `key` holds.
    fn fetch(&self, key: &str) -> Option<Value>;

    /// Sets the setting `key` to `value`.
    fn update(&mut self, key: &str, value: String) -> Result<(), ConfigError>;
}

/// What a key fetches, as a model.
pub enum Fetched {
    /// Nothing: the key names no setting.
    Nothing,
    /// The text of a setting.
    Text(Seq<char>),
    /// All packages that are downloaded ready-made.
    AllPackages,
    /// The package of this name.
    Package(Seq<char>),
    /// The files of the package of this name.
    Files(Seq<char>),
}

/// Whether what was fetched is what the key fetches.
pub open spec fn is_fetched(expected: Fetched, r: Option<Value>) -> bool {
    match expected {
        Fetched::Nothing => r is None,
        Fetched::Text(t) => r matches Some(Value::Text(s)) && s@ == t,
        Fetched::AllPackages => r matches Some(Value::AllPackages),
        Fetched::Package(n) => r matches Some(Value::Package(s)) && s@ == n,
        Fetched::Files(n) => r matches Some(Value::Files(s)) && s@ == n,
    }
}

/// The name of the package that a key names: what stands before its first
/// `.`, or all of it.
pub open spec fn key_head(key: Seq<char>) -> Seq<char> {
    match key.index_of_first('.') {
        Some(p) => key.take(p),
        None => key,
    }
}

/// The setting of a package that a key names: what follows its first `.`,
/// or nothing.
pub open spec fn key_field(key: Seq<char>) -> Seq<char> {
    match key.index_of_first('.') {
        Some(p) => key.skip(p + 1),
        None => Seq::empty(),
    }
}

/// Whether a file of a package goes under the name `filename`.
pub open spec fn is_called(item: DirectPath, filename: Seq<char>) -> bool {
    match item.name {
        Some(n) => n@ == filename,
        None => false,
    }
}

/// Whether `filename` is the name of the package or of one of its files.
pub open spec fn provides(direct: Direct, filename: Seq<char>) -> bool {
    direct.name@ == filename || exists|k: int|
        0 <= k < direct.urls@.len() && #[trigger] is_called(direct.urls@[k], filename)
}

/// The names of a list of packages.
pub open spec fn direct_names(list: Seq<Direct>) -> Seq<Seq<char>> {
    list.map_values(|d: Direct| d.name@)
}

/// The position of the first package called `name`.
pub open spec fn direct_position(direct: Option<Vec<Direct>>, name: Seq<char>) -> Option<int> {
    match direct {
        Some(list) => direct_names(list@).index_of_first(name),
        None => None,
    }
}

impl Direct {
    /// What a key fetches from a package.
    pub open spec fn spec_fetch(self, key: Seq<char>) -> Fetched {
        if key == "name"@ {
            Fetched::Text(self.name@)
        } else if key == "version"@ {
            Fetched::Text(self.version@)
        } else if key == "urls"@ {
            Fetched::Files(self.name@)
        } else {
            Fetched::Nothing
        }
    }
}

impl ConfigFetch for Direct {
    fn fetch(&self, key: &str) -> (r: Option<Value>)
        ensures
            is_fetched(self.spec_fetch(key@), r),
    {
        if str_eq(key, "name") {
            Some(Value::Text(self.name.clone()))
        } else if str_eq(key, "version") {
            Some(Value::Text(self.version.clone()))
        } else if str_eq(key, "urls") {
            Some(Value::Files(self.name.clone()))
        } else {
            None
        }
    }

    fn update(&mut self, key: &str, value: String) -> (r: Result<(), ConfigError>)
        ensures
            final(self).urls == old(self).urls,
            final(self).checksum == old(self).checksum,
            final(self).update == old(self).update,
            if key@ == "name"@ {
                r is Ok && final(self).name == value && final(self).version == old(self).version
            } else if key@ == "version"@ {
                r is Ok && final(self).version == value && final(self).name == old(self).name
            } else {
                r is Err && final(self).name == old(self).name && final(self).version == old(
                    self,
                ).version
            },
    {
        if str_eq(key, "name") {
            self.name = value;
            Ok(())
        } else if str_eq(key, "version") {
            self.version = value;
            Ok(())
        } else {
            Err(ConfigError::InvalidKey)
        }
    }
}

fn find_direct(list: &Vec<Direct>, name: &[char]) -> (r: Option<usize>)
    ensures
        match r {
            Some(i) => i < list@.len() && list@[i as int].name@ == name@ && direct_names(
                list@,
            ).index_of_first(name@) == Some(i as int),
            None => direct_names(list@).index_of_first(name@) is None,
        },
{
    let ghost names = direct_names(list@);
    let mut i: usize = 0;
    while i < list.len()
        invariant
            i <= list@.len(),
            names == direct_names(list@),
            forall|j: int| 0 <= j < i ==> names[j] != name@,
        decreases list@.len() - i,
    {
        if is_text(name, list[i].name.as_str()) {
            proof {
                names.index_of_first_ensures(name@);
                assert(names[i as int] == name@);
                let k = names.index_of_first(name@)->0;
                assert(k == i) by {
                    if k < i {
                        assert(names[k] != name@);
                    }
                }
            }
            return Some(i);
        }
        assert(names[i as int] != name@);
        i += 1;
    }
    proof {
        names.index_of_first_ensures(name@);
    }
    None
}

impl Config {
    /// What a key fetches from a configuration.
    ///
    /// `archive`, `version`, `origin`, `label` and `email` fetch their
    /// texts, `direct` all packages. A key that begins with `direct.` or
    /// `source.` names a package of `direct` by what follows, up to the
    /// next `.`, and a setting of it by what follows that; without a
    /// setting it fetches the package.
    pub open spec fn spec_fetch(self, key: Seq<char>) -> Fetched {
        if key == "archive"@ {
            Fetched::Text(self.archive@)
        } else if key == "version"@ {
            Fetched::Text(self.version@)
        } else if key == "origin"@ {
            Fetched::Text(self.origin@)
        } else if key == "label"@ {
            Fetched::Text(self.label@)
        } else if key == "email"@ {
            Fetched::Text(self.email@)
        } else if key == "direct"@ {
            Fetched::AllPackages
        } else if starts_with(key, "direct."@) || starts_with(key, "source."@) {
            match direct_position(self.direct, key_head(key.skip(7))) {
                Some(i) => if key_field(key.skip(7)).len() > 0 {
                    self.direct->0@[i].spec_fetch(key_field(key.skip(7)))
                } else {
                    Fetched::Package(key_head(key.skip(7)))
                },
                None => Fetched::Nothing,
            }
        } else {
            Fetched::Nothing
        }
    }

    /// Whether a package called `filename` is downloaded ready-made: whether
    /// it is the name of a package of `direct` or of one of its files.
    pub open spec fn spec_direct_exists(self, filename: Seq<char>) -> bool {
        match self.direct {
            Some(list) => exists|i: int| 0 <= i < list@.len() && #[trigger] provides(list@[i], filename),
            None => false,
        }
    }

    /// Whether a package called `filename` is built from source.
    pub open spec fn spec_source_exists(self, filename: Seq<char>) -> bool {
        match self.source {
            Some(list) => exists|i: int| 0 <= i < list@.len() && #[trigger] list@[i].name@ == filename,
            None => false,
        }
    }

    /// Whether a package called `filename` is downloaded ready-made.
    pub fn direct_exists(&self, filename: &str) -> (r: bool)
        ensures
            r == self.spec_direct_exists(filename@),
    {
        match &self.direct {
            Some(list) => any_provides(list, filename),
            None => false,
        }
    }

    /// Whether a package called `filename` is built from source.
    pub fn source_exists(&self, filename: &str) -> (r: bool)
        ensures
            r == self.spec_source_exists(filename@),
    {
        match &self.source {
            Some(list) => any_source(list, filename),
            None => false,
        }
    }

    /// Whether the configuration knows a package called `filename`.
    pub fn package_exists(&self, filename: &str) -> (r: bool)
        ensures
            r == (self.spec_direct_exists(filename@) || self.spec_source_exists(filename@)),
    {
        self.direct_exists(filename) || self.source_exists(filename)
    }
}

fn any_called(urls: &Vec<DirectPath>, filename: &str) -> (r: bool)
    ensures
        r == exists|k: int| 0 <= k < urls@.len() && #[trigger] is_called(urls@[k], filename@),
{
    let mut k: usize = 0;
    while k < urls.len()
        invariant
            k <= urls@.len(),
            forall|b: int| 0 <= b < k ==> !#[trigger] is_called(urls@[b], filename@),
        decreases urls@.len() - k,
    {
        match &urls[k].name {
            Some(n) => {
                if str_eq(n.as_str(), filename) {
                    assert(is_called(urls@[k as int], filename@));
                    return true;
                }
            },
            None => {},
        }
        k += 1;
    }
    false
}

fn any_provides(list: &Vec<Direct>, filename: &str) -> (r: bool)
    ensures
        r == exists|i: int| 0 <= i < list@.len() && #[trigger] provides(list@[i], filename@),
{
    let mut i: usize = 0;
    while i < list.len()
        invariant
            i <= list@.len(),
            forall|a: int| 0 <= a < i ==> !#[trigger] provides(list@[a], filename@),
        decreases list@.len() - i,
    {
        if str_eq(list[i].name.as_str(), filename) || any_called(&list[i].urls, filename) {
            assert(provides(list@[i as int], filename@));
            return true;
        }
        i += 1;
    }
    false
}

fn any_source(list: &Vec<Source>, filename: &str) -> (r: bool)
    ensures
        r == exists|i: int| 0 <= i < list@.len() && #[trigger] list@[i].name@ == filename@,
{
    let mut i: usize = 0;
    while i < list.len()
        invariant
            i <= list@.len(),
            forall|a: int| 0 <= a < i ==> #[trigger] list@[a].name@ != filename@,
        decreases list@.len() - i,
    {
        if str_eq(list[i].name.as_str(), filename) {
            return true;
        }
        i += 1;
    }
    false
}

/// The two parts of a key behind `direct.`: the name of a package and the
/// name of one of its settings.
fn split_key(key: &[char]) -> (r: (&[char], &[char]))
    ensures
        r.0@ == key_head(key@),
        r.1@ == key_field(key@),
{
    match find_char(key, '.') {
        Some(p) => {
            let n = key.len();
            let head = &key[0..p];
            let field = &key[p + 1..n];
            assert(head@ =~= key@.take(p as int));
            assert(field@ =~= key@.skip(p + 1));
            (head, field)
        },
        None => {
            let n = key.len();
            let field = &key[n..n];
            assert(field@ =~= Seq::<char>::empty());
            (key, field)
        },
    }
}

impl ConfigFetch for Config {
    fn fetch(&self, key: &str) -> (r: Option<Value>)
        ensures
            is_fetched(self.spec_fetch(key@), r),
    {
        if str_eq(key, "archive") {
            Some(Value::Text(self.archive.clone()))
        } else if str_eq(key, "version") {
            Some(Value::Text(self.version.clone()))
        } else if str_eq(key, "origin") {
            Some(Value::Text(self.origin.clone()))
        } else if str_eq(key, "label") {
            Some(Value::Text(self.label.clone()))
        } else if str_eq(key, "email") {
            Some(Value::Text(self.email.clone()))
        } else if str_eq(key, "direct") {
            Some(Value::AllPackages)
        } else {
            let chars = chars_of(key);
            let v = chars.as_slice();
            if has_prefix_str(v, "direct.") || has_prefix_str(v, "source.") {
                proof {
                    reveal_strlit("direct.");
                    reveal_strlit("source.");
                }
                let n = v.len();
                let rest = &v[7..n];
                assert(rest@ =~= key@.skip(7));
                let (head, field) = split_key(rest);
                match &self.direct {
                    Some(list) => match find_direct(list, head) {
                        Some(i) => if field.len() > 0 {
                            let field = string_of(field);
                            list[i].fetch(field.as_str())
                        } else {
                            Some(Value::Package(string_of(head)))
                        },
                        None => None,
                    },
                    None => None,
                }
            } else {
                None
            }
        }
    }

    fn update(&mut self, key: &str, value: String) -> (r: Result<(), ConfigError>)
        ensures
            is_updated(*old(self), *final(self), key@, value, r),
    {
        proof {
            lemma_keys_differ();
        }
        if str_eq(key, "archive") {
            self.archive = value;
            Ok(())
        } else if str_eq(key, "version") {
            self.version = value;
            Ok(())
        } else if str_eq(key, "origin") {
            self.origin = value;
            Ok(())
        } else if str_eq(key, "label") {
            self.label = value;
            Ok(())
        } else if str_eq(key, "email") {
            self.email = value;
            Ok(())
        } else {
            let chars = chars_of(key);
            let v = chars.as_slice();
            if has_prefix_str(v, "direct.") || has_prefix_str(v, "source.") {
                proof {
                    reveal_strlit("direct.");
                    reveal_strlit("source.");
                }
                let n = v.len();
                let rest = &v[7..n];
                assert(rest@ =~= key@.skip(7));
                let (head, field) = split_key(rest);
                let mut direct: Option<Vec<Direct>> = None;
                core::mem::swap(&mut direct, &mut self.direct);
                let r = match direct {
                    Some(mut list) => {
                        let r = match find_direct(&list, head) {
                            Some(i) => if field.len() > 0 {
                                let field = string_of(field);
                                let mut entry = list.remove(i);
                                let r = entry.update(field.as_str(), value);
                                list.insert(i, entry);
                                proof {
                                    let before = old(self).direct->0@;
                                    assert forall|j: int|
                                        0 <= j < before.len() && j != i implies list@[j]
                                        == before[j] by {}
                                }
                                r
                            } else {
                                Err(ConfigError::InvalidKey)
                            },
                            None => Err(ConfigError::InvalidKey),
                        };
                        self.direct = Some(list);
                        r
                    },
                    None => {
                        Err(ConfigError::InvalidKey)
                    },
                };
                r
            } else {
                Err(ConfigError::InvalidKey)
            }
        }
    }
}

proof fn lemma_keys_differ()
    ensures
        "archive"@ != "version"@,
        "archive"@ != "origin"@,
        "archive"@ != "label"@,
        "archive"@ != "email"@,
        "version"@ != "origin"@,
        "version"@ != "label"@,
        "version"@ != "email"@,
        "origin"@ != "label"@,
        "origin"@ != "email"@,
        "label"@ != "email"@,
        "name"@.len() > 0,
        "version"@.len() > 0,
{
    reveal_strlit("name");
    reveal_strlit("archive");
    reveal_strlit("version");
    reveal_strlit("origin");
    reveal_strlit("label");
    reveal_strlit("email");
    assert("archive"@[0] != "version"@[0]);
    assert("label"@[0] != "email"@[0]);
    assert("archive"@.len() == 7 && "version"@.len() == 7 && "origin"@.len() == 6 && "label"@.len()
        == 5 && "email"@.len() == 5);
}

/// Whether two configurations agree in all settings but `archive`,
/// `version`, `origin`, `label`, `email` and `direct`.
pub open spec fn same_rest(a: Config, b: Config) -> bool {
    &&& a.path == b.path
    &&& a.architectures == b.architectures
    &&& a.source == b.source
    &&& a.repos == b.repos
    &&& a.default_component == b.default_component
    &&& a.extra_repos == b.extra_repos
    &&& a.extra_keys == b.extra_keys
}

/// Whether `after` is `before` with the setting `key` set to `value`, and
/// `r` says whether there is such a setting.
///
/// `archive`, `version`, `origin`, `label` and `email` are set as they
/// are. A key that begins with `direct.` or `source.` sets the `name` or
/// the `version` of the package of `direct` that it names. Any other key
/// is refused, and nothing changes.
pub open spec fn is_updated(
    before: Config,
    after: Config,
    key: Seq<char>,
    value: String,
    r: Result<(), ConfigError>,
) -> bool {
    &&& same_rest(before, after)
    &&& after.archive@ == if key == "archive"@ {
        value@
    } else {
        before.archive@
    }
    &&& after.version@ == if key == "version"@ {
        value@
    } else {
        before.version@
    }
    &&& after.origin@ == if key == "origin"@ {
        value@
    } else {
        before.origin@
    }
    &&& after.label@ == if key == "label"@ {
        value@
    } else {
        before.label@
    }
    &&& after.email@ == if key == "email"@ {
        value@
    } else {
        before.email@
    }
    &&& if key == "archive"@ || key == "version"@ || key == "origin"@ || key == "label"@ || key
        == "email"@ {
        r is Ok && after.direct == before.direct
    } else if starts_with(key, "direct."@) || starts_with(key, "source."@) {
        let field = key_field(key.skip(7));
        match direct_position(before.direct, key_head(key.skip(7))) {
            Some(i) => {
                &&& after.direct is Some
                &&& after.direct->0@.len() == before.direct->0@.len()
                &&& forall|j: int|
                    0 <= j < before.direct->0@.len() && j != i ==> after.direct->0@[j]
                        == before.direct->0@[j]
                &&& after.direct->0@[i].urls == before.direct->0@[i].urls
                &&& after.direct->0@[i].checksum == before.direct->0@[i].checksum
                &&& after.direct->0@[i].update == before.direct->0@[i].update
                &&& after.direct->0@[i].name@ == if field == "name"@ {
                    value@
                } else {
                    before.direct->0@[i].name@
                }
                &&& after.direct->0@[i].version@ == if field == "version"@ && field != "name"@ {
                    value@
                } else {
                    before.direct->0@[i].version@
                }
                &&& r is Ok == (field == "name"@ || field == "version"@)
            },
            None => r is Err && after.direct == before.direct,
        }
    } else {
        r is Err && after.direct == before.direct
    }
}

/// The architectures of a configuration that names none.
pub fn default_architectures() -> (r: Vec<String>)
    ensures
        r@.len() == 2,
        r@[0]@ == "amd64"@,
        r@[1]@ == "i368"@,
{
    let mut r: Vec<String> = Vec::new();
    r.push("amd64".to_owned());
    r.push("i368".to_owned());
    r
}

/// The component of a configuration that names none.
pub fn default_component() -> (r: String)
    ensures
        r@ == "main"@,
{
    "main".to_owned()
}

} // verus!
