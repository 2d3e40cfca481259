//! The decisions of a build: whether a source was built before, which
//! archives it depends on, and how the tools are called.

use vstd::prelude::*;
use crate::config::{Config, Source};
use crate::misc::{filename_from_url, is_deb, match_deb};
use crate::repo::scan::{candidates, candidates_of, is_retained, retain, Candidate};
use crate::text::texts;
use crate::text::{chars_of, first_line, first_line_of, is_text, joined, line, nth_line, nth_word, push_all, push_str, str_eq, string_of, trim, trimmed, word};

verus! {

/// What is recorded of a build.
#[derive(Debug, Clone, PartialEq, Eq)]
pub enum Record {
    /// The `.dsc` file that was built.
    Dsc(String),
    /// The version of the changelog that was built.
    Changelog(String),
    /// The branch and the commit that were built; the record is replaced.
    Commit(String, String),
    /// The branch and the commit that were built; they are added to the
    /// record.
    CommitAppend(String, String),
}

/// When a source is built again.
#[derive(Clone, Copy, PartialEq, Eq, Debug, Structural)]
pub enum BuildRule {
    /// When the version of its changelog has changed.
    Changelog,
    /// When its commit has changed.
    Commit,
}

/// The rule that the setting `build_on` names: `changelog` or `commit`; no
/// rule where nothing is set. Any other text is refused.
pub open spec fn spec_build_rule(build_on: Option<Seq<char>>) -> Result<
    Option<BuildRule>,
    Seq<char>,
> {
    match build_on {
        None => Ok(None),
        Some(rule) => if rule == "changelog"@ {
            Ok(Some(BuildRule::Changelog))
        } else if rule == "commit"@ {
            Ok(Some(BuildRule::Commit))
        } else {
            Err(rule)
        },
    }
}

/// Whether a record says that `what` was built under the rule `kind`:
/// whether its first line is `kind` and its second line is `what`.
pub open spec fn spec_is_recorded(record: Seq<char>, kind: Seq<char>, what: Seq<char>) -> bool {
    line(record, 0) == Some(kind) && line(record, 1) == Some(what)
}

/// Whether a line of a record holds the branch and the commit as its first
/// two words.
pub open spec fn is_entry(entry: Seq<char>, branch: Seq<char>, commit: Seq<char>) -> bool {
    word(entry, 0) == Some(branch) && word(entry, 1) == Some(commit)
}

/// Whether one of the lines of `text` holds the branch and the commit.
pub open spec fn has_entry(text: Seq<char>, branch: Seq<char>, commit: Seq<char>) -> bool
    decreases text.len(),
{
    match first_line(text) {
        None => false,
        Some(l) => is_entry(l, branch, commit) || match text.index_of_first('\n') {
            Some(p) => if 0 <= p < text.len() {
                has_entry(text.skip(p + 1), branch, commit)
            } else {
                false
            },
            None => false,
        },
    }
}

/// Whether a commit is added to a record of commits: whether the record
/// begins with the line `commit` and none of its other lines holds the
/// branch and the commit.
pub open spec fn spec_commit_appends(record: Seq<char>, branch: Seq<char>, commit: Seq<char>) -> bool {
    line(record, 0) == Some("commit"@) && match record.index_of_first('\n') {
        Some(p) => !has_entry(record.skip(p + 1), branch, commit),
        None => true,
    }
}

/// What is written for a record, and whether it is added to what is there.
pub open spec fn spec_record_text(record: Record) -> (Seq<char>, bool) {
    match record {
        Record::Dsc(dsc) => ("dsc\n"@ + dsc@, false),
        Record::Changelog(version) => ("changelog\n"@ + version@, false),
        Record::Commit(branch, commit) => ("commit\n"@ + branch@ + " "@ + commit@, false),
        Record::CommitAppend(branch, commit) => (branch@ + " "@ + commit@, true),
    }
}

/// The rule that the setting `build_on` names.
pub fn build_rule(build_on: Option<&str>) -> (r: Result<Option<BuildRule>, String>)
    ensures
        match r {
            Ok(rule) => spec_build_rule(crate::debian::package::opt_text(build_on)) == Ok::<
                Option<BuildRule>,
                Seq<char>,
            >(rule),
            Err(text) => spec_build_rule(crate::debian::package::opt_text(build_on)) == Err::<
                Option<BuildRule>,
                Seq<char>,
            >(text@),
        },
{
    match build_on {
        None => Ok(None),
        Some(rule) => if str_eq(rule, "changelog") {
            Ok(Some(BuildRule::Changelog))
        } else if str_eq(rule, "commit") {
            Ok(Some(BuildRule::Commit))
        } else {
            Err(rule.to_owned())
        },
    }
}

/// Whether the record says that `what` was built under the rule `kind`.
pub fn is_recorded(record: &str, kind: &str, what: &str) -> (r: bool)
    ensures
        r == spec_is_recorded(record@, kind@, what@),
{
    let chars = chars_of(record);
    let v = chars.as_slice();
    match nth_line(v, 0) {
        Some(first) => {
            if !is_text(first, kind) {
                return false;
            }
        },
        None => {
            return false;
        },
    }
    match nth_line(v, 1) {
        Some(second) => is_text(second, what),
        None => false,
    }
}

/// Whether a build is left out because it was made before: never when it
/// is forced or nothing is recorded, else when the record says so.
pub open spec fn spec_is_built(
    force: bool,
    record: Option<Seq<char>>,
    kind: Seq<char>,
    what: Seq<char>,
) -> bool {
    !force && match record {
        Some(text) => spec_is_recorded(text, kind, what),
        None => false,
    }
}

/// Whether the build of `what` under the rule `kind` is left out because it
/// was made before. `record` is what the record of the package holds, where
/// there is one.
pub fn is_built(force: bool, record: Option<&str>, kind: &str, what: &str) -> (r: bool)
    ensures
        r == spec_is_built(force, crate::debian::package::opt_text(record), kind@, what@),
{
    if force {
        return false;
    }
    match record {
        Some(text) => is_recorded(text, kind, what),
        None => false,
    }
}

fn line_is_entry(entry: &[char], branch: &str, commit: &str) -> (r: bool)
    ensures
        r == is_entry(entry@, branch@, commit@),
{
    match nth_word(entry, 0) {
        Some(w) => {
            if !is_text(w, branch) {
                return false;
            }
        },
        None => {
            return false;
        },
    }
    match nth_word(entry, 1) {
        Some(w) => is_text(w, commit),
        None => false,
    }
}

fn text_has_entry(text: &[char], branch: &str, commit: &str) -> (r: bool)
    ensures
        r == has_entry(text@, branch@, commit@),
    decreases text@.len(),
{
    match first_line_of(text) {
        None => false,
        Some(l) => {
            if line_is_entry(l, branch, commit) {
                return true;
            }
            match crate::text::find_char(text, '\n') {
                Some(p) => {
                    let n = text.len();
                    let rest = &text[p + 1..n];
                    assert(rest@ =~= text@.skip(p + 1));
                    text_has_entry(rest, branch, commit)
                },
                None => false,
            }
        },
    }
}

/// Whether the commit is added to the record of commits.
pub fn commit_appends(record: &str, branch: &str, commit: &str) -> (r: bool)
    ensures
        r == spec_commit_appends(record@, branch@, commit@),
{
    let chars = chars_of(record);
    let v = chars.as_slice();
    match nth_line(v, 0) {
        Some(first) => {
            if !is_text(first, "commit") {
                return false;
            }
        },
        None => {
            return false;
        },
    }
    match crate::text::find_char(v, '\n') {
        Some(p) => {
            let n = v.len();
            let rest = &v[p + 1..n];
            assert(rest@ =~= record@.skip(p + 1));
            !text_has_entry(rest, branch, commit)
        },
        None => true,
    }
}

/// What is recorded of the build of a commit: it is added to the record
/// where the record is read and `commit_appends` says so, and replaces the
/// record otherwise.
pub fn commit_record(force: bool, record: Option<&str>, branch: String, commit: String) -> (r:
    Record)
    ensures
        match r {
            Record::CommitAppend(b, c) => b == branch && c == commit && !force && (
            record matches Some(text) && spec_commit_appends(text@, branch@, commit@)),
            Record::Commit(b, c) => b == branch && c == commit && !(!force && (
            record matches Some(text) && spec_commit_appends(text@, branch@, commit@))),
            _ => false,
        },
{
    let append = !force && match record {
        Some(text) => commit_appends(text, branch.as_str(), commit.as_str()),
        None => false,
    };
    if append {
        Record::CommitAppend(branch, commit)
    } else {
        Record::Commit(branch, commit)
    }
}

/// What is written for a record, and whether it is added to what is there.
pub fn record_text(record: &Record) -> (r: (String, bool))
    ensures
        r.0@ == spec_record_text(*record).0,
        r.1 == spec_record_text(*record).1,
{
    let mut out: Vec<char> = Vec::new();
    match record {
        Record::Dsc(dsc) => {
            push_str(&mut out, "dsc\n");
            push_str(&mut out, dsc.as_str());
            let r = string_of(out.as_slice());
            assert(r@ =~= "dsc\n"@ + dsc@);
            (r, false)
        },
        Record::Changelog(version) => {
            push_str(&mut out, "changelog\n");
            push_str(&mut out, version.as_str());
            let r = string_of(out.as_slice());
            assert(r@ =~= "changelog\n"@ + version@);
            (r, false)
        },
        Record::Commit(branch, commit) => {
            push_str(&mut out, "commit\n");
            push_str(&mut out, branch.as_str());
            push_str(&mut out, " ");
            push_str(&mut out, commit.as_str());
            let r = string_of(out.as_slice());
            assert(r@ =~= "commit\n"@ + branch@ + " "@ + commit@);
            (r, false)
        },
        Record::CommitAppend(branch, commit) => {
            push_str(&mut out, branch.as_str());
            push_str(&mut out, " ");
            push_str(&mut out, commit.as_str());
            let r = string_of(out.as_slice());
            assert(r@ =~= branch@ + " "@ + commit@);
            (r, true)
        },
    }
}

/// The first six characters of a commit, or all of it where it has no
/// more, without the white space around it.
pub open spec fn spec_short_commit(commit: Seq<char>) -> Seq<char> {
    let c = trimmed(commit);
    if c.len() > 6 {
        c.take(6)
    } else {
        c
    }
}

/// What `dch` adds to the version of an automatic build: the time of the
/// commit, the version of the suite and the commit, each behind a `~`.
pub open spec fn spec_build_suffix(timestamp: Seq<char>, version: Seq<char>, commit: Seq<char>) -> Seq<
    char,
> {
    "~"@ + trimmed(timestamp) + "~"@ + version + "~"@ + spec_short_commit(commit)
}

/// The arguments of `dch` for an automatic build.
pub open spec fn spec_debchange_arguments(
    suite: Seq<char>,
    version: Seq<char>,
    timestamp: Seq<char>,
    commit: Seq<char>,
    changelog: Seq<char>,
) -> Seq<Seq<char>> {
    seq![
        "-D"@,
        suite,
        "-l"@,
        spec_build_suffix(timestamp, version, commit),
        "-c"@,
        changelog,
        "automatic build of commit "@ + spec_short_commit(commit),
    ]
}

/// The first six characters of a commit, without the white space around it.
pub fn short_commit(commit: &str) -> (r: String)
    ensures
        r@ == spec_short_commit(commit@),
{
    let chars = chars_of(commit);
    let c = trim(chars.as_slice());
    if c.len() > 6 {
        let s = &c[0..6];
        assert(s@ =~= c@.take(6));
        string_of(s)
    } else {
        string_of(c)
    }
}

/// The arguments of `dch` for an automatic build of `commit`, which was
/// made at `timestamp`, in the changelog at `changelog`.
pub fn debchange_arguments(
    suite: &str,
    version: &str,
    timestamp: &str,
    commit: &str,
    changelog: &str,
) -> (r: Vec<String>)
    ensures
        texts(r@) == spec_debchange_arguments(suite@, version@, timestamp@, commit@, changelog@),
{
    let short = short_commit(commit);
    let stamp = chars_of(timestamp);
    let mut suffix: Vec<char> = Vec::new();
    push_str(&mut suffix, "~");
    push_all(&mut suffix, trim(stamp.as_slice()));
    push_str(&mut suffix, "~");
    push_str(&mut suffix, version);
    push_str(&mut suffix, "~");
    push_str(&mut suffix, short.as_str());
    let suffix = string_of(suffix.as_slice());
    assert(suffix@ =~= spec_build_suffix(timestamp@, version@, commit@));
    let mut r: Vec<String> = Vec::new();
    r.push("-D".to_owned());
    r.push(suite.to_owned());
    r.push("-l".to_owned());
    r.push(suffix);
    r.push("-c".to_owned());
    r.push(changelog.to_owned());
    r.push(joined("automatic build of commit ", short.as_str()));
    assert(texts(r@) =~= spec_debchange_arguments(
        suite@,
        version@,
        timestamp@,
        commit@,
        changelog@,
    ));
    r
}

/// A dependency of a build has no archive in the pool.
#[derive(Debug, Clone, PartialEq, Eq)]
pub struct MissingDependencies {
    /// The dependencies, and for each whether an archive was found.
    pub found: Vec<(String, bool)>,
}

/// The archives among `paths` that belong to one of the packages of
/// `depends`, by what stands before the first `_` of their file names.
pub open spec fn matching(paths: Seq<Seq<char>>, depends: Seq<Seq<char>>) -> Seq<Seq<char>>
    decreases paths.len(),
{
    if paths.len() == 0 {
        Seq::empty()
    } else {
        let before = matching(paths.drop_last(), depends);
        let file = crate::misc::spec_filename_from_url(paths.last());
        if crate::misc::spec_is_deb(file, 0) && crate::misc::spec_match_deb(file, depends) is Some {
            before.push(paths.last())
        } else {
            before
        }
    }
}

/// The archives that a build depends on: of each dependency the archive
/// with the highest version, the first one among equals.
pub open spec fn dependency_archives(paths: Seq<Seq<char>>, depends: Seq<Seq<char>>) -> Map<
    Seq<char>,
    (Seq<char>, Seq<char>),
> {
    crate::repo::scan::latest(candidates_of(matching(paths, depends), 0), false)
}

fn matching_paths(paths: &Vec<String>, depends: &Vec<String>) -> (r: Vec<String>)
    ensures
        texts(r@) == matching(texts(paths@), texts(depends@)),
{
    let mut r: Vec<String> = Vec::new();
    let mut i: usize = 0;
    proof {
        assert(texts(paths@).take(0) =~= Seq::empty());
        assert(texts(r@) =~= Seq::empty());
    }
    while i < paths.len()
        invariant
            i <= paths@.len(),
            texts(r@) == matching(texts(paths@).take(i as int), texts(depends@)),
        decreases paths@.len() - i,
    {
        let ghost before = r@;
        proof {
            let next = texts(paths@).take(i + 1);
            assert(next.drop_last() =~= texts(paths@).take(i as int));
            assert(next.last() == paths@[i as int]@);
            assert(texts(depends@) =~= depends@.map_values(|s: String| s@));
        }
        let file = filename_from_url(paths[i].as_str());
        if is_deb(file.as_str(), 0) && match_deb(file.as_str(), paths[i].as_str(), depends).is_some() {
            r.push(paths[i].clone());
            assert(texts(r@) =~= texts(before).push(paths@[i as int]@));
        }
        i += 1;
    }
    assert(texts(paths@).take(paths@.len() as int) =~= texts(paths@));
    r
}

fn kept_path(
    kept: &Vec<Candidate>,
    name: &str,
    Ghost(candidates): Ghost<Seq<(Seq<char>, Seq<char>, Seq<char>)>>,
) -> (r: Option<String>)
    requires
        is_retained(candidates, false, kept@),
    ensures
        match r {
            Some(path) => crate::repo::scan::latest(candidates, false).contains_key(name@)
                && crate::repo::scan::latest(candidates, false)[name@].1 == path@,
            None => !crate::repo::scan::latest(candidates, false).contains_key(name@),
        },
{
    let ghost model = crate::repo::scan::latest(candidates, false);
    let mut i: usize = 0;
    while i < kept.len()
        invariant
            i <= kept@.len(),
            is_retained(candidates, false, kept@),
            model == crate::repo::scan::latest(candidates, false),
            forall|j: int| 0 <= j < i ==> kept@[j].name@ != name@,
        decreases kept@.len() - i,
    {
        if str_eq(kept[i].name.as_str(), name) {
            proof {
                assert(model.contains_key(kept@[i as int].name@));
            }
            return Some(kept[i].path.clone());
        }
        i += 1;
    }
    proof {
        if model.contains_key(name@) {
            let k = choose|k: int| 0 <= k < kept@.len() && #[trigger] kept@[k].name@ == name@;
            assert(false);
        }
    }
    None
}

/// Whether `r` is what is handed to a build as extra packages.
///
/// Where every dependency has an archive, and the archives are as many as
/// the dependencies, these are the archives of `dependency_archives`, in
/// the order of the dependencies. Otherwise the failure says of each
/// dependency whether an archive was found.
pub open spec fn is_selection(
    archives: Map<Seq<char>, (Seq<char>, Seq<char>)>,
    depends: Seq<String>,
    r: Result<Vec<String>, MissingDependencies>,
) -> bool {
    match r {
        Ok(list) => {
            &&& list@.len() == depends.len()
            &&& archives.dom().len() == depends.len()
            &&& forall|i: int|
                0 <= i < depends.len() ==> archives.contains_key((#[trigger] depends[i])@)
                    && archives[depends[i]@].1 == list@[i]@
        },
        Err(missing) => {
            &&& missing.found@.len() == depends.len()
            &&& forall|i: int|
                0 <= i < depends.len() ==> missing.found@[i].0@ == (#[trigger] depends[i])@
                    && missing.found@[i].1 == archives.contains_key(depends[i]@)
            &&& (archives.dom().len() != depends.len() || exists|i: int|
                0 <= i < depends.len() && !archives.contains_key((#[trigger] depends[i])@))
        },
    }
}

/// The archives that are handed to a build as extra packages: for each of
/// its dependencies, in their order, the archive of `dependency_archives`.
pub fn select_dependencies(paths: &Vec<String>, depends: &Vec<String>) -> (r: Result<
    Vec<String>,
    MissingDependencies,
>)
    ensures
        is_selection(dependency_archives(texts(paths@), texts(depends@)), depends@, r),
{
    let matches = matching_paths(paths, depends);
    let found = candidates(&matches, 0);
    let kept = retain(found, false);
    let ghost all = candidates_of(texts(matches@), 0);
    let ghost model = dependency_archives(texts(paths@), texts(depends@));
    let mut list: Vec<String> = Vec::new();
    let mut report: Vec<(String, bool)> = Vec::new();
    let counted = kept.len() == depends.len();
    let mut every = true;
    let ghost mut missing_at: int = -1;
    let mut i: usize = 0;
    while i < depends.len()
        invariant
            i <= depends@.len(),
            is_retained(all, false, kept@),
            model == crate::repo::scan::latest(all, false),
            report@.len() == i,
            list@.len() == i,
            forall|k: int|
                0 <= k < i ==> report@[k].0@ == (#[trigger] depends@[k])@ && report@[k].1
                    == model.contains_key(depends@[k]@),
            forall|k: int|
                0 <= k < i && model.contains_key((#[trigger] depends@[k])@) ==> model[depends@[k]@].1
                    == list@[k]@,
            every ==> forall|k: int| 0 <= k < i ==> model.contains_key((#[trigger] depends@[k])@),
            !every ==> 0 <= missing_at < i && !model.contains_key(depends@[missing_at]@),
        decreases depends@.len() - i,
    {
        match kept_path(&kept, depends[i].as_str(), Ghost(all)) {
            Some(path) => {
                report.push((depends[i].clone(), true));
                list.push(path);
            },
            None => {
                report.push((depends[i].clone(), false));
                list.push(String::new());
                every = false;
                proof {
                    missing_at = i as int;
                }
            },
        }
        i += 1;
    }
    if counted && every {
        let r = Ok(list);
        assert(is_selection(model, depends@, r));
        r
    } else {
        let r = Err(MissingDependencies { found: report });
        proof {
            if model.dom().len() == depends@.len() {
                assert(!model.contains_key(depends@[missing_at]@));
            }
        }
        assert(is_selection(model, depends@, r));
        r
    }
}

/// The arguments of `sbuild` for the source `item`, built for `arch` in
/// `suite` from what lies at `path`: the fixed options, then the extra
/// packages, the keys and the repositories of the configuration, the
/// commands of the source, and the path.
pub open spec fn spec_sbuild_arguments(
    config: Config,
    item: Source,
    suite: Seq<char>,
    arch: Seq<char>,
    extra: Seq<Seq<char>>,
    path: Seq<char>,
) -> Seq<Seq<char>> {
    seq![
        "-v"@,
        "--log-external-command-output"@,
        "--log-external-command-error"@,
        "--host="@ + arch,
        "-d"@,
        suite,
    ] + prefixed("--extra-package="@, extra) + prefixed(
        "--extra-repository-key="@,
        texts(config.extra_keys@),
    ) + prefixed("--extra-repository="@, opt_texts(config.extra_repos)) + prefixed(
        "--pre-build-commands="@,
        opt_texts(item.prebuild),
    ) + prefixed("--starting-build-commands="@, opt_texts(item.starting_build)) + seq![path]
}

/// The texts of a list that may be absent.
pub open spec fn opt_texts(list: Option<Vec<String>>) -> Seq<Seq<char>> {
    match list {
        Some(l) => texts(l@),
        None => Seq::empty(),
    }
}

/// Each of the values behind the prefix.
pub open spec fn prefixed(prefix: Seq<char>, values: Seq<Seq<char>>) -> Seq<Seq<char>> {
    values.map_values(|v: Seq<char>| prefix + v)
}

fn push_prefixed(out: &mut Vec<String>, prefix: &str, values: &Vec<String>)
    ensures
        texts(final(out)@) == texts(old(out)@) + prefixed(prefix@, texts(values@)),
{
    let mut i: usize = 0;
    proof {
        assert(texts(out@) =~= texts(old(out)@) + prefixed(prefix@, texts(values@)).take(0));
    }
    while i < values.len()
        invariant
            i <= values@.len(),
            texts(out@) == texts(old(out)@) + prefixed(prefix@, texts(values@)).take(i as int),
        decreases values@.len() - i,
    {
        let ghost before = out@;
        let arg = joined(prefix, values[i].as_str());
        out.push(arg);
        proof {
            assert(texts(out@) =~= texts(before).push(arg@));
            assert(prefixed(prefix@, texts(values@)).take(i + 1) =~= prefixed(
                prefix@,
                texts(values@),
            ).take(i as int).push(prefix@ + values@[i as int]@));
        }
        i += 1;
    }
    proof {
        assert(prefixed(prefix@, texts(values@)).take(values@.len() as int) =~= prefixed(
            prefix@,
            texts(values@),
        ));
    }
}

fn push_opt_prefixed(out: &mut Vec<String>, prefix: &str, values: &Option<Vec<String>>)
    ensures
        texts(final(out)@) == texts(old(out)@) + prefixed(prefix@, opt_texts(*values)),
{
    match values {
        Some(list) => {
            push_prefixed(out, prefix, list);
        },
        None => {
            assert(texts(out@) =~= texts(old(out)@) + prefixed(prefix@, opt_texts(*values)));
        },
    }
}

/// The arguments of `sbuild`.
pub fn sbuild_arguments(
    config: &Config,
    item: &Source,
    suite: &str,
    arch: &str,
    extra: &Vec<String>,
    path: &str,
) -> (r: Vec<String>)
    ensures
        texts(r@) == spec_sbuild_arguments(*config, *item, suite@, arch@, texts(extra@), path@),
{
    let mut r: Vec<String> = Vec::new();
    r.push("-v".to_owned());
    r.push("--log-external-command-output".to_owned());
    r.push("--log-external-command-error".to_owned());
    r.push(joined("--host=", arch));
    r.push("-d".to_owned());
    r.push(suite.to_owned());
    assert(texts(r@) =~= seq![
        "-v"@,
        "--log-external-command-output"@,
        "--log-external-command-error"@,
        "--host="@ + arch@,
        "-d"@,
        suite@,
    ]);
    push_prefixed(&mut r, "--extra-package=", extra);
    push_prefixed(&mut r, "--extra-repository-key=", &config.extra_keys);
    push_opt_prefixed(&mut r, "--extra-repository=", &config.extra_repos);
    push_opt_prefixed(&mut r, "--pre-build-commands=", &item.prebuild);
    push_opt_prefixed(&mut r, "--starting-build-commands=", &item.starting_build);
    let ghost before = r@;
    r.push(path.to_owned());
    assert(texts(r@) =~= texts(before) + seq![path@]);
    r
}

} // verus!
