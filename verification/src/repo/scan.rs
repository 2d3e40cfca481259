//! Which archives of a pool directory enter the index.
//!
//! Of the archives of one package only the one with the highest version is
//! kept. Of two archives of a pool with one version the one seen last is
//! kept.

use vstd::prelude::*;
use crate::debian::info::{get_debian_package_info, package_info};
use crate::debian::version::{spec_supersedes, supersedes};
use crate::misc::{filename_from_url, is_deb, spec_is_deb};
use crate::seqs::reversed;
use crate::text::{after_last, texts};
use crate::textmap::TextMap;

verus! {

/// An archive found in the pool: the name and the version that its file
/// name gives, and its path.
pub struct Candidate {
    pub name: String,
    pub version: String,
    pub path: String,
}

impl View for Candidate {
    type V = (Seq<char>, Seq<char>, Seq<char>);

    open spec fn view(&self) -> (Seq<char>, Seq<char>, Seq<char>) {
        (self.name@, self.version@, self.path@)
    }
}

/// Names, versions and paths of a list of candidates.
pub open spec fn candidate_views(candidates: Seq<Candidate>) -> Seq<
    (Seq<char>, Seq<char>, Seq<char>),
> {
    candidates.map_values(|c: Candidate| c@)
}

/// What is kept after one more candidate was seen: the candidate, unless an
/// archive of its name is kept whose version it does not supersede.
pub open spec fn observe(
    kept: Map<Seq<char>, (Seq<char>, Seq<char>)>,
    seen: (Seq<char>, Seq<char>, Seq<char>),
    last_wins: bool,
) -> Map<Seq<char>, (Seq<char>, Seq<char>)> {
    if kept.contains_key(seen.0) && !spec_supersedes(kept[seen.0].0, seen.1, last_wins) {
        kept
    } else {
        kept.insert(seen.0, (seen.1, seen.2))
    }
}

/// What is kept of the candidates, seen in their order: for each name the
/// version and the path of one archive.
pub open spec fn latest(candidates: Seq<(Seq<char>, Seq<char>, Seq<char>)>, last_wins: bool) -> Map<
    Seq<char>,
    (Seq<char>, Seq<char>),
>
    decreases candidates.len(),
{
    if candidates.len() == 0 {
        Map::empty()
    } else {
        observe(latest(candidates.drop_last(), last_wins), candidates.last(), last_wins)
    }
}

/// Every archive that is kept is one of the candidates.
pub proof fn lemma_latest_is_candidate(
    candidates: Seq<(Seq<char>, Seq<char>, Seq<char>)>,
    last_wins: bool,
    name: Seq<char>,
)
    requires
        latest(candidates, last_wins).contains_key(name),
    ensures
        candidates.contains(
            (
                name,
                latest(candidates, last_wins)[name].0,
                latest(candidates, last_wins)[name].1,
            ),
        ),
    decreases candidates.len(),
{
    if candidates.len() > 0 {
        let before = latest(candidates.drop_last(), last_wins);
        let seen = candidates.last();
        if seen.0 == name && latest(candidates, last_wins)[name] == (seen.1, seen.2) {
            assert(candidates[candidates.len() - 1] == seen);
        } else {
            lemma_latest_is_candidate(candidates.drop_last(), last_wins, name);
            let i = choose|i: int|
                0 <= i < candidates.drop_last().len() && candidates.drop_last()[i] == (
                    name,
                    before[name].0,
                    before[name].1,
                );
            assert(candidates[i] == candidates.drop_last()[i]);
        }
    }
}

/// Of every candidate's name one archive is kept.
pub proof fn lemma_latest_covers(
    candidates: Seq<(Seq<char>, Seq<char>, Seq<char>)>,
    last_wins: bool,
    i: int,
)
    requires
        0 <= i < candidates.len(),
    ensures
        latest(candidates, last_wins).contains_key(candidates[i].0),
    decreases candidates.len(),
{
    if i < candidates.len() - 1 {
        lemma_latest_covers(candidates.drop_last(), last_wins, i);
    }
}

/// A candidate that supersedes what was kept of its name is what is kept
/// of it afterwards, and a candidate of a name not seen before is kept.
pub proof fn lemma_latest_takes_newer(
    candidates: Seq<(Seq<char>, Seq<char>, Seq<char>)>,
    last_wins: bool,
    seen: (Seq<char>, Seq<char>, Seq<char>),
)
    requires
        !latest(candidates, last_wins).contains_key(seen.0) || spec_supersedes(
            latest(candidates, last_wins)[seen.0].0,
            seen.1,
            last_wins,
        ),
    ensures
        latest(candidates.push(seen), last_wins)[seen.0] == (seen.1, seen.2),
{
    assert(candidates.push(seen).drop_last() =~= candidates);
}

/// The candidate that the file at `path` makes.
pub fn candidate(path: &str, flags: u8) -> (r: Option<Candidate>)
    ensures
        match r {
            Some(c) => candidate_of(path@, flags) == Some(c@),
            None => candidate_of(path@, flags) is None,
        },
{
    let file = filename_from_url(path);
    if !is_deb(file.as_str(), flags) {
        return None;
    }
    match get_debian_package_info(path) {
        Some((name, version)) => Some(Candidate { name, version, path: path.to_owned() }),
        None => None,
    }
}

spec fn agrees(
    map: Map<Seq<char>, (String, String)>,
    model: Map<Seq<char>, (Seq<char>, Seq<char>)>,
) -> bool {
    forall|k: Seq<char>|
        (#[trigger] map.contains_key(k)) == model.contains_key(k) && (map.contains_key(k) ==> (
            map[k].0@,
            map[k].1@,
        ) == model[k])
}

/// The names of the candidates, each once, in the order in which they were
/// first seen.
pub open spec fn first_seen(candidates: Seq<(Seq<char>, Seq<char>, Seq<char>)>) -> Seq<Seq<char>>
    decreases candidates.len(),
{
    if candidates.len() == 0 {
        Seq::empty()
    } else {
        let before = first_seen(candidates.drop_last());
        if before.contains(candidates.last().0) {
            before
        } else {
            before.push(candidates.last().0)
        }
    }
}

/// Whether `kept` holds what is kept of the candidates: each name once, in
/// the order in which the names were first seen, with the version and the
/// path that `latest` gives it.
pub open spec fn is_retained(
    candidates: Seq<(Seq<char>, Seq<char>, Seq<char>)>,
    last_wins: bool,
    kept: Seq<Candidate>,
) -> bool {
    &&& forall|i: int, j: int| 0 <= i < j < kept.len() ==> kept[i].name@ != kept[j].name@
    &&& kept.len() == latest(candidates, last_wins).dom().len()
    &&& kept.len() == first_seen(candidates).len()
    &&& forall|i: int| 0 <= i < kept.len() ==> (#[trigger] kept[i]).name@ == first_seen(candidates)[i]
    &&& forall|i: int|
        0 <= i < kept.len() ==> latest(candidates, last_wins).contains_key(
            #[trigger] kept[i].name@,
        ) && latest(candidates, last_wins)[kept[i].name@] == (kept[i].version@, kept[i].path@)
    &&& forall|k: Seq<char>|
        latest(candidates, last_wins).contains_key(k) ==> exists|i: int|
            0 <= i < kept.len() && #[trigger] kept[i].name@ == k
}

/// Keeps, for each name, the archive with the highest version; of two
/// archives with one version the one seen last.
pub fn retain_latest(candidates: Vec<Candidate>) -> (kept: Vec<Candidate>)
    ensures
        is_retained(candidate_views(candidates@), true, kept@),
{
    retain(candidates, true)
}

/// Keeps, for each name, the archive with the highest version.
///
/// The result holds each name once. What is kept of a name is what `latest`
/// says: the candidates are taken in their order, and a candidate takes the
/// place of the archive kept of its name where it supersedes that one.
pub fn retain(candidates: Vec<Candidate>, last_wins: bool) -> (kept: Vec<Candidate>)
    ensures
        is_retained(candidate_views(candidates@), last_wins, kept@),
{
    let ghost all = candidates@;
    let mut rest = reversed(candidates);
    let mut map: TextMap<(String, String)> = TextMap::new();
    let ghost mut done: Seq<Candidate> = Seq::empty();
    proof {
        assert(all =~= done + rest@.reverse());
        assert(candidate_views(done) =~= Seq::empty());
    }
    while rest.len() > 0
        invariant
            all == done + rest@.reverse(),
            agrees(map@, latest(candidate_views(done), last_wins)),
            map.keys() == first_seen(candidate_views(done)),
            forall|k: Seq<char>|
                map@.contains_key(k) <==> #[trigger] first_seen(candidate_views(done)).contains(k),
        decreases rest.len(),
    {
        let c = rest.pop().unwrap();
        let ghost model = latest(candidate_views(done), last_wins);
        let ghost seen = first_seen(candidate_views(done));
        let ghost known = map@.contains_key(c.name@);
        proof {
            assert(known == seen.contains(c.name@));
            let next = done.push(c);
            assert(candidate_views(next).drop_last() =~= candidate_views(done));
            assert(candidate_views(next).last() == c@);
            assert(all =~= next + rest@.reverse());
            done = next;
        }
        let take = match map.get(c.name.as_str()) {
            Some(pair) => supersedes(pair.0.as_str(), c.version.as_str(), last_wins),
            None => true,
        };
        if take {
            let ghost before = map@;
            map.insert(c.name, (c.version, c.path));
            proof {
                let after = observe(model, c@, last_wins);
                assert forall|k: Seq<char>|
                    (#[trigger] map@.contains_key(k)) == after.contains_key(k) && (
                    map@.contains_key(k) ==> (map@[k].0@, map@[k].1@) == after[k]) by {
                    assert(before.contains_key(k) == model.contains_key(k));
                }
                let now = first_seen(candidate_views(done));
                assert forall|k: Seq<char>| map@.contains_key(k) <==> #[trigger] now.contains(
                    k,
                ) by {
                    assert(before.contains_key(k) <==> seen.contains(k));
                    if known {
                        assert(now == seen);
                    } else {
                        assert(now == seen.push(c.name@));
                        if seen.contains(k) {
                            let i = choose|i: int| 0 <= i < seen.len() && seen[i] == k;
                            assert(now[i] == k);
                        }
                        if k == c.name@ {
                            assert(now[now.len() - 1] == k);
                        }
                    }
                }
            }
        } else {
            proof {
                assert(map@.contains_key(c.name@));
            }
        }
    }
    proof {
        assert(done =~= all);
    }
    let ghost model = latest(candidate_views(all), last_wins);
    let ghost domain = map@.dom();
    let ghost order = map.keys();
    let entries = map.into_entries();
    proof {
        assert(domain =~= model.dom());
    }
    let ghost pairs = entries@;
    let mut rest = reversed(entries);
    let mut kept: Vec<Candidate> = Vec::new();
    assert(order == first_seen(candidate_views(all)));
    while rest.len() > 0
        invariant
            kept@.len() + rest@.len() == pairs.len(),
            rest@ == pairs.skip(kept@.len() as int).reverse(),
            forall|i: int|
                0 <= i < kept@.len() ==> (#[trigger] kept@[i]).name@ == pairs[i].0@
                    && kept@[i].version@ == pairs[i].1.0@ && kept@[i].path@ == pairs[i].1.1@,
        decreases rest.len(),
    {
        let ghost n = kept@.len() as int;
        let (name, pair) = rest.pop().unwrap();
        assert(pairs.skip(n).reverse().last() == pairs[n]);
        kept.push(Candidate { name, version: pair.0, path: pair.1 });
        assert(rest@ =~= pairs.skip(n + 1).reverse());
    }
    proof {
        assert forall|k: Seq<char>| model.contains_key(k) implies exists|i: int|
            0 <= i < kept@.len() && #[trigger] kept@[i].name@ == k by {
            assert(map@.contains_key(k));
            let i = choose|i: int| 0 <= i < pairs.len() && #[trigger] pairs[i].0@ == k;
            assert(kept@[i].name@ == k);
        }
        assert forall|i: int| 0 <= i < kept@.len() implies model.contains_key(
            #[trigger] kept@[i].name@,
        ) && model[kept@[i].name@] == (kept@[i].version@, kept@[i].path@) by {
            assert(map@.contains_key(pairs[i].0@));
        }
        assert forall|i: int| 0 <= i < kept@.len() implies (#[trigger] kept@[i]).name@
            == order[i] by {
            assert(pairs[i].0@ == order[i]);
        }
    }
    kept
}

/// What the file at `path` adds to the candidates: itself, with the name
/// and the version that its file name gives, where it is a package file and
/// its name gives both.
pub open spec fn candidate_of(path: Seq<char>, flags: u8) -> Option<
    (Seq<char>, Seq<char>, Seq<char>),
> {
    if spec_is_deb(after_last(path, '/'), flags) {
        match package_info(path) {
            Some((name, version)) => Some((name, version, path)),
            None => None,
        }
    } else {
        None
    }
}

/// The candidates among the given paths, in their order.
pub open spec fn candidates_of(paths: Seq<Seq<char>>, flags: u8) -> Seq<
    (Seq<char>, Seq<char>, Seq<char>),
>
    decreases paths.len(),
{
    if paths.len() == 0 {
        Seq::empty()
    } else {
        match candidate_of(paths.last(), flags) {
            Some(c) => candidates_of(paths.drop_last(), flags).push(c),
            None => candidates_of(paths.drop_last(), flags),
        }
    }
}

/// The candidates among the files found at `paths`, each a path whose parts
/// are separated by `/`.
pub fn candidates(paths: &Vec<String>, flags: u8) -> (found: Vec<Candidate>)
    ensures
        candidate_views(found@) == candidates_of(texts(paths@), flags),
{
    let mut found: Vec<Candidate> = Vec::new();
    let mut i: usize = 0;
    proof {
        assert(texts(paths@).take(0) =~= Seq::empty());
        assert(candidate_views(found@) =~= Seq::empty());
    }
    while i < paths.len()
        invariant
            i <= paths.len(),
            candidate_views(found@) == candidates_of(texts(paths@).take(i as int), flags),
        decreases paths.len() - i,
    {
        let ghost before = found@;
        proof {
            let next = texts(paths@).take(i + 1);
            assert(next.drop_last() =~= texts(paths@).take(i as int));
            assert(next.last() == paths@[i as int]@);
        }
        match candidate(paths[i].as_str(), flags) {
            Some(c) => {
                found.push(c);
                assert(candidate_views(found@) =~= candidate_views(before).push(c@));
            },
            None => {},
        }
        i += 1;
    }
    assert(texts(paths@).take(paths@.len() as int) =~= texts(paths@));
    found
}

} // verus!
