//! The entries of a `Contents` index: which package ships which path.

use vstd::prelude::*;
use vstd::string::StrSliceExecFns;
use vstd::utf8::encode_utf8;
use crate::debian::control::ControlMap;
use crate::error::DuplicateContentsPath;
use crate::order::{same_bytes, sort_records, sorted_records, views, KeyOrder, Record};
use crate::seqs::{copy_bytes, push_bytes};
use crate::text::{push_str, str_eq, string_of};

verus! {

/// The paths that one package ships, under the identifier by which the
/// `Contents` index names the package. A path is held in the bytes in which
/// the archive gives it.
pub struct ContentsEntry {
    pub package: String,
    pub files: Vec<Vec<u8>>,
}

/// The identifier of a package in a `Contents` index: `<section>/<package>`
/// in the default component, `<component>/<section>/<package>` in any other.
pub open spec fn spec_package_id(
    control: Map<Seq<char>, Seq<char>>,
    component: Seq<char>,
    default_component: Seq<char>,
) -> Seq<char> {
    if component == default_component {
        control["Section"@] + "/"@ + control["Package"@]
    } else {
        component + "/"@ + control["Section"@] + "/"@ + control["Package"@]
    }
}

/// The identifier of a package in a `Contents` index, where its control
/// data names both its package and its section.
pub fn package_id(control: &ControlMap, component: &str, default_component: &str) -> (r: Option<
    String,
>)
    ensures
        match r {
            Some(id) => control@.contains_key("Package"@) && control@.contains_key("Section"@)
                && id@ == spec_package_id(control@, component@, default_component@),
            None => !(control@.contains_key("Package"@) && control@.contains_key("Section"@)),
        },
{
    let package = match control.get("Package") {
        Some(p) => p,
        None => {
            return None;
        },
    };
    let section = match control.get("Section") {
        Some(s) => s,
        None => {
            return None;
        },
    };
    let mut out: Vec<char> = Vec::new();
    if !str_eq(component, default_component) {
        push_str(&mut out, component);
        push_str(&mut out, "/");
    }
    push_str(&mut out, section.as_str());
    push_str(&mut out, "/");
    push_str(&mut out, package.as_str());
    let id = string_of(out.as_slice());
    assert(id@ =~= spec_package_id(control@, component@, default_component@));
    Some(id)
}

/// A path without the `./` that a path inside an archive may begin with.
pub open spec fn strip_dot_slash(path: Seq<u8>) -> Seq<u8> {
    if path.len() >= 2 && path[0] == 46u8 && path[1] == 47u8 {
        path.skip(2)
    } else {
        path
    }
}

/// What the index holds for one path of a package: the path as its key,
/// without a leading `./`, and the package's identifier in UTF-8 as its
/// body.
pub open spec fn file_record(package: Seq<char>, path: Seq<u8>) -> (Seq<u8>, Seq<u8>) {
    (strip_dot_slash(path), encode_utf8(package))
}

/// What the index holds for one package: a record for each of its paths.
pub open spec fn entry_records(entry: ContentsEntry) -> Seq<(Seq<u8>, Seq<u8>)> {
    Seq::new(entry.files@.len(), |i: int| file_record(entry.package@, entry.files@[i]@))
}

/// What the index holds for a list of packages, before it is sorted.
pub open spec fn contents_records(entries: Seq<ContentsEntry>) -> Seq<(Seq<u8>, Seq<u8>)>
    decreases entries.len(),
{
    if entries.len() == 0 {
        Seq::empty()
    } else {
        contents_records(entries.drop_last()) + entry_records(entries.last())
    }
}

/// A line of the index: the path, two spaces, the package, a line feed.
pub open spec fn contents_line(record: (Seq<u8>, Seq<u8>)) -> Seq<u8> {
    record.0 + seq![32u8, 32u8] + record.1 + seq![10u8]
}

/// The lines of the index for records in their final order.
pub open spec fn contents_lines(sorted: Seq<(Seq<u8>, Seq<u8>)>) -> Seq<Seq<u8>> {
    sorted.map_values(|r: (Seq<u8>, Seq<u8>)| contents_line(r))
}

/// The paths that two neighbours in the sorted index share, each with the
/// packages of both lines, in the order of the index.
pub open spec fn duplicate_paths(sorted: Seq<(Seq<u8>, Seq<u8>)>) -> Seq<
    (Seq<u8>, Seq<u8>, Seq<u8>),
>
    decreases sorted.len(),
{
    if sorted.len() < 2 {
        Seq::empty()
    } else {
        let before = duplicate_paths(sorted.drop_last());
        let a = sorted[sorted.len() - 2];
        let b = sorted[sorted.len() - 1];
        if a.0 == b.0 {
            before.push((a.0, a.1, b.1))
        } else {
            before
        }
    }
}

/// Adding a package to a list adds its records, wherever it is added.
pub proof fn lemma_contents_records_insert(entries: Seq<ContentsEntry>, j: int, entry: ContentsEntry)
    requires
        0 <= j <= entries.len(),
    ensures
        contents_records(entries.insert(j, entry)).to_multiset() == contents_records(
            entries,
        ).to_multiset().add(entry_records(entry).to_multiset()),
    decreases entries.len(),
{
    broadcast use vstd::multiset::group_multiset_axioms;

    let longer = entries.insert(j, entry);
    if j == entries.len() {
        assert(longer.drop_last() =~= entries);
        assert(longer.last() == entry);
        vstd::seq_lib::lemma_multiset_commutative(contents_records(entries), entry_records(entry));
    } else {
        assert(longer.drop_last() =~= entries.drop_last().insert(j, entry));
        assert(longer.last() == entries.last());
        lemma_contents_records_insert(entries.drop_last(), j, entry);
        vstd::seq_lib::lemma_multiset_commutative(
            contents_records(longer.drop_last()),
            entry_records(entries.last()),
        );
        vstd::seq_lib::lemma_multiset_commutative(
            contents_records(entries.drop_last()),
            entry_records(entries.last()),
        );
        assert(contents_records(longer).to_multiset() =~= contents_records(
            entries,
        ).to_multiset().add(entry_records(entry).to_multiset()));
    }
}

/// The records of a list of packages do not depend, as a collection, on the
/// order of the packages.
pub proof fn lemma_contents_records_permutation(a: Seq<ContentsEntry>, b: Seq<ContentsEntry>)
    requires
        a.to_multiset() == b.to_multiset(),
    ensures
        contents_records(a).to_multiset() == contents_records(b).to_multiset(),
    decreases a.len(),
{
    broadcast use vstd::multiset::group_multiset_axioms;

    a.to_multiset_ensures();
    b.to_multiset_ensures();
    if a.len() == 0 {
        assert(b.len() == 0);
    } else {
        let x = a.last();
        assert(a.contains(x)) by {
            assert(a[a.len() - 1] == x);
        }
        assert(a.to_multiset().count(x) > 0);
        assert(b.to_multiset().count(x) > 0);
        assert(b.contains(x));
        let j = choose|j: int| 0 <= j < b.len() && b[j] == x;
        let a1 = a.drop_last();
        let b1 = b.remove(j);
        assert(a1 =~= a.remove(a.len() - 1));
        vstd::seq_lib::to_multiset_remove(a, a.len() - 1);
        vstd::seq_lib::to_multiset_remove(b, j);
        lemma_contents_records_permutation(a1, b1);
        assert(b =~= b1.insert(j, x));
        assert(a =~= a1.insert(a1.len() as int, x));
        lemma_contents_records_insert(b1, j, x);
        lemma_contents_records_insert(a1, a1.len() as int, x);
    }
}

/// A `Contents` index does not depend on the order in which its packages
/// came: two lists of the same packages give the same lines and the same
/// warnings.
pub proof fn lemma_contents_order_free(a: Seq<ContentsEntry>, b: Seq<ContentsEntry>)
    requires
        a.to_multiset() == b.to_multiset(),
    ensures
        sorted_records(contents_records(a), KeyOrder::Bytes) == sorted_records(
            contents_records(b),
            KeyOrder::Bytes,
        ),
{
    lemma_contents_records_permutation(a, b);
    crate::order::lemma_sorted_records_of_permutation(
        contents_records(a),
        contents_records(b),
        KeyOrder::Bytes,
    );
}

/// Every path of every package has its line in the index: sorting keeps
/// the records, those of a path that several packages ship too.
pub proof fn lemma_every_line_is_kept(entries: Seq<ContentsEntry>)
    ensures
        sorted_records(contents_records(entries), KeyOrder::Bytes).to_multiset()
            == contents_records(entries).to_multiset(),
        contents_lines(sorted_records(contents_records(entries), KeyOrder::Bytes)).len()
            == contents_records(entries).len(),
{
    crate::order::lemma_record_order_total(KeyOrder::Bytes);
    contents_records(entries).lemma_sort_by_ensures(crate::order::record_order(KeyOrder::Bytes));
    vstd::seq_lib::to_multiset_len(contents_records(entries));
    vstd::seq_lib::to_multiset_len(sorted_records(contents_records(entries), KeyOrder::Bytes));
}

proof fn lemma_twice_counts(s: Seq<(Seq<u8>, Seq<u8>)>, i: int, j: int)
    requires
        0 <= i < j < s.len(),
        s[i] == s[j],
    ensures
        s.to_multiset().count(s[i]) >= 2,
    decreases s.len(),
{
    broadcast use vstd::multiset::group_multiset_axioms;

    let r = s[i];
    let before = s.drop_last();
    assert(s =~= before.push(s.last()));
    vstd::seq_lib::to_multiset_build(before, s.last());
    if j == s.len() - 1 {
        before.to_multiset_ensures();
        assert(before[i] == r);
        assert(before.contains(r));
        assert(before.to_multiset().count(r) > 0);
    } else {
        assert(before[i] == before[j]);
        lemma_twice_counts(before, i, j);
    }
}

proof fn lemma_counted_twice(s: Seq<(Seq<u8>, Seq<u8>)>, r: (Seq<u8>, Seq<u8>))
    requires
        s.to_multiset().count(r) >= 2,
    ensures
        exists|p: int, q: int| 0 <= p < q < s.len() && s[p] == r && s[q] == r,
    decreases s.len(),
{
    broadcast use vstd::multiset::group_multiset_axioms;

    s.to_multiset_ensures();
    if s.len() == 0 {
        assert(s.to_multiset().len() == 0);
        assert(false);
    } else {
        let before = s.drop_last();
        assert(s =~= before.push(s.last()));
        vstd::seq_lib::to_multiset_build(before, s.last());
        if s.last() == r {
            before.to_multiset_ensures();
            assert(before.to_multiset().count(r) > 0);
            assert(before.contains(r));
            let p = choose|p: int| 0 <= p < before.len() && before[p] == r;
            assert(s[p] == r && s[s.len() - 1] == r);
        } else {
            lemma_counted_twice(before, r);
            let (p, q) = choose|p: int, q: int|
                0 <= p < q < before.len() && before[p] == r && before[q] == r;
            assert(s[p] == r && s[q] == r);
        }
    }
}

proof fn lemma_neighbours_are_reported(sorted: Seq<(Seq<u8>, Seq<u8>)>, p: int)
    requires
        0 <= p,
        p + 1 < sorted.len(),
        sorted[p].0 == sorted[p + 1].0,
    ensures
        exists|k: int|
            0 <= k < duplicate_paths(sorted).len() && (#[trigger] duplicate_paths(sorted)[k])
                == (sorted[p].0, sorted[p].1, sorted[p + 1].1),
    decreases sorted.len(),
{
    let before = duplicate_paths(sorted.drop_last());
    if p + 1 == sorted.len() - 1 {
        let all = duplicate_paths(sorted);
        assert(all == before.push((sorted[p].0, sorted[p].1, sorted[p + 1].1)));
        assert(all[all.len() - 1] == (sorted[p].0, sorted[p].1, sorted[p + 1].1));
    } else {
        assert(sorted.drop_last()[p] == sorted[p]);
        assert(sorted.drop_last()[p + 1] == sorted[p + 1]);
        lemma_neighbours_are_reported(sorted.drop_last(), p);
        let k = choose|k: int|
            0 <= k < before.len() && (#[trigger] before[k]) == (
                sorted[p].0,
                sorted[p].1,
                sorted[p + 1].1,
            );
        assert(duplicate_paths(sorted)[k] == before[k]);
    }
}

/// A path that two records share is reported: where the records of an
/// index hold a path twice, one of its warnings is for that path.
pub proof fn lemma_duplicates_are_reported(records: Seq<(Seq<u8>, Seq<u8>)>, i: int, j: int)
    requires
        0 <= i < j < records.len(),
        records[i].0 == records[j].0,
    ensures
        exists|k: int|
            0 <= k < duplicate_paths(sorted_records(records, KeyOrder::Bytes)).len() && (
            #[trigger] duplicate_paths(sorted_records(records, KeyOrder::Bytes))[k]).0
                == records[i].0,
{
    broadcast use vstd::multiset::group_multiset_axioms;

    let order = crate::order::record_order(KeyOrder::Bytes);
    let sorted = sorted_records(records, KeyOrder::Bytes);
    let path = records[i].0;
    crate::order::lemma_record_order_total(KeyOrder::Bytes);
    records.lemma_sort_by_ensures(order);
    records.to_multiset_ensures();
    sorted.to_multiset_ensures();
    // Two places of the sorted index hold the path.
    let (p, q) = if records[i] == records[j] {
        lemma_twice_counts(records, i, j);
        lemma_counted_twice(sorted, records[i]);
        choose|p: int, q: int|
            0 <= p < q < sorted.len() && sorted[p] == records[i] && sorted[q] == records[i]
    } else {
        assert(records.contains(records[i]));
        assert(records.contains(records[j]));
        assert(records.to_multiset().count(records[i]) > 0);
        assert(records.to_multiset().count(records[j]) > 0);
        assert(sorted.to_multiset().count(records[i]) > 0);
        assert(sorted.to_multiset().count(records[j]) > 0);
        assert(sorted.contains(records[i]));
        assert(sorted.contains(records[j]));
        let a = choose|a: int| 0 <= a < sorted.len() && sorted[a] == records[i];
        let b = choose|b: int| 0 <= b < sorted.len() && sorted[b] == records[j];
        if a < b {
            (a, b)
        } else {
            (b, a)
        }
    };
    assert(0 <= p < q < sorted.len() && sorted[p].0 == path && sorted[q].0 == path);
    // So does the place behind the first of them.
    assert(sorted[p + 1].0 == path) by {
        if p + 1 < q {
            assert(order(sorted[p], sorted[p + 1]));
            assert(order(sorted[p + 1], sorted[q]));
            if sorted[p + 1].0 != path {
                crate::order::lemma_lex_antisymmetric(path, sorted[p + 1].0, KeyOrder::Bytes);
            }
        }
    }
    lemma_neighbours_are_reported(sorted, p);
}

/// The bytes of a list of lines.
pub open spec fn byte_lines(lines: Seq<Vec<u8>>) -> Seq<Seq<u8>> {
    lines.map_values(|l: Vec<u8>| l@)
}

/// What a list of warnings says.
pub open spec fn duplicate_views(warnings: Seq<DuplicateContentsPath>) -> Seq<
    (Seq<u8>, Seq<u8>, Seq<u8>),
> {
    warnings.map_values(|w: DuplicateContentsPath| (w.path@, w.first@, w.second@))
}

/// The record of one path of the package `package`.
pub fn record_of(package: &str, path: &[u8]) -> (r: Record)
    ensures
        r@ == file_record(package@, path@),
{
    let n = path.len();
    let key = if n >= 2 && path[0] == 46u8 && path[1] == 47u8 {
        let tail = &path[2..n];
        assert(tail@ =~= path@.skip(2));
        copy_bytes(tail)
    } else {
        copy_bytes(path)
    };
    Record { key, body: package.as_bytes_vec() }
}

/// The records of a list of packages, before they are sorted.
pub fn records_of(entries: &Vec<ContentsEntry>) -> (records: Vec<Record>)
    ensures
        views(records@) == contents_records(entries@),
{
    let mut records: Vec<Record> = Vec::new();
    let mut i: usize = 0;
    proof {
        assert(entries@.take(0) =~= Seq::empty());
        assert(views(records@) =~= Seq::empty());
    }
    while i < entries.len()
        invariant
            i <= entries.len(),
            views(records@) == contents_records(entries@.take(i as int)),
        decreases entries.len() - i,
    {
        let entry = &entries[i];
        let ghost before = views(records@);
        let mut k: usize = 0;
        while k < entry.files.len()
            invariant
                k <= entry.files.len(),
                views(records@) == before + entry_records(*entry).take(k as int),
            decreases entry.files.len() - k,
        {
            let r = record_of(entry.package.as_str(), entry.files[k].as_slice());
            let ghost old_records = records@;
            records.push(r);
            proof {
                assert(views(records@) =~= views(old_records).push(r@));
                assert(entry_records(*entry).take(k + 1) =~= entry_records(*entry).take(
                    k as int,
                ).push(r@));
            }
            k += 1;
        }
        proof {
            assert(entry_records(*entry).take(entry.files@.len() as int) =~= entry_records(*entry));
            let next = entries@.take(i + 1);
            assert(next.drop_last() =~= entries@.take(i as int));
            assert(next.last() == *entry);
        }
        i += 1;
    }
    assert(entries@.take(entries@.len() as int) =~= entries@);
    records
}

/// The line of the index for one record.
pub fn line_of(record: &Record) -> (line: Vec<u8>)
    ensures
        line@ == contents_line(record@),
{
    let mut line: Vec<u8> = Vec::new();
    push_bytes(&mut line, record.key.as_slice());
    line.push(32u8);
    line.push(32u8);
    push_bytes(&mut line, record.body.as_slice());
    line.push(10u8);
    assert(line@ =~= contents_line(record@));
    line
}

/// A `Contents` index: its lines in their final order, and a warning for
/// every path that two neighbouring lines share.
pub struct ContentsIndex {
    pub lines: Vec<Vec<u8>>,
    pub duplicates: Vec<DuplicateContentsPath>,
}

/// The lines and the warnings for records in their final order.
pub fn index_of_sorted(sorted: &Vec<Record>) -> (index: ContentsIndex)
    ensures
        byte_lines(index.lines@) == contents_lines(views(sorted@)),
        duplicate_views(index.duplicates@) == duplicate_paths(views(sorted@)),
{
    let mut lines: Vec<Vec<u8>> = Vec::new();
    let mut duplicates: Vec<DuplicateContentsPath> = Vec::new();
    let mut i: usize = 0;
    proof {
        assert(byte_lines(lines@) =~= contents_lines(views(sorted@).take(0)));
        assert(duplicate_views(duplicates@) =~= duplicate_paths(views(sorted@).take(0)));
    }
    while i < sorted.len()
        invariant
            i <= sorted.len(),
            byte_lines(lines@) == contents_lines(views(sorted@).take(i as int)),
            duplicate_views(duplicates@) == duplicate_paths(views(sorted@).take(i as int)),
        decreases sorted.len() - i,
    {
        let ghost old_lines = lines@;
        let ghost old_duplicates = duplicates@;
        let ghost next = views(sorted@).take(i + 1);
        proof {
            assert(next.drop_last() =~= views(sorted@).take(i as int));
            assert(next.last() == sorted@[i as int]@);
        }
        let line = line_of(&sorted[i]);
        lines.push(line);
        proof {
            assert(byte_lines(lines@) =~= byte_lines(old_lines).push(line@));
            assert(contents_lines(next) =~= contents_lines(next.drop_last()).push(
                contents_line(next.last()),
            ));
        }
        if i > 0 && same_bytes(sorted[i - 1].key.as_slice(), sorted[i].key.as_slice()) {
            let w = DuplicateContentsPath {
                path: copy_bytes(sorted[i].key.as_slice()),
                first: copy_bytes(sorted[i - 1].body.as_slice()),
                second: copy_bytes(sorted[i].body.as_slice()),
            };
            duplicates.push(w);
            proof {
                assert(next[next.len() - 2] == sorted@[i - 1]@);
                assert(duplicate_views(duplicates@) =~= duplicate_views(old_duplicates).push(
                    (w.path@, w.first@, w.second@),
                ));
            }
        } else {
            proof {
                if i > 0 {
                    assert(next[next.len() - 2] == sorted@[i - 1]@);
                }
            }
        }
        i += 1;
    }
    assert(views(sorted@).take(sorted@.len() as int) =~= views(sorted@));
    ContentsIndex { lines, duplicates }
}

/// The `Contents` index of the packages of one architecture, of all its
/// components together: a line for every path of every package, sorted by
/// path, and by package where two lines share a path.
pub fn contents_index(entries: &Vec<ContentsEntry>) -> (index: ContentsIndex)
    ensures
        byte_lines(index.lines@) == contents_lines(
            sorted_records(contents_records(entries@), KeyOrder::Bytes),
        ),
        duplicate_views(index.duplicates@) == duplicate_paths(
            sorted_records(contents_records(entries@), KeyOrder::Bytes),
        ),
{
    let records = records_of(entries);
    let sorted = sort_records(records, KeyOrder::Bytes);
    index_of_sorted(&sorted)
}

} // verus!
