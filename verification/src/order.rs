//! The order in which the entries of an index are written.
//!
//! An index is written sorted, so that two builds of one pool give the same
//! bytes whatever the order in which its archives were read.

use vstd::prelude::*;
use vstd::multiset::Multiset;
use vstd::relations::{sorted_by, total_ordering};
use vstd::seq_lib::{lemma_sorted_unique, to_multiset_build, to_multiset_remove};

verus! {

/// How two keys are compared.
#[derive(Clone, Copy, PartialEq, Eq, Debug, Structural)]
pub enum KeyOrder {
    /// Byte by byte.
    Bytes,
    /// As paths: part by part, each part byte by byte, so that `/` comes
    /// before every other byte.
    Path,
}

/// An entry to sort: the key it is sorted by, and what is written for it.
/// Entries with equal keys are ordered by their bodies, byte by byte.
pub struct Record {
    pub key: Vec<u8>,
    pub body: Vec<u8>,
}

impl View for Record {
    type V = (Seq<u8>, Seq<u8>);

    open spec fn view(&self) -> (Seq<u8>, Seq<u8>) {
        (self.key@, self.body@)
    }
}

/// The keys and bodies of a list of records.
pub open spec fn views(records: Seq<Record>) -> Seq<(Seq<u8>, Seq<u8>)> {
    records.map_values(|r: Record| r@)
}

/// The place of a byte in the order of bytes.
pub open spec fn rank(b: u8, order: KeyOrder) -> int {
    if order == KeyOrder::Path && b == 47u8 {
        0
    } else {
        b + 1
    }
}

/// `a` comes before `b`, or is `b`: at the first place where they differ `a`
/// holds the byte of lower rank, or `a` ends there.
pub open spec fn lex_le(a: Seq<u8>, b: Seq<u8>, order: KeyOrder) -> bool
    decreases a.len(),
{
    if a.len() == 0 {
        true
    } else if b.len() == 0 {
        false
    } else if rank(a[0], order) < rank(b[0], order) {
        true
    } else if rank(a[0], order) > rank(b[0], order) {
        false
    } else {
        lex_le(a.drop_first(), b.drop_first(), order)
    }
}

/// The record `x` comes before the record `y`, or is `y`.
pub open spec fn record_le(x: (Seq<u8>, Seq<u8>), y: (Seq<u8>, Seq<u8>), order: KeyOrder) -> bool {
    if x.0 == y.0 {
        lex_le(x.1, y.1, KeyOrder::Bytes)
    } else {
        lex_le(x.0, y.0, order)
    }
}

/// The order of records as a relation.
pub open spec fn record_order(order: KeyOrder) -> spec_fn((Seq<u8>, Seq<u8>), (Seq<u8>, Seq<u8>)) -> bool {
    |x: (Seq<u8>, Seq<u8>), y: (Seq<u8>, Seq<u8>)| record_le(x, y, order)
}

/// The records in the order in which they are written.
pub open spec fn sorted_records(records: Seq<(Seq<u8>, Seq<u8>)>, order: KeyOrder) -> Seq<
    (Seq<u8>, Seq<u8>),
> {
    records.sort_by(record_order(order))
}

/// Every key comes before itself, or is itself.
pub proof fn lemma_lex_reflexive(a: Seq<u8>, order: KeyOrder)
    ensures
        lex_le(a, a, order),
    decreases a.len(),
{
    if a.len() > 0 {
        lemma_lex_reflexive(a.drop_first(), order);
    }
}

/// Two keys that come before each other are one key.
pub proof fn lemma_lex_antisymmetric(a: Seq<u8>, b: Seq<u8>, order: KeyOrder)
    requires
        lex_le(a, b, order),
        lex_le(b, a, order),
    ensures
        a == b,
    decreases a.len(),
{
    if a.len() == 0 {
        assert(a =~= b);
    } else {
        assert(a[0] == b[0]);
        lemma_lex_antisymmetric(a.drop_first(), b.drop_first(), order);
        assert(a =~= seq![a[0]] + a.drop_first());
        assert(b =~= seq![b[0]] + b.drop_first());
    }
}

/// A key that comes before a second one comes before all that the second
/// one comes before.
pub proof fn lemma_lex_transitive(a: Seq<u8>, b: Seq<u8>, c: Seq<u8>, order: KeyOrder)
    requires
        lex_le(a, b, order),
        lex_le(b, c, order),
    ensures
        lex_le(a, c, order),
    decreases a.len(),
{
    if a.len() > 0 && rank(a[0], order) == rank(b[0], order) && rank(b[0], order) == rank(
        c[0],
        order,
    ) {
        lemma_lex_transitive(a.drop_first(), b.drop_first(), c.drop_first(), order);
    }
}

/// Of two keys one comes before the other, or is the other.
pub proof fn lemma_lex_total(a: Seq<u8>, b: Seq<u8>, order: KeyOrder)
    ensures
        lex_le(a, b, order) || lex_le(b, a, order),
    decreases a.len(),
{
    if a.len() > 0 && b.len() > 0 {
        lemma_lex_total(a.drop_first(), b.drop_first(), order);
    }
}

/// The order of records is a total order: any two records are comparable,
/// and two that precede each other are the same record.
pub proof fn lemma_record_order_total(order: KeyOrder)
    ensures
        total_ordering(record_order(order)),
{
    let r = record_order(order);
    assert forall|x: (Seq<u8>, Seq<u8>)| #[trigger] r(x, x) by {
        lemma_lex_reflexive(x.1, KeyOrder::Bytes);
    }
    assert forall|x: (Seq<u8>, Seq<u8>), y: (Seq<u8>, Seq<u8>)| #[trigger]
        r(x, y) && #[trigger] r(y, x) implies x == y by {
        if x.0 == y.0 {
            lemma_lex_antisymmetric(x.1, y.1, KeyOrder::Bytes);
        } else {
            lemma_lex_antisymmetric(x.0, y.0, order);
        }
    }
    assert forall|x: (Seq<u8>, Seq<u8>), y: (Seq<u8>, Seq<u8>), z: (Seq<u8>, Seq<u8>)| #[trigger]
        r(x, y) && #[trigger] r(y, z) implies r(x, z) by {
        if x.0 == y.0 && y.0 == z.0 {
            lemma_lex_transitive(x.1, y.1, z.1, KeyOrder::Bytes);
        } else if x.0 == y.0 {
        } else if y.0 == z.0 {
        } else {
            lemma_lex_transitive(x.0, y.0, z.0, order);
            if x.0 == z.0 {
                lemma_lex_antisymmetric(x.0, y.0, order);
            }
        }
    }
    assert forall|x: (Seq<u8>, Seq<u8>), y: (Seq<u8>, Seq<u8>)| #[trigger]
        r(x, y) || #[trigger] r(y, x) by {
        lemma_lex_total(x.1, y.1, KeyOrder::Bytes);
        lemma_lex_total(x.0, y.0, order);
    }
}

/// Two lists that hold the same records, in whatever order, are written in
/// the same order.
pub proof fn lemma_sorted_records_of_permutation(
    a: Seq<(Seq<u8>, Seq<u8>)>,
    b: Seq<(Seq<u8>, Seq<u8>)>,
    order: KeyOrder,
)
    requires
        a.to_multiset() == b.to_multiset(),
    ensures
        sorted_records(a, order) == sorted_records(b, order),
{
    lemma_record_order_total(order);
    a.lemma_sort_by_ensures(record_order(order));
    b.lemma_sort_by_ensures(record_order(order));
    lemma_sorted_unique(sorted_records(a, order), sorted_records(b, order), record_order(order));
}

/// What is made of each element of a list does not depend, as a collection,
/// on the order of the list.
pub proof fn lemma_map_values_permutation<A, B>(a: Seq<A>, b: Seq<A>, f: spec_fn(A) -> B)
    requires
        a.to_multiset() == b.to_multiset(),
    ensures
        a.map_values(f).to_multiset() == b.map_values(f).to_multiset(),
    decreases a.len(),
{
    broadcast use vstd::multiset::group_multiset_axioms;

    a.to_multiset_ensures();
    b.to_multiset_ensures();
    if a.len() == 0 {
        assert(b.len() == 0);
        assert(a.map_values(f) =~= b.map_values(f));
    } else {
        let x = a.last();
        assert(a.contains(x)) by {
            assert(a[a.len() - 1] == x);
        }
        assert(a.to_multiset().count(x) > 0);
        assert(b.to_multiset().count(x) > 0);
        assert(b.contains(x));
        let j = choose|j: int| 0 <= j < b.len() && b[j] == x;
        let a1 = a.drop_last();
        let b1 = b.remove(j);
        assert(a1 =~= a.remove(a.len() - 1));
        to_multiset_remove(a, a.len() - 1);
        to_multiset_remove(b, j);
        lemma_map_values_permutation(a1, b1, f);
        assert(a.map_values(f) =~= a1.map_values(f).push(f(x)));
        assert(b.map_values(f) =~= b1.map_values(f).insert(j, f(x)));
        to_multiset_build(a1.map_values(f), f(x));
        vstd::seq_lib::to_multiset_insert(b1.map_values(f), j, f(x));
    }
}

fn rank_of(b: u8, order: KeyOrder) -> (r: u16)
    ensures
        r == rank(b, order),
{
    let path = match order {
        KeyOrder::Path => true,
        KeyOrder::Bytes => false,
    };
    if path && b == 47u8 {
        0u16
    } else {
        let wide: u16 = b.into();
        wide + 1u16
    }
}

/// Whether `a` and `b` hold the same bytes.
pub fn same_bytes(a: &[u8], b: &[u8]) -> (r: bool)
    ensures
        r == (a@ == b@),
{
    if a.len() != b.len() {
        return false;
    }
    let mut i: usize = 0;
    while i < a.len()
        invariant
            i <= a.len(),
            a.len() == b.len(),
            forall|j: int| 0 <= j < i ==> a@[j] == b@[j],
        decreases a.len() - i,
    {
        if a[i] != b[i] {
            return false;
        }
        i += 1;
    }
    assert(a@ =~= b@);
    true
}

/// Whether `a` comes before `b` or is `b`.
pub fn key_precedes(a: &[u8], b: &[u8], order: KeyOrder) -> (r: bool)
    ensures
        r == lex_le(a@, b@, order),
{
    let mut i: usize = 0;
    assert(a@.skip(0) =~= a@);
    assert(b@.skip(0) =~= b@);
    while i < a.len() && i < b.len()
        invariant
            i <= a.len(),
            i <= b.len(),
            lex_le(a@, b@, order) == lex_le(a@.skip(i as int), b@.skip(i as int), order),
        decreases a.len() - i,
    {
        let x = rank_of(a[i], order);
        let y = rank_of(b[i], order);
        proof {
            assert(a@.skip(i as int)[0] == a@[i as int]);
            assert(b@.skip(i as int)[0] == b@[i as int]);
            assert(a@.skip(i as int).drop_first() =~= a@.skip(i + 1));
            assert(b@.skip(i as int).drop_first() =~= b@.skip(i + 1));
        }
        if x < y {
            return true;
        }
        if x > y {
            return false;
        }
        i += 1;
    }
    i == a.len()
}

/// Whether the record `x` comes before the record `y` or is `y`.
pub fn record_precedes(x: &Record, y: &Record, order: KeyOrder) -> (r: bool)
    ensures
        r == record_le(x@, y@, order),
{
    if same_bytes(x.key.as_slice(), y.key.as_slice()) {
        key_precedes(x.body.as_slice(), y.body.as_slice(), KeyOrder::Bytes)
    } else {
        key_precedes(x.key.as_slice(), y.key.as_slice(), order)
    }
}

spec fn descending(s: Seq<(Seq<u8>, Seq<u8>)>, order: KeyOrder) -> bool {
    forall|i: int, j: int| 0 <= i < j < s.len() ==> record_le(#[trigger] s[j], #[trigger] s[i], order)
}

spec fn all_le(low: Seq<(Seq<u8>, Seq<u8>)>, high: Seq<(Seq<u8>, Seq<u8>)>, order: KeyOrder) -> bool {
    forall|i: int, j: int|
        0 <= i < low.len() && 0 <= j < high.len() ==> record_le(
            #[trigger] low[i],
            #[trigger] high[j],
            order,
        )
}

spec fn ascending(s: Seq<(Seq<u8>, Seq<u8>)>, order: KeyOrder) -> bool {
    forall|i: int, j: int| 0 <= i < j < s.len() ==> record_le(#[trigger] s[i], #[trigger] s[j], order)
}

proof fn lemma_ascending_is_sorted(s: Seq<(Seq<u8>, Seq<u8>)>, order: KeyOrder)
    ensures
        ascending(s, order) == sorted_by(s, record_order(order)),
{
    let r = record_order(order);
    if ascending(s, order) {
        assert forall|i: int, j: int| 0 <= i < j < s.len() implies #[trigger] r(s[i], s[j]) by {
            assert(record_le(s[i], s[j], order));
        }
    }
    if sorted_by(s, r) {
        assert forall|i: int, j: int| 0 <= i < j < s.len() implies record_le(
            #[trigger] s[i],
            #[trigger] s[j],
            order,
        ) by {
            assert(r(s[i], s[j]));
        }
    }
}

proof fn lemma_views_push(s: Seq<Record>, x: Record)
    ensures
        views(s.push(x)) == views(s).push(x@),
{
    assert(views(s.push(x)) =~= views(s).push(x@));
}

proof fn lemma_views_drop_last(s: Seq<Record>)
    requires
        s.len() > 0,
    ensures
        views(s.drop_last()) == views(s).drop_last(),
        views(s).last() == s.last()@,
{
    assert(views(s.drop_last()) =~= views(s).drop_last());
}

proof fn lemma_empty_multiset(s: Seq<(Seq<u8>, Seq<u8>)>)
    requires
        s.len() == 0,
    ensures
        s.to_multiset() == Multiset::<(Seq<u8>, Seq<u8>)>::empty(),
{
    broadcast use vstd::multiset::group_multiset_axioms;

    s.to_multiset_ensures();
    assert forall|a: (Seq<u8>, Seq<u8>)| s.to_multiset().count(a) == 0 by {
        assert(!s.contains(a));
    }
    assert(s.to_multiset() =~= Multiset::<(Seq<u8>, Seq<u8>)>::empty());
}

proof fn lemma_drop_last_multiset(s: Seq<(Seq<u8>, Seq<u8>)>)
    requires
        s.len() > 0,
    ensures
        s.to_multiset() == s.drop_last().to_multiset().insert(s.last()),
{
    assert(s =~= s.drop_last().push(s.last()));
    to_multiset_build(s.drop_last(), s.last());
}

/// Merges two sorted lists into one.
fn merge(left: Vec<Record>, right: Vec<Record>, order: KeyOrder) -> (out: Vec<Record>)
    requires
        ascending(views(left@), order),
        ascending(views(right@), order),
    ensures
        ascending(views(out@), order),
        views(out@).to_multiset() == views(left@).to_multiset().add(views(right@).to_multiset()),
{
    broadcast use vstd::multiset::group_multiset_axioms;

    let mut l = left;
    let mut r = right;
    let mut rev: Vec<Record> = Vec::new();
    let ghost total = views(left@).to_multiset().add(views(right@).to_multiset());
    proof {
        lemma_record_order_total(order);
        lemma_empty_multiset(views(rev@));
        assert(views(l@).to_multiset().add(views(r@).to_multiset()).add(
            views(rev@).to_multiset(),
        ) =~= total);
    }
    while l.len() > 0 || r.len() > 0
        invariant
            total_ordering(record_order(order)),
            ascending(views(l@), order),
            ascending(views(r@), order),
            descending(views(rev@), order),
            all_le(views(l@), views(rev@), order),
            all_le(views(r@), views(rev@), order),
            views(l@).to_multiset().add(views(r@).to_multiset()).add(views(rev@).to_multiset())
                == total,
        decreases l.len() + r.len(),
    {
        let from_left = if r.len() == 0 {
            true
        } else if l.len() == 0 {
            false
        } else {
            !record_precedes(&l[l.len() - 1], &r[r.len() - 1], order)
        };
        let ghost lv = views(l@);
        let ghost rv = views(r@);
        let ghost dv = views(rev@);
        let ghost ro = record_order(order);
        if from_left {
            proof {
                lemma_views_drop_last(l@);
                lemma_drop_last_multiset(lv);
            }
            let x = l.pop().unwrap();
            proof {
                lemma_views_push(rev@, x);
                to_multiset_build(dv, x@);
                assert forall|i: int| 0 <= i < rv.len() implies record_le(
                    #[trigger] rv[i],
                    x@,
                    order,
                ) by {
                    let last = rv[rv.len() - 1];
                    assert(ro(last, x@) || ro(x@, last));
                    assert(record_le(last, x@, order));
                    if i < rv.len() - 1 {
                        assert(record_le(rv[i], last, order));
                        assert(ro(rv[i], last) && ro(last, x@) ==> ro(rv[i], x@));
                    }
                }
                assert forall|i: int| 0 <= i < lv.len() - 1 implies record_le(
                    #[trigger] lv[i],
                    x@,
                    order,
                ) by {
                    assert(record_le(lv[i], lv[lv.len() - 1], order));
                }
            }
            rev.push(x);
            proof {
                let nv = views(rev@);
                assert(nv == dv.push(x@));
                assert forall|i: int, j: int| 0 <= i < j < nv.len() implies record_le(
                    #[trigger] nv[j],
                    #[trigger] nv[i],
                    order,
                ) by {
                    if j == nv.len() - 1 {
                        assert(record_le(lv[lv.len() - 1], dv[i], order));
                    }
                }
                assert forall|i: int, j: int|
                    0 <= i < views(l@).len() && 0 <= j < nv.len() implies record_le(
                    #[trigger] views(l@)[i],
                    #[trigger] nv[j],
                    order,
                ) by {
                    assert(views(l@)[i] == lv[i]);
                    if j < dv.len() {
                        assert(record_le(lv[i], dv[j], order));
                    }
                }
                assert forall|i: int, j: int|
                    0 <= i < views(r@).len() && 0 <= j < nv.len() implies record_le(
                    #[trigger] views(r@)[i],
                    #[trigger] nv[j],
                    order,
                ) by {
                    if j < dv.len() {
                        assert(record_le(rv[i], dv[j], order));
                    }
                }
                assert(views(l@).to_multiset().add(views(r@).to_multiset()).add(
                    nv.to_multiset(),
                ) =~= total);
            }
        } else {
            proof {
                lemma_views_drop_last(r@);
                lemma_drop_last_multiset(rv);
            }
            let x = r.pop().unwrap();
            proof {
                lemma_views_push(rev@, x);
                to_multiset_build(dv, x@);
                assert forall|i: int| 0 <= i < lv.len() implies record_le(
                    #[trigger] lv[i],
                    x@,
                    order,
                ) by {
                    let last = lv[lv.len() - 1];
                    assert(record_le(last, x@, order));
                    if i < lv.len() - 1 {
                        assert(record_le(lv[i], last, order));
                        assert(ro(lv[i], last) && ro(last, x@) ==> ro(lv[i], x@));
                    }
                }
                assert forall|i: int| 0 <= i < rv.len() - 1 implies record_le(
                    #[trigger] rv[i],
                    x@,
                    order,
                ) by {
                    assert(record_le(rv[i], rv[rv.len() - 1], order));
                }
            }
            rev.push(x);
            proof {
                let nv = views(rev@);
                assert(nv == dv.push(x@));
                assert forall|i: int, j: int| 0 <= i < j < nv.len() implies record_le(
                    #[trigger] nv[j],
                    #[trigger] nv[i],
                    order,
                ) by {
                    if j == nv.len() - 1 {
                        assert(record_le(rv[rv.len() - 1], dv[i], order));
                    }
                }
                assert forall|i: int, j: int|
                    0 <= i < views(r@).len() && 0 <= j < nv.len() implies record_le(
                    #[trigger] views(r@)[i],
                    #[trigger] nv[j],
                    order,
                ) by {
                    assert(views(r@)[i] == rv[i]);
                    if j < dv.len() {
                        assert(record_le(rv[i], dv[j], order));
                    }
                }
                assert forall|i: int, j: int|
                    0 <= i < views(l@).len() && 0 <= j < nv.len() implies record_le(
                    #[trigger] views(l@)[i],
                    #[trigger] nv[j],
                    order,
                ) by {
                    if j < dv.len() {
                        assert(record_le(lv[i], dv[j], order));
                    }
                }
                assert(views(l@).to_multiset().add(views(r@).to_multiset()).add(
                    nv.to_multiset(),
                ) =~= total);
            }
        }
    }
    let mut out: Vec<Record> = Vec::new();
    proof {
        assert(views(l@) =~= Seq::empty());
        assert(views(r@) =~= Seq::empty());
        assert(views(out@) =~= Seq::empty());
        lemma_empty_multiset(views(l@));
        lemma_empty_multiset(views(out@));
        assert(views(out@).to_multiset().add(views(rev@).to_multiset()) =~= total);
    }
    while rev.len() > 0
        invariant
            descending(views(rev@), order),
            ascending(views(out@), order),
            all_le(views(out@), views(rev@), order),
            views(out@).to_multiset().add(views(rev@).to_multiset()) == total,
        decreases rev.len(),
    {
        let ghost dv = views(rev@);
        let ghost ov = views(out@);
        proof {
            lemma_views_drop_last(rev@);
            lemma_drop_last_multiset(dv);
        }
        let x = rev.pop().unwrap();
        proof {
            lemma_views_push(out@, x);
            to_multiset_build(ov, x@);
        }
        out.push(x);
        proof {
            let nv = views(out@);
            assert(nv == ov.push(x@));
            assert forall|i: int, j: int| 0 <= i < j < nv.len() implies record_le(
                #[trigger] nv[i],
                #[trigger] nv[j],
                order,
            ) by {
                if j == nv.len() - 1 {
                    assert(record_le(ov[i], dv[dv.len() - 1], order));
                }
            }
            assert forall|i: int, j: int|
                0 <= i < nv.len() && 0 <= j < views(rev@).len() implies record_le(
                #[trigger] nv[i],
                #[trigger] views(rev@)[j],
                order,
            ) by {
                assert(views(rev@)[j] == dv[j]);
                if i < ov.len() {
                    assert(record_le(ov[i], dv[j], order));
                } else {
                    assert(record_le(dv[dv.len() - 1], dv[j], order));
                }
            }
            assert(nv.to_multiset().add(views(rev@).to_multiset()) =~= total);
        }
    }
    proof {
        lemma_empty_multiset(views(rev@));
        assert(views(out@).to_multiset() =~= total);
    }
    out
}

fn merge_sort(records: Vec<Record>, order: KeyOrder) -> (out: Vec<Record>)
    ensures
        ascending(views(out@), order),
        views(out@).to_multiset() == views(records@).to_multiset(),
    decreases records.len(),
{
    if records.len() <= 1 {
        return records;
    }
    let mut left = records;
    let mid = left.len() / 2;
    let right = left.split_off(mid);
    proof {
        assert(records@ =~= left@ + right@);
        assert(views(records@) =~= views(left@) + views(right@));
        vstd::seq_lib::lemma_multiset_commutative(views(left@), views(right@));
    }
    let l = merge_sort(left, order);
    let r = merge_sort(right, order);
    merge(l, r, order)
}

/// Puts the records in the order in which they are written.
pub fn sort_records(records: Vec<Record>, order: KeyOrder) -> (out: Vec<Record>)
    ensures
        views(out@) == sorted_records(views(records@), order),
{
    let out = merge_sort(records, order);
    proof {
        let ro = record_order(order);
        lemma_record_order_total(order);
        lemma_ascending_is_sorted(views(out@), order);
        views(records@).lemma_sort_by_ensures(ro);
        lemma_sorted_unique(views(out@), sorted_records(views(records@), order), ro);
    }
    out
}

} // verus!
