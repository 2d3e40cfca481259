//! The order of Debian version numbers.

use std::cmp::Ordering;
use vstd::prelude::*;
use vstd::utf8::is_ascii_chars;
use crate::text::str_eq;

verus! {

/// How a version stands to another one.
#[derive(Clone, Copy, PartialEq, Eq, Debug, Structural)]
pub enum Relation {
    /// It is the older of the two.
    Older,
    /// Neither is older.
    Same,
    /// It is the newer of the two.
    Newer,
}

/// What `deb_version::compare_versions` returns for two versions: -1 where
/// the left one is the older, 0 where neither is, 1 where the left one is
/// the newer. It compares epoch, upstream version and revision in turn, as
/// the Debian policy lays down.
pub uninterp spec fn version_order(left: Seq<char>, right: Seq<char>) -> i8;

/// Calls `deb_version::compare_versions`.
///
/// The outside function cuts its arguments at positions that it counts in
/// characters, which is only sound for text of one byte per character, so
/// both versions must be ASCII. Its result depends on the two versions
/// alone; it is handed on as -1, 0 or 1.
#[verifier::external_body]
fn compare_ascii_versions(left: &str, right: &str) -> (r: i8)
    requires
        is_ascii_chars(left@),
        is_ascii_chars(right@),
    ensures
        r == version_order(left@, right@),
        -1 <= r <= 1,
{
    match deb_version::compare_versions(left, right) {
        Ordering::Less => -1i8,
        Ordering::Equal => 0i8,
        Ordering::Greater => 1i8,
    }
}

/// The relation that a result of the comparison stands for.
pub open spec fn relation_of(order: i8) -> Relation {
    if order < 0 {
        Relation::Older
    } else if order == 0 {
        Relation::Same
    } else {
        Relation::Newer
    }
}

/// How `left` stands to `right` under Debian version ordering.
///
/// A version is the same as itself. Two different versions are compared
/// where both are ASCII, as every version that the Debian policy allows is;
/// otherwise they are not comparable.
pub open spec fn spec_compare_versions(left: Seq<char>, right: Seq<char>) -> Option<Relation> {
    if left == right {
        Some(Relation::Same)
    } else if is_ascii_chars(left) && is_ascii_chars(right) {
        Some(relation_of(version_order(left, right)))
    } else {
        None
    }
}

/// The relation that a result of the comparison stands for.
pub fn relation_from(order: i8) -> (r: Relation)
    ensures
        r == relation_of(order),
{
    if order < 0 {
        Relation::Older
    } else if order == 0 {
        Relation::Same
    } else {
        Relation::Newer
    }
}

/// How `left` stands to `right` under Debian version ordering.
pub fn compare_versions(left: &str, right: &str) -> (r: Option<Relation>)
    ensures
        r == spec_compare_versions(left@, right@),
{
    if str_eq(left, right) {
        Some(Relation::Same)
    } else if left.is_ascii() && right.is_ascii() {
        Some(relation_from(compare_ascii_versions(left, right)))
    } else {
        None
    }
}

/// Whether a newly seen version takes the place of the one kept so far: it
/// does where the kept one is older. Where neither is older, `last_wins`
/// decides: with it, of two archives with one version the one seen last is
/// kept, without it the one seen first.
pub open spec fn spec_supersedes(kept: Seq<char>, seen: Seq<char>, last_wins: bool) -> bool {
    match spec_compare_versions(kept, seen) {
        Some(Relation::Older) => true,
        Some(Relation::Same) => last_wins,
        _ => false,
    }
}

/// Whether the version `seen` takes the place of the version `kept`.
pub fn supersedes(kept: &str, seen: &str, last_wins: bool) -> (r: bool)
    ensures
        r == spec_supersedes(kept@, seen@, last_wins),
{
    match compare_versions(kept, seen) {
        Some(Relation::Older) => true,
        Some(Relation::Same) => last_wins,
        _ => false,
    }
}

} // verus!
