//! Versions of a source: those of its changelog, and the branch of its
//! checkout.

use vstd::prelude::*;
use crate::text::texts;
use crate::text::{chars_of, field, has_prefix_str, nth_field, nth_word, push_str, starts_with, string_of, word};

verus! {

/// The version that a line of a Debian changelog gives: the second word of
/// a line that does not begin with a space, without its first and its last
/// character (the brackets it stands in). Any other line gives none, which
/// is the empty text.
pub open spec fn changelog_version(line: Seq<char>) -> Seq<char> {
    if starts_with(line, " "@) {
        Seq::empty()
    } else {
        match word(line, 1) {
            Some(w) => if w.len() >= 2 {
                w.subrange(1, w.len() - 1)
            } else {
                Seq::empty()
            },
            None => Seq::empty(),
        }
    }
}

/// The versions that the lines of a changelog give, the newest first.
pub open spec fn changelog_versions(lines: Seq<Seq<char>>) -> Seq<Seq<char>>
    decreases lines.len(),
{
    if lines.len() == 0 {
        Seq::empty()
    } else {
        let before = changelog_versions(lines.drop_last());
        let version = changelog_version(lines.last());
        if version.len() > 0 {
            before.push(version)
        } else {
            before
        }
    }
}

/// The first `retain` of the versions, or all of them where `retain` is 0
/// or there are no more.
pub open spec fn retained(versions: Seq<Seq<char>>, retain: nat) -> Seq<Seq<char>> {
    if retain == 0 || retain >= versions.len() {
        versions
    } else {
        versions.take(retain as int)
    }
}

/// The version that a line of a changelog gives.
pub fn version_of_line(line: &str) -> (r: String)
    ensures
        r@ == changelog_version(line@),
{
    let chars = chars_of(line);
    let v = chars.as_slice();
    if has_prefix_str(v, " ") {
        return String::new();
    }
    match nth_word(v, 1) {
        Some(w) => if w.len() >= 2 {
            let inner = &w[1..w.len() - 1];
            string_of(inner)
        } else {
            String::new()
        },
        None => String::new(),
    }
}

/// The versions of a changelog, the newest first: the first `retain` of
/// them, or all where `retain` is 0.
pub fn changelog_inner(lines: &Vec<String>, retain: usize) -> (r: Vec<String>)
    ensures
        texts(r@) == retained(changelog_versions(texts(lines@)), retain as nat),
{
    let mut all: Vec<String> = Vec::new();
    let mut i: usize = 0;
    proof {
        assert(texts(lines@).take(0) =~= Seq::empty());
        assert(texts(all@) =~= Seq::empty());
    }
    while i < lines.len()
        invariant
            i <= lines.len(),
            texts(all@) == changelog_versions(texts(lines@).take(i as int)),
        decreases lines.len() - i,
    {
        let ghost before = all@;
        proof {
            let next = texts(lines@).take(i + 1);
            assert(next.drop_last() =~= texts(lines@).take(i as int));
            assert(next.last() == lines@[i as int]@);
        }
        let version = version_of_line(lines[i].as_str());
        if version.as_str().unicode_len() > 0 {
            all.push(version);
            assert(texts(all@) =~= texts(before).push(version@));
        }
        i += 1;
    }
    assert(texts(lines@).take(lines@.len() as int) =~= texts(lines@));
    if retain == 0 || retain >= all.len() {
        all
    } else {
        let ghost whole = all@;
        all.truncate(retain);
        assert(texts(all@) =~= texts(whole).take(retain as int));
        all
    }
}

/// The branch that the `HEAD` file of a checkout names: the third part,
/// between `/`, of the second word of the file. Where the file has no such
/// part, the branch is the empty text.
pub open spec fn spec_head_branch(head: Seq<char>) -> Seq<char> {
    match word(head, 1) {
        Some(reference) => match field(reference, '/', 2) {
            Some(branch) => branch,
            None => Seq::empty(),
        },
        None => Seq::empty(),
    }
}

/// The branch that the `HEAD` file of a checkout names.
pub fn head_branch(head: &str) -> (r: String)
    ensures
        r@ == spec_head_branch(head@),
{
    let chars = chars_of(head);
    match nth_word(chars.as_slice(), 1) {
        Some(reference) => match nth_field(reference, '/', 2) {
            Some(branch) => string_of(branch),
            None => String::new(),
        },
        None => String::new(),
    }
}

/// The file of a checkout that holds the commit of `branch`.
pub fn branch_ref(branch: &str) -> (r: String)
    ensures
        r@ == ".git/refs/heads/"@ + branch@,
{
    let mut out: Vec<char> = Vec::new();
    push_str(&mut out, ".git/refs/heads/");
    push_str(&mut out, branch);
    let r = string_of(out.as_slice());
    assert(r@ =~= ".git/refs/heads/"@ + branch@);
    r
}

} // verus!
