//! Character-level helpers shared by the rest of the crate.
//!
//! Text is handled as sequences of `char`: every public function that takes
//! a `&str` states its result over the view of that string.

use vstd::prelude::*;

verus! {

/// The texts of a list of strings.
pub open spec fn texts(strings: Seq<String>) -> Seq<Seq<char>> {
    strings.map_values(|s: String| s@)
}

/// `p` is a leading part of `s`.
pub open spec fn starts_with(s: Seq<char>, p: Seq<char>) -> bool {
    p.is_prefix_of(s)
}

/// `p` is a trailing part of `s`.
pub open spec fn ends_with(s: Seq<char>, p: Seq<char>) -> bool {
    p.is_suffix_of(s)
}

/// `p` stands in `s` at position `i`.
pub open spec fn occurs_at(s: Seq<char>, p: Seq<char>, i: int) -> bool {
    0 <= i && i + p.len() <= s.len() && s.subrange(i, i + p.len()) == p
}

/// `i` is the first position at which `p` stands in `s`.
pub open spec fn is_first_occurrence(s: Seq<char>, p: Seq<char>, i: int) -> bool {
    occurs_at(s, p, i) && forall|j: int| 0 <= j < i ==> !occurs_at(s, p, j)
}

/// The first position at which `p` stands in `s`, if there is one.
pub open spec fn find(s: Seq<char>, p: Seq<char>) -> Option<int> {
    if exists|i: int| occurs_at(s, p, i) {
        Some(choose|i: int| is_first_occurrence(s, p, i))
    } else {
        None
    }
}

/// What follows the last `c` in `s`; all of `s` where it holds no `c`.
pub open spec fn after_last(s: Seq<char>, c: char) -> Seq<char> {
    match s.index_of_last(c) {
        Some(i) => s.skip(i + 1),
        None => s,
    }
}

/// The character that stands for a digit.
pub open spec fn digit(d: nat) -> char {
    if d == 0 {
        '0'
    } else if d == 1 {
        '1'
    } else if d == 2 {
        '2'
    } else if d == 3 {
        '3'
    } else if d == 4 {
        '4'
    } else if d == 5 {
        '5'
    } else if d == 6 {
        '6'
    } else if d == 7 {
        '7'
    } else if d == 8 {
        '8'
    } else {
        '9'
    }
}

/// A number written in decimal, without leading zeros.
pub open spec fn decimal(n: nat) -> Seq<char>
    decreases n,
{
    if n < 10 {
        seq![digit(n)]
    } else {
        decimal(n / 10).push(digit(n % 10))
    }
}

/// The first line of a text, as `str::lines` gives it: what stands before
/// the first line feed, without a carriage return that closes it. An empty
/// text has no line.
pub open spec fn first_line(s: Seq<char>) -> Option<Seq<char>> {
    if s.len() == 0 {
        None
    } else {
        match s.index_of_first('\n') {
            Some(p) => {
                let l = s.take(p);
                Some(
                    if l.len() > 0 && l.last() == '\r' {
                        l.drop_last()
                    } else {
                        l
                    },
                )
            },
            None => Some(s),
        }
    }
}

/// Whether a character is white space, as `char::is_whitespace` has it:
/// the characters with the Unicode property `White_Space`.
pub open spec fn is_whitespace(c: char) -> bool {
    let n = c as u32;
    (9 <= n <= 13) || n == 32 || n == 0x85 || n == 0xA0 || n == 0x1680 || (0x2000 <= n <= 0x200A)
        || n == 0x2028 || n == 0x2029 || n == 0x202F || n == 0x205F || n == 0x3000
}

/// The number of white-space characters that `s` begins with.
pub open spec fn leading_spaces(s: Seq<char>) -> nat
    decreases s.len(),
{
    if s.len() > 0 && is_whitespace(s[0]) {
        1 + leading_spaces(s.drop_first())
    } else {
        0
    }
}

/// The number of characters other than white space that `s` begins with.
pub open spec fn leading_word(s: Seq<char>) -> nat
    decreases s.len(),
{
    if s.len() > 0 && !is_whitespace(s[0]) {
        1 + leading_word(s.drop_first())
    } else {
        0
    }
}

/// The word of `s` at position `n`, counted from 0, where words are what
/// white space separates, as `str::split_whitespace` has it.
pub open spec fn word(s: Seq<char>, n: nat) -> Option<Seq<char>>
    decreases n,
{
    let a = s.skip(leading_spaces(s) as int);
    if a.len() == 0 {
        None
    } else if n == 0 {
        Some(a.take(leading_word(a) as int))
    } else {
        word(a.skip(leading_word(a) as int), (n - 1) as nat)
    }
}

/// The number of white-space characters that `s` ends with.
pub open spec fn trailing_spaces(s: Seq<char>) -> nat
    decreases s.len(),
{
    if s.len() > 0 && is_whitespace(s.last()) {
        1 + trailing_spaces(s.drop_last())
    } else {
        0
    }
}

/// `s` without the white space that it ends with, as `str::trim_end` has
/// it.
pub open spec fn trimmed_end(s: Seq<char>) -> Seq<char> {
    s.take(s.len() - trailing_spaces(s))
}

/// `s` without the white space that it begins and ends with, as
/// `str::trim` has it.
pub open spec fn trimmed(s: Seq<char>) -> Seq<char> {
    trimmed_end(s.skip(leading_spaces(s) as int))
}

/// The line of `s` at position `n`, counted from 0, as `str::lines` has
/// it.
pub open spec fn line(s: Seq<char>, n: nat) -> Option<Seq<char>>
    decreases n,
{
    if n == 0 {
        first_line(s)
    } else {
        match s.index_of_first('\n') {
            Some(p) => line(s.skip(p + 1), (n - 1) as nat),
            None => None,
        }
    }
}

/// The part of `s` at position `n`, counted from 0, where parts are what
/// `sep` separates, as `str::split` has it.
pub open spec fn field(s: Seq<char>, sep: char, n: nat) -> Option<Seq<char>>
    decreases n,
{
    match s.index_of_first(sep) {
        None => if n == 0 {
            Some(s)
        } else {
            None
        },
        Some(p) => if n == 0 {
            Some(s.take(p))
        } else {
            field(s.skip(p + 1), sep, (n - 1) as nat)
        },
    }
}

/// Any two first occurrences are the same position.
pub proof fn lemma_first_occurrence_unique(s: Seq<char>, p: Seq<char>, i: int, j: int)
    requires
        is_first_occurrence(s, p, i),
        is_first_occurrence(s, p, j),
    ensures
        i == j,
{
}

/// A first occurrence is what `find` names.
pub proof fn lemma_find_is(s: Seq<char>, p: Seq<char>, i: int)
    requires
        is_first_occurrence(s, p, i),
    ensures
        find(s, p) == Some(i),
{
    let k = choose|k: int| is_first_occurrence(s, p, k);
    lemma_first_occurrence_unique(s, p, i, k);
}

/// Where nothing occurs, `find` names nothing.
pub proof fn lemma_find_none(s: Seq<char>, p: Seq<char>)
    requires
        forall|j: int| !occurs_at(s, p, j),
    ensures
        find(s, p) is None,
{
}

/// Appends one character to a string, as `String::push` of the standard
/// library does: the text afterwards is the text before followed by `c`.
#[verifier::external_body]
pub(crate) fn push_char(s: &mut String, c: char)
    ensures
        final(s)@ == old(s)@.push(c),
{
    s.push(c);
}

/// Whether two string slices are the same text.
pub fn str_eq(a: &str, b: &str) -> (r: bool)
    ensures
        r == (a@ == b@),
{
    let chars = chars_of(a);
    is_text(chars.as_slice(), b)
}

/// The characters of a string, in order.
pub fn chars_of(s: &str) -> (v: Vec<char>)
    ensures
        v@ == s@,
{
    let mut v: Vec<char> = Vec::new();
    for c in it: s.chars()
        invariant
            it.seq() == s@,
            v@ == s@.take(it.index() as int),
    {
        v.push(c);
        assert(s@.take(it.index() + 1) =~= s@.take(it.index() as int).push(c));
    }
    assert(s@.take(s@.len() as int) =~= s@);
    v
}

/// The string made of the given characters, in order.
pub fn string_of(v: &[char]) -> (s: String)
    ensures
        s@ == v@,
{
    let mut s = String::new();
    let mut i: usize = 0;
    while i < v.len()
        invariant
            i <= v.len(),
            s@ == v@.take(i as int),
        decreases v.len() - i,
    {
        push_char(&mut s, v[i]);
        assert(v@.take(i + 1) =~= v@.take(i as int).push(v@[i as int]));
        i += 1;
    }
    assert(v@.take(v@.len() as int) =~= v@);
    s
}

/// Appends the characters of `src` to `dst`.
pub fn push_all(dst: &mut Vec<char>, src: &[char])
    ensures
        final(dst)@ == old(dst)@ + src@,
{
    let mut i: usize = 0;
    while i < src.len()
        invariant
            i <= src.len(),
            dst@ == old(dst)@ + src@.take(i as int),
        decreases src.len() - i,
    {
        dst.push(src[i]);
        assert(src@.take(i + 1) =~= src@.take(i as int).push(src@[i as int]));
        i += 1;
    }
    assert(src@.take(src@.len() as int) =~= src@);
}

/// Appends the characters of the string `src` to `dst`.
pub fn push_str(dst: &mut Vec<char>, src: &str)
    ensures
        final(dst)@ == old(dst)@ + src@,
{
    let chars = chars_of(src);
    push_all(dst, chars.as_slice());
}

/// The position of the first `c` in `v`.
pub fn find_char(v: &[char], c: char) -> (r: Option<usize>)
    ensures
        match r {
            Some(i) => i < v@.len() && v@.index_of_first(c) == Some(i as int),
            None => v@.index_of_first(c) is None,
        },
{
    let mut i: usize = 0;
    while i < v.len()
        invariant
            i <= v.len(),
            forall|j: int| 0 <= j < i ==> v@[j] != c,
        decreases v.len() - i,
    {
        if v[i] == c {
            proof {
                v@.index_of_first_ensures(c);
                assert(v@.contains(c));
                let k = v@.index_of_first(c)->0;
                assert(k == i) by {
                    if k < i {
                        assert(v@[k] != c);
                    }
                }
            }
            return Some(i);
        }
        i += 1;
    }
    proof {
        v@.index_of_first_ensures(c);
    }
    None
}

/// The position of the last `c` in `v`.
pub fn rfind_char(v: &[char], c: char) -> (r: Option<usize>)
    ensures
        match r {
            Some(i) => i < v@.len() && v@.index_of_last(c) == Some(i as int),
            None => v@.index_of_last(c) is None,
        },
{
    let mut i: usize = v.len();
    while i > 0
        invariant
            i <= v.len(),
            forall|j: int| i <= j < v.len() ==> v@[j] != c,
        decreases i,
    {
        i -= 1;
        if v[i] == c {
            proof {
                v@.index_of_last_ensures(c);
                assert(v@.contains(c));
                let k = v@.index_of_last(c)->0;
                assert(k == i) by {
                    if k > i {
                        assert(v@[k] != c);
                    }
                }
            }
            return Some(i);
        }
    }
    proof {
        v@.index_of_last_ensures(c);
    }
    None
}

/// Whether `p` stands in `v` at position `at`.
pub fn matches_at(v: &[char], p: &[char], at: usize) -> (r: bool)
    ensures
        r == occurs_at(v@, p@, at as int),
{
    if p.len() > v.len() || at > v.len() - p.len() {
        return false;
    }
    let mut k: usize = 0;
    while k < p.len()
        invariant
            k <= p.len(),
            at + p.len() <= v.len(),
            forall|j: int| 0 <= j < k ==> v@[at + j] == p@[j],
        decreases p.len() - k,
    {
        if v[at + k] != p[k] {
            assert(v@.subrange(at as int, at + p@.len())[k as int] != p@[k as int]);
            return false;
        }
        k += 1;
    }
    assert(v@.subrange(at as int, at + p@.len()) =~= p@);
    true
}

/// Whether `v` begins with `p`.
pub fn has_prefix(v: &[char], p: &[char]) -> (r: bool)
    ensures
        r == starts_with(v@, p@),
{
    matches_at(v, p, 0)
}

/// Whether `v` ends with `p`.
pub fn has_suffix(v: &[char], p: &[char]) -> (r: bool)
    ensures
        r == ends_with(v@, p@),
{
    if p.len() > v.len() {
        return false;
    }
    matches_at(v, p, v.len() - p.len())
}

/// Whether `v` begins with the text `p`.
pub fn has_prefix_str(v: &[char], p: &str) -> (r: bool)
    ensures
        r == starts_with(v@, p@),
{
    let pc = chars_of(p);
    has_prefix(v, pc.as_slice())
}

/// Whether `v` ends with the text `p`.
pub fn has_suffix_str(v: &[char], p: &str) -> (r: bool)
    ensures
        r == ends_with(v@, p@),
{
    let pc = chars_of(p);
    has_suffix(v, pc.as_slice())
}

/// Whether `v` is exactly the text `p`.
pub fn is_text(v: &[char], p: &str) -> (r: bool)
    ensures
        r == (v@ == p@),
{
    let pc = chars_of(p);
    if pc.len() != v.len() {
        return false;
    }
    let r = matches_at(v, pc.as_slice(), 0);
    proof {
        assert(v@.subrange(0, v@.len() as int) =~= v@);
    }
    r
}

/// The first position at which `p` stands in `v`.
pub fn find_sub(v: &[char], p: &[char]) -> (r: Option<usize>)
    ensures
        match r {
            Some(i) => i + p@.len() <= v@.len() && find(v@, p@) == Some(i as int),
            None => find(v@, p@) is None,
        },
{
    if p.len() > v.len() {
        proof {
            lemma_find_none(v@, p@);
        }
        return None;
    }
    if p.len() == 0 {
        proof {
            assert(v@.subrange(0, 0) =~= p@);
            lemma_find_is(v@, p@, 0);
        }
        return Some(0);
    }
    let last: usize = v.len() - p.len();
    let mut i: usize = 0;
    while i <= last
        invariant
            i <= last + 1,
            p.len() > 0,
            last == v.len() - p.len(),
            forall|j: int| 0 <= j < i ==> !occurs_at(v@, p@, j),
        decreases last + 1 - i,
    {
        if matches_at(v, p, i) {
            proof {
                lemma_find_is(v@, p@, i as int);
            }
            return Some(i);
        }
        i += 1;
    }
    proof {
        lemma_find_none(v@, p@);
    }
    None
}

/// The first position at which the text `p` stands in `v`.
pub fn find_str(v: &[char], p: &str) -> (r: Option<usize>)
    ensures
        match r {
            Some(i) => i + p@.len() <= v@.len() && find(v@, p@) == Some(i as int),
            None => find(v@, p@) is None,
        },
{
    let pc = chars_of(p);
    find_sub(v, pc.as_slice())
}

fn digit_of(d: u64) -> (c: char)
    requires
        d < 10,
    ensures
        c == digit(d as nat),
{
    if d == 0 {
        '0'
    } else if d == 1 {
        '1'
    } else if d == 2 {
        '2'
    } else if d == 3 {
        '3'
    } else if d == 4 {
        '4'
    } else if d == 5 {
        '5'
    } else if d == 6 {
        '6'
    } else if d == 7 {
        '7'
    } else if d == 8 {
        '8'
    } else {
        '9'
    }
}

/// Appends `n`, written in decimal, to `dst`.
pub fn push_decimal(dst: &mut Vec<char>, n: u64)
    ensures
        final(dst)@ == old(dst)@ + decimal(n as nat),
    decreases n,
{
    if n >= 10 {
        push_decimal(dst, n / 10);
    }
    dst.push(digit_of(n % 10));
    assert(dst@ =~= old(dst)@ + decimal(n as nat));
}

/// The first line of `v`.
pub fn first_line_of(v: &[char]) -> (r: Option<&[char]>)
    ensures
        match r {
            Some(l) => first_line(v@) == Some(l@),
            None => first_line(v@) is None,
        },
{
    if v.len() == 0 {
        return None;
    }
    match find_char(v, '\n') {
        Some(p) => {
            let l = &v[0..p];
            assert(l@ =~= v@.take(p as int));
            if p > 0 && l[p - 1] == '\r' {
                let t = &l[0..p - 1];
                assert(t@ =~= l@.drop_last());
                Some(t)
            } else {
                Some(l)
            }
        },
        None => Some(v),
    }
}

/// Whether `c` is white space.
pub fn is_space(c: char) -> (r: bool)
    ensures
        r == is_whitespace(c),
{
    let n = c as u32;
    (9 <= n && n <= 13) || n == 32 || n == 0x85 || n == 0xA0 || n == 0x1680 || (0x2000 <= n && n
        <= 0x200A) || n == 0x2028 || n == 0x2029 || n == 0x202F || n == 0x205F || n == 0x3000
}

/// The number of white-space characters that `v` begins with.
pub fn count_spaces(v: &[char]) -> (n: usize)
    ensures
        n == leading_spaces(v@),
        n <= v@.len(),
{
    let mut i: usize = 0;
    assert(v@.skip(0) =~= v@);
    while i < v.len() && is_space(v[i])
        invariant
            i <= v.len(),
            leading_spaces(v@) == i + leading_spaces(v@.skip(i as int)),
        decreases v.len() - i,
    {
        assert(v@.skip(i as int).drop_first() =~= v@.skip(i + 1));
        i += 1;
    }
    i
}

/// The number of characters other than white space that `v` begins with.
pub fn count_word(v: &[char]) -> (n: usize)
    ensures
        n == leading_word(v@),
        n <= v@.len(),
{
    let mut i: usize = 0;
    assert(v@.skip(0) =~= v@);
    while i < v.len() && !is_space(v[i])
        invariant
            i <= v.len(),
            leading_word(v@) == i + leading_word(v@.skip(i as int)),
        decreases v.len() - i,
    {
        assert(v@.skip(i as int).drop_first() =~= v@.skip(i + 1));
        i += 1;
    }
    i
}

/// The word of `v` at position `n`.
pub fn nth_word(v: &[char], n: usize) -> (r: Option<&[char]>)
    ensures
        match r {
            Some(w) => word(v@, n as nat) == Some(w@),
            None => word(v@, n as nat) is None,
        },
    decreases n,
{
    let spaces = count_spaces(v);
    let len = v.len();
    let a = &v[spaces..len];
    assert(a@ =~= v@.skip(spaces as int));
    if a.len() == 0 {
        return None;
    }
    let length = count_word(a);
    if n == 0 {
        let w = &a[0..length];
        assert(w@ =~= a@.take(length as int));
        Some(w)
    } else {
        let alen = a.len();
        let rest = &a[length..alen];
        assert(rest@ =~= a@.skip(length as int));
        nth_word(rest, n - 1)
    }
}

/// The part of `v` at position `n`, where parts are what `sep` separates.
pub fn nth_field(v: &[char], sep: char, n: usize) -> (r: Option<&[char]>)
    ensures
        match r {
            Some(w) => field(v@, sep, n as nat) == Some(w@),
            None => field(v@, sep, n as nat) is None,
        },
    decreases n,
{
    match find_char(v, sep) {
        None => if n == 0 {
            Some(v)
        } else {
            None
        },
        Some(p) => if n == 0 {
            let w = &v[0..p];
            assert(w@ =~= v@.take(p as int));
            Some(w)
        } else {
            let len = v.len();
            let rest = &v[p + 1..len];
            assert(rest@ =~= v@.skip(p + 1));
            nth_field(rest, sep, n - 1)
        },
    }
}

/// The number of white-space characters that `v` ends with.
pub fn count_trailing_spaces(v: &[char]) -> (n: usize)
    ensures
        n == trailing_spaces(v@),
        n <= v@.len(),
{
    let len = v.len();
    let mut i: usize = 0;
    assert(v@.take(len as int) =~= v@);
    while i < len && is_space(v[len - 1 - i])
        invariant
            i <= len,
            len == v@.len(),
            trailing_spaces(v@) == i + trailing_spaces(v@.take(len - i)),
        decreases len - i,
    {
        assert(v@.take(len - i).drop_last() =~= v@.take(len - i - 1));
        assert(v@.take(len - i).last() == v@[len - 1 - i]);
        i += 1;
    }
    proof {
        if i < len {
            assert(v@.take(len - i).last() == v@[len - 1 - i]);
        }
    }
    i
}

/// `v` without the white space that it ends with.
pub fn trim_end(v: &[char]) -> (r: &[char])
    ensures
        r@ == trimmed_end(v@),
{
    let n = count_trailing_spaces(v);
    let r = &v[0..v.len() - n];
    assert(r@ =~= v@.take(v@.len() - n));
    r
}

/// `v` without the white space that it begins and ends with.
pub fn trim(v: &[char]) -> (r: &[char])
    ensures
        r@ == trimmed(v@),
{
    let n = count_spaces(v);
    let len = v.len();
    let rest = &v[n..len];
    assert(rest@ =~= v@.skip(n as int));
    trim_end(rest)
}

/// The line of `v` at position `n`.
pub fn nth_line(v: &[char], n: usize) -> (r: Option<&[char]>)
    ensures
        match r {
            Some(l) => line(v@, n as nat) == Some(l@),
            None => line(v@, n as nat) is None,
        },
    decreases n,
{
    if n == 0 {
        first_line_of(v)
    } else {
        match find_char(v, '\n') {
            Some(p) => {
                let len = v.len();
                let rest = &v[p + 1..len];
                assert(rest@ =~= v@.skip(p + 1));
                nth_line(rest, n - 1)
            },
            None => None,
        }
    }
}

/// The text made of `a` followed by `b`.
pub fn joined(a: &str, b: &str) -> (r: String)
    ensures
        r@ == a@ + b@,
{
    let mut out: Vec<char> = Vec::new();
    push_str(&mut out, a);
    push_str(&mut out, b);
    let r = string_of(out.as_slice());
    assert(r@ =~= a@ + b@);
    r
}

} // verus!
