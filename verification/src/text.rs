//! Character-sequence utilities shared by the parsers: conversion between
//! strings and character vectors, scanning, trimming and line splitting.

use vstd::prelude::*;
use vstd::string::*;

verus! {

/// `String::push` appends exactly one character to the end of the string.
pub assume_specification[ String::push ](s: &mut String, c: char)
    ensures
        final(s)@ == old(s)@.push(c),
;

/// The characters of `s`, in order.
pub fn to_chars(s: &str) -> (v: Vec<char>)
    ensures
        v@ == s@,
{
    broadcast use group_string_axioms;

    let mut v: Vec<char> = Vec::new();
    for c in it: s.chars()
        invariant
            it.seq() == s@,
            v@ == it.seq().take(it.index() as int),
    {
        v.push(c);
    }
    v
}

/// Appends `v[a..b]` to `out`.
pub fn push_range(out: &mut String, v: &Vec<char>, a: usize, b: usize)
    requires
        a <= b <= v.len(),
    ensures
        final(out)@ == old(out)@ + v@.subrange(a as int, b as int),
{
    let mut i: usize = a;
    while i < b
        invariant
            a <= i <= b <= v.len(),
            out@ == old(out)@ + v@.subrange(a as int, i as int),
        decreases b - i,
    {
        out.push(v[i]);
        i += 1;
        assert(out@ =~= old(out)@ + v@.subrange(a as int, i as int));
    }
}

/// The string made of `v[a..b]`.
pub fn string_from_range(v: &Vec<char>, a: usize, b: usize) -> (s: String)
    requires
        a <= b <= v.len(),
    ensures
        s@ == v@.subrange(a as int, b as int),
{
    let mut s = String::new();
    push_range(&mut s, v, a, b);
    assert(s@ =~= v@.subrange(a as int, b as int));
    s
}

/// The string made of all of `v`.
pub fn from_chars(v: &Vec<char>) -> (s: String)
    ensures
        s@ == v@,
{
    let s = string_from_range(v, 0, v.len());
    assert(v@.subrange(0, v.len() as int) =~= v@);
    s
}

/// `n` copies of `c`.
pub open spec fn repeated(c: char, n: nat) -> Seq<char> {
    Seq::new(n, |i: int| c)
}

/// Appends `n` copies of `c` to `out`.
pub fn push_repeated(out: &mut String, c: char, n: usize)
    ensures
        final(out)@ == old(out)@ + repeated(c, n as nat),
{
    let mut i: usize = 0;
    while i < n
        invariant
            i <= n,
            out@ == old(out)@ + repeated(c, i as nat),
        decreases n - i,
    {
        out.push(c);
        i += 1;
        assert(out@ =~= old(out)@ + repeated(c, i as nat));
    }
}

/// Number of bytes that `c` takes in UTF-8.
pub open spec fn utf8_width(c: char) -> nat {
    if (c as u32) < 0x80 {
        1
    } else if (c as u32) < 0x800 {
        2
    } else if (c as u32) < 0x10000 {
        3
    } else {
        4
    }
}

/// Number of bytes that `s` takes in UTF-8.
pub open spec fn utf8_bytes(s: Seq<char>) -> nat
    decreases s.len(),
{
    if s.len() == 0 {
        0
    } else {
        utf8_bytes(s.drop_last()) + utf8_width(s.last())
    }
}

/// Number of bytes that `c` takes in UTF-8.
pub fn char_width(c: char) -> (n: usize)
    ensures
        n == utf8_width(c),
{
    let u: u32 = c as u32;
    if u < 0x80 {
        1
    } else if u < 0x800 {
        2
    } else if u < 0x10000 {
        3
    } else {
        4
    }
}

/// The lesser of two numbers.
pub open spec fn min_nat(a: nat, b: nat) -> nat {
    if a <= b {
        a
    } else {
        b
    }
}

/// A longer prefix takes no fewer bytes.
pub proof fn lemma_utf8_bytes_monotone(s: Seq<char>, i: int, j: int)
    requires
        0 <= i <= j <= s.len(),
    ensures
        utf8_bytes(s.subrange(0, i)) <= utf8_bytes(s.subrange(0, j)),
    decreases j - i,
{
    if i < j {
        lemma_utf8_bytes_monotone(s, i, j - 1);
        assert(s.subrange(0, j).drop_last() =~= s.subrange(0, j - 1));
    }
}

/// The UTF-8 byte length of `v[a..b]`, counted no further than `cap`.
pub fn byte_len_capped(v: &Vec<char>, a: usize, b: usize, cap: usize) -> (n: usize)
    requires
        a <= b <= v.len(),
        cap <= usize::MAX - 4,
    ensures
        n == min_nat(utf8_bytes(v@.subrange(a as int, b as int)), cap as nat),
{
    let ghost whole = v@.subrange(a as int, b as int);
    let mut n: usize = 0;
    let mut i: usize = a;
    while i < b && n < cap
        invariant
            a <= i <= b <= v.len(),
            cap <= usize::MAX - 4,
            whole == v@.subrange(a as int, b as int),
            n == utf8_bytes(whole.subrange(0, i - a)),
            n <= cap + 3,
        decreases b - i,
    {
        let w = char_width(v[i]);
        proof {
            assert(whole.subrange(0, i + 1 - a).drop_last() =~= whole.subrange(0, i - a));
            assert(whole.subrange(0, i + 1 - a).last() == v@[i as int]);
        }
        n = n + w;
        i += 1;
    }
    proof {
        lemma_utf8_bytes_monotone(whole, i - a, b - a);
        assert(whole.subrange(0, b - a) =~= whole);
    }
    if n > cap {
        cap
    } else {
        n
    }
}

/// The first index at or after `from` where `s` holds `c`, or `s.len()` where
/// there is none.
pub open spec fn find_char_from(s: Seq<char>, from: int, c: char) -> int
    decreases s.len() - from,
{
    if from >= s.len() {
        s.len() as int
    } else if s[from] == c {
        from
    } else {
        find_char_from(s, from + 1, c)
    }
}

/// What `find_char_from` finds lies between `from` and the end, is `c`
/// where it lies before the end, and has no `c` before it.
pub proof fn lemma_find_char_from(s: Seq<char>, from: int, c: char)
    requires
        0 <= from <= s.len(),
    ensures
        from <= find_char_from(s, from, c) <= s.len(),
        find_char_from(s, from, c) < s.len() ==> s[find_char_from(s, from, c)] == c,
        forall|k: int| from <= k < find_char_from(s, from, c) ==> s[k] != c,
    decreases s.len() - from,
{
    if from < s.len() && s[from] != c {
        lemma_find_char_from(s, from + 1, c);
    }
}

/// Finds the first `c` at or after `from`.
pub fn find_char(v: &Vec<char>, from: usize, c: char) -> (r: usize)
    requires
        from <= v.len(),
    ensures
        r == find_char_from(v@, from as int, c),
        from <= r <= v.len(),
{
    let mut i: usize = from;
    while i < v.len() && v[i] != c
        invariant
            from <= i <= v.len(),
            find_char_from(v@, from as int, c) == find_char_from(v@, i as int, c),
        decreases v.len() - i,
    {
        i += 1;
    }
    i
}

/// The first index at or after `from` where `s` holds `c` twice in a row, or
/// `s.len()` where there is none.
pub open spec fn find_pair_from(s: Seq<char>, from: int, c: char) -> int
    decreases s.len() - from,
{
    if from >= s.len() {
        s.len() as int
    } else if s[from] == c && from + 1 < s.len() && s[from + 1] == c {
        from
    } else {
        find_pair_from(s, from + 1, c)
    }
}

/// What `find_pair_from` finds lies between `from` and the end, and a pair
/// that it finds lies within the text.
pub proof fn lemma_find_pair_from(s: Seq<char>, from: int, c: char)
    requires
        0 <= from <= s.len(),
    ensures
        from <= find_pair_from(s, from, c) <= s.len(),
        find_pair_from(s, from, c) < s.len() ==> find_pair_from(s, from, c) + 2 <= s.len(),
    decreases s.len() - from,
{
    if from < s.len() && !(s[from] == c && from + 1 < s.len() && s[from + 1] == c) {
        lemma_find_pair_from(s, from + 1, c);
    }
}

/// Finds the first doubled `c` at or after `from`.
pub fn find_pair(v: &Vec<char>, from: usize, c: char) -> (r: usize)
    requires
        from <= v.len(),
    ensures
        r == find_pair_from(v@, from as int, c),
        from <= r <= v.len(),
        r < v.len() ==> r + 2 <= v.len(),
{
    let mut i: usize = from;
    while i < v.len() && !(v[i] == c && i + 1 < v.len() && v[i + 1] == c)
        invariant
            from <= i <= v.len(),
            find_pair_from(v@, from as int, c) == find_pair_from(v@, i as int, c),
        decreases v.len() - i,
    {
        i += 1;
    }
    i
}

/// `s` holds `p` at index `i`.
pub open spec fn has_prefix_at(s: Seq<char>, i: int, p: Seq<char>) -> bool {
    0 <= i && i + p.len() <= s.len() && s.subrange(i, i + p.len()) == p
}

/// `s` begins with `p`.
pub open spec fn has_prefix(s: Seq<char>, p: Seq<char>) -> bool {
    has_prefix_at(s, 0, p)
}

/// Whether `v` holds `p` at index `i`.
pub fn starts_with_at(v: &Vec<char>, i: usize, p: &Vec<char>) -> (b: bool)
    requires
        i <= v.len(),
    ensures
        b == has_prefix_at(v@, i as int, p@),
{
    if p.len() > v.len() - i {
        return false;
    }
    let mut k: usize = 0;
    while k < p.len()
        invariant
            k <= p.len(),
            i + p.len() <= v.len(),
            v@.subrange(i as int, i + k) == p@.subrange(0, k as int),
        decreases p.len() - k,
    {
        if v[i + k] != p[k] {
            proof {
                assert(v@.subrange(i as int, i + p.len())[k as int] == v@[i + k]);
            }
            return false;
        }
        k += 1;
        assert(v@.subrange(i as int, i + k) =~= p@.subrange(0, k as int)) by {
            assert forall|j: int| 0 <= j < k implies v@.subrange(i as int, i + k)[j] == p@[j] by {
                if j < k - 1 {
                    assert(v@.subrange(i as int, i + k - 1)[j] == p@.subrange(0, k - 1)[j]);
                }
            }
        }
    }
    assert(p@.subrange(0, p.len() as int) =~= p@);
    true
}

/// Whether the text `v` begins, at `i`, with the literal `p`.
pub fn starts_with_str_at(v: &Vec<char>, i: usize, p: &str) -> (b: bool)
    requires
        i <= v.len(),
    ensures
        b == has_prefix_at(v@, i as int, p@),
{
    let pc = to_chars(p);
    starts_with_at(v, i, &pc)
}

/// The first index at or after `from` where `s` holds `p`, if there is one.
pub open spec fn find_seq_from(s: Seq<char>, from: int, p: Seq<char>) -> Option<int>
    decreases s.len() + 1 - from,
{
    if from > s.len() {
        None
    } else if has_prefix_at(s, from, p) {
        Some(from)
    } else {
        find_seq_from(s, from + 1, p)
    }
}

/// What `find_seq_from` finds is the first place at or after `from` where
/// `s` holds `p`; it finds none only where there is none.
pub proof fn lemma_find_seq_from(s: Seq<char>, from: int, p: Seq<char>)
    requires
        0 <= from <= s.len(),
    ensures
        match find_seq_from(s, from, p) {
            Some(i) => from <= i && has_prefix_at(s, i, p) && forall|k: int|
                from <= k < i ==> !has_prefix_at(s, k, p),
            None => forall|k: int| from <= k ==> !has_prefix_at(s, k, p),
        },
    decreases s.len() - from,
{
    if !has_prefix_at(s, from, p) {
        if from < s.len() {
            lemma_find_seq_from(s, from + 1, p);
        }
    }
}

/// `s` holds `p` somewhere.
pub open spec fn contains_seq(s: Seq<char>, p: Seq<char>) -> bool {
    exists|i: int| has_prefix_at(s, i, p)
}

/// Finds the first place at or after `from` where `v` holds `p`.
pub fn find_seq(v: &Vec<char>, from: usize, p: &Vec<char>) -> (r: Option<usize>)
    requires
        from <= v.len(),
    ensures
        match r {
            Some(i) => find_seq_from(v@, from as int, p@) == Some(i as int) && from <= i && i
                + p.len() <= v.len(),
            None => find_seq_from(v@, from as int, p@).is_none(),
        },
{
    let mut i: usize = from;
    while i <= v.len()
        invariant
            from <= i <= v.len() + 1,
            find_seq_from(v@, from as int, p@) == find_seq_from(v@, i as int, p@),
        decreases v.len() + 1 - i,
    {
        if starts_with_at(v, i, p) {
            return Some(i);
        }
        if i == v.len() {
            assert(find_seq_from(v@, i + 1, p@).is_none());
            return None;
        }
        i += 1;
    }
    None
}

/// Whether `hay` holds `needle` somewhere.
pub fn contains(hay: &Vec<char>, needle: &Vec<char>) -> (b: bool)
    ensures
        b == contains_seq(hay@, needle@),
{
    let r = find_seq(hay, 0, needle);
    proof {
        lemma_find_seq_from(hay@, 0, needle@);
        if r.is_some() {
            assert(has_prefix_at(hay@, r.unwrap() as int, needle@));
        }
    }
    r.is_some()
}

/// The characters with the Unicode property White_Space.
pub open spec fn is_whitespace(c: char) -> bool {
    let u = c as u32;
    (0x09 <= u <= 0x0D) || u == 0x20 || u == 0x85 || u == 0xA0 || u == 0x1680 || (0x2000 <= u
        <= 0x200A) || u == 0x2028 || u == 0x2029 || u == 0x202F || u == 0x205F || u == 0x3000
}

/// Whether `c` has the Unicode property White_Space.
pub fn char_is_whitespace(c: char) -> (b: bool)
    ensures
        b == is_whitespace(c),
{
    let u: u32 = c as u32;
    (0x09 <= u && u <= 0x0D) || u == 0x20 || u == 0x85 || u == 0xA0 || u == 0x1680 || (0x2000
        <= u && u <= 0x200A) || u == 0x2028 || u == 0x2029 || u == 0x202F || u == 0x205F || u
        == 0x3000
}

/// The first index in `from..to` where `s` holds no whitespace, or `to`.
pub open spec fn skip_whitespace(s: Seq<char>, from: int, to: int) -> int
    decreases to - from,
{
    if from >= to {
        to
    } else if !is_whitespace(s[from]) {
        from
    } else {
        skip_whitespace(s, from + 1, to)
    }
}

/// The least end `e` in `from..=to` such that `s[e..to]` is all whitespace.
pub open spec fn skip_whitespace_back(s: Seq<char>, from: int, to: int) -> int
    decreases to - from,
{
    if to <= from {
        from
    } else if !is_whitespace(s[to - 1]) {
        to
    } else {
        skip_whitespace_back(s, from, to - 1)
    }
}

/// Number of whitespace characters at the start of `s`.
pub open spec fn indent_of(s: Seq<char>) -> int {
    skip_whitespace(s, 0, s.len() as int)
}

/// `s[a..b]` without the whitespace at both ends.
pub open spec fn trim_range(s: Seq<char>, a: int, b: int) -> Seq<char> {
    let start = skip_whitespace(s, a, b);
    s.subrange(start, skip_whitespace_back(s, start, b))
}

/// Skips the whitespace of `v[from..to]` from the front.
pub fn skip_ws(v: &Vec<char>, from: usize, to: usize) -> (r: usize)
    requires
        from <= to <= v.len(),
    ensures
        r == skip_whitespace(v@, from as int, to as int),
        from <= r <= to,
{
    let mut i: usize = from;
    while i < to && char_is_whitespace(v[i])
        invariant
            from <= i <= to <= v.len(),
            skip_whitespace(v@, from as int, to as int) == skip_whitespace(v@, i as int, to as int),
        decreases to - i,
    {
        i += 1;
    }
    i
}

/// Skips the whitespace of `v[from..to]` from the back.
pub fn skip_ws_back(v: &Vec<char>, from: usize, to: usize) -> (r: usize)
    requires
        from <= to <= v.len(),
    ensures
        r == skip_whitespace_back(v@, from as int, to as int),
        from <= r <= to,
{
    let mut e: usize = to;
    while e > from && char_is_whitespace(v[e - 1])
        invariant
            from <= e <= to <= v.len(),
            skip_whitespace_back(v@, from as int, to as int) == skip_whitespace_back(
                v@,
                from as int,
                e as int,
            ),
        decreases e - from,
    {
        e -= 1;
    }
    e
}

/// A copy of `v[a..b]`.
pub fn copy_range(v: &Vec<char>, a: usize, b: usize) -> (r: Vec<char>)
    requires
        a <= b <= v.len(),
    ensures
        r@ == v@.subrange(a as int, b as int),
{
    let mut r: Vec<char> = Vec::new();
    let mut i: usize = a;
    while i < b
        invariant
            a <= i <= b <= v.len(),
            r@ == v@.subrange(a as int, i as int),
        decreases b - i,
    {
        r.push(v[i]);
        i += 1;
        assert(r@ =~= v@.subrange(a as int, i as int));
    }
    r
}

/// `l` without one carriage return at its end.
pub open spec fn strip_cr(l: Seq<char>) -> Seq<char> {
    if l.len() > 0 && l.last() == '\r' {
        l.drop_last()
    } else {
        l
    }
}

/// The lines of `s` that begin at or after `from`. A line ends at a line feed;
/// a carriage return right before that line feed is not part of the line; the
/// last line needs no line feed, and an empty rest holds no line.
pub open spec fn lines_from(s: Seq<char>, from: int) -> Seq<Seq<char>>
    decreases s.len() - from,
    via lines_from_decreases
{
    if from < 0 || from >= s.len() {
        Seq::empty()
    } else {
        let n = find_char_from(s, from, '\n');
        if n >= s.len() {
            seq![s.subrange(from, s.len() as int)]
        } else {
            seq![strip_cr(s.subrange(from, n))] + lines_from(s, n + 1)
        }
    }
}

#[via_fn]
proof fn lines_from_decreases(s: Seq<char>, from: int) {
    if 0 <= from < s.len() {
        lemma_find_char_from(s, from, '\n');
    }
}

/// The lines of `s`.
pub open spec fn lines_of(s: Seq<char>) -> Seq<Seq<char>> {
    lines_from(s, 0)
}

/// The character sequences that the vectors of `v` hold.
pub open spec fn rows_of(v: Seq<Vec<char>>) -> Seq<Seq<char>> {
    v.map_values(|l: Vec<char>| l@)
}

/// Splits `v` into its lines.
pub fn split_lines(v: &Vec<char>) -> (r: Vec<Vec<char>>)
    ensures
        rows_of(r@) == lines_of(v@),
{
    let mut r: Vec<Vec<char>> = Vec::new();
    let mut pos: usize = 0;
    assert(rows_of(r@) + lines_from(v@, 0) =~= lines_of(v@));
    while pos < v.len()
        invariant
            pos <= v.len(),
            rows_of(r@) + lines_from(v@, pos as int) == lines_of(v@),
        decreases v.len() - pos,
    {
        let n = find_char(v, pos, '\n');
        let ghost before = rows_of(r@);
        if n >= v.len() {
            let line = copy_range(v, pos, v.len());
            r.push(line);
            assert(rows_of(r@) =~= before.push(line@));
            assert(lines_from(v@, v.len() as int) =~= Seq::<Seq<char>>::empty());
            assert(rows_of(r@) + lines_from(v@, v.len() as int) =~= before + lines_from(
                v@,
                pos as int,
            ));
            pos = v.len();
        } else {
            let end = if n > pos && v[n - 1] == '\r' {
                n - 1
            } else {
                n
            };
            let line = copy_range(v, pos, end);
            assert(line@ =~= strip_cr(v@.subrange(pos as int, n as int)));
            r.push(line);
            assert(rows_of(r@) =~= before.push(line@));
            assert(rows_of(r@) + lines_from(v@, n + 1) =~= before + lines_from(v@, pos as int));
            pos = n + 1;
        }
    }
    assert(lines_from(v@, pos as int) =~= Seq::<Seq<char>>::empty());
    assert(rows_of(r@) + lines_from(v@, pos as int) =~= rows_of(r@));
    r
}

/// What `str::to_lowercase` makes of a text: its lowercase form by the Unicode
/// rules, which may differ from it in length.
pub uninterp spec fn lowercase(s: Seq<char>) -> Seq<char>;

/// `str::to_lowercase`: the result is a function of the text alone, named
/// `lowercase`.
#[verifier::external_body]
pub(crate) fn to_lowercase(s: &str) -> (r: String)
    ensures
        r@ == lowercase(s@),
{
    s.to_lowercase()
}

/// `s[from..]` with every occurrence of `pat` replaced by `rep`: the
/// occurrences are taken from left to right and do not overlap.
pub open spec fn replaced_from(s: Seq<char>, from: int, pat: Seq<char>, rep: Seq<char>) -> Seq<
    char,
>
    decreases s.len() - from,
{
    if from < 0 || from >= s.len() {
        Seq::empty()
    } else if pat.len() > 0 && has_prefix_at(s, from, pat) {
        rep + replaced_from(s, from + pat.len(), pat, rep)
    } else {
        seq![s[from]] + replaced_from(s, from + 1, pat, rep)
    }
}

/// `s` with every occurrence of `pat` replaced by `rep`.
pub open spec fn replaced(s: Seq<char>, pat: Seq<char>, rep: Seq<char>) -> Seq<char> {
    replaced_from(s, 0, pat, rep)
}

/// Appends the characters of `more` to `v`.
pub fn push_chars(v: &mut Vec<char>, more: &Vec<char>)
    ensures
        final(v)@ == old(v)@ + more@,
{
    let mut i: usize = 0;
    assert(v@ =~= old(v)@ + more@.take(0));
    while i < more.len()
        invariant
            i <= more.len(),
            v@ == old(v)@ + more@.take(i as int),
        decreases more.len() - i,
    {
        v.push(more[i]);
        i += 1;
        assert(v@ =~= old(v)@ + more@.take(i as int));
    }
    assert(more@.take(i as int) =~= more@);
}

/// Replaces every occurrence of `pat` in `v` by `rep`.
pub fn replace_all(v: &Vec<char>, pat: &Vec<char>, rep: &Vec<char>) -> (r: Vec<char>)
    requires
        pat.len() > 0,
    ensures
        r@ == replaced(v@, pat@, rep@),
{
    let mut r: Vec<char> = Vec::new();
    let mut i: usize = 0;
    assert(r@ + replaced_from(v@, 0, pat@, rep@) =~= replaced(v@, pat@, rep@));
    while i < v.len()
        invariant
            i <= v.len(),
            pat.len() > 0,
            r@ + replaced_from(v@, i as int, pat@, rep@) == replaced(v@, pat@, rep@),
        decreases v.len() - i,
    {
        let ghost before = r@;
        if starts_with_at(v, i, pat) {
            push_chars(&mut r, rep);
            assert(r@ + replaced_from(v@, i + pat.len(), pat@, rep@) =~= before + replaced_from(
                v@,
                i as int,
                pat@,
                rep@,
            ));
            i += pat.len();
        } else {
            r.push(v[i]);
            assert(r@ + replaced_from(v@, i + 1, pat@, rep@) =~= before + replaced_from(
                v@,
                i as int,
                pat@,
                rep@,
            ));
            i += 1;
        }
    }
    assert(replaced_from(v@, i as int, pat@, rep@) =~= Seq::<char>::empty());
    assert(r@ + Seq::<char>::empty() =~= r@);
    r
}

/// Replaces every occurrence of the literal `pat` in `v` by `rep`.
pub fn replace_str(v: &Vec<char>, pat: &str, rep: &str) -> (r: Vec<char>)
    requires
        pat@.len() > 0,
    ensures
        r@ == replaced(v@, pat@, rep@),
{
    let p = to_chars(pat);
    let q = to_chars(rep);
    replace_all(v, &p, &q)
}

/// Whether `v[a..b]` is the text `word`.
pub fn range_equals(v: &Vec<char>, a: usize, b: usize, word: &str) -> (r: bool)
    requires
        a <= b <= v.len(),
    ensures
        r == (v@.subrange(a as int, b as int) == word@),
{
    let w = to_chars(word);
    if w.len() != b - a {
        return false;
    }
    starts_with_at(v, a, &w)
}

/// Whether `s` is the text `word`.
pub fn str_equals(s: &str, word: &str) -> (r: bool)
    ensures
        r == (s@ == word@),
{
    let v = to_chars(s);
    let r = range_equals(&v, 0, v.len(), word);
    assert(v@.subrange(0, v.len() as int) =~= v@);
    r
}

/// The character of a decimal digit.
pub open spec fn digit_char(d: int) -> char {
    ('0' as int + d) as char
}

/// A number in decimal, without leading zeros.
pub open spec fn decimal_digits(n: nat) -> Seq<char>
    decreases n,
{
    if n < 10 {
        seq![digit_char(n as int)]
    } else {
        decimal_digits(n / 10).push(digit_char((n % 10) as int))
    }
}

/// Appends `n` in decimal to `out`.
pub fn push_number(out: &mut String, n: u128)
    ensures
        final(out)@ == old(out)@ + decimal_digits(n as nat),
    decreases n,
{
    if n >= 10 {
        push_number(out, n / 10);
    }
    out.push(('0' as u8 + (n % 10) as u8) as char);
    assert(out@ =~= old(out)@ + decimal_digits(n as nat));
}

} // verus!
