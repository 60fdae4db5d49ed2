//! Search in plain text: every place where a query stands in a text, by
//! line and byte offset, and the lines that hold it.

use crate::text::{
    contains, contains_seq, from_chars, lines_of, lowercase, rows_of, split_lines, to_chars,
    to_lowercase,
};
use vstd::prelude::*;
use vstd::slice::*;
use vstd::string::*;
use vstd::utf8::encode_utf8;

verus! {

/// One place where the query stands in the text.
#[derive(Clone, Copy, Debug, PartialEq, Eq, Structural)]
pub struct SearchResult {
    /// The index of the line, from 0.
    pub line_index: usize,
    /// The offset of the place in its line, in bytes.
    pub byte_offset: usize,
    /// The length of the query, in bytes.
    pub length: usize,
}

/// The first index at or after `from` where `bytes` holds a line feed, or
/// `bytes.len()` where there is none.
pub open spec fn line_feed_from(bytes: Seq<u8>, from: int) -> int
    decreases bytes.len() - from,
{
    if from >= bytes.len() {
        bytes.len() as int
    } else if bytes[from] == 0x0a {
        from
    } else {
        line_feed_from(bytes, from + 1)
    }
}

proof fn lemma_line_feed_from(bytes: Seq<u8>, from: int)
    requires
        0 <= from <= bytes.len(),
    ensures
        from <= line_feed_from(bytes, from) <= bytes.len(),
    decreases bytes.len() - from,
{
    if from < bytes.len() && bytes[from] != 0x0a {
        lemma_line_feed_from(bytes, from + 1);
    }
}

/// Where the line that ends with the line feed at `feed` (or with the text,
/// where `feed` is its length) stops: before a carriage return that stands
/// right before the line feed.
pub open spec fn line_stop(bytes: Seq<u8>, from: int, feed: int) -> int {
    if feed < bytes.len() && from < feed && bytes[feed - 1] == 0x0d {
        feed - 1
    } else {
        feed
    }
}

/// `needle` stands in `bytes` at `at` and ends no later than `stop`.
pub open spec fn stands_at(bytes: Seq<u8>, at: int, stop: int, needle: Seq<u8>) -> bool {
    0 <= at && at + needle.len() <= stop && stop <= bytes.len() && bytes.subrange(
        at,
        at + needle.len(),
    ) == needle
}

/// The places in the line `bytes[start..stop]`, from `at` on, where `needle`
/// stands, each with its offset in the line.
pub open spec fn line_hits(
    bytes: Seq<u8>,
    start: int,
    stop: int,
    at: int,
    needle: Seq<u8>,
    line_index: int,
    length: usize,
) -> Seq<SearchResult>
    decreases stop - at + 1,
{
    if at > stop {
        Seq::empty()
    } else {
        let rest = line_hits(bytes, start, stop, at + 1, needle, line_index, length);
        if stands_at(bytes, at, stop, needle) {
            seq![
                SearchResult {
                    line_index: line_index as usize,
                    byte_offset: (at - start) as usize,
                    length,
                },
            ] + rest
        } else {
            rest
        }
    }
}

/// The places where `needle` stands in the lines of `bytes` that begin at or
/// after `from`, the first of which is line `line_index`.
pub open spec fn hits_from(
    bytes: Seq<u8>,
    from: int,
    line_index: int,
    needle: Seq<u8>,
    length: usize,
) -> Seq<SearchResult>
    decreases bytes.len() + 1 - from,
    via hits_from_decreases
{
    if from < 0 || from >= bytes.len() {
        Seq::empty()
    } else {
        let feed = line_feed_from(bytes, from);
        line_hits(
            bytes,
            from,
            line_stop(bytes, from, feed),
            from,
            needle,
            line_index,
            length,
        ) + hits_from(bytes, feed + 1, line_index + 1, needle, length)
    }
}

#[via_fn]
proof fn hits_from_decreases(
    bytes: Seq<u8>,
    from: int,
    line_index: int,
    needle: Seq<u8>,
    length: usize,
) {
    if 0 <= from < bytes.len() {
        lemma_line_feed_from(bytes, from);
    }
}

/// What a search for `query` in `content` finds: every place, line by line
/// and from left to right, where the query stands in a line, over the UTF-8
/// bytes of the two; places may overlap. Where letter case does not count,
/// the lowercase forms of both are searched. Each place carries the byte
/// length of the query as it was given. An empty query finds nothing.
pub open spec fn search_results(content: Seq<char>, query: Seq<char>, case_sensitive: bool) -> Seq<
    SearchResult,
> {
    let length = encode_utf8(query).len() as usize;
    if query.len() == 0 {
        Seq::empty()
    } else if case_sensitive {
        hits_from(encode_utf8(content), 0, 0, encode_utf8(query), length)
    } else {
        hits_from(encode_utf8(lowercase(content)), 0, 0, encode_utf8(lowercase(query)), length)
    }
}

fn matches_at(bytes: &[u8], at: usize, stop: usize, needle: &[u8]) -> (found: bool)
    requires
        at <= stop <= bytes.len(),
    ensures
        found == stands_at(bytes@, at as int, stop as int, needle@),
{
    if needle.len() > stop - at {
        return false;
    }
    let mut k: usize = 0;
    while k < needle.len()
        invariant
            k <= needle.len(),
            at + needle.len() <= stop <= bytes.len(),
            bytes@.subrange(at as int, at + k) == needle@.subrange(0, k as int),
        decreases needle.len() - k,
    {
        if bytes[at + k] != needle[k] {
            proof {
                assert(bytes@.subrange(at as int, at + needle.len())[k as int] == bytes@[at + k]);
            }
            return false;
        }
        k += 1;
        assert(bytes@.subrange(at as int, at + k) =~= needle@.subrange(0, k as int)) by {
            assert forall|j: int| 0 <= j < k implies bytes@.subrange(at as int, at + k)[j]
                == needle@[j] by {
                if j < k - 1 {
                    assert(bytes@.subrange(at as int, at + k - 1)[j] == needle@.subrange(
                        0,
                        k - 1,
                    )[j]);
                }
            }
        }
    }
    assert(needle@.subrange(0, needle.len() as int) =~= needle@);
    true
}

fn find_line_feed(bytes: &[u8], from: usize) -> (feed: usize)
    requires
        from <= bytes.len(),
    ensures
        feed == line_feed_from(bytes@, from as int),
        from <= feed <= bytes.len(),
{
    let mut i: usize = from;
    while i < bytes.len() && bytes[i] != 0x0a
        invariant
            from <= i <= bytes.len(),
            line_feed_from(bytes@, from as int) == line_feed_from(bytes@, i as int),
        decreases bytes.len() - i,
    {
        i += 1;
    }
    i
}

fn scan_line(
    results: &mut Vec<SearchResult>,
    bytes: &[u8],
    start: usize,
    stop: usize,
    needle: &[u8],
    line_index: usize,
    length: usize,
)
    requires
        start <= stop <= bytes.len(),
    ensures
        final(results)@ == old(results)@ + line_hits(
            bytes@,
            start as int,
            stop as int,
            start as int,
            needle@,
            line_index as int,
            length,
        ),
{
    let mut at: usize = start;
    let mut done = false;
    let ghost whole = line_hits(
        bytes@,
        start as int,
        stop as int,
        start as int,
        needle@,
        line_index as int,
        length,
    );
    assert(results@ + whole =~= old(results)@ + whole);
    while !done
        invariant
            start <= at <= stop <= bytes.len(),
            !done ==> results@ + line_hits(
                bytes@,
                start as int,
                stop as int,
                at as int,
                needle@,
                line_index as int,
                length,
            ) == old(results)@ + whole,
            done ==> results@ == old(results)@ + whole,
        decreases
                if done {
                    0
                } else {
                    stop - at + 1
                },
    {
        let ghost before = results@;
        let ghost rest = line_hits(
            bytes@,
            start as int,
            stop as int,
            at + 1,
            needle@,
            line_index as int,
            length,
        );
        if matches_at(bytes, at, stop, needle) {
            results.push(SearchResult { line_index, byte_offset: at - start, length });
            assert(results@ + rest =~= before + line_hits(
                bytes@,
                start as int,
                stop as int,
                at as int,
                needle@,
                line_index as int,
                length,
            ));
        }
        if at == stop {
            assert(rest =~= Seq::<SearchResult>::empty());
            assert(results@ + rest =~= results@);
            done = true;
        } else {
            at += 1;
        }
    }
}

/// Finds every place where `needle` stands in a line of `bytes`; each place
/// is reported with `length` as its length.
pub fn search_bytes(bytes: &[u8], needle: &[u8], length: usize) -> (results: Vec<SearchResult>)
    ensures
        results@ == hits_from(bytes@, 0, 0, needle@, length),
{
    let mut results: Vec<SearchResult> = Vec::new();
    let mut from: usize = 0;
    let mut line_index: usize = 0;
    assert(results@ + hits_from(bytes@, 0, 0, needle@, length) =~= hits_from(
        bytes@,
        0,
        0,
        needle@,
        length,
    ));
    while from < bytes.len()
        invariant
            from <= bytes.len(),
            line_index <= from,
            results@ + hits_from(bytes@, from as int, line_index as int, needle@, length)
                == hits_from(bytes@, 0, 0, needle@, length),
        decreases bytes.len() - from,
    {
        let ghost before = results@;
        let feed = find_line_feed(bytes, from);
        let stop = if feed < bytes.len() && from < feed && bytes[feed - 1] == 0x0d {
            feed - 1
        } else {
            feed
        };
        scan_line(&mut results, bytes, from, stop, needle, line_index, length);
        if feed >= bytes.len() {
            assert(hits_from(bytes@, feed + 1, line_index + 1, needle@, length)
                =~= Seq::<SearchResult>::empty());
            assert(results@ + hits_from(bytes@, bytes.len() as int, line_index as int, needle@, length)
                =~= before + hits_from(bytes@, from as int, line_index as int, needle@, length));
            from = bytes.len();
        } else {
            assert(results@ + hits_from(bytes@, feed + 1, line_index + 1, needle@, length)
                =~= before + hits_from(bytes@, from as int, line_index as int, needle@, length));
            from = feed + 1;
            line_index += 1;
        }
    }
    assert(hits_from(bytes@, from as int, line_index as int, needle@, length)
        =~= Seq::<SearchResult>::empty());
    assert(results@ + Seq::<SearchResult>::empty() =~= results@);
    results
}

/// Searches `content` for `query` and returns every place where it stands,
/// with letter case counting or not.
pub fn search_text(content: &str, query: &str, case_sensitive: bool) -> (results: Vec<
    SearchResult,
>)
    ensures
        results@ == search_results(content@, query@, case_sensitive),
{
    if query.is_empty() {
        return Vec::new();
    }
    let length = query.len();
    if case_sensitive {
        search_bytes(content.as_bytes(), query.as_bytes(), length)
    } else {
        let lower_content = to_lowercase(content);
        let lower_query = to_lowercase(query);
        search_bytes(lower_content.as_str().as_bytes(), lower_query.as_str().as_bytes(), length)
    }
}

/// The indices of those of the first `n` lines whose lowercase form holds
/// `needle`, in order.
pub open spec fn matching_upto(lines: Seq<Seq<char>>, needle: Seq<char>, n: int) -> Seq<usize>
    decreases n,
{
    if n <= 0 {
        Seq::empty()
    } else {
        let before = matching_upto(lines, needle, n - 1);
        if contains_seq(lowercase(lines[n - 1]), needle) {
            before.push((n - 1) as usize)
        } else {
            before
        }
    }
}

/// The indices of the lines of `content` that hold `query`, letter case
/// aside; none for an empty query.
pub open spec fn matching_line_indices(content: Seq<char>, query: Seq<char>) -> Seq<usize> {
    if query.len() == 0 {
        Seq::empty()
    } else {
        matching_upto(lines_of(content), lowercase(query), lines_of(content).len() as int)
    }
}

/// Finds the lines of `content` that hold `query`, letter case aside: the
/// index of each such line, once, in ascending order.
pub fn matching_lines(content: &str, query: &str) -> (indices: Vec<usize>)
    ensures
        indices@ == matching_line_indices(content@, query@),
{
    let mut indices: Vec<usize> = Vec::new();
    if query.is_empty() {
        return indices;
    }
    let needle = to_chars(to_lowercase(query).as_str());
    let chars = to_chars(content);
    let lines = split_lines(&chars);
    let mut i: usize = 0;
    while i < lines.len()
        invariant
            i <= lines.len(),
            rows_of(lines@) == lines_of(content@),
            needle@ == lowercase(query@),
            indices@ == matching_upto(lines_of(content@), needle@, i as int),
        decreases lines.len() - i,
    {
        let line = from_chars(&lines[i]);
        let lower = to_chars(to_lowercase(line.as_str()).as_str());
        assert(rows_of(lines@)[i as int] == lines@[i as int]@);
        if contains(&lower, &needle) {
            indices.push(i);
        }
        i += 1;
    }
    indices
}

} // verus!
