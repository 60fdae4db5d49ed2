//! Sections: a document split at its headings.

use crate::blocks::skip_char;
use crate::text::{
    contains, contains_seq, lines_of, lowercase, push_range, rows_of, split_lines, to_chars,
    to_lowercase,
};
use vstd::prelude::*;
use vstd::string::*;

verus! {

/// A line that begins a section: number signs, then a space.
pub open spec fn is_heading_start(line: Seq<char>) -> bool {
    let after = skip_char(line, 0, '#');
    0 < after < line.len() && line[after] == ' '
}

/// The sections of the lines from `i` on, with `current` as the section that
/// is open: a heading line closes the open section (unless it is empty) and
/// opens the next; every line is kept, ended by a line feed.
pub open spec fn sections_from(lines: Seq<Seq<char>>, i: int, current: Seq<char>) -> Seq<
    Seq<char>,
>
    decreases lines.len() - i,
{
    if i < 0 || i >= lines.len() {
        if current.len() > 0 {
            seq![current]
        } else {
            Seq::empty()
        }
    } else if is_heading_start(lines[i]) && current.len() > 0 {
        seq![current] + sections_from(lines, i + 1, lines[i] + seq!['\n'])
    } else {
        sections_from(lines, i + 1, current + lines[i] + seq!['\n'])
    }
}

/// The sections of a document.
pub open spec fn sections_of(markdown: Seq<char>) -> Seq<Seq<char>> {
    sections_from(lines_of(markdown), 0, Seq::empty())
}

/// Whether a document begins with text that stands before its first
/// heading: it has a line, and its first line is no heading.
pub open spec fn has_preamble(markdown: Seq<char>) -> bool {
    lines_of(markdown).len() > 0 && !is_heading_start(lines_of(markdown)[0])
}

/// The texts of the strings of `v`.
pub open spec fn texts_of(v: Seq<String>) -> Seq<Seq<char>> {
    v.map_values(|s: String| s@)
}

fn heading_start(line: &Vec<char>) -> (b: bool)
    ensures
        b == is_heading_start(line@),
{
    let mut i: usize = 0;
    while i < line.len() && line[i] == '#'
        invariant
            i <= line.len(),
            skip_char(line@, 0, '#') == skip_char(line@, i as int, '#'),
        decreases line.len() - i,
    {
        i += 1;
    }
    0 < i && i < line.len() && line[i] == ' '
}

/// Splits a document into sections at its headings, and says whether the
/// first section is text before the first heading.
pub fn split_by_headings(markdown: &str) -> (r: (bool, Vec<String>))
    ensures
        r.0 == has_preamble(markdown@),
        texts_of(r.1@) == sections_of(markdown@),
{
    let chars = to_chars(markdown);
    let lines = split_lines(&chars);
    let ghost rows = rows_of(lines@);
    let mut sections: Vec<String> = Vec::new();
    let mut current = String::new();
    let mut i: usize = 0;
    assert(texts_of(sections@) + sections_from(rows, 0, current@) =~= sections_of(markdown@));
    while i < lines.len()
        invariant
            i <= lines.len(),
            rows == rows_of(lines@),
            rows == lines_of(markdown@),
            texts_of(sections@) + sections_from(rows, i as int, current@) == sections_of(
                markdown@,
            ),
        decreases lines.len() - i,
    {
        let ghost before = texts_of(sections@);
        let ghost open = current@;
        assert(rows[i as int] == lines@[i as int]@);
        if heading_start(&lines[i]) && !current.as_str().is_empty() {
            sections.push(current);
            assert(texts_of(sections@) =~= before.push(open));
            current = String::new();
        }
        push_range(&mut current, &lines[i], 0, lines[i].len());
        current.push('\n');
        assert(lines@[i as int]@.subrange(0, lines@[i as int]@.len() as int)
            =~= lines@[i as int]@);
        assert(texts_of(sections@) + sections_from(rows, i + 1, current@) =~= before
            + sections_from(rows, i as int, open)) by {
            if is_heading_start(rows[i as int]) && open.len() > 0 {
                assert(current@ =~= rows[i as int] + seq!['\n']);
            } else {
                assert(current@ =~= open + rows[i as int] + seq!['\n']);
            }
        }
        i += 1;
    }
    let ghost before = texts_of(sections@);
    if !current.as_str().is_empty() {
        let ghost open = current@;
        sections.push(current);
        assert(texts_of(sections@) =~= before.push(open));
    }
    assert(texts_of(sections@) =~= sections_of(markdown@));
    let preamble = lines.len() > 0 && !heading_start(&lines[0]);
    proof {
        if lines.len() > 0 {
            assert(rows[0] == lines@[0]@);
        }
    }
    (preamble, sections)
}

/// The indices of those of the first `n` sections whose lowercase form holds
/// `needle`, in order.
pub open spec fn sections_upto(sections: Seq<Seq<char>>, needle: Seq<char>, n: int) -> Seq<usize>
    decreases n,
{
    if n <= 0 {
        Seq::empty()
    } else {
        let before = sections_upto(sections, needle, n - 1);
        if contains_seq(lowercase(sections[n - 1]), needle) {
            before.push((n - 1) as usize)
        } else {
            before
        }
    }
}

/// The indices of the sections that hold `query`, letter case aside; none
/// for an empty query.
pub open spec fn section_matches(sections: Seq<Seq<char>>, query: Seq<char>) -> Seq<usize> {
    if query.len() == 0 {
        Seq::empty()
    } else {
        sections_upto(sections, lowercase(query), sections.len() as int)
    }
}

/// Finds the sections that hold `query`, letter case aside.
pub fn matching_sections(sections: &Vec<String>, query: &str) -> (indices: Vec<usize>)
    ensures
        indices@ == section_matches(texts_of(sections@), query@),
{
    let mut indices: Vec<usize> = Vec::new();
    if query.is_empty() {
        return indices;
    }
    let needle = to_chars(to_lowercase(query).as_str());
    let mut i: usize = 0;
    while i < sections.len()
        invariant
            i <= sections.len(),
            needle@ == lowercase(query@),
            indices@ == sections_upto(texts_of(sections@), needle@, i as int),
        decreases sections.len() - i,
    {
        let lower = to_chars(to_lowercase(sections[i].as_str()).as_str());
        assert(texts_of(sections@)[i as int] == sections@[i as int]@);
        if contains(&lower, &needle) {
            indices.push(i);
        }
        i += 1;
    }
    indices
}

/// The section that the heading of entry `entry` begins: sections and
/// headings go together, but for the text before the first heading, which is
/// a section of its own.
pub fn section_of_entry(entry: usize, preamble: bool) -> (section: usize)
    requires
        entry < usize::MAX,
    ensures
        section == if preamble {
            entry + 1
        } else {
            entry as int
        },
{
    if preamble {
        entry + 1
    } else {
        entry
    }
}

} // verus!
