//! The block classifier: a document, line by line, to styled rows and
//! references to images and diagrams.

use crate::inline::{format_chars, format_line};
use crate::style::{run, ColorClass, RunModel, Style, StyledLine, StyledRun};
use crate::text::{
    byte_len_capped, char_width, contains, contains_seq, find_char, find_char_from, find_seq,
    find_seq_from, from_chars, has_prefix, has_prefix_at, indent_of, lemma_find_char_from,
    lines_of, min_nat, push_range, push_repeated, range_equals, repeated, rows_of, skip_ws,
    skip_ws_back, split_lines, starts_with_str_at, string_from_range, to_chars, trim_range,
    utf8_bytes,
};
use vstd::prelude::*;
use vstd::string::*;

verus! {

/// One item of a classified document.
#[derive(Clone, Debug, PartialEq, Eq)]
pub enum ParsedLine {
    /// A finished display row.
    Text(StyledLine),
    /// An image on a line of its own, to be resolved.
    ImageRef { alt: String, url: String },
    /// The source of a diagram, to be rendered.
    MermaidRef { source: String },
}

/// What a classified item is.
pub enum ParsedModel {
    Text(Seq<RunModel>),
    ImageRef { alt: Seq<char>, url: Seq<char> },
    MermaidRef { source: Seq<char> },
}

impl View for ParsedLine {
    type V = ParsedModel;

    open spec fn view(&self) -> ParsedModel {
        match self {
            ParsedLine::Text(l) => ParsedModel::Text(l@),
            ParsedLine::ImageRef { alt, url } => ParsedModel::ImageRef { alt: alt@, url: url@ },
            ParsedLine::MermaidRef { source } => ParsedModel::MermaidRef { source: source@ },
        }
    }
}

/// The models of the items of `items`.
pub open spec fn parsed_of(items: Seq<ParsedLine>) -> Seq<ParsedModel> {
    items.map_values(|p: ParsedLine| p@)
}

/// The row of one run.
pub open spec fn text_row(text: Seq<char>, style: Style) -> ParsedModel {
    ParsedModel::Text(seq![run(text, style)])
}

/// The blank row.
pub open spec fn blank_row() -> ParsedModel {
    ParsedModel::Text(Seq::empty())
}

/// Where the classifier stands with respect to fenced blocks.
pub enum Fence {
    /// Outside any fenced block.
    Outside,
    /// Inside a fenced code block.
    Code,
    /// Inside a fenced diagram block, with the source gathered so far.
    Mermaid(Seq<char>),
}

/// The state that the classifier carries from line to line.
pub struct BlockState {
    pub fence: Fence,
    pub in_table: bool,
}

/// What one line adds to the output, and the state after it.
pub struct Step {
    pub rows: Seq<ParsedModel>,
    pub state: BlockState,
}

/// How the frame of a code block and other faint rows are shown.
pub open spec fn frame_style() -> Style {
    Style::colored(ColorClass::DarkGray)
}

/// The first index at or after `from` where `s` does not hold `c`.
pub open spec fn skip_char(s: Seq<char>, from: int, c: char) -> int
    decreases s.len() - from,
{
    if from >= s.len() {
        s.len() as int
    } else if s[from] != c {
        from
    } else {
        skip_char(s, from + 1, c)
    }
}

/// The language named on an opening fence: what follows the backticks,
/// without the whitespace around it.
pub open spec fn fence_language(line: Seq<char>) -> Seq<char> {
    trim_range(line, skip_char(line, 0, '`'), line.len() as int)
}

/// The first row of a code block, which names the language.
pub open spec fn code_header(lang: Seq<char>) -> Seq<char> {
    if lang.len() == 0 {
        "┌─ code ──────────────────────────────────┐"@
    } else {
        "┌─ "@ + lang + " "@ + repeated('─', (38 - min_nat(utf8_bytes(lang), 38)) as nat)
    }
}

/// The last row of a code block.
pub open spec fn code_footer() -> Seq<char> {
    "└─────────────────────────────────────────┘"@
}

/// A row inside a code block.
pub open spec fn code_row(line: Seq<char>) -> ParsedModel {
    text_row("│ "@ + line, Style::colored(ColorClass::Green))
}

/// The diagram source `source` with `line` added as its next line.
pub open spec fn append_source(source: Seq<char>, line: Seq<char>) -> Seq<char> {
    if source.len() == 0 {
        line
    } else {
        source + seq!['\n'] + line
    }
}

/// A line that opens or closes a fenced block.
pub open spec fn is_fence(line: Seq<char>) -> bool {
    has_prefix(line, "```"@)
}

/// What a fence line does: outside a block it opens one, a diagram block
/// where the language is `mermaid`; inside it closes the block, and a closed
/// diagram block yields its source.
pub open spec fn fence_step(line: Seq<char>, st: BlockState) -> Step {
    match st.fence {
        Fence::Outside => {
            let lang = fence_language(line);
            if lang == "mermaid"@ {
                Step {
                    rows: Seq::empty(),
                    state: BlockState { fence: Fence::Mermaid(Seq::empty()), in_table: st.in_table },
                }
            } else {
                Step {
                    rows: seq![text_row(code_header(lang), frame_style())],
                    state: BlockState { fence: Fence::Code, in_table: st.in_table },
                }
            }
        },
        Fence::Code => Step {
            rows: seq![text_row(code_footer(), frame_style()), blank_row()],
            state: BlockState { fence: Fence::Outside, in_table: st.in_table },
        },
        Fence::Mermaid(source) => Step {
            rows: seq![ParsedModel::MermaidRef { source }],
            state: BlockState { fence: Fence::Outside, in_table: st.in_table },
        },
    }
}

/// The level of the heading that `line` is, from 1 to 4, or 0 where it is none.
pub open spec fn heading_level(line: Seq<char>) -> int {
    if has_prefix(line, "# "@) {
        1
    } else if has_prefix(line, "## "@) {
        2
    } else if has_prefix(line, "### "@) {
        3
    } else if has_prefix(line, "#### "@) {
        4
    } else {
        0
    }
}

/// How the heading of each level is shown.
pub open spec fn heading_style(level: int) -> Style {
    if level == 1 {
        Style::colored(ColorClass::Cyan).bold().underlined()
    } else if level == 2 {
        Style::colored(ColorClass::Blue).bold()
    } else if level == 3 {
        Style::colored(ColorClass::Yellow).bold()
    } else {
        Style::colored(ColorClass::Magenta).bold()
    }
}

/// The rule under a heading: as long as the heading text has bytes, up to `cap`.
pub open spec fn underline_rule(text: Seq<char>, glyph: char, cap: nat, color: ColorClass)
    -> ParsedModel {
    text_row(repeated(glyph, min_nat(utf8_bytes(text), cap)), Style::colored(color))
}

/// The rows of a heading of the given level: levels 1 to 3 stand between
/// blank rows, levels 1 and 2 over a rule, and level 4 stands alone.
pub open spec fn heading_rows(line: Seq<char>, level: int) -> Seq<ParsedModel> {
    let text = line.subrange(level + 1, line.len() as int);
    let title = text_row(text, heading_style(level));
    if level == 1 {
        seq![blank_row(), title, underline_rule(text, '═', 60, ColorClass::Cyan), blank_row()]
    } else if level == 2 {
        seq![blank_row(), title, underline_rule(text, '─', 50, ColorClass::Blue), blank_row()]
    } else if level == 3 {
        seq![blank_row(), title, blank_row()]
    } else {
        seq![title]
    }
}

/// A line that stands for a horizontal rule.
pub open spec fn is_rule(line: Seq<char>) -> bool {
    has_prefix(line, "---"@) || has_prefix(line, "***"@) || has_prefix(line, "___"@)
}

/// The row of a horizontal rule.
pub open spec fn rule_row() -> ParsedModel {
    text_row(repeated('─', 60), frame_style())
}

fn make_text_row(text: String, style: Style) -> (p: ParsedLine)
    ensures
        p@ == text_row(text@, style),
{
    ParsedLine::Text(StyledLine::single(StyledRun::new(text, style)))
}

fn make_blank_row() -> (p: ParsedLine)
    ensures
        p@ == blank_row(),
{
    ParsedLine::Text(StyledLine::blank())
}

fn push_item(out: &mut Vec<ParsedLine>, item: ParsedLine)
    ensures
        parsed_of(final(out)@) == parsed_of(old(out)@).push(item@),
{
    out.push(item);
    assert(parsed_of(out@) =~= parsed_of(old(out)@).push(item@));
}

fn heading_level_of(line: &Vec<char>) -> (level: usize)
    ensures
        level == heading_level(line@),
        level <= 4,
        level > 0 ==> level + 1 <= line.len(),
{
    proof {
        reveal_strlit("# ");
        reveal_strlit("## ");
        reveal_strlit("### ");
        reveal_strlit("#### ");
    }
    if starts_with_str_at(line, 0, "# ") {
        1
    } else if starts_with_str_at(line, 0, "## ") {
        2
    } else if starts_with_str_at(line, 0, "### ") {
        3
    } else if starts_with_str_at(line, 0, "#### ") {
        4
    } else {
        0
    }
}

fn make_rule(line: &Vec<char>, from: usize, glyph: char, cap: usize, color: ColorClass) -> (p:
    ParsedLine)
    requires
        from <= line.len(),
        cap <= 60,
    ensures
        p@ == underline_rule(line@.subrange(from as int, line.len() as int), glyph, cap as nat, color),
{
    let n = byte_len_capped(line, from, line.len(), cap);
    let mut s = String::new();
    push_repeated(&mut s, glyph, n);
    assert(s@ =~= repeated(glyph, n as nat));
    make_text_row(s, Style::colored(color))
}

fn push_heading(out: &mut Vec<ParsedLine>, line: &Vec<char>, level: usize)
    requires
        1 <= level <= 4,
        level + 1 <= line.len(),
    ensures
        parsed_of(final(out)@) == parsed_of(old(out)@) + heading_rows(line@, level as int),
{
    let text = string_from_range(line, level + 1, line.len());
    if level == 1 {
        push_item(out, make_blank_row());
        push_item(out, make_text_row(text, Style::colored(ColorClass::Cyan).bold().underlined()));
        push_item(out, make_rule(line, 2, '═', 60, ColorClass::Cyan));
        push_item(out, make_blank_row());
    } else if level == 2 {
        push_item(out, make_blank_row());
        push_item(out, make_text_row(text, Style::colored(ColorClass::Blue).bold()));
        push_item(out, make_rule(line, 3, '─', 50, ColorClass::Blue));
        push_item(out, make_blank_row());
    } else if level == 3 {
        push_item(out, make_blank_row());
        push_item(out, make_text_row(text, Style::colored(ColorClass::Yellow).bold()));
        push_item(out, make_blank_row());
    } else {
        push_item(out, make_text_row(text, Style::colored(ColorClass::Magenta).bold()));
    }
    assert(parsed_of(out@) =~= parsed_of(old(out)@) + heading_rows(line@, level as int));
}

fn is_rule_line(line: &Vec<char>) -> (b: bool)
    ensures
        b == is_rule(line@),
{
    starts_with_str_at(line, 0, "---") || starts_with_str_at(line, 0, "***") || starts_with_str_at(
        line,
        0,
        "___",
    )
}

fn make_rule_row() -> (p: ParsedLine)
    ensures
        p@ == rule_row(),
{
    let mut s = String::new();
    push_repeated(&mut s, '─', 60);
    assert(s@ =~= repeated('─', 60));
    make_text_row(s, Style::colored(ColorClass::DarkGray))
}

/// The pieces of `line[from..]` between bars, each without the whitespace
/// around it.
pub open spec fn cells_from(line: Seq<char>, from: int) -> Seq<Seq<char>>
    decreases line.len() - from,
    via cells_from_decreases
{
    if from < 0 || from > line.len() {
        Seq::empty()
    } else {
        let bar = find_char_from(line, from, '|');
        if bar >= line.len() {
            seq![trim_range(line, from, line.len() as int)]
        } else {
            seq![trim_range(line, from, bar)] + cells_from(line, bar + 1)
        }
    }
}

#[via_fn]
proof fn cells_from_decreases(line: Seq<char>, from: int) {
    if 0 <= from <= line.len() {
        lemma_find_char_from(line, from, '|');
    }
}

/// The first index at or after `from` of a cell that is not empty, or the
/// number of cells.
pub open spec fn first_filled(cells: Seq<Seq<char>>, from: int) -> int
    decreases cells.len() - from,
{
    if from >= cells.len() {
        cells.len() as int
    } else if cells[from].len() > 0 {
        from
    } else {
        first_filled(cells, from + 1)
    }
}

/// The least end `e` at or after `from` such that the cells of `e..to` are
/// all empty.
pub open spec fn filled_end(cells: Seq<Seq<char>>, from: int, to: int) -> int
    decreases to - from,
{
    if to <= from {
        from
    } else if cells[to - 1].len() > 0 {
        to
    } else {
        filled_end(cells, from, to - 1)
    }
}

/// The cells of a table row: the pieces between the bars, trimmed, without
/// the empty ones at the start and at the end.
pub open spec fn table_cells(line: Seq<char>) -> Seq<Seq<char>> {
    let all = cells_from(line, 0);
    let first = first_filled(all, 0);
    all.subrange(first, filled_end(all, first, all.len() as int))
}

/// The runs of a table row: the cells, with a bar between neighbours.
pub open spec fn cell_runs(cells: Seq<Seq<char>>) -> Seq<RunModel>
    decreases cells.len(),
{
    if cells.len() == 0 {
        Seq::empty()
    } else if cells.len() == 1 {
        seq![run(cells[0], Style::colored(ColorClass::White))]
    } else {
        cell_runs(cells.drop_last()) + seq![
            run(" │ "@, frame_style()),
            run(cells.last(), Style::colored(ColorClass::White)),
        ]
    }
}

/// A line whose first character after its indentation is a bar.
pub open spec fn is_table_row(line: Seq<char>) -> bool {
    indent_of(line) < line.len() && line[indent_of(line)] == '|'
}

/// The row of a table line: the first line with dashes in it, where no table
/// is open yet, is the separator and is shown as it is, faintly; any other
/// shows its cells.
pub open spec fn table_row(line: Seq<char>, in_table: bool) -> ParsedModel {
    if contains_seq(line, "---"@) && !in_table {
        text_row(line, frame_style())
    } else {
        ParsedModel::Text(cell_runs(table_cells(line)))
    }
}

/// The texts that the bounds `bounds` cut out of `line`.
pub open spec fn cut(line: Seq<char>, bounds: Seq<(usize, usize)>) -> Seq<Seq<char>> {
    bounds.map_values(|b: (usize, usize)| line.subrange(b.0 as int, b.1 as int))
}

fn split_cells(line: &Vec<char>) -> (r: Vec<(usize, usize)>)
    ensures
        cut(line@, r@) == cells_from(line@, 0),
        forall|k: int| 0 <= k < r.len() ==> (#[trigger] r[k]).0 <= r[k].1 <= line.len(),
{
    let mut r: Vec<(usize, usize)> = Vec::new();
    let mut pos: usize = 0;
    let mut done = false;
    assert(cut(line@, r@) + cells_from(line@, 0) =~= cells_from(line@, 0));
    while !done
        invariant
            pos <= line.len(),
            !done ==> cut(line@, r@) + cells_from(line@, pos as int) == cells_from(line@, 0),
            done ==> cut(line@, r@) == cells_from(line@, 0),
            forall|k: int| 0 <= k < r.len() ==> (#[trigger] r[k]).0 <= r[k].1 <= line.len(),
        decreases
                if done {
                    0
                } else {
                    line.len() - pos + 1
                },
    {
        let bar = find_char(line, pos, '|');
        let start = skip_ws(line, pos, bar);
        let end = skip_ws_back(line, start, bar);
        let ghost before = cut(line@, r@);
        r.push((start, end));
        assert(cut(line@, r@) =~= before.push(line@.subrange(start as int, end as int)));
        if bar >= line.len() {
            assert(cut(line@, r@) =~= before + cells_from(line@, pos as int));
            done = true;
        } else {
            assert(cut(line@, r@) + cells_from(line@, bar + 1) =~= before + cells_from(
                line@,
                pos as int,
            ));
            pos = bar + 1;
        }
    }
    r
}

fn make_table_cells(line: &Vec<char>) -> (l: StyledLine)
    ensures
        l@ == cell_runs(table_cells(line@)),
{
    let bounds = split_cells(line);
    let ghost all = cut(line@, bounds@);
    let n = bounds.len();
    let mut lo: usize = 0;
    while lo < n && bounds[lo].0 == bounds[lo].1
        invariant
            lo <= n,
            n == bounds.len(),
            all == cut(line@, bounds@),
            first_filled(all, 0) == first_filled(all, lo as int),
            forall|k: int| 0 <= k < bounds.len() ==> (#[trigger] bounds[k]).0 <= bounds[k].1 <= line.len(),
        decreases n - lo,
    {
        lo += 1;
    }
    let mut hi: usize = n;
    while hi > lo && bounds[hi - 1].0 == bounds[hi - 1].1
        invariant
            lo <= hi <= n,
            n == bounds.len(),
            all == cut(line@, bounds@),
            filled_end(all, lo as int, n as int) == filled_end(all, lo as int, hi as int),
            forall|k: int| 0 <= k < bounds.len() ==> (#[trigger] bounds[k]).0 <= bounds[k].1 <= line.len(),
        decreases hi - lo,
    {
        hi -= 1;
    }
    let ghost cells = all.subrange(lo as int, hi as int);
    let mut out = StyledLine::blank();
    let mut k: usize = lo;
    assert(cells.subrange(0, 0) =~= Seq::<Seq<char>>::empty());
    while k < hi
        invariant
            lo <= k <= hi <= n,
            n == bounds.len(),
            all == cut(line@, bounds@),
            cells == all.subrange(lo as int, hi as int),
            out@ == cell_runs(cells.subrange(0, k - lo)),
            forall|j: int| 0 <= j < bounds.len() ==> (#[trigger] bounds[j]).0 <= bounds[j].1 <= line.len(),
        decreases hi - k,
    {
        let ghost before = out@;
        if k > lo {
            out.push(StyledRun::literal(" │ ", Style::colored(ColorClass::DarkGray)));
        }
        let b = bounds[k];
        out.push(
            StyledRun::new(string_from_range(line, b.0, b.1), Style::colored(ColorClass::White)),
        );
        proof {
            let upto = cells.subrange(0, k + 1 - lo);
            assert(upto.drop_last() =~= cells.subrange(0, k - lo));
            assert(upto.last() == line@.subrange(b.0 as int, b.1 as int));
            assert(out@ =~= cell_runs(upto));
        }
        k += 1;
    }
    assert(cells.subrange(0, hi - lo) =~= cells);
    out
}

fn make_table_row(line: &Vec<char>, in_table: bool) -> (p: ParsedLine)
    ensures
        p@ == table_row(line@, in_table),
{
    let dashes = to_chars("---");
    if !in_table && contains(line, &dashes) {
        make_text_row(from_chars(line), Style::colored(ColorClass::DarkGray))
    } else {
        ParsedLine::Text(make_table_cells(line))
    }
}

fn is_table_line(line: &Vec<char>) -> (b: bool)
    ensures
        b == is_table_row(line@),
{
    let t = skip_ws(line, 0, line.len());
    t < line.len() && line[t] == '|'
}

/// As many spaces as the indentation of `line` has bytes.
pub open spec fn indent_text(line: Seq<char>) -> Seq<char> {
    repeated(' ', utf8_bytes(line.subrange(0, indent_of(line))))
}

fn make_indent(line: &Vec<char>, t: usize) -> (r: StyledRun)
    requires
        t == indent_of(line@),
        t <= line.len(),
    ensures
        r@ == run(indent_text(line@), Style::plain()),
{
    let mut s = String::new();
    let mut i: usize = 0;
    assert(s@ =~= repeated(' ', utf8_bytes(line@.subrange(0, 0))));
    while i < t
        invariant
            i <= t <= line.len(),
            s@ == repeated(' ', utf8_bytes(line@.subrange(0, i as int))),
        decreases t - i,
    {
        push_repeated(&mut s, ' ', char_width(line[i]));
        proof {
            assert(line@.subrange(0, i + 1).drop_last() =~= line@.subrange(0, i as int));
            assert(s@ =~= repeated(' ', utf8_bytes(line@.subrange(0, i + 1))));
        }
        i += 1;
    }
    StyledRun::new(s, Style::plain())
}

/// The row of a list item: the indentation as spaces, the marker, and the
/// text that follows `skip` characters after the indentation.
pub open spec fn list_row(
    line: Seq<char>,
    marker: Seq<char>,
    marker_color: ColorClass,
    skip: int,
    text_color: ColorClass,
) -> ParsedModel {
    ParsedModel::Text(
        seq![
            run(indent_text(line), Style::plain()),
            run(marker, Style::colored(marker_color)),
            run(
                line.subrange(indent_of(line) + skip, line.len() as int),
                Style::colored(text_color),
            ),
        ],
    )
}

fn make_list_row(
    line: &Vec<char>,
    t: usize,
    marker: &str,
    marker_color: ColorClass,
    skip: usize,
    text_color: ColorClass,
) -> (p: ParsedLine)
    requires
        t == indent_of(line@),
        t + skip <= line.len(),
    ensures
        p@ == list_row(line@, marker@, marker_color, skip as int, text_color),
{
    let mut l = StyledLine::single(make_indent(line, t));
    l.push(StyledRun::literal(marker, Style::colored(marker_color)));
    l.push(
        StyledRun::new(string_from_range(line, t + skip, line.len()), Style::colored(text_color)),
    );
    assert(l@ =~= list_row(line@, marker@, marker_color, skip as int, text_color)->Text_0);
    ParsedLine::Text(l)
}

/// An ASCII digit.
pub open spec fn is_digit(c: char) -> bool {
    '0' <= c && c <= '9'
}

/// Every character of `s` is an ASCII digit.
pub open spec fn all_digits(s: Seq<char>) -> bool {
    forall|k: int| 0 <= k < s.len() ==> is_digit(#[trigger] s[k])
}

/// The number prefix and the text of an ordered list item: after the
/// indentation, digits (at least one) up to the first `". "` of the line.
/// The prefix keeps the `". "`.
pub open spec fn ordered_item(line: Seq<char>) -> Option<(Seq<char>, Seq<char>)> {
    let t = indent_of(line);
    match find_seq_from(line, t, ". "@) {
        Some(dot) => {
            if dot > t && all_digits(line.subrange(t, dot)) {
                Some((line.subrange(t, dot) + ". "@, line.subrange(dot + 2, line.len() as int)))
            } else {
                None
            }
        },
        None => None,
    }
}

fn digits_only(line: &Vec<char>, a: usize, b: usize) -> (r: bool)
    requires
        a <= b <= line.len(),
    ensures
        r == all_digits(line@.subrange(a as int, b as int)),
{
    let mut i: usize = a;
    while i < b
        invariant
            a <= i <= b <= line.len(),
            all_digits(line@.subrange(a as int, i as int)),
        decreases b - i,
    {
        let c = line[i];
        if !(c >= '0' && c <= '9') {
            assert(line@.subrange(a as int, b as int)[i - a] == c);
            return false;
        }
        i += 1;
        assert forall|k: int| 0 <= k < i - a implies is_digit(
            #[trigger] line@.subrange(a as int, i as int)[k],
        ) by {
            if k < i - a - 1 {
                assert(line@.subrange(a as int, i - 1)[k] == line@.subrange(a as int, i as int)[k]);
            }
        }
    }
    true
}

fn ordered_item_of(line: &Vec<char>) -> (r: Option<(String, String)>)
    ensures
        match ordered_item(line@) {
            Some(item) => r.is_some() && r.unwrap().0@ == item.0 && r.unwrap().1@ == item.1,
            None => r.is_none(),
        },
{
    proof {
        reveal_strlit(". ");
    }
    let t = skip_ws(line, 0, line.len());
    let dot_space = to_chars(". ");
    match find_seq(line, t, &dot_space) {
        Some(dot) => {
            if dot > t && digits_only(line, t, dot) {
                let mut prefix = string_from_range(line, t, dot);
                prefix.append(". ");
                let text = string_from_range(line, dot + 2, line.len());
                Some((prefix, text))
            } else {
                None
            }
        },
        None => None,
    }
}

/// Reads one line as an ordered list item: its number prefix (with `". "`)
/// and its text.
pub fn try_parse_ordered_list(line: &str) -> (r: Option<(String, String)>)
    ensures
        match ordered_item(line@) {
            Some(item) => r.is_some() && r.unwrap().0@ == item.0 && r.unwrap().1@ == item.1,
            None => r.is_none(),
        },
{
    let v = to_chars(line);
    ordered_item_of(&v)
}

/// The alternative text and the target of the first image marker
/// `![alt](url)` of `line`.
pub open spec fn image_ref(line: Seq<char>) -> Option<(Seq<char>, Seq<char>)> {
    match find_seq_from(line, 0, "!["@) {
        Some(open) => match find_seq_from(line, open + 2, "]("@) {
            Some(mid) => {
                let close = find_char_from(line, mid + 2, ')');
                if close < line.len() {
                    Some((line.subrange(open + 2, mid), line.subrange(mid + 2, close)))
                } else {
                    None
                }
            },
            None => None,
        },
        None => None,
    }
}

fn image_ref_of(line: &Vec<char>) -> (r: Option<(String, String)>)
    ensures
        match image_ref(line@) {
            Some(found) => r.is_some() && r.unwrap().0@ == found.0 && r.unwrap().1@ == found.1,
            None => r.is_none(),
        },
{
    proof {
        reveal_strlit("![");
        reveal_strlit("](");
    }
    let opener = to_chars("![");
    let middle = to_chars("](");
    match find_seq(line, 0, &opener) {
        Some(open) => match find_seq(line, open + 2, &middle) {
            Some(mid) => {
                let close = find_char(line, mid + 2, ')');
                if close < line.len() {
                    Some(
                        (
                            string_from_range(line, open + 2, mid),
                            string_from_range(line, mid + 2, close),
                        ),
                    )
                } else {
                    None
                }
            },
            None => None,
        },
        None => None,
    }
}

/// Reads the first image marker `![alt](url)` of a line.
pub fn extract_image_alt_and_url(line: &str) -> (r: Option<(String, String)>)
    ensures
        match image_ref(line@) {
            Some(found) => r.is_some() && r.unwrap().0@ == found.0 && r.unwrap().1@ == found.1,
            None => r.is_none(),
        },
{
    let v = to_chars(line);
    image_ref_of(&v)
}

/// The row of a quoted line: a bar, then the text after `"> "`.
pub open spec fn quote_row(line: Seq<char>) -> ParsedModel {
    ParsedModel::Text(
        seq![
            run("▎ "@, frame_style()),
            run(line.subrange(2, line.len() as int), Style::colored(ColorClass::Gray).italic()),
        ],
    )
}

/// The item of a line that is neither fence, heading, rule nor table row: a
/// quote, a task, a list item, an image on its own, or else plain text with
/// inline formatting.
pub open spec fn flow_row(line: Seq<char>) -> ParsedModel {
    let t = indent_of(line);
    if has_prefix(line, "> "@) {
        quote_row(line)
    } else if has_prefix_at(line, t, "- [x] "@) {
        list_row(line, "☑ "@, ColorClass::Green, 6, ColorClass::DarkGray)
    } else if has_prefix_at(line, t, "- [ ] "@) {
        list_row(line, "☐ "@, ColorClass::Yellow, 6, ColorClass::Default)
    } else if has_prefix_at(line, t, "- "@) || has_prefix_at(line, t, "* "@) {
        list_row(line, "• "@, ColorClass::Cyan, 2, ColorClass::Default)
    } else if ordered_item(line).is_some() {
        ParsedModel::Text(
            seq![
                run(indent_text(line), Style::plain()),
                run(ordered_item(line).unwrap().0, Style::colored(ColorClass::Cyan)),
                run(ordered_item(line).unwrap().1, Style::plain()),
            ],
        )
    } else if has_prefix_at(line, t, "!["@) && image_ref(line).is_some() {
        ParsedModel::ImageRef { alt: image_ref(line).unwrap().0, url: image_ref(line).unwrap().1 }
    } else {
        ParsedModel::Text(format_line(line))
    }
}

fn make_flow_row(line: &Vec<char>) -> (p: ParsedLine)
    ensures
        p@ == flow_row(line@),
{
    proof {
        reveal_strlit("> ");
        reveal_strlit("- [x] ");
        reveal_strlit("- [ ] ");
        reveal_strlit("- ");
        reveal_strlit("* ");
    }
    let t = skip_ws(line, 0, line.len());
    if starts_with_str_at(line, 0, "> ") {
        let mut l = StyledLine::single(
            StyledRun::literal("▎ ", Style::colored(ColorClass::DarkGray)),
        );
        l.push(
            StyledRun::new(
                string_from_range(line, 2, line.len()),
                Style::colored(ColorClass::Gray).italic(),
            ),
        );
        assert(l@ =~= quote_row(line@)->Text_0);
        return ParsedLine::Text(l);
    }
    if starts_with_str_at(line, t, "- [x] ") {
        return make_list_row(line, t, "☑ ", ColorClass::Green, 6, ColorClass::DarkGray);
    }
    if starts_with_str_at(line, t, "- [ ] ") {
        return make_list_row(line, t, "☐ ", ColorClass::Yellow, 6, ColorClass::Default);
    }
    if starts_with_str_at(line, t, "- ") || starts_with_str_at(line, t, "* ") {
        return make_list_row(line, t, "• ", ColorClass::Cyan, 2, ColorClass::Default);
    }
    match ordered_item_of(line) {
        Some((prefix, text)) => {
            let mut l = StyledLine::single(make_indent(line, t));
            l.push(StyledRun::new(prefix, Style::colored(ColorClass::Cyan)));
            l.push(StyledRun::new(text, Style::plain()));
            assert(l@ =~= flow_row(line@)->Text_0);
            return ParsedLine::Text(l);
        },
        None => {},
    }
    if starts_with_str_at(line, t, "![") {
        match image_ref_of(line) {
            Some((alt, url)) => {
                return ParsedLine::ImageRef { alt, url };
            },
            None => {},
        }
    }
    ParsedLine::Text(format_chars(line))
}

/// What a line outside any fenced block does. A heading or a rule leaves the
/// table flag as it is; a table row sets it; any other line clears it.
pub open spec fn block_step(line: Seq<char>, in_table: bool) -> Step {
    let level = heading_level(line);
    if level > 0 {
        Step {
            rows: heading_rows(line, level),
            state: BlockState { fence: Fence::Outside, in_table },
        }
    } else if is_rule(line) {
        Step { rows: seq![rule_row()], state: BlockState { fence: Fence::Outside, in_table } }
    } else if is_table_row(line) {
        Step {
            rows: seq![table_row(line, in_table)],
            state: BlockState { fence: Fence::Outside, in_table: true },
        }
    } else {
        Step {
            rows: seq![flow_row(line)],
            state: BlockState { fence: Fence::Outside, in_table: false },
        }
    }
}

/// What one line does in state `st`.
pub open spec fn classify_step(line: Seq<char>, st: BlockState) -> Step {
    if is_fence(line) {
        fence_step(line, st)
    } else {
        match st.fence {
            Fence::Code => Step { rows: seq![code_row(line)], state: st },
            Fence::Mermaid(source) => Step {
                rows: Seq::empty(),
                state: BlockState {
                    fence: Fence::Mermaid(append_source(source, line)),
                    in_table: st.in_table,
                },
            },
            Fence::Outside => block_step(line, st.in_table),
        }
    }
}

/// The items of the lines from `i` on, read in state `st`.
pub open spec fn classify_from(lines: Seq<Seq<char>>, i: int, st: BlockState) -> Seq<ParsedModel>
    decreases lines.len() - i,
{
    if i < 0 || i >= lines.len() {
        Seq::empty()
    } else {
        let step = classify_step(lines[i], st);
        step.rows + classify_from(lines, i + 1, step.state)
    }
}

/// The state in which the classifier begins.
pub open spec fn initial_state() -> BlockState {
    BlockState { fence: Fence::Outside, in_table: false }
}

/// The items of a document: its lines, read in order from the initial state.
/// A fenced block that the document leaves open yields no closing rows, and
/// an open diagram block no diagram.
pub open spec fn classify(content: Seq<char>) -> Seq<ParsedModel> {
    classify_from(lines_of(content), 0, initial_state())
}

enum FenceState {
    Outside,
    Code,
    Mermaid(String),
}

impl View for FenceState {
    type V = Fence;

    closed spec fn view(&self) -> Fence {
        match self {
            FenceState::Outside => Fence::Outside,
            FenceState::Code => Fence::Code,
            FenceState::Mermaid(source) => Fence::Mermaid(source@),
        }
    }
}

fn skip_backticks(line: &Vec<char>) -> (r: usize)
    ensures
        r == skip_char(line@, 0, '`'),
        r <= line.len(),
{
    let mut i: usize = 0;
    while i < line.len() && line[i] == '`'
        invariant
            i <= line.len(),
            skip_char(line@, 0, '`') == skip_char(line@, i as int, '`'),
        decreases line.len() - i,
    {
        i += 1;
    }
    i
}

fn make_code_header(line: &Vec<char>, a: usize, b: usize) -> (p: ParsedLine)
    requires
        a <= b <= line.len(),
    ensures
        p@ == text_row(code_header(line@.subrange(a as int, b as int)), frame_style()),
{
    let style = Style::colored(ColorClass::DarkGray);
    if a == b {
        make_text_row("┌─ code ──────────────────────────────────┐".to_owned(), style)
    } else {
        let used = byte_len_capped(line, a, b, 38);
        let mut s = String::new();
        s.append("┌─ ");
        push_range(&mut s, line, a, b);
        s.append(" ");
        push_repeated(&mut s, '─', 38 - used);
        assert(s@ =~= code_header(line@.subrange(a as int, b as int)));
        make_text_row(s, style)
    }
}

fn fence_line(out: &mut Vec<ParsedLine>, line: &Vec<char>, fence: FenceState) -> (r: FenceState)
    ensures
        ({
            let step = fence_step(line@, BlockState { fence: fence@, in_table: false });
            &&& parsed_of(final(out)@) == parsed_of(old(out)@) + step.rows
            &&& r@ == step.state.fence
        }),
{
    match fence {
        FenceState::Outside => {
            let tick_end = skip_backticks(line);
            let a = skip_ws(line, tick_end, line.len());
            let b = skip_ws_back(line, a, line.len());
            if range_equals(line, a, b, "mermaid") {
                assert(parsed_of(out@) =~= parsed_of(old(out)@) + Seq::<ParsedModel>::empty());
                FenceState::Mermaid(String::new())
            } else {
                push_item(out, make_code_header(line, a, b));
                assert(parsed_of(out@) =~= parsed_of(old(out)@) + seq![
                    text_row(code_header(fence_language(line@)), frame_style()),
                ]);
                FenceState::Code
            }
        },
        FenceState::Code => {
            push_item(
                out,
                make_text_row(
                    "└─────────────────────────────────────────┘".to_owned(),
                    Style::colored(ColorClass::DarkGray),
                ),
            );
            push_item(out, make_blank_row());
            assert(parsed_of(out@) =~= parsed_of(old(out)@) + seq![
                text_row(code_footer(), frame_style()),
                blank_row(),
            ]);
            FenceState::Outside
        },
        FenceState::Mermaid(source) => {
            push_item(out, ParsedLine::MermaidRef { source });
            assert(parsed_of(out@) =~= parsed_of(old(out)@) + seq![
                ParsedModel::MermaidRef { source: source@ },
            ]);
            FenceState::Outside
        },
    }
}

fn block_line(out: &mut Vec<ParsedLine>, line: &Vec<char>, in_table: bool) -> (r: bool)
    ensures
        ({
            let step = block_step(line@, in_table);
            &&& parsed_of(final(out)@) == parsed_of(old(out)@) + step.rows
            &&& r == step.state.in_table
        }),
{
    let level = heading_level_of(line);
    if level > 0 {
        push_heading(out, line, level);
        in_table
    } else if is_rule_line(line) {
        push_item(out, make_rule_row());
        assert(parsed_of(out@) =~= parsed_of(old(out)@) + seq![rule_row()]);
        in_table
    } else if is_table_line(line) {
        push_item(out, make_table_row(line, in_table));
        assert(parsed_of(out@) =~= parsed_of(old(out)@) + seq![table_row(line@, in_table)]);
        true
    } else {
        push_item(out, make_flow_row(line));
        assert(parsed_of(out@) =~= parsed_of(old(out)@) + seq![flow_row(line@)]);
        false
    }
}

fn classify_line(out: &mut Vec<ParsedLine>, line: &Vec<char>, fence: FenceState, in_table: bool)
    -> (r: (FenceState, bool))
    ensures
        ({
            let step = classify_step(line@, BlockState { fence: fence@, in_table });
            &&& parsed_of(final(out)@) == parsed_of(old(out)@) + step.rows
            &&& r.0@ == step.state.fence
            &&& r.1 == step.state.in_table
        }),
{
    if starts_with_str_at(line, 0, "```") {
        let next = fence_line(out, line, fence);
        (next, in_table)
    } else {
        match fence {
            FenceState::Code => {
                let mut s = String::new();
                s.append("│ ");
                push_range(&mut s, line, 0, line.len());
                assert(s@ =~= "│ "@ + line@);
                push_item(out, make_text_row(s, Style::colored(ColorClass::Green)));
                assert(parsed_of(out@) =~= parsed_of(old(out)@) + seq![code_row(line@)]);
                (FenceState::Code, in_table)
            },
            FenceState::Mermaid(source) => {
                let mut source = source;
                if !source.as_str().is_empty() {
                    source.push('\n');
                }
                push_range(&mut source, line, 0, line.len());
                assert(source@ =~= append_source(fence@->Mermaid_0, line@));
                assert(parsed_of(out@) =~= parsed_of(old(out)@) + Seq::<ParsedModel>::empty());
                (FenceState::Mermaid(source), in_table)
            },
            FenceState::Outside => {
                let table = block_line(out, line, in_table);
                (FenceState::Outside, table)
            },
        }
    }
}

/// Classifies a document into display rows and references: fenced code and
/// diagram blocks, headings, rules, table rows, quotes, task and list items,
/// images on a line of their own, and plain lines with inline formatting.
pub fn markdown_to_lines_with_images(content: &str) -> (items: Vec<ParsedLine>)
    ensures
        parsed_of(items@) == classify(content@),
{
    let chars = to_chars(content);
    let lines = split_lines(&chars);
    let ghost rows = rows_of(lines@);
    let mut items: Vec<ParsedLine> = Vec::new();
    let mut fence = FenceState::Outside;
    let mut in_table = false;
    let mut i: usize = 0;
    assert(parsed_of(items@) + classify_from(rows, 0, initial_state()) =~= classify(content@));
    while i < lines.len()
        invariant
            i <= lines.len(),
            rows == rows_of(lines@),
            rows == lines_of(content@),
            parsed_of(items@) + classify_from(
                rows,
                i as int,
                BlockState { fence: fence@, in_table },
            ) == classify(content@),
        decreases lines.len() - i,
    {
        let ghost before = parsed_of(items@);
        let ghost st = BlockState { fence: fence@, in_table };
        let (next_fence, next_table) = classify_line(&mut items, &lines[i], fence, in_table);
        fence = next_fence;
        in_table = next_table;
        proof {
            assert(rows[i as int] == lines@[i as int]@);
            let step = classify_step(rows[i as int], st);
            assert(parsed_of(items@) + classify_from(rows, i + 1, step.state) =~= before
                + classify_from(rows, i as int, st));
        }
        i += 1;
    }
    assert(classify_from(rows, i as int, BlockState { fence: fence@, in_table })
        =~= Seq::<ParsedModel>::empty());
    assert(parsed_of(items@) + Seq::<ParsedModel>::empty() =~= parsed_of(items@));
    items
}

} // verus!
