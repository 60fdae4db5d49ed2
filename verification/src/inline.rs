//! The inline formatter: one line of text to styled runs.

use crate::style::{
    flat_text, lemma_flat_text_push, run, ColorClass, RunModel, Style, StyledLine, StyledRun,
};
use crate::text::{
    find_char, find_char_from, find_pair, find_pair_from, lemma_find_char_from,
    lemma_find_pair_from, push_range, string_from_range, to_chars,
};
use vstd::prelude::*;
use vstd::string::*;

verus! {

/// How inline code is shown.
pub open spec fn code_style() -> Style {
    Style::colored(ColorClass::InlineCode)
}

/// How a bold span is shown.
pub open spec fn bold_style() -> Style {
    Style::plain().bold()
}

/// How an italic span is shown.
pub open spec fn italic_style() -> Style {
    Style::plain().italic()
}

/// How a struck-through span is shown.
pub open spec fn strike_style() -> Style {
    Style::colored(ColorClass::DarkGray).crossed_out()
}

/// How a link's label is shown.
pub open spec fn link_style() -> Style {
    Style::colored(ColorClass::Blue).underlined()
}

/// How the label that stands for an image is shown.
pub open spec fn image_label_style() -> Style {
    Style::colored(ColorClass::Magenta).italic()
}

/// The label that stands for an image with alternative text `alt`.
pub open spec fn image_label(alt: Seq<char>) -> Seq<char> {
    "[Image: "@ + (if alt.len() == 0 {
        "image"@
    } else {
        alt
    }) + "]"@
}

/// What the formatter reads at one position: a styled run, or (with no run)
/// the literal text `line[i..next]`; either way it goes on at `next`.
pub struct Token {
    pub run: Option<RunModel>,
    pub next: int,
}

/// `i`, but no further than the end of `line`.
pub open spec fn capped(line: Seq<char>, i: int) -> int {
    if i < line.len() {
        i
    } else {
        line.len() as int
    }
}

/// A span from `start` up to the next `c`, which is consumed; without a
/// closing `c` the span runs to the end of the line.
pub open spec fn span_until_char(line: Seq<char>, start: int, c: char, style: Style) -> Token {
    let end = find_char_from(line, start, c);
    Token { run: Some(run(line.subrange(start, end), style)), next: capped(line, end + 1) }
}

/// A span from `start` up to the next doubled `c`, which is consumed; without
/// one the span runs to the end of the line.
pub open spec fn span_until_pair(line: Seq<char>, start: int, c: char, style: Style) -> Token {
    let end = find_pair_from(line, start, c);
    Token { run: Some(run(line.subrange(start, end), style)), next: capped(line, end + 2) }
}

/// A bracketed label that begins at `start`, after an opener at `i`. Followed
/// by a parenthesised target it is a link or an image, whose target is read
/// up to `)` and dropped; otherwise what was read stays literal text.
pub open spec fn bracketed(line: Seq<char>, i: int, start: int, image: bool) -> Token {
    let close = find_char_from(line, start, ']');
    if close + 1 < line.len() && line[close + 1] == '(' {
        let label = line.subrange(start, close);
        let end = find_char_from(line, close + 2, ')');
        Token {
            run: Some(
                if image {
                    run(image_label(label), image_label_style())
                } else {
                    run(label, link_style())
                },
            ),
            next: capped(line, end + 1),
        }
    } else {
        Token { run: None, next: capped(line, close + 1) }
    }
}

/// What the formatter reads at `i`.
pub open spec fn token_at(line: Seq<char>, i: int) -> Token
    recommends
        0 <= i < line.len(),
{
    let c = line[i];
    let doubled = i + 1 < line.len() && line[i + 1] == c;
    if c == '`' {
        span_until_char(line, i + 1, '`', code_style())
    } else if c == '*' && doubled {
        span_until_pair(line, i + 2, '*', bold_style())
    } else if c == '*' || c == '_' {
        span_until_char(line, i + 1, c, italic_style())
    } else if c == '~' && doubled {
        span_until_pair(line, i + 2, '~', strike_style())
    } else if c == '!' && i + 1 < line.len() && line[i + 1] == '[' {
        bracketed(line, i, i + 2, true)
    } else if c == '[' {
        bracketed(line, i, i + 1, false)
    } else {
        Token { run: None, next: i + 1 }
    }
}

/// Every token ends after the position it begins at, and within the line.
pub proof fn lemma_token_advances(line: Seq<char>, i: int)
    requires
        0 <= i < line.len(),
    ensures
        i < token_at(line, i).next <= line.len(),
{
    let c = line[i];
    lemma_find_char_from(line, i + 1, c);
    lemma_find_char_from(line, i + 1, '`');
    lemma_find_char_from(line, i + 1, ']');
    if i + 1 < line.len() {
        lemma_find_pair_from(line, i + 2, c);
        lemma_find_char_from(line, i + 2, ']');
        let close = find_char_from(line, i + 2, ']');
        if close + 1 < line.len() {
            lemma_find_char_from(line, close + 2, ')');
        }
    }
    let close = find_char_from(line, i + 1, ']');
    if close + 1 < line.len() {
        lemma_find_char_from(line, close + 2, ')');
    }
}

/// The pending plain text as a run, if there is any.
pub open spec fn flush(plain: Seq<char>) -> Seq<RunModel> {
    if plain.len() == 0 {
        Seq::empty()
    } else {
        seq![run(plain, Style::plain())]
    }
}

/// The runs of `line[i..]`, with `plain` pending in front of them.
pub open spec fn format_from(line: Seq<char>, i: int, plain: Seq<char>) -> Seq<RunModel>
    decreases line.len() - i,
    via format_from_decreases
{
    if i < 0 || i >= line.len() {
        flush(plain)
    } else {
        let t = token_at(line, i);
        match t.run {
            Some(r) => flush(plain) + seq![r] + format_from(line, t.next, Seq::empty()),
            None => format_from(line, t.next, plain + line.subrange(i, t.next)),
        }
    }
}

#[via_fn]
proof fn format_from_decreases(line: Seq<char>, i: int, plain: Seq<char>) {
    if 0 <= i < line.len() {
        lemma_token_advances(line, i);
    }
}

/// The runs of `line`: the line is read from left to right; a marked span
/// becomes a run of its own, and the text between spans a plain run.
pub open spec fn format_line(line: Seq<char>) -> Seq<RunModel> {
    format_from(line, 0, Seq::empty())
}

fn make_image_label(v: &Vec<char>, a: usize, b: usize) -> (s: String)
    requires
        a <= b <= v.len(),
    ensures
        s@ == image_label(v@.subrange(a as int, b as int)),
{
    let mut s = String::new();
    s.append("[Image: ");
    if a == b {
        s.append("image");
    } else {
        push_range(&mut s, v, a, b);
    }
    s.append("]");
    assert(s@ =~= image_label(v@.subrange(a as int, b as int)));
    s
}

fn read_until_char(v: &Vec<char>, start: usize, c: char, style: Style) -> (r: (StyledRun, usize))
    requires
        start <= v.len(),
    ensures
        span_until_char(v@, start as int, c, style) == (Token {
            run: Some(r.0@),
            next: r.1 as int,
        }),
        start <= r.1 <= v.len(),
{
    let end = find_char(v, start, c);
    let text = string_from_range(v, start, end);
    let next = if end < v.len() {
        end + 1
    } else {
        end
    };
    (StyledRun::new(text, style), next)
}

fn read_until_pair(v: &Vec<char>, start: usize, c: char, style: Style) -> (r: (StyledRun, usize))
    requires
        start <= v.len(),
    ensures
        span_until_pair(v@, start as int, c, style) == (Token {
            run: Some(r.0@),
            next: r.1 as int,
        }),
        start <= r.1 <= v.len(),
{
    let end = find_pair(v, start, c);
    let text = string_from_range(v, start, end);
    let next = if end < v.len() {
        end + 2
    } else {
        end
    };
    (StyledRun::new(text, style), next)
}

fn read_bracketed(v: &Vec<char>, i: usize, start: usize, image: bool) -> (r: (
    Option<StyledRun>,
    usize,
))
    requires
        i < start <= v.len(),
    ensures
        bracketed(v@, i as int, start as int, image).next == r.1,
        match bracketed(v@, i as int, start as int, image).run {
            Some(m) => r.0.is_some() && r.0.unwrap()@ == m,
            None => r.0.is_none(),
        },
        start <= r.1 <= v.len(),
{
    let close = find_char(v, start, ']');
    if close < v.len() && close + 1 < v.len() && v[close + 1] == '(' {
        let end = find_char(v, close + 2, ')');
        let next = if end < v.len() {
            end + 1
        } else {
            end
        };
        let made = if image {
            StyledRun::new(
                make_image_label(v, start, close),
                Style::colored(ColorClass::Magenta).italic(),
            )
        } else {
            StyledRun::new(
                string_from_range(v, start, close),
                Style::colored(ColorClass::Blue).underlined(),
            )
        };
        (Some(made), next)
    } else {
        let next = if close < v.len() {
            close + 1
        } else {
            close
        };
        (None, next)
    }
}

fn next_token(v: &Vec<char>, i: usize) -> (r: (Option<StyledRun>, usize))
    requires
        i < v.len(),
    ensures
        token_at(v@, i as int).next == r.1,
        match token_at(v@, i as int).run {
            Some(m) => r.0.is_some() && r.0.unwrap()@ == m,
            None => r.0.is_none(),
        },
        i < r.1 <= v.len(),
{
    let c = v[i];
    let doubled = i + 1 < v.len() && v[i + 1] == c;
    if c == '`' {
        let (made, next) = read_until_char(v, i + 1, '`', Style::colored(ColorClass::InlineCode));
        (Some(made), next)
    } else if c == '*' && doubled {
        let (made, next) = read_until_pair(v, i + 2, '*', Style::plain().bold());
        (Some(made), next)
    } else if c == '*' || c == '_' {
        let (made, next) = read_until_char(v, i + 1, c, Style::plain().italic());
        (Some(made), next)
    } else if c == '~' && doubled {
        let (made, next) = read_until_pair(
            v,
            i + 2,
            '~',
            Style::colored(ColorClass::DarkGray).crossed_out(),
        );
        (Some(made), next)
    } else if c == '!' && i + 1 < v.len() && v[i + 1] == '[' {
        read_bracketed(v, i, i + 2, true)
    } else if c == '[' {
        read_bracketed(v, i, i + 1, false)
    } else {
        (None, i + 1)
    }
}

fn flush_plain(out: &mut StyledLine, plain: String)
    ensures
        final(out)@ == old(out)@ + flush(plain@),
{
    if plain.as_str().is_empty() {
        assert(out@ =~= old(out)@ + flush(plain@));
    } else {
        out.push(StyledRun::new(plain, Style::plain()));
        assert(out@ =~= old(out)@ + flush(plain@));
    }
}

/// Formats the characters of one line.
pub fn format_chars(v: &Vec<char>) -> (line: StyledLine)
    ensures
        line@ == format_line(v@),
{
    let mut out = StyledLine::blank();
    let mut plain = String::new();
    let mut i: usize = 0;
    assert(out@ + format_from(v@, 0, plain@) =~= format_line(v@));
    while i < v.len()
        invariant
            i <= v.len(),
            out@ + format_from(v@, i as int, plain@) == format_line(v@),
        decreases v.len() - i,
    {
        let ghost before = out@;
        let ghost pending = plain@;
        let (made, next) = next_token(v, i);
        match made {
            Some(r) => {
                flush_plain(&mut out, plain);
                out.push(r);
                plain = String::new();
                assert(out@ + format_from(v@, next as int, plain@) =~= before + format_from(
                    v@,
                    i as int,
                    pending,
                ));
            },
            None => {
                push_range(&mut plain, v, i, next);
            },
        }
        i = next;
    }
    flush_plain(&mut out, plain);
    out
}

/// Formats one line of text: inline code between backticks, bold between
/// `**`, italic between single `*` or `_`, strikethrough between `~~`, links
/// and inline images by their label; a span that is not closed runs to the
/// end of the line, and a malformed link or image stays literal text.
pub fn parse_inline_formatting(line: &str) -> (r: StyledLine)
    ensures
        r@ == format_line(line@),
{
    let v = to_chars(line);
    format_chars(&v)
}

/// The characters that can open a marked span.
pub open spec fn is_markup_char(c: char) -> bool {
    c == '`' || c == '*' || c == '_' || c == '~' || c == '!' || c == '['
}

proof fn lemma_plain_rest(line: Seq<char>, i: int, plain: Seq<char>)
    requires
        0 <= i <= line.len(),
        forall|k: int| i <= k < line.len() ==> !is_markup_char(line[k]),
    ensures
        flat_text(format_from(line, i, plain)) == plain + line.subrange(i, line.len() as int),
    decreases line.len() - i,
{
    if i >= line.len() {
        assert(plain + line.subrange(i, line.len() as int) =~= plain);
        if plain.len() > 0 {
            let none = Seq::<RunModel>::empty();
            assert(flush(plain) =~= none.push(run(plain, Style::plain())));
            lemma_flat_text_push(none, run(plain, Style::plain()));
            assert(flat_text(none) + plain =~= plain);
        }
    } else {
        assert(!is_markup_char(line[i]));
        lemma_plain_rest(line, i + 1, plain + line.subrange(i, i + 1));
        assert(plain + line.subrange(i, i + 1) + line.subrange(i + 1, line.len() as int) =~= plain
            + line.subrange(i, line.len() as int));
    }
}

/// Round trip: a line that holds no markup character, formatted and then
/// flattened, is the line again.
pub proof fn lemma_plain_line_round_trip(line: Seq<char>)
    requires
        forall|k: int| 0 <= k < line.len() ==> !is_markup_char(line[k]),
    ensures
        flat_text(format_line(line)) == line,
{
    lemma_plain_rest(line, 0, Seq::empty());
    assert(Seq::<char>::empty() + line.subrange(0, line.len() as int) =~= line);
}

} // verus!
