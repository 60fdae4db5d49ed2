//! What the frame around the content says: the labels of the table of
//! contents, the position of the view, and the line of hints and search
//! state.

use crate::matches::SearchModel;
use crate::style::{run, ColorClass, Style, StyledRun};
use crate::text::{decimal_digits, push_number, push_repeated, repeated};
use crate::toc::TocEntry;
use crate::viewer::{ViewerModel, ViewerState};
use vstd::prelude::*;
use vstd::string::*;

verus! {

/// How an entry of the given level is shown in the table of contents.
pub open spec fn toc_style(level: u8) -> Style {
    if level == 1 {
        Style::colored(ColorClass::Cyan).bold()
    } else if level == 2 {
        Style::colored(ColorClass::Blue).bold()
    } else if level == 3 {
        Style::colored(ColorClass::White)
    } else {
        Style::colored(ColorClass::DarkGray)
    }
}

/// The indentation of an entry of the given level: two spaces for each
/// level below the first.
pub open spec fn toc_indent(level: u8) -> Seq<char> {
    repeated(
        ' ',
        if level >= 1 {
            (2 * (level - 1)) as nat
        } else {
            0
        },
    )
}

/// The label of an entry in the table of contents: its text, indented and
/// styled by its level.
pub fn toc_label(entry: &TocEntry) -> (label: StyledRun)
    ensures
        label@ == run(toc_indent(entry.level) + entry.text@, toc_style(entry.level)),
{
    let level = entry.level;
    let style = if level == 1 {
        Style::colored(ColorClass::Cyan).bold()
    } else if level == 2 {
        Style::colored(ColorClass::Blue).bold()
    } else if level == 3 {
        Style::colored(ColorClass::White)
    } else {
        Style::colored(ColorClass::DarkGray)
    };
    let mut text = String::new();
    let steps: usize = if level >= 1 {
        2 * (level as usize - 1)
    } else {
        0
    };
    push_repeated(&mut text, ' ', steps);
    text.append(entry.text.as_str());
    StyledRun::new(text, style)
}

/// Where the view stands: the first row shown, counted from 1, of the rows
/// there are, counted as one at least.
pub open spec fn position_text(offset: nat, total: nat) -> Seq<char> {
    " "@ + decimal_digits(offset + 1) + "/"@ + decimal_digits(
        if total >= 1 {
            total
        } else {
            1
        },
    ) + " "@
}

/// Says where the view stands, for the frame of the content.
pub fn scroll_info(offset: usize, total: usize) -> (text: String)
    ensures
        text@ == position_text(offset as nat, total as nat),
{
    let mut text = String::new();
    text.append(" ");
    push_number(&mut text, offset as u128 + 1);
    text.append("/");
    push_number(
        &mut text,
        if total >= 1 {
            total as u128
        } else {
            1
        },
    );
    text.append(" ");
    text
}

/// The cursor among the matches, counted from 1, and their number.
pub open spec fn match_count(search: SearchModel) -> Seq<char> {
    "("@ + decimal_digits((search.current_index + 1) as nat) + "/"@ + decimal_digits(
        search.matches.len(),
    ) + ")"@
}

/// The hints that are shown where there is no search.
pub const KEY_HINTS: &'static str =
    " q: quit | Tab: switch focus | j/k: scroll | /: search | Space/PgDn: page down ";

/// The line of hints and search state: in search mode the query as it is
/// typed, with the count of its matches or the word that there are none;
/// else the search that is walked, where there are matches; else the keys.
pub open spec fn status_text(s: ViewerModel) -> Seq<char> {
    if s.search_mode {
        " /"@ + s.search.query + (if s.search.matches.len() > 0 {
            " "@ + match_count(s.search)
        } else if s.search.query.len() > 0 {
            " (no matches)"@
        } else {
            Seq::empty()
        }) + "  [Enter: next | Esc: close]"@
    } else if s.search.matches.len() > 0 {
        " Search: '"@ + s.search.query + "' "@ + match_count(s.search)
            + "  [n/N: next/prev | /: search]"@
    } else {
        KEY_HINTS@
    }
}

/// How the line of hints is shown: as a prompt in search mode, else faintly.
pub open spec fn status_style(s: ViewerModel) -> Style {
    if s.search_mode {
        Style::colored(ColorClass::SearchPrompt)
    } else {
        Style::colored(ColorClass::DarkGray)
    }
}

fn push_match_count(out: &mut String, state: &ViewerState)
    ensures
        final(out)@ == old(out)@ + match_count(state@.search),
{
    out.append("(");
    push_number(out, state.search.current_index as u128 + 1);
    out.append("/");
    push_number(out, state.search.matches.len() as u128);
    out.append(")");
    assert(out@ =~= old(out)@ + match_count(state@.search));
}

/// Makes the line of hints and search state.
pub fn status_bar(state: &ViewerState) -> (line: StyledRun)
    ensures
        line@ == run(status_text(state@), status_style(state@)),
{
    let mut text = String::new();
    if state.search_mode {
        text.append(" /");
        text.append(state.search.query.as_str());
        if state.search.matches.len() > 0 {
            text.append(" ");
            push_match_count(&mut text, state);
        } else if !state.search.query.as_str().is_empty() {
            text.append(" (no matches)");
        }
        text.append("  [Enter: next | Esc: close]");
        assert(text@ =~= status_text(state@));
        StyledRun::new(text, Style::colored(ColorClass::SearchPrompt))
    } else if state.search.matches.len() > 0 {
        text.append(" Search: '");
        text.append(state.search.query.as_str());
        text.append("' ");
        push_match_count(&mut text, state);
        text.append("  [n/N: next/prev | /: search]");
        assert(text@ =~= status_text(state@));
        StyledRun::new(text, Style::colored(ColorClass::DarkGray))
    } else {
        StyledRun::literal(KEY_HINTS, Style::colored(ColorClass::DarkGray))
    }
}

} // verus!
