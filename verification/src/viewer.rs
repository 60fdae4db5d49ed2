//! The viewer's state and how a key changes it: scrolling, the focus on the
//! table of contents, and the search.

use crate::elements::{elements_of, ContentElement, ElementModel};
use crate::matches::{search, search_matches, SearchModel, SearchState};
use crate::rows::{total_content_rows, total_rows};
use crate::scroll::{clamp_offset, clamped_offset};
use crate::toc::{find_heading_row, toc_row, toc_texts, TocEntry};
use vstd::prelude::*;
use vstd::string::*;

verus! {

/// `String::pop` takes the last character off the string and returns it; of
/// an empty string it takes nothing.
pub assume_specification[ String::pop ](s: &mut String) -> (c: Option<char>)
    ensures
        old(s)@.len() == 0 ==> c.is_none() && final(s)@ == old(s)@,
        old(s)@.len() > 0 ==> c == Some(old(s)@.last()) && final(s)@ == old(s)@.drop_last(),
;

/// Where the view stands.
#[derive(Clone, Copy, Debug, PartialEq, Eq, Structural)]
pub struct ScrollState {
    /// The absolute row that the viewport is asked to begin at.
    pub offset: usize,
    /// Whether keys go to the table of contents.
    pub focus_on_toc: bool,
    /// The entry of the table of contents that is selected.
    pub selected_toc_index: usize,
}

impl ScrollState {
    /// Brings the offset back into the valid range for `total` rows and a
    /// viewport of `viewport` rows.
    pub fn clamp_to(&mut self, total: usize, viewport: usize)
        ensures
            final(self).offset == clamped_offset(
                old(self).offset as nat,
                total as nat,
                viewport as nat,
            ),
            final(self).focus_on_toc == old(self).focus_on_toc,
            final(self).selected_toc_index == old(self).selected_toc_index,
    {
        self.offset = clamp_offset(self.offset, total, viewport);
    }
}

/// The state of the viewer.
#[derive(Clone, Debug, PartialEq, Eq)]
pub struct ViewerState {
    pub scroll: ScrollState,
    pub search: SearchState,
    /// Whether typed characters go to the search query.
    pub search_mode: bool,
    /// Whether the viewer was asked to end.
    pub should_quit: bool,
}

/// What a viewer state is.
pub struct ViewerModel {
    pub scroll: ScrollState,
    pub search: SearchModel,
    pub search_mode: bool,
    pub should_quit: bool,
}

impl View for ViewerState {
    type V = ViewerModel;

    open spec fn view(&self) -> ViewerModel {
        ViewerModel {
            scroll: self.scroll,
            search: self.search@,
            search_mode: self.search_mode,
            should_quit: self.should_quit,
        }
    }
}

/// A key, as far as the viewer tells keys apart.
#[derive(Clone, Copy, Debug, PartialEq, Eq, Structural)]
pub enum KeyCode {
    Esc,
    Enter,
    Backspace,
    Char(char),
    Down,
    Up,
    PageDown,
    PageUp,
    Home,
    End,
    Tab,
    Other,
}

/// A key press: the key, and whether Control was held.
#[derive(Clone, Copy, Debug, PartialEq, Eq, Structural)]
pub struct KeyInput {
    pub code: KeyCode,
    pub ctrl: bool,
}

/// The number of rows that a page key moves by.
pub const PAGE_ROWS: usize = 20;

impl ViewerModel {
    /// The state with the view at `offset`.
    pub open spec fn at_offset(self, offset: usize) -> ViewerModel {
        ViewerModel { scroll: ScrollState { offset, ..self.scroll }, ..self }
    }

    /// The state after the search was made anew for its query: the matches
    /// are those of the query among `elements`, the cursor is at the first,
    /// and the view goes to the first match where there is one.
    pub open spec fn searched(self, elements: Seq<ElementModel>) -> ViewerModel {
        let found = search_matches(elements, self.search.query);
        let after = ViewerModel {
            search: SearchModel { query: self.search.query, matches: found, current_index: 0 },
            ..self
        };
        if found.len() > 0 {
            after.at_offset(found[0])
        } else {
            after
        }
    }

    /// The state with the search `search`, the view at its current match
    /// where it has one.
    pub open spec fn at_match(self, search: SearchModel) -> ViewerModel {
        let after = ViewerModel { search, ..self };
        match search.current_row() {
            Some(row) => after.at_offset(row),
            None => after,
        }
    }

    /// The state after a step to the next match.
    pub open spec fn next_match(self) -> ViewerModel {
        self.at_match(self.search.after_next())
    }

    /// The state after a step to the previous match.
    pub open spec fn prev_match(self) -> ViewerModel {
        self.at_match(self.search.after_prev())
    }

    /// The state after the query was set to `query` and searched for.
    pub open spec fn with_query(self, query: Seq<char>, elements: Seq<ElementModel>)
        -> ViewerModel {
        (ViewerModel { search: SearchModel { query, ..self.search }, ..self }).searched(elements)
    }

    /// The state after one step down: the next entry of the table of
    /// contents where the focus is there (the last entry stays), else one
    /// row further.
    pub open spec fn moved_down(self, entries: int) -> ViewerModel {
        if self.scroll.focus_on_toc {
            if self.scroll.selected_toc_index + 1 < entries {
                ViewerModel {
                    scroll: ScrollState {
                        selected_toc_index: (self.scroll.selected_toc_index + 1) as usize,
                        ..self.scroll
                    },
                    ..self
                }
            } else {
                self
            }
        } else {
            self.at_offset(self.scroll.offset.saturating_add(1))
        }
    }

    /// The state after one step up: the entry before where the focus is on
    /// the table of contents, else one row back; the first stays.
    pub open spec fn moved_up(self) -> ViewerModel {
        if self.scroll.focus_on_toc {
            ViewerModel {
                scroll: ScrollState {
                    selected_toc_index: self.scroll.selected_toc_index.saturating_sub(1),
                    ..self.scroll
                },
                ..self
            }
        } else {
            self.at_offset(self.scroll.offset.saturating_sub(1))
        }
    }

    /// The state after the selected heading was asked for: where the focus
    /// is on the table of contents and the heading is found, the view goes to
    /// its row and the focus back to the content.
    pub open spec fn jumped(self, elements: Seq<ElementModel>, headings: Seq<Seq<char>>)
        -> ViewerModel {
        if self.scroll.focus_on_toc {
            match toc_row(elements, headings, self.scroll.selected_toc_index as int) {
                Some(row) => ViewerModel {
                    scroll: ScrollState { offset: row, focus_on_toc: false, ..self.scroll },
                    ..self
                },
                None => self,
            }
        } else {
            self
        }
    }

    /// The state after a key in search mode.
    pub open spec fn after_search_key(self, key: KeyInput, elements: Seq<ElementModel>)
        -> ViewerModel {
        match key.code {
            KeyCode::Esc => ViewerModel {
                search_mode: false,
                search: SearchModel {
                    query: Seq::empty(),
                    matches: Seq::empty(),
                    current_index: 0,
                },
                ..self
            },
            KeyCode::Enter => self.next_match(),
            KeyCode::Backspace => self.with_query(
                if self.search.query.len() > 0 {
                    self.search.query.drop_last()
                } else {
                    self.search.query
                },
                elements,
            ),
            KeyCode::Char(c) => self.with_query(self.search.query.push(c), elements),
            _ => self,
        }
    }

    /// The state after a character key outside search mode.
    pub open spec fn after_char(
        self,
        c: char,
        ctrl: bool,
        elements: Seq<ElementModel>,
        entries: int,
    ) -> ViewerModel {
        if c == 'q' || (c == 'c' && ctrl) {
            ViewerModel { should_quit: true, ..self }
        } else if (c == 'f' && ctrl) || c == '/' {
            ViewerModel { search_mode: true, ..self }
        } else if c == 'n' {
            self.next_match()
        } else if c == 'N' {
            self.prev_match()
        } else if c == 'j' {
            self.moved_down(entries)
        } else if c == 'k' {
            self.moved_up()
        } else if c == ' ' {
            self.at_offset(self.scroll.offset.saturating_add(PAGE_ROWS))
        } else if c == 'g' {
            self.at_offset(0)
        } else if c == 'G' {
            self.at_offset((total_rows(elements) as usize).saturating_sub(1))
        } else {
            self
        }
    }

    /// The state after a key outside search mode.
    pub open spec fn after_normal_key(
        self,
        key: KeyInput,
        elements: Seq<ElementModel>,
        headings: Seq<Seq<char>>,
    ) -> ViewerModel {
        match key.code {
            KeyCode::Esc => ViewerModel { should_quit: true, ..self },
            KeyCode::Char(c) => self.after_char(c, key.ctrl, elements, headings.len() as int),
            KeyCode::Down => self.moved_down(headings.len() as int),
            KeyCode::Up => self.moved_up(),
            KeyCode::PageDown => self.at_offset(self.scroll.offset.saturating_add(PAGE_ROWS)),
            KeyCode::PageUp => self.at_offset(self.scroll.offset.saturating_sub(PAGE_ROWS)),
            KeyCode::Home => self.at_offset(0),
            KeyCode::End => self.at_offset((total_rows(elements) as usize).saturating_sub(1)),
            KeyCode::Tab => ViewerModel {
                scroll: ScrollState { focus_on_toc: !self.scroll.focus_on_toc, ..self.scroll },
                ..self
            },
            KeyCode::Enter => self.jumped(elements, headings),
            _ => self,
        }
    }

    /// The state after a key.
    pub open spec fn after_key(
        self,
        key: KeyInput,
        elements: Seq<ElementModel>,
        headings: Seq<Seq<char>>,
    ) -> ViewerModel {
        if self.search_mode {
            self.after_search_key(key, elements)
        } else {
            self.after_normal_key(key, elements, headings)
        }
    }
}

/// Idempotence: a search made anew twice for the same query over the same
/// elements leaves the state that the first left: the same matches, the same
/// cursor, the same view.
pub proof fn lemma_search_idempotent(s: ViewerModel, elements: Seq<ElementModel>)
    ensures
        s.searched(elements).searched(elements) == s.searched(elements),
{
}

/// Makes the search anew for the state's query: all matches are replaced,
/// the cursor goes to the first, and the view to the first match where there
/// is one.
pub fn update_search_matches(state: &mut ViewerState, elements: &Vec<ContentElement>)
    requires
        total_rows(elements_of(elements@)) <= usize::MAX,
    ensures
        final(state)@ == old(state)@.searched(elements_of(elements@)),
        final(state)@.search.wf(),
        final(state)@.search.ascending(),
{
    state.search.matches = search(elements, state.search.query.as_str());
    state.search.current_index = 0;
    if state.search.matches.len() > 0 {
        state.scroll.offset = state.search.matches[0];
    }
}

impl ViewerState {
    /// The state in which the viewer begins.
    pub fn new() -> (s: ViewerState)
        ensures
            s@ == (ViewerModel {
                scroll: ScrollState { offset: 0, focus_on_toc: false, selected_toc_index: 0 },
                search: SearchModel {
                    query: Seq::empty(),
                    matches: Seq::empty(),
                    current_index: 0,
                },
                search_mode: false,
                should_quit: false,
            }),
            s@.search.wf(),
    {
        ViewerState {
            scroll: ScrollState { offset: 0, focus_on_toc: false, selected_toc_index: 0 },
            search: SearchState::new(),
            search_mode: false,
            should_quit: false,
        }
    }

    /// Steps to the next match and shows it.
    pub fn next_match(&mut self)
        requires
            old(self)@.search.wf(),
        ensures
            final(self)@ == old(self)@.next_match(),
            final(self)@.search.wf(),
    {
        match self.search.next() {
            Some(row) => {
                self.scroll.offset = row;
            },
            None => {},
        }
    }

    /// Steps to the previous match and shows it.
    pub fn prev_match(&mut self)
        requires
            old(self)@.search.wf(),
        ensures
            final(self)@ == old(self)@.prev_match(),
            final(self)@.search.wf(),
    {
        match self.search.prev() {
            Some(row) => {
                self.scroll.offset = row;
            },
            None => {},
        }
    }

    fn move_down(&mut self, entries: usize)
        ensures
            final(self)@ == old(self)@.moved_down(entries as int),
    {
        if self.scroll.focus_on_toc {
            if self.scroll.selected_toc_index < entries.saturating_sub(1) {
                self.scroll.selected_toc_index += 1;
            }
        } else {
            self.scroll.offset = self.scroll.offset.saturating_add(1);
        }
    }

    fn move_up(&mut self)
        ensures
            final(self)@ == old(self)@.moved_up(),
    {
        if self.scroll.focus_on_toc {
            self.scroll.selected_toc_index = self.scroll.selected_toc_index.saturating_sub(1);
        } else {
            self.scroll.offset = self.scroll.offset.saturating_sub(1);
        }
    }

    fn search_key(&mut self, key: KeyInput, elements: &Vec<ContentElement>)
        requires
            old(self)@.search.wf(),
            total_rows(elements_of(elements@)) <= usize::MAX,
        ensures
            final(self)@ == old(self)@.after_search_key(key, elements_of(elements@)),
            final(self)@.search.wf(),
    {
        match key.code {
            KeyCode::Esc => {
                self.search_mode = false;
                self.search = SearchState::new();
            },
            KeyCode::Enter => {
                self.next_match();
            },
            KeyCode::Backspace => {
                self.search.query.pop();
                update_search_matches(self, elements);
            },
            KeyCode::Char(c) => {
                self.search.query.push(c);
                update_search_matches(self, elements);
            },
            _ => {},
        }
    }

    fn char_key(&mut self, c: char, ctrl: bool, elements: &Vec<ContentElement>, entries: usize)
        requires
            old(self)@.search.wf(),
            total_rows(elements_of(elements@)) <= usize::MAX,
        ensures
            final(self)@ == old(self)@.after_char(
                c,
                ctrl,
                elements_of(elements@),
                entries as int,
            ),
            final(self)@.search.wf(),
    {
        if c == 'q' || (c == 'c' && ctrl) {
            self.should_quit = true;
        } else if (c == 'f' && ctrl) || c == '/' {
            self.search_mode = true;
        } else if c == 'n' {
            self.next_match();
        } else if c == 'N' {
            self.prev_match();
        } else if c == 'j' {
            self.move_down(entries);
        } else if c == 'k' {
            self.move_up();
        } else if c == ' ' {
            self.scroll.offset = self.scroll.offset.saturating_add(PAGE_ROWS);
        } else if c == 'g' {
            self.scroll.offset = 0;
        } else if c == 'G' {
            self.scroll.offset = total_content_rows(elements).saturating_sub(1);
        }
    }

    /// Changes the state as the key `key` asks, given the content elements
    /// and the table of contents that are shown.
    pub fn handle_key(
        &mut self,
        key: KeyInput,
        elements: &Vec<ContentElement>,
        toc_entries: &Vec<TocEntry>,
    )
        requires
            old(self)@.search.wf(),
            total_rows(elements_of(elements@)) <= usize::MAX,
        ensures
            final(self)@ == old(self)@.after_key(
                key,
                elements_of(elements@),
                toc_texts(toc_entries@),
            ),
            final(self)@.search.wf(),
    {
        if self.search_mode {
            self.search_key(key, elements);
            return ;
        }
        match key.code {
            KeyCode::Esc => {
                self.should_quit = true;
            },
            KeyCode::Char(c) => {
                self.char_key(c, key.ctrl, elements, toc_entries.len());
            },
            KeyCode::Down => {
                self.move_down(toc_entries.len());
            },
            KeyCode::Up => {
                self.move_up();
            },
            KeyCode::PageDown => {
                self.scroll.offset = self.scroll.offset.saturating_add(PAGE_ROWS);
            },
            KeyCode::PageUp => {
                self.scroll.offset = self.scroll.offset.saturating_sub(PAGE_ROWS);
            },
            KeyCode::Home => {
                self.scroll.offset = 0;
            },
            KeyCode::End => {
                self.scroll.offset = total_content_rows(elements).saturating_sub(1);
            },
            KeyCode::Tab => {
                self.scroll.focus_on_toc = !self.scroll.focus_on_toc;
            },
            KeyCode::Enter => {
                if self.scroll.focus_on_toc {
                    match find_heading_row(elements, toc_entries, self.scroll.selected_toc_index) {
                        Some(row) => {
                            self.scroll.offset = row;
                            self.scroll.focus_on_toc = false;
                        },
                        None => {},
                    }
                }
            },
            _ => {},
        }
    }
}

} // verus!
