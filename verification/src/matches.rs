//! The search engine over content elements: the rows whose text holds a
//! query, and the cursor that walks them in a cycle.

use crate::elements::{elements_of, row_text, ContentElement, ElementModel};
use crate::rows::{lemma_start_row_monotone, lemma_start_row_step, start_row, total_rows};
use crate::style::flat_text;
use crate::text::{contains, contains_seq, lowercase, to_chars, to_lowercase};
use vstd::arithmetic::div_mod::{lemma_mod_self_0, lemma_small_mod};
use vstd::prelude::*;
use vstd::string::*;

verus! {

/// The element's text, in lowercase, holds `needle`. A block has no text.
pub open spec fn row_matches(e: ElementModel, needle: Seq<char>) -> bool {
    match row_text(e) {
        Some(l) => contains_seq(lowercase(flat_text(l)), needle),
        None => false,
    }
}

/// The start rows of those of the first `n` elements that match `needle`, in
/// order.
pub open spec fn matches_upto(elements: Seq<ElementModel>, needle: Seq<char>, n: int) -> Seq<usize>
    decreases n,
{
    if n <= 0 {
        Seq::empty()
    } else {
        let before = matches_upto(elements, needle, n - 1);
        if row_matches(elements[n - 1], needle) {
            before.push(start_row(elements, n - 1) as usize)
        } else {
            before
        }
    }
}

/// The rows that a search for `query` finds: one for each text or
/// placeholder element whose text holds the query, letter case aside, at the
/// row where the element begins. An empty query finds nothing.
pub open spec fn search_matches(elements: Seq<ElementModel>, query: Seq<char>) -> Seq<usize> {
    if query.len() == 0 {
        Seq::empty()
    } else {
        matches_upto(elements, lowercase(query), elements.len() as int)
    }
}

/// Whether the text of `element` holds `needle`, which is in lowercase.
pub fn element_matches(element: &ContentElement, needle: &Vec<char>) -> (found: bool)
    ensures
        found == row_matches(element@, needle@),
{
    match element {
        ContentElement::TextLine(l) => {
            let text = l.text();
            let lower = to_chars(to_lowercase(text.as_str()).as_str());
            contains(&lower, needle)
        },
        ContentElement::Image { .. } => false,
        ContentElement::ImagePlaceholder(l) => {
            let text = l.text();
            let lower = to_chars(to_lowercase(text.as_str()).as_str());
            contains(&lower, needle)
        },
    }
}

/// Finds the rows that hold `query`, letter case aside, in ascending order.
pub fn search(elements: &Vec<ContentElement>, query: &str) -> (rows: Vec<usize>)
    requires
        total_rows(elements_of(elements@)) <= usize::MAX,
    ensures
        rows@ == search_matches(elements_of(elements@), query@),
        forall|a: int, b: int| 0 <= a < b < rows.len() ==> rows[a] < rows[b],
{
    let mut rows: Vec<usize> = Vec::new();
    if query.is_empty() {
        return rows;
    }
    let ghost all = elements_of(elements@);
    let needle = to_chars(to_lowercase(query).as_str());
    let mut start: usize = 0;
    let mut i: usize = 0;
    proof {
        assert(all.take(0) =~= Seq::<ElementModel>::empty());
    }
    while i < elements.len()
        invariant
            i <= elements.len(),
            all == elements_of(elements@),
            total_rows(all) <= usize::MAX,
            needle@ == lowercase(query@),
            start == start_row(all, i as int),
            rows@ == matches_upto(all, needle@, i as int),
            forall|a: int| 0 <= a < rows.len() ==> rows[a] < start,
            forall|a: int, b: int| 0 <= a < b < rows.len() ==> rows[a] < rows[b],
        decreases elements.len() - i,
    {
        proof {
            lemma_start_row_step(all, i as int);
            lemma_start_row_monotone(all, i + 1, all.len() as int);
        }
        let height = elements[i].row_height() as usize;
        if element_matches(&elements[i], &needle) {
            rows.push(start);
        }
        start = start + height;
        i += 1;
    }
    rows
}

/// The state of a search: the query, the rows it found, and the cursor.
#[derive(Clone, Debug, PartialEq, Eq)]
pub struct SearchState {
    pub query: String,
    pub matches: Vec<usize>,
    pub current_index: usize,
}

/// What a search state is.
pub struct SearchModel {
    pub query: Seq<char>,
    pub matches: Seq<usize>,
    pub current_index: int,
}

impl View for SearchState {
    type V = SearchModel;

    open spec fn view(&self) -> SearchModel {
        SearchModel {
            query: self.query@,
            matches: self.matches@,
            current_index: self.current_index as int,
        }
    }
}

/// The cursor after `current` among `count` matches, past the last the first.
pub open spec fn next_index(current: int, count: int) -> int {
    (current + 1) % count
}

/// The cursor before `current` among `count` matches, before the first the
/// last.
pub open spec fn prev_index(current: int, count: int) -> int {
    if current == 0 {
        count - 1
    } else {
        current - 1
    }
}

impl SearchModel {
    /// The cursor points at a match wherever there is one.
    pub open spec fn wf(self) -> bool {
        &&& 0 <= self.current_index
        &&& self.matches.len() > 0 ==> self.current_index < self.matches.len()
    }

    /// The state after a step to the next match; without matches, the same.
    pub open spec fn after_next(self) -> SearchModel {
        if self.matches.len() == 0 {
            self
        } else {
            SearchModel {
                current_index: next_index(self.current_index, self.matches.len() as int),
                ..self
            }
        }
    }

    /// The state after a step to the previous match; without matches, the
    /// same.
    pub open spec fn after_prev(self) -> SearchModel {
        if self.matches.len() == 0 {
            self
        } else {
            SearchModel {
                current_index: prev_index(self.current_index, self.matches.len() as int),
                ..self
            }
        }
    }

    /// The state after `k` steps to the next match.
    pub open spec fn after_next_times(self, k: nat) -> SearchModel
        decreases k,
    {
        if k == 0 {
            self
        } else {
            self.after_next_times((k - 1) as nat).after_next()
        }
    }

    /// The state after `k` steps to the previous match.
    pub open spec fn after_prev_times(self, k: nat) -> SearchModel
        decreases k,
    {
        if k == 0 {
            self
        } else {
            self.after_prev_times((k - 1) as nat).after_prev()
        }
    }

    /// The matches stand in ascending order, none twice.
    pub open spec fn ascending(self) -> bool {
        forall|a: int, b: int| 0 <= a < b < self.matches.len() ==> self.matches[a] < self.matches[b]
    }

    /// The row of the current match, if there is one.
    pub open spec fn current_row(self) -> Option<usize> {
        if self.matches.len() == 0 {
            None
        } else {
            Some(self.matches[self.current_index])
        }
    }
}

proof fn lemma_next_index(current: int, count: int)
    requires
        0 <= current < count,
    ensures
        next_index(current, count) == if current + 1 == count {
            0
        } else {
            current + 1
        },
{
    if current + 1 == count {
        lemma_mod_self_0(count);
    } else {
        lemma_small_mod((current + 1) as nat, count as nat);
    }
}

proof fn lemma_next_times(s: SearchModel, k: nat)
    requires
        s.wf(),
        s.matches.len() > 0,
        k <= s.matches.len(),
    ensures
        s.after_next_times(k) == (SearchModel {
            current_index: if s.current_index + k < s.matches.len() {
                s.current_index + k
            } else {
                s.current_index + k - s.matches.len()
            },
            ..s
        }),
    decreases k,
{
    if k > 0 {
        lemma_next_times(s, (k - 1) as nat);
        let before = s.after_next_times((k - 1) as nat);
        lemma_next_index(before.current_index, s.matches.len() as int);
    }
}

proof fn lemma_prev_times(s: SearchModel, k: nat)
    requires
        s.wf(),
        s.matches.len() > 0,
        k <= s.matches.len(),
    ensures
        s.after_prev_times(k) == (SearchModel {
            current_index: if s.current_index >= k {
                s.current_index - k
            } else {
                s.current_index + s.matches.len() - k
            },
            ..s
        }),
    decreases k,
{
    if k > 0 {
        lemma_prev_times(s, (k - 1) as nat);
    }
}

/// Cyclic navigation: as many steps to the next match as there are matches
/// lead back to the state they began in, cursor included.
pub proof fn lemma_next_cycles(s: SearchModel)
    requires
        s.wf(),
    ensures
        s.after_next_times(s.matches.len()) == s,
{
    if s.matches.len() > 0 {
        lemma_next_times(s, s.matches.len());
    }
}

/// Cyclic navigation: as many steps to the previous match as there are
/// matches lead back to the state they began in, cursor included.
pub proof fn lemma_prev_cycles(s: SearchModel)
    requires
        s.wf(),
    ensures
        s.after_prev_times(s.matches.len()) == s,
{
    if s.matches.len() > 0 {
        lemma_prev_times(s, s.matches.len());
    }
}

/// How a row is marked for a search.
#[derive(Clone, Copy, Debug, PartialEq, Eq, Structural)]
pub enum Highlight {
    /// The row is no match.
    Plain,
    /// The row is a match, not the current one.
    Match,
    /// The row is the current match.
    Current,
}

/// How `row` is marked: as the current match where the cursor points at it,
/// as a match where the search found it, else not at all.
pub open spec fn highlight_of(s: SearchModel, row: usize) -> Highlight {
    if !s.matches.contains(row) {
        Highlight::Plain
    } else if 0 <= s.current_index < s.matches.len() && s.matches[s.current_index] == row {
        Highlight::Current
    } else {
        Highlight::Match
    }
}

impl SearchState {
    /// The state of no search.
    pub fn new() -> (s: SearchState)
        ensures
            s@ == (SearchModel { query: Seq::empty(), matches: Seq::empty(), current_index: 0 }),
            s@.wf(),
    {
        SearchState { query: String::new(), matches: Vec::new(), current_index: 0 }
    }

    /// Moves the cursor to the next match, past the last to the first, and
    /// returns the row of the match it then points at. Without matches it
    /// does nothing.
    pub fn next(&mut self) -> (row: Option<usize>)
        requires
            old(self)@.wf(),
        ensures
            final(self)@ == old(self)@.after_next(),
            final(self)@.wf(),
            row == final(self)@.current_row(),
    {
        if self.matches.len() == 0 {
            return None;
        }
        proof {
            lemma_next_index(self.current_index as int, self.matches.len() as int);
        }
        self.current_index = (self.current_index + 1) % self.matches.len();
        Some(self.matches[self.current_index])
    }

    /// Moves the cursor to the previous match, before the first to the last,
    /// and returns the row of the match it then points at. Without matches
    /// it does nothing.
    pub fn prev(&mut self) -> (row: Option<usize>)
        requires
            old(self)@.wf(),
        ensures
            final(self)@ == old(self)@.after_prev(),
            final(self)@.wf(),
            row == final(self)@.current_row(),
    {
        if self.matches.len() == 0 {
            return None;
        }
        self.current_index = if self.current_index == 0 {
            self.matches.len() - 1
        } else {
            self.current_index - 1
        };
        Some(self.matches[self.current_index])
    }

    /// How `row` is to be marked.
    pub fn highlight(&self, row: usize) -> (h: Highlight)
        ensures
            h == highlight_of(self@, row),
    {
        let mut found = false;
        let mut i: usize = 0;
        while i < self.matches.len()
            invariant
                i <= self.matches.len(),
                found == self.matches@.take(i as int).contains(row),
            decreases self.matches.len() - i,
        {
            if self.matches[i] == row {
                found = true;
            }
            proof {
                let upto = self.matches@.take(i + 1);
                if found {
                    if self.matches@[i as int] == row {
                        assert(upto[i as int] == row);
                    } else {
                        let k = choose|k: int|
                            0 <= k < i && self.matches@.take(i as int)[k] == row;
                        assert(upto[k] == row);
                    }
                } else {
                    assert forall|k: int| 0 <= k < i + 1 implies upto[k] != row by {
                        if k < i {
                            assert(self.matches@.take(i as int)[k] == upto[k]);
                        }
                    }
                }
            }
            i += 1;
        }
        assert(self.matches@.take(i as int) =~= self.matches@);
        if !found {
            Highlight::Plain
        } else if self.current_index < self.matches.len() && self.matches[self.current_index]
            == row {
            Highlight::Current
        } else {
            Highlight::Match
        }
    }
}

} // verus!
