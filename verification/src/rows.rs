//! The row index: where each element stands among the rows of the document.

use crate::elements::{elements_of, row_height, ContentElement, ElementModel};
use vstd::prelude::*;

verus! {

/// The number of rows that `elements` take together.
pub open spec fn total_rows(elements: Seq<ElementModel>) -> nat
    decreases elements.len(),
{
    if elements.len() == 0 {
        0
    } else {
        total_rows(elements.drop_last()) + row_height(elements.last())
    }
}

/// The absolute row at which element `i` begins: the rows of the elements
/// before it.
pub open spec fn start_row(elements: Seq<ElementModel>, i: int) -> nat {
    total_rows(elements.take(i))
}

/// Element `i` covers the absolute row `row`.
pub open spec fn covers(elements: Seq<ElementModel>, i: int, row: int) -> bool {
    &&& 0 <= i < elements.len()
    &&& start_row(elements, i) <= row < start_row(elements, i) + row_height(elements[i])
}

/// Each element begins where the one before it ends.
pub proof fn lemma_start_row_step(elements: Seq<ElementModel>, i: int)
    requires
        0 <= i < elements.len(),
    ensures
        start_row(elements, i + 1) == start_row(elements, i) + row_height(elements[i]),
        start_row(elements, 0) == 0,
{
    assert(elements.take(i + 1).drop_last() =~= elements.take(i));
    assert(elements.take(0) =~= Seq::<ElementModel>::empty());
}

/// The start rows do not decrease, and every element ends within the total.
pub proof fn lemma_start_row_monotone(elements: Seq<ElementModel>, i: int, j: int)
    requires
        0 <= i <= j <= elements.len(),
    ensures
        start_row(elements, i) <= start_row(elements, j),
        start_row(elements, j) <= total_rows(elements),
        i < j ==> start_row(elements, i) + row_height(elements[i]) <= start_row(elements, j),
    decreases elements.len() - i,
{
    if i < j {
        lemma_start_row_step(elements, i);
        lemma_start_row_monotone(elements, i + 1, j);
    } else {
        if j < elements.len() {
            lemma_start_row_step(elements, j);
            lemma_start_row_monotone(elements, j + 1, elements.len() as int);
        } else {
            assert(elements.take(j) =~= elements);
        }
    }
}

/// The index of the element that covers `row`, searched from `i` on.
pub open spec fn covering_from(elements: Seq<ElementModel>, row: int, i: int) -> int
    decreases elements.len() - i,
{
    if i < 0 || i >= elements.len() {
        elements.len() as int
    } else if row < start_row(elements, i) + row_height(elements[i]) {
        i
    } else {
        covering_from(elements, row, i + 1)
    }
}

proof fn lemma_covering_from(elements: Seq<ElementModel>, row: int, i: int)
    requires
        0 <= i <= elements.len(),
        start_row(elements, i) <= row < total_rows(elements),
    ensures
        covers(elements, covering_from(elements, row, i), row),
    decreases elements.len() - i,
{
    if i == elements.len() {
        assert(elements.take(i) =~= elements);
    } else {
        lemma_start_row_step(elements, i);
        if row >= start_row(elements, i) + row_height(elements[i]) {
            lemma_covering_from(elements, row, i + 1);
        }
    }
}

/// Every row below the total is covered by exactly one element.
pub proof fn lemma_row_covered_once(elements: Seq<ElementModel>, row: int)
    requires
        0 <= row < total_rows(elements),
    ensures
        covers(elements, covering_from(elements, row, 0), row),
        forall|j: int| covers(elements, j, row) ==> j == covering_from(elements, row, 0),
{
    lemma_start_row_step_zero(elements);
    lemma_covering_from(elements, row, 0);
    let i = covering_from(elements, row, 0);
    assert forall|j: int| covers(elements, j, row) implies j == i by {
        if j < i {
            lemma_start_row_monotone(elements, j, i);
        } else if i < j {
            lemma_start_row_monotone(elements, i, j);
        }
    }
}

proof fn lemma_start_row_step_zero(elements: Seq<ElementModel>)
    ensures
        start_row(elements, 0) == 0,
{
    assert(elements.take(0) =~= Seq::<ElementModel>::empty());
}

/// No row at or beyond the total is covered.
pub proof fn lemma_row_beyond_total(elements: Seq<ElementModel>, row: int)
    requires
        row >= total_rows(elements),
    ensures
        forall|j: int| !covers(elements, j, row),
{
    assert forall|j: int| !covers(elements, j, row) by {
        if 0 <= j < elements.len() {
            lemma_start_row_step(elements, j);
            lemma_start_row_monotone(elements, j + 1, elements.len() as int);
        }
    }
}

/// Whether the rows of `elements` can be counted in a `usize`.
pub fn rows_fit(elements: &Vec<ContentElement>) -> (fits: bool)
    ensures
        fits == (total_rows(elements_of(elements@)) <= usize::MAX),
{
    let ghost all = elements_of(elements@);
    let mut total: usize = 0;
    let mut i: usize = 0;
    proof {
        lemma_start_row_step_zero(all);
    }
    while i < elements.len()
        invariant
            i <= elements.len(),
            all == elements_of(elements@),
            total == start_row(all, i as int),
        decreases elements.len() - i,
    {
        let h = elements[i].row_height() as usize;
        proof {
            lemma_start_row_step(all, i as int);
            lemma_start_row_monotone(all, i + 1, all.len() as int);
        }
        if h > usize::MAX - total {
            return false;
        }
        total = total + h;
        i += 1;
    }
    assert(all.take(i as int) =~= all);
    true
}

/// The number of rows that all elements take together.
pub fn total_content_rows(elements: &Vec<ContentElement>) -> (total: usize)
    requires
        total_rows(elements_of(elements@)) <= usize::MAX,
    ensures
        total == total_rows(elements_of(elements@)),
{
    let ghost all = elements_of(elements@);
    let mut total: usize = 0;
    let mut i: usize = 0;
    proof {
        lemma_start_row_step_zero(all);
    }
    while i < elements.len()
        invariant
            i <= elements.len(),
            all == elements_of(elements@),
            total_rows(all) <= usize::MAX,
            total == start_row(all, i as int),
        decreases elements.len() - i,
    {
        let h = elements[i].row_height() as usize;
        proof {
            lemma_start_row_step(all, i as int);
            lemma_start_row_monotone(all, i + 1, all.len() as int);
        }
        total = total + h;
        i += 1;
    }
    assert(all.take(i as int) =~= all);
    total
}

/// The element that covers the absolute row `row`, with the row at which it
/// begins; none where `row` lies beyond the last row.
pub fn element_at_row(elements: &Vec<ContentElement>, row: usize) -> (found: Option<(usize, usize)>)
    requires
        total_rows(elements_of(elements@)) <= usize::MAX,
    ensures
        match found {
            Some((index, start)) => {
                &&& covers(elements_of(elements@), index as int, row as int)
                &&& index == covering_from(elements_of(elements@), row as int, 0)
                &&& start == start_row(elements_of(elements@), index as int)
            },
            None => row >= total_rows(elements_of(elements@)),
        },
{
    let ghost all = elements_of(elements@);
    let mut start: usize = 0;
    let mut i: usize = 0;
    proof {
        lemma_start_row_step_zero(all);
    }
    while i < elements.len()
        invariant
            i <= elements.len(),
            all == elements_of(elements@),
            total_rows(all) <= usize::MAX,
            start == start_row(all, i as int),
            start <= row,
            covering_from(all, row as int, 0) == covering_from(all, row as int, i as int),
        decreases elements.len() - i,
    {
        let h = elements[i].row_height() as usize;
        proof {
            lemma_start_row_step(all, i as int);
            lemma_start_row_monotone(all, i + 1, all.len() as int);
        }
        if row - start < h {
            return Some((i, start));
        }
        start = start + h;
        i += 1;
    }
    assert(all.take(i as int) =~= all);
    None
}

} // verus!
