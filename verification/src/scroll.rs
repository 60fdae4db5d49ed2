//! The scroll controller: the valid range of the scroll offset and the
//! elements that a viewport shows.

use crate::elements::{elements_of, row_height, ContentElement, ElementModel};
use crate::rows::{
    lemma_start_row_monotone, lemma_start_row_step, start_row, total_content_rows, total_rows,
};
use vstd::prelude::*;

verus! {

/// The greatest offset at which a viewport of `viewport` rows still ends
/// within `total` rows.
pub open spec fn max_offset(total: nat, viewport: nat) -> nat {
    if total > viewport {
        (total - viewport) as nat
    } else {
        0
    }
}

/// The offset that is used for a requested one: the request, but no more
/// than the greatest valid offset.
pub open spec fn clamped_offset(requested: nat, total: nat, viewport: nat) -> nat {
    if requested <= max_offset(total, viewport) {
        requested
    } else {
        max_offset(total, viewport)
    }
}

/// Clamps a requested offset to the valid range.
pub fn clamp_offset(requested: usize, total: usize, viewport: usize) -> (offset: usize)
    ensures
        offset == clamped_offset(requested as nat, total as nat, viewport as nat),
        0 <= offset <= max_offset(total as nat, viewport as nat),
        offset <= requested,
{
    let max = if total > viewport {
        total - viewport
    } else {
        0
    };
    if requested <= max {
        requested
    } else {
        max
    }
}

/// One element as the viewport shows it.
#[derive(Clone, Copy, Debug, PartialEq, Eq, Structural)]
pub struct VisibleItem {
    /// The index of the element.
    pub index: usize,
    /// The absolute row at which the element begins.
    pub row: usize,
    /// The row of the viewport at which it is shown.
    pub y: u16,
    /// The number of its rows that are shown.
    pub rows: u16,
    /// The number of its leading rows that are left out: always 0, since an
    /// element that the upper edge cuts is not shown at all.
    pub skipped: u16,
}

/// `a`, but no more than `b`.
pub open spec fn min_int(a: int, b: int) -> int {
    if a <= b {
        a
    } else {
        b
    }
}

/// What a viewport of `viewport` rows at `offset` shows of the elements from
/// `i` on, when its next free row is `y`. An element that begins above the
/// offset is left out, also a block that reaches into the viewport; every
/// other element is shown, as long as a row is free, with as many of its
/// rows as fit.
pub open spec fn visible_from(
    elements: Seq<ElementModel>,
    offset: int,
    viewport: int,
    i: int,
    y: int,
) -> Seq<VisibleItem>
    decreases elements.len() - i,
{
    if i < 0 || i >= elements.len() || y >= viewport {
        Seq::empty()
    } else {
        let rows = min_int(row_height(elements[i]) as int, viewport - y);
        if start_row(elements, i) < offset || rows <= 0 {
            visible_from(elements, offset, viewport, i + 1, y)
        } else {
            seq![
                VisibleItem {
                    index: i as usize,
                    row: start_row(elements, i) as usize,
                    y: y as u16,
                    rows: rows as u16,
                    skipped: 0,
                },
            ] + visible_from(elements, offset, viewport, i + 1, y + rows)
        }
    }
}

/// What a viewport of `viewport` rows at `offset` shows of `elements`.
pub open spec fn visible(elements: Seq<ElementModel>, offset: int, viewport: int) -> Seq<
    VisibleItem,
> {
    visible_from(elements, offset, viewport, 0, 0)
}

proof fn lemma_visible_from_within(
    elements: Seq<ElementModel>,
    offset: int,
    viewport: int,
    i: int,
    y: int,
    k: int,
)
    requires
        0 <= i,
        0 <= y <= viewport <= u16::MAX,
        elements.len() <= usize::MAX,
        total_rows(elements) <= usize::MAX,
        0 <= k < visible_from(elements, offset, viewport, i, y).len(),
    ensures
        ({
            let item = visible_from(elements, offset, viewport, i, y)[k];
            &&& i <= item.index < elements.len()
            &&& item.row == start_row(elements, item.index as int)
            &&& offset <= item.row
            &&& 1 <= item.rows <= row_height(elements[item.index as int])
            &&& y <= item.y
            &&& item.y + item.rows <= viewport
            &&& item.skipped == 0
        }),
    decreases elements.len() - i,
{
    if i < elements.len() && y < viewport {
        lemma_start_row_monotone(elements, i, elements.len() as int);
        let rows = min_int(row_height(elements[i]) as int, viewport - y);
        if start_row(elements, i) < offset || rows <= 0 {
            lemma_visible_from_within(elements, offset, viewport, i + 1, y, k);
        } else if k > 0 {
            lemma_visible_from_within(elements, offset, viewport, i + 1, y + rows, k - 1);
        }
    }
}

/// Every element that is shown lies within the viewport: it begins at or
/// below the offset, it is shown with at least one of its rows and from its
/// first row on, and its rows end within the viewport.
pub proof fn lemma_visible_within(
    elements: Seq<ElementModel>,
    offset: int,
    viewport: int,
    k: int,
)
    requires
        0 <= viewport <= u16::MAX,
        elements.len() <= usize::MAX,
        total_rows(elements) <= usize::MAX,
        0 <= k < visible(elements, offset, viewport).len(),
    ensures
        ({
            let item = visible(elements, offset, viewport)[k];
            &&& item.index < elements.len()
            &&& item.row == start_row(elements, item.index as int)
            &&& offset <= item.row
            &&& 1 <= item.rows <= row_height(elements[item.index as int])
            &&& item.y + item.rows <= viewport
            &&& item.skipped == 0
        }),
{
    lemma_visible_from_within(elements, offset, viewport, 0, 0, k);
}

/// Computes the window that a viewport shows: the requested offset is first
/// clamped to the valid range, and the result holds the offset that was used
/// and the elements that are shown, in order.
pub fn compute_visible(elements: &Vec<ContentElement>, requested: usize, viewport: u16) -> (r: (
    usize,
    Vec<VisibleItem>,
))
    requires
        total_rows(elements_of(elements@)) <= usize::MAX,
    ensures
        r.0 == clamped_offset(
            requested as nat,
            total_rows(elements_of(elements@)),
            viewport as nat,
        ),
        r.1@ == visible(elements_of(elements@), r.0 as int, viewport as int),
{
    let ghost all = elements_of(elements@);
    let total = total_content_rows(elements);
    let offset = clamp_offset(requested, total, viewport as usize);
    let mut shown: Vec<VisibleItem> = Vec::new();
    let mut start: usize = 0;
    let mut y: u16 = 0;
    let mut i: usize = 0;
    proof {
        assert(all.take(0) =~= Seq::<ElementModel>::empty());
        assert(shown@ + visible_from(all, offset as int, viewport as int, 0, 0) =~= visible(
            all,
            offset as int,
            viewport as int,
        ));
    }
    while i < elements.len() && y < viewport
        invariant
            i <= elements.len(),
            all == elements_of(elements@),
            total_rows(all) <= usize::MAX,
            start == start_row(all, i as int),
            y <= viewport,
            shown@ + visible_from(all, offset as int, viewport as int, i as int, y as int)
                == visible(all, offset as int, viewport as int),
        decreases elements.len() - i,
    {
        let height = elements[i].row_height();
        proof {
            lemma_start_row_step(all, i as int);
            lemma_start_row_monotone(all, i + 1, all.len() as int);
        }
        let free = viewport - y;
        let rows = if height <= free {
            height
        } else {
            free
        };
        if start >= offset && rows > 0 {
            let ghost before = shown@;
            shown.push(VisibleItem { index: i, row: start, y, rows, skipped: 0 });
            assert(shown@ + visible_from(
                all,
                offset as int,
                viewport as int,
                i + 1,
                y as int + rows as int,
            ) =~= before + visible_from(all, offset as int, viewport as int, i as int, y as int));
            y = y + rows;
        }
        start = start + height as usize;
        i += 1;
    }
    proof {
        assert(visible_from(all, offset as int, viewport as int, i as int, y as int)
            =~= Seq::<VisibleItem>::empty());
        assert(shown@ + Seq::<VisibleItem>::empty() =~= shown@);
    }
    (offset, shown)
}

} // verus!
