use mdr::elements::ContentElement;
use mdr::scroll::{clamp_offset, compute_visible, VisibleItem};
use mdr::style::{Style, StyledLine, StyledRun};

fn text(s: &str) -> ContentElement {
    ContentElement::TextLine(StyledLine {
        runs: vec![StyledRun { text: s.to_string(), style: Style::plain() }],
    })
}

fn block(height: u16) -> ContentElement {
    ContentElement::Image { handle: 0, height }
}

fn item(index: usize, row: usize, y: u16, rows: u16) -> VisibleItem {
    VisibleItem { index, row, y, rows, skipped: 0 }
}

#[test]
fn offset_is_clamped_to_the_last_full_viewport() {
    assert_eq!(clamp_offset(95, 100, 20), 80);
    assert_eq!(clamp_offset(80, 100, 20), 80);
    assert_eq!(clamp_offset(79, 100, 20), 79);
    assert_eq!(clamp_offset(0, 100, 20), 0);
    assert_eq!(clamp_offset(usize::MAX, 100, 20), 80);
}

#[test]
fn offset_is_zero_where_everything_fits() {
    assert_eq!(clamp_offset(5, 10, 20), 0);
    assert_eq!(clamp_offset(5, 20, 20), 0);
    assert_eq!(clamp_offset(5, 0, 0), 0);
    assert_eq!(clamp_offset(5, 21, 20), 1);
}

#[test]
fn hundred_rows_at_offset_95_show_the_last_twenty() {
    let elements: Vec<ContentElement> = (0..100).map(|i| text(&format!("row {}", i))).collect();
    let (offset, shown) = compute_visible(&elements, 95, 20);
    assert_eq!(offset, 80);
    assert_eq!(shown.len(), 20);
    for (k, v) in shown.iter().enumerate() {
        assert_eq!(*v, item(80 + k, 80 + k, k as u16, 1));
    }
}

#[test]
fn window_begins_at_the_offset() {
    let elements: Vec<ContentElement> = (0..10).map(|i| text(&format!("row {}", i))).collect();
    let (offset, shown) = compute_visible(&elements, 3, 4);
    assert_eq!(offset, 3);
    assert_eq!(shown, vec![item(3, 3, 0, 1), item(4, 4, 1, 1), item(5, 5, 2, 1), item(6, 6, 3, 1)]);
}

#[test]
fn short_document_is_shown_whole() {
    let elements = vec![text("a"), block(3), text("b")];
    let (offset, shown) = compute_visible(&elements, 7, 20);
    assert_eq!(offset, 0);
    assert_eq!(shown, vec![item(0, 0, 0, 1), item(1, 1, 1, 3), item(2, 4, 4, 1)]);
}

#[test]
fn block_cut_by_the_upper_edge_is_left_out() {
    let elements = vec![text("a"), block(5), text("b"), text("c"), text("d"), text("e")];
    let (offset, shown) = compute_visible(&elements, 3, 4);
    assert_eq!(offset, 3);
    assert_eq!(shown, vec![item(2, 6, 0, 1), item(3, 7, 1, 1), item(4, 8, 2, 1), item(5, 9, 3, 1)]);
}

#[test]
fn block_cut_by_the_lower_edge_is_shown_in_part() {
    let elements = vec![text("a"), text("b"), block(10), text("c")];
    let (offset, shown) = compute_visible(&elements, 1, 4);
    assert_eq!(offset, 1);
    assert_eq!(shown, vec![item(1, 1, 0, 1), item(2, 2, 1, 3)]);
}

#[test]
fn empty_viewport_or_document_shows_nothing() {
    let elements = vec![text("a"), text("b")];
    assert_eq!(compute_visible(&elements, 1, 0), (1, vec![]));
    assert_eq!(compute_visible(&elements, 5, 0), (2, vec![]));
    assert_eq!(compute_visible(&Vec::new(), 5, 10), (0, vec![]));
}

#[test]
fn block_without_height_is_never_shown() {
    let elements = vec![block(0), text("a"), block(0), text("b")];
    let (offset, shown) = compute_visible(&elements, 0, 5);
    assert_eq!(offset, 0);
    assert_eq!(shown, vec![item(1, 0, 0, 1), item(3, 1, 1, 1)]);
}
