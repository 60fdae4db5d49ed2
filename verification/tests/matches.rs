use mdr::elements::ContentElement;
use mdr::matches::{search, Highlight, SearchState};
use mdr::style::{ColorClass, Style, StyledLine, StyledRun};
use mdr::toc::TocEntry;
use mdr::viewer::{update_search_matches, KeyCode, KeyInput, ScrollState, ViewerState};

fn text(s: &str) -> ContentElement {
    ContentElement::TextLine(StyledLine {
        runs: vec![StyledRun { text: s.to_string(), style: Style::plain() }],
    })
}

fn split(a: &str, b: &str) -> ContentElement {
    ContentElement::ImagePlaceholder(StyledLine {
        runs: vec![
            StyledRun { text: a.to_string(), style: Style::plain() },
            StyledRun { text: b.to_string(), style: Style::colored(ColorClass::Blue).bold() },
        ],
    })
}

fn key(code: KeyCode) -> KeyInput {
    KeyInput { code, ctrl: false }
}

fn ctrl(c: char) -> KeyInput {
    KeyInput { code: KeyCode::Char(c), ctrl: true }
}

fn ch(c: char) -> KeyInput {
    key(KeyCode::Char(c))
}

fn three() -> Vec<ContentElement> {
    vec![text("a FOO b"), text("bar"), text("foo")]
}

fn long() -> Vec<ContentElement> {
    vec![
        text("Intro"),
        ContentElement::Image { handle: 1, height: 4 },
        text("Foo one"),
        split("x f", "OO y"),
        text("nothing"),
        text("foofoo"),
    ]
}

fn toc() -> Vec<TocEntry> {
    vec![
        TocEntry { level: 1, text: "Intro".to_string(), anchor: "intro".to_string() },
        TocEntry { level: 2, text: "Foo one".to_string(), anchor: "foo-one".to_string() },
        TocEntry { level: 2, text: "Gone".to_string(), anchor: "gone".to_string() },
    ]
}

#[test]
fn search_finds_rows_whatever_the_letter_case() {
    assert_eq!(search(&three(), "foo"), vec![0, 2]);
    assert_eq!(search(&three(), "FoO"), vec![0, 2]);
    assert_eq!(search(&three(), "bar"), vec![1]);
    assert_eq!(search(&three(), "baz"), Vec::<usize>::new());
    assert_eq!(search(&three(), ""), Vec::<usize>::new());
}

#[test]
fn search_counts_rows_not_elements_and_each_element_once() {
    assert_eq!(search(&long(), "foo"), vec![5, 6, 8]);
    assert_eq!(search(&long(), "f"), vec![5, 6, 8]);
    assert_eq!(search(&long(), "o"), vec![0, 5, 6, 7, 8]);
}

#[test]
fn search_then_next_wraps_around() {
    let elements = three();
    let mut state = ViewerState::new();
    state.search.query = "foo".to_string();
    update_search_matches(&mut state, &elements);
    assert_eq!(state.search.matches, vec![0, 2]);
    assert_eq!(state.search.current_index, 0);
    state.next_match();
    assert_eq!(state.search.current_index, 1);
    assert_eq!(state.scroll.offset, 2);
    state.next_match();
    assert_eq!(state.search.current_index, 0);
    assert_eq!(state.scroll.offset, 0);
}

#[test]
fn searching_twice_gives_the_same_state() {
    let elements = long();
    let mut state = ViewerState::new();
    state.search.query = "foo".to_string();
    state.scroll.offset = 3;
    update_search_matches(&mut state, &elements);
    let first = state.clone();
    assert_eq!(first.search.matches, vec![5, 6, 8]);
    assert_eq!(first.search.current_index, 0);
    assert_eq!(first.scroll.offset, 5);
    state.next_match();
    update_search_matches(&mut state, &elements);
    assert_eq!(state, first);
}

#[test]
fn search_without_match_leaves_the_view() {
    let mut state = ViewerState::new();
    state.search.query = "zzz".to_string();
    state.search.matches = vec![1, 2];
    state.search.current_index = 1;
    state.scroll.offset = 4;
    update_search_matches(&mut state, &long());
    assert!(state.search.matches.is_empty());
    assert_eq!(state.search.current_index, 0);
    assert_eq!(state.scroll.offset, 4);
    assert_eq!(state.search.query, "zzz");
}

#[test]
fn next_as_often_as_there_are_matches_comes_back() {
    for start in 0..3 {
        let mut s = SearchState { query: "q".to_string(), matches: vec![4, 7, 9], current_index: start };
        let mut rows = Vec::new();
        for _ in 0..3 {
            rows.push(s.next());
        }
        assert_eq!(s.current_index, start);
        assert_eq!(rows[2], Some([4, 7, 9][start]));
    }
}

#[test]
fn prev_as_often_as_there_are_matches_comes_back() {
    for start in 0..3 {
        let mut s = SearchState { query: "q".to_string(), matches: vec![4, 7, 9], current_index: start };
        for _ in 0..3 {
            s.prev();
        }
        assert_eq!(s.current_index, start);
    }
}

#[test]
fn prev_wraps_to_the_last() {
    let mut s = SearchState { query: String::new(), matches: vec![4, 7, 9], current_index: 0 };
    assert_eq!(s.prev(), Some(9));
    assert_eq!(s.current_index, 2);
    assert_eq!(s.prev(), Some(7));
    assert_eq!(s.next(), Some(9));
    assert_eq!(s.next(), Some(4));
}

#[test]
fn navigation_without_matches_does_nothing() {
    let mut s = SearchState::new();
    assert_eq!(s.next(), None);
    assert_eq!(s.prev(), None);
    assert_eq!(s, SearchState::new());
    let mut state = ViewerState::new();
    state.scroll.offset = 9;
    state.next_match();
    state.prev_match();
    assert_eq!(state.scroll.offset, 9);
}

#[test]
fn highlight_marks_matches_and_the_current_one() {
    let s = SearchState { query: "q".to_string(), matches: vec![4, 7, 9], current_index: 1 };
    assert_eq!(s.highlight(4), Highlight::Match);
    assert_eq!(s.highlight(7), Highlight::Current);
    assert_eq!(s.highlight(9), Highlight::Match);
    assert_eq!(s.highlight(5), Highlight::Plain);
    assert_eq!(SearchState::new().highlight(0), Highlight::Plain);
}

#[test]
fn keys_scroll_the_content() {
    let elements = long();
    let toc = toc();
    let mut s = ViewerState::new();
    s.handle_key(key(KeyCode::Down), &elements, &toc);
    s.handle_key(ch('j'), &elements, &toc);
    assert_eq!(s.scroll.offset, 2);
    s.handle_key(key(KeyCode::Up), &elements, &toc);
    assert_eq!(s.scroll.offset, 1);
    s.handle_key(ch('k'), &elements, &toc);
    s.handle_key(ch('k'), &elements, &toc);
    assert_eq!(s.scroll.offset, 0);
    s.handle_key(key(KeyCode::PageDown), &elements, &toc);
    assert_eq!(s.scroll.offset, 20);
    s.handle_key(ch(' '), &elements, &toc);
    assert_eq!(s.scroll.offset, 40);
    s.handle_key(key(KeyCode::PageUp), &elements, &toc);
    assert_eq!(s.scroll.offset, 20);
    s.handle_key(key(KeyCode::End), &elements, &toc);
    assert_eq!(s.scroll.offset, 8);
    s.handle_key(key(KeyCode::Home), &elements, &toc);
    assert_eq!(s.scroll.offset, 0);
    s.handle_key(ch('G'), &elements, &toc);
    assert_eq!(s.scroll.offset, 8);
    s.handle_key(ch('g'), &elements, &toc);
    assert_eq!(s.scroll.offset, 0);
    s.handle_key(key(KeyCode::End), &Vec::new(), &toc);
    assert_eq!(s.scroll.offset, 0);
    assert!(!s.should_quit);
}

#[test]
fn scrolling_saturates() {
    let mut s = ViewerState::new();
    s.scroll.offset = usize::MAX - 3;
    s.handle_key(key(KeyCode::PageDown), &long(), &toc());
    assert_eq!(s.scroll.offset, usize::MAX);
    s.handle_key(key(KeyCode::Down), &long(), &toc());
    assert_eq!(s.scroll.offset, usize::MAX);
    s.scroll.offset = 5;
    s.handle_key(key(KeyCode::PageUp), &long(), &toc());
    assert_eq!(s.scroll.offset, 0);
}

#[test]
fn keys_quit() {
    for k in [ch('q'), key(KeyCode::Esc), ctrl('c'), ctrl('q')] {
        let mut s = ViewerState::new();
        s.handle_key(k, &long(), &toc());
        assert!(s.should_quit);
    }
    for k in [ch('c'), ch('f'), ch('x'), key(KeyCode::Other), key(KeyCode::Backspace)] {
        let mut s = ViewerState::new();
        s.handle_key(k, &long(), &toc());
        assert_eq!(s, ViewerState::new());
    }
}

#[test]
fn keys_move_in_the_table_of_contents() {
    let elements = long();
    let toc = toc();
    let mut s = ViewerState::new();
    s.handle_key(key(KeyCode::Enter), &elements, &toc);
    assert_eq!(s, ViewerState::new());
    s.handle_key(key(KeyCode::Tab), &elements, &toc);
    assert!(s.scroll.focus_on_toc);
    s.handle_key(key(KeyCode::Down), &elements, &toc);
    assert_eq!(s.scroll, ScrollState { offset: 0, focus_on_toc: true, selected_toc_index: 1 });
    s.handle_key(key(KeyCode::Enter), &elements, &toc);
    assert_eq!(s.scroll, ScrollState { offset: 5, focus_on_toc: false, selected_toc_index: 1 });
    s.handle_key(key(KeyCode::Tab), &elements, &toc);
    s.handle_key(ch('j'), &elements, &toc);
    s.handle_key(ch('j'), &elements, &toc);
    assert_eq!(s.scroll.selected_toc_index, 2);
    s.handle_key(key(KeyCode::Enter), &elements, &toc);
    assert_eq!(s.scroll, ScrollState { offset: 5, focus_on_toc: true, selected_toc_index: 2 });
    s.handle_key(ch('k'), &elements, &toc);
    s.handle_key(key(KeyCode::Up), &elements, &toc);
    s.handle_key(key(KeyCode::Up), &elements, &toc);
    assert_eq!(s.scroll.selected_toc_index, 0);
    s.handle_key(key(KeyCode::Down), &elements, &Vec::new());
    assert_eq!(s.scroll.selected_toc_index, 0);
    s.scroll.selected_toc_index = 7;
    s.handle_key(key(KeyCode::Enter), &elements, &toc);
    assert_eq!(s.scroll, ScrollState { offset: 5, focus_on_toc: true, selected_toc_index: 7 });
}

#[test]
fn keys_edit_the_query_in_search_mode() {
    let elements = long();
    let toc = toc();
    let mut s = ViewerState::new();
    s.handle_key(ch('/'), &elements, &toc);
    assert!(s.search_mode);
    for c in "fooq".chars() {
        s.handle_key(ch(c), &elements, &toc);
    }
    assert_eq!(s.search.query, "fooq");
    assert!(s.search.matches.is_empty());
    assert!(!s.should_quit);
    assert_eq!(s.scroll.offset, 5);
    s.handle_key(key(KeyCode::Backspace), &elements, &toc);
    assert_eq!(s.search.query, "foo");
    assert_eq!(s.search.matches, vec![5, 6, 8]);
    assert_eq!(s.scroll.offset, 5);
    s.handle_key(key(KeyCode::Enter), &elements, &toc);
    assert_eq!(s.search.current_index, 1);
    assert_eq!(s.scroll.offset, 6);
    s.handle_key(ctrl('F'), &elements, &toc);
    assert_eq!(s.search.query, "fooF");
    assert_eq!(s.search.matches, vec![8]);
    assert_eq!(s.search.current_index, 0);
    assert_eq!(s.scroll.offset, 8);
    s.handle_key(key(KeyCode::Down), &elements, &toc);
    assert_eq!(s.scroll.offset, 8);
    s.handle_key(key(KeyCode::Esc), &elements, &toc);
    assert!(!s.search_mode);
    assert!(!s.should_quit);
    assert_eq!(s.search, SearchState::new());
    assert_eq!(s.scroll.offset, 8);
}

#[test]
fn backspace_on_an_empty_query_finds_nothing() {
    let mut s = ViewerState::new();
    s.handle_key(ctrl('f'), &long(), &toc());
    assert!(s.search_mode);
    s.handle_key(key(KeyCode::Backspace), &long(), &toc());
    assert_eq!(s.search, SearchState::new());
}

#[test]
fn matches_are_walked_outside_search_mode() {
    let elements = long();
    let toc = toc();
    let mut s = ViewerState::new();
    s.search.query = "foo".to_string();
    update_search_matches(&mut s, &elements);
    s.handle_key(ch('N'), &elements, &toc);
    assert_eq!((s.search.current_index, s.scroll.offset), (2, 8));
    s.handle_key(ch('n'), &elements, &toc);
    assert_eq!((s.search.current_index, s.scroll.offset), (0, 5));
    s.handle_key(ch('n'), &elements, &toc);
    assert_eq!((s.search.current_index, s.scroll.offset), (1, 6));
}

#[test]
fn offset_is_clamped_again_after_a_rebuild() {
    let mut scroll = ScrollState { offset: 95, focus_on_toc: true, selected_toc_index: 2 };
    scroll.clamp_to(100, 20);
    assert_eq!(scroll, ScrollState { offset: 80, focus_on_toc: true, selected_toc_index: 2 });
    scroll.clamp_to(30, 20);
    assert_eq!(scroll.offset, 10);
    scroll.clamp_to(5, 20);
    assert_eq!(scroll.offset, 0);
}
