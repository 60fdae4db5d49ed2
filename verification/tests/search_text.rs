use mdr::search::{matching_lines, search_bytes, search_text, SearchResult};

#[test]
fn search_empty_query_returns_empty() {
    assert!(search_text("hello world", "", false).is_empty());
}

#[test]
fn search_no_match() {
    assert!(search_text("hello world", "xyz", false).is_empty());
}

#[test]
fn search_single_match() {
    let results = search_text("hello world", "world", false);
    assert_eq!(results.len(), 1);
    assert_eq!(results[0].line_index, 0);
    assert_eq!(results[0].byte_offset, 6);
    assert_eq!(results[0].length, 5);
}

#[test]
fn search_multiple_matches_same_line() {
    let results = search_text("abcabc", "abc", false);
    assert_eq!(results.len(), 2);
}

#[test]
fn search_case_insensitive() {
    let results = search_text("Hello World", "hello", false);
    assert_eq!(results.len(), 1);
}

#[test]
fn search_case_sensitive() {
    let results = search_text("Hello World", "hello", true);
    assert!(results.is_empty());
}

#[test]
fn search_multiple_lines() {
    let results = search_text("line one\nline two\nline three", "line", false);
    assert_eq!(results.len(), 3);
    assert_eq!(results[0].line_index, 0);
    assert_eq!(results[1].line_index, 1);
    assert_eq!(results[2].line_index, 2);
}

#[test]
fn matching_lines_basic() {
    let lines = matching_lines("foo\nbar\nfoo bar", "foo");
    assert_eq!(lines, vec![0, 2]);
}

#[test]
fn matching_lines_empty_query() {
    assert!(matching_lines("foo", "").is_empty());
}

#[test]
fn matching_lines_case_insensitive() {
    let lines = matching_lines("FOO\nbar\nFoo", "foo");
    assert_eq!(lines, vec![0, 2]);
}

#[test]
fn search_overlapping_matches_are_all_found() {
    let results = search_text("aaaa", "aa", true);
    assert_eq!(
        results,
        vec![
            SearchResult { line_index: 0, byte_offset: 0, length: 2 },
            SearchResult { line_index: 0, byte_offset: 1, length: 2 },
            SearchResult { line_index: 0, byte_offset: 2, length: 2 },
        ]
    );
}

#[test]
fn search_offsets_count_bytes() {
    let results = search_text("héllo wörld\nxx wörld", "wörld", true);
    assert_eq!(
        results,
        vec![
            SearchResult { line_index: 0, byte_offset: 7, length: 6 },
            SearchResult { line_index: 1, byte_offset: 3, length: 6 },
        ]
    );
}

#[test]
fn search_non_ascii_query_that_matches_does_not_fail() {
    let results = search_text("éé", "é", false);
    assert_eq!(
        results,
        vec![
            SearchResult { line_index: 0, byte_offset: 0, length: 2 },
            SearchResult { line_index: 0, byte_offset: 2, length: 2 },
        ]
    );
}

#[test]
fn search_does_not_match_across_lines() {
    assert!(search_text("ab\ncd", "b\nc", true).is_empty());
    assert!(search_text("ab\r\ncd", "b\r", true).is_empty());
}

#[test]
fn search_lowercases_the_text_it_searches() {
    let results = search_text("xx HELLO", "HeLLo", false);
    assert_eq!(results, vec![SearchResult { line_index: 0, byte_offset: 3, length: 5 }]);
}

#[test]
fn search_skips_blank_lines_in_line_count() {
    let results = search_text("a\n\n\nb a", "a", true);
    assert_eq!(
        results,
        vec![
            SearchResult { line_index: 0, byte_offset: 0, length: 1 },
            SearchResult { line_index: 3, byte_offset: 2, length: 1 },
        ]
    );
}

#[test]
fn matching_lines_reports_each_line_once() {
    assert_eq!(matching_lines("aXa aXa\nb\nxA", "xa"), vec![0, 2]);
}

#[test]
fn matching_lines_ignores_carriage_returns_at_line_ends() {
    assert_eq!(matching_lines("one\r\ntwo\r\n", "o"), vec![0, 1]);
    assert!(matching_lines("one\r\ntwo\r\n", "\r").is_empty());
}

#[test]
fn search_bytes_reports_the_given_length() {
    assert_eq!(
        search_bytes(b"ab\nxab\r\nab", b"ab", 7),
        vec![
            SearchResult { line_index: 0, byte_offset: 0, length: 7 },
            SearchResult { line_index: 1, byte_offset: 1, length: 7 },
            SearchResult { line_index: 2, byte_offset: 0, length: 7 },
        ]
    );
    assert!(search_bytes(b"", b"a", 1).is_empty());
}

#[test]
fn search_bytes_finds_an_empty_needle_at_every_place_of_a_line() {
    assert_eq!(
        search_bytes(b"ab\n\nc", b"", 0),
        vec![
            SearchResult { line_index: 0, byte_offset: 0, length: 0 },
            SearchResult { line_index: 0, byte_offset: 1, length: 0 },
            SearchResult { line_index: 0, byte_offset: 2, length: 0 },
            SearchResult { line_index: 1, byte_offset: 0, length: 0 },
            SearchResult { line_index: 2, byte_offset: 0, length: 0 },
            SearchResult { line_index: 2, byte_offset: 1, length: 0 },
        ]
    );
}
