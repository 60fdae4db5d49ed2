use mdr::html::{build_toc_html, html_decode, html_encode, percent_decode};
use mdr::mermaid::preprocess_mermaid_source;
use mdr::toc::TocEntry;

#[test]
fn html_decode_all_entities() {
    assert_eq!(html_decode("&amp;&lt;&gt;&quot;&#39;"), "&<>\"'");
}

#[test]
fn html_decode_no_entities() {
    assert_eq!(html_decode("plain text"), "plain text");
}

#[test]
fn html_decode_mixed() {
    assert_eq!(html_decode("A &amp; B &lt; C"), "A & B < C");
}

#[test]
fn html_encode_special_chars() {
    assert_eq!(html_encode("A & B < C > D"), "A &amp; B &lt; C &gt; D");
}

#[test]
fn html_encode_no_special_chars() {
    assert_eq!(html_encode("plain text"), "plain text");
}

#[test]
fn html_encode_decode_roundtrip() {
    let source = "graph LR; A-->B";
    let encoded = html_encode(source);
    let decoded = html_decode(&encoded);
    assert_eq!(decoded, source);
}

#[test]
fn html_decode_decodes_an_encoded_entity_twice() {
    assert_eq!(html_decode("&amp;lt;"), "<");
    assert_eq!(html_encode("&lt;"), "&amp;lt;");
}

#[test]
fn preprocess_removes_html_breaks() {
    let source = "graph LR\n  A[Line 1<br/>Line 2]-->B";
    let result = preprocess_mermaid_source(source);
    assert!(!result.contains("<br/>"));
    assert!(result.contains("Line 1 Line 2"));
}

#[test]
fn preprocess_converts_bidirectional_arrows() {
    let source = "graph LR\n  A<-->B";
    let result = preprocess_mermaid_source(source);
    assert!(!result.contains("<-->"));
    assert!(result.contains("A---B"));
}

#[test]
fn preprocess_leaves_valid_syntax_unchanged() {
    let source = "graph LR\n  A-->B\n  B-->C";
    let result = preprocess_mermaid_source(source);
    assert!(result.contains("A-->B"));
    assert!(result.contains("B-->C"));
}

#[test]
fn preprocess_gives_the_exact_source() {
    assert_eq!(
        preprocess_mermaid_source("a<br>b<br />c\r\nAx--xB o--o\n\nlast"),
        "a b c\nA---B ---\n\nlast\n"
    );
    assert_eq!(preprocess_mermaid_source(""), "");
}

#[test]
fn percent_decode_decodes_escapes() {
    assert_eq!(percent_decode("my%20file.png"), "my file.png");
    assert_eq!(percent_decode("a%2Fb%2fc"), "a/b/c");
    assert_eq!(percent_decode("plain"), "plain");
    assert_eq!(percent_decode(""), "");
}

#[test]
fn percent_decode_keeps_what_is_no_escape() {
    assert_eq!(percent_decode("100%"), "100%");
    assert_eq!(percent_decode("a%2"), "a%2");
    assert_eq!(percent_decode("a%zzb"), "a%zzb");
    assert_eq!(percent_decode("%%41"), "%%41");
    assert_eq!(percent_decode("%é1"), "%é1");
}

#[test]
fn percent_decode_maps_a_byte_to_the_character_of_its_code() {
    assert_eq!(percent_decode("%E9"), "\u{e9}");
    assert_eq!(percent_decode("%+5"), "\u{5}");
    assert_eq!(percent_decode("%-5"), "%-5");
}

#[test]
fn build_toc_html_lists_the_entries() {
    let entries = vec![
        TocEntry { level: 1, text: "Title".to_string(), anchor: "title".to_string() },
        TocEntry { level: 12, text: "A & B".to_string(), anchor: "a--b".to_string() },
        TocEntry { level: 200, text: String::new(), anchor: String::new() },
    ];
    assert_eq!(
        build_toc_html(&entries),
        "<li class=\"toc-h1\"><a href=\"#title\">Title</a></li>\
         <li class=\"toc-h12\"><a href=\"#a--b\">A & B</a></li>\
         <li class=\"toc-h200\"><a href=\"#\"></a></li>"
    );
    assert_eq!(build_toc_html(&Vec::new()), "");
}
