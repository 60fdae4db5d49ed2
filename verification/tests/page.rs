use mdr::matches::SearchState;
use mdr::mermaid::{diagram_html, diagram_markdown, render_verdict, DiagramImage, RenderAttempt};
use mdr::html::{frame_heading, with_source};
use mdr::images::{image_markdown, is_svg_extension, media_type_of};
use mdr::page::{build_html, frame_refresh_script, refresh_script, GITHUB_CSS};
use mdr::sections::{matching_sections, section_of_entry};
use mdr::status::{scroll_info, status_bar, toc_label};
use mdr::style::{ColorClass, Style, StyledRun};
use mdr::toc::TocEntry;
use mdr::viewer::ViewerState;

fn entry(level: u8, text: &str) -> TocEntry {
    TocEntry { level, text: text.to_string(), anchor: String::new() }
}

#[test]
fn toc_labels_are_indented_by_level() {
    let label = |level: u8| toc_label(&entry(level, "T"));
    assert_eq!(label(1), StyledRun { text: "T".into(), style: Style::colored(ColorClass::Cyan).bold() });
    assert_eq!(label(2), StyledRun { text: "  T".into(), style: Style::colored(ColorClass::Blue).bold() });
    assert_eq!(label(3), StyledRun { text: "    T".into(), style: Style::colored(ColorClass::White) });
    assert_eq!(label(6), StyledRun { text: "          T".into(), style: Style::colored(ColorClass::DarkGray) });
    assert_eq!(label(0), StyledRun { text: "T".into(), style: Style::colored(ColorClass::DarkGray) });
    assert_eq!(label(255).text.len(), 509);
}

#[test]
fn scroll_info_counts_from_one() {
    assert_eq!(scroll_info(0, 0), " 1/1 ");
    assert_eq!(scroll_info(0, 7), " 1/7 ");
    assert_eq!(scroll_info(80, 100), " 81/100 ");
    assert_eq!(scroll_info(1234567, 9876543210), " 1234568/9876543210 ");
    assert_eq!(
        scroll_info(usize::MAX, usize::MAX),
        format!(" {}/{} ", usize::MAX as u128 + 1, usize::MAX)
    );
}

#[test]
fn status_bar_texts() {
    let faint = Style::colored(ColorClass::DarkGray);
    let prompt = Style::colored(ColorClass::SearchPrompt);
    let mut s = ViewerState::new();
    assert_eq!(
        status_bar(&s),
        StyledRun {
            text: " q: quit | Tab: switch focus | j/k: scroll | /: search | Space/PgDn: page down ".into(),
            style: faint,
        }
    );
    s.search_mode = true;
    assert_eq!(status_bar(&s), StyledRun { text: " /  [Enter: next | Esc: close]".into(), style: prompt });
    s.search.query = "foo".to_string();
    assert_eq!(
        status_bar(&s),
        StyledRun { text: " /foo (no matches)  [Enter: next | Esc: close]".into(), style: prompt }
    );
    s.search = SearchState { query: "foo".into(), matches: vec![3, 5, 10], current_index: 1 };
    assert_eq!(
        status_bar(&s),
        StyledRun { text: " /foo (2/3)  [Enter: next | Esc: close]".into(), style: prompt }
    );
    s.search_mode = false;
    assert_eq!(
        status_bar(&s),
        StyledRun { text: " Search: 'foo' (2/3)  [n/N: next/prev | /: search]".into(), style: faint }
    );
}

#[test]
fn page_holds_document_and_table_of_contents() {
    let toc = vec![TocEntry { level: 2, text: "A".into(), anchor: "a".into() }];
    let page = build_html("<h2 id=\"a\">A</h2>", &toc, "LIBRARY");
    assert!(page.starts_with("<!DOCTYPE html>\n<html>\n<head>\n<meta charset=\"utf-8\">\n<style>\n@media"));
    assert!(page.ends_with("})();\n</script>\n\n</body>\n</html>"));
    assert!(page.contains(GITHUB_CSS));
    assert!(page.contains(
        "<ul><li class=\"toc-h2\"><a href=\"#a\">A</a></li></ul>\n</nav>\n<div class=\"content\">\n<h2 id=\"a\">A</h2>\n</div>\n<script>\ndocument.querySelector('.sidebar').addEventListener('click', function(e) {\n"
    ));
    assert!(page.contains("document.querySelectorAll('.sidebar a').forEach(a => a.classList.remove('active'));"));
    assert!(!page.contains("LIBRARY"));
    assert!(!page.contains("{{"));
    assert_eq!(page.len(), build_html("", &Vec::new(), "").len() + 17 + 42);
}

#[test]
fn page_holds_the_diagram_library_where_a_diagram_is_left_to_it() {
    let page = build_html("<pre class=\"mermaid\">graph LR</pre>", &Vec::new(), "LIBRARY");
    assert!(page.ends_with(
        "</script>\n<script>LIBRARY</script>\n<script>mermaid.initialize({ startOnLoad: true, theme: (window.matchMedia && window.matchMedia('(prefers-color-scheme: dark)').matches) ? 'dark' : 'default' });</script>\n</body>\n</html>"
    ));
}

#[test]
fn render_verdicts() {
    assert_eq!(render_verdict(RenderAttempt::Svg("<svg/>".into())), Ok("<svg/>".to_string()));
    assert_eq!(render_verdict(RenderAttempt::Refused("bad".into())), Err("bad".to_string()));
    assert_eq!(
        render_verdict(RenderAttempt::Panicked),
        Err("mermaid renderer panicked (unsupported diagram syntax)".to_string())
    );
}

#[test]
fn diagram_elements() {
    assert_eq!(
        diagram_html("graph LR\n A-->B", Some("<svg>x</svg>")),
        "<div class=\"mermaid-diagram\"><svg>x</svg></div>"
    );
    assert_eq!(
        diagram_html("graph LR\n A-->B & C", None),
        "<pre class=\"mermaid\">graph LR\n A--&gt;B &amp; C</pre>"
    );
}

#[test]
fn diagram_markdown_texts() {
    assert_eq!(
        diagram_markdown("graph LR\n", &DiagramImage::Png("QUJD".into())),
        "![mermaid diagram](data:image/png;base64,QUJD)"
    );
    assert_eq!(
        diagram_markdown("graph LR\n", &DiagramImage::ConversionFailed),
        "> **◇ Mermaid Diagram** *(SVG to PNG conversion failed)*\n\n```\ngraph LR\n```"
    );
    assert_eq!(
        diagram_markdown("not valid mermaid\n", &DiagramImage::RenderFailed),
        "> **◇ Mermaid Diagram** *(unsupported by native renderer)*\n\n```\nnot valid mermaid\n```"
    );
}

#[test]
fn sections_that_hold_a_query() {
    let sections = vec!["# A\nfoo\n".to_string(), "# B\nbar\n".to_string(), "# C\nFOO bar\n".to_string()];
    assert_eq!(matching_sections(&sections, "Foo"), vec![0, 2]);
    assert_eq!(matching_sections(&sections, "bar\n"), vec![1, 2]);
    assert_eq!(matching_sections(&sections, "# "), vec![0, 1, 2]);
    assert!(matching_sections(&sections, "zzz").is_empty());
    assert!(matching_sections(&sections, "").is_empty());
}

#[test]
fn sections_of_entries() {
    assert_eq!(section_of_entry(0, false), 0);
    assert_eq!(section_of_entry(0, true), 1);
    assert_eq!(section_of_entry(4, true), 5);
}

#[test]
fn refresh_script_quotes_the_html() {
    assert_eq!(
        refresh_script("<p class=\"a\">x\n</p>", "<li>'é'</li>"),
        "document.querySelector('.content').innerHTML = \"<p class=\\\"a\\\">x\\n</p>\"; document.querySelector('.sidebar ul').innerHTML = \"<li>'é'</li>\";"
    );
    assert_eq!(
        refresh_script("", ""),
        "document.querySelector('.content').innerHTML = \"\"; document.querySelector('.sidebar ul').innerHTML = \"\";"
    );
}

#[test]
fn image_tag_gets_another_source() {
    assert_eq!(
        with_source("<img alt=\"a\" src=\"test.svg\" width=\"3\">", "data:image/png;base64,QUJD"),
        "<img alt=\"a\" src=\"data:image/png;base64,QUJD\" width=\"3\">"
    );
    assert_eq!(with_source("<img src=\"a\" src=\"b\">", "c"), "<img src=\"c\" src=\"b\">");
    assert_eq!(with_source("<img src=\"\">", "c"), "<img src=\"\">");
    assert_eq!(with_source("<img>", "c"), "<img>");
}

#[test]
fn vector_image_extensions() {
    assert!(is_svg_extension("svg"));
    assert!(is_svg_extension("SVG"));
    assert!(is_svg_extension("sVg"));
    assert!(!is_svg_extension("svgz"));
    assert!(!is_svg_extension("sv"));
    assert!(!is_svg_extension("png"));
    assert!(!is_svg_extension(""));
}

#[test]
fn image_references_in_markdown() {
    assert_eq!(image_markdown("my logo", "file:///tmp/logo.png"), "![my logo](file:///tmp/logo.png)");
    assert_eq!(image_markdown("", ""), "![]()");
}

#[test]
fn framed_pieces() {
    assert_eq!(frame_heading("h2", "an-id", "A <b>c</b>"), "<h2 id=\"an-id\">A <b>c</b></h2>");
    assert_eq!(
        frame_refresh_script("\"a\"", "\"b\""),
        "document.querySelector('.content').innerHTML = \"a\"; document.querySelector('.sidebar ul').innerHTML = \"b\";"
    );
    assert_eq!(media_type_of("png"), "image/png");
    assert_eq!(media_type_of("PNG"), "application/octet-stream");
}
