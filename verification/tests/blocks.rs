use mdr::blocks::{
    extract_image_alt_and_url, markdown_to_lines_with_images, try_parse_ordered_list, ParsedLine,
};
use mdr::style::{ColorClass, Style, StyledLine, StyledRun};

fn run(text: &str, style: Style) -> StyledRun {
    StyledRun { text: text.to_string(), style }
}

fn row(runs: Vec<StyledRun>) -> ParsedLine {
    ParsedLine::Text(StyledLine { runs })
}

fn one(text: &str, style: Style) -> ParsedLine {
    row(vec![run(text, style)])
}

fn blank() -> ParsedLine {
    row(vec![])
}

fn color(c: ColorClass) -> Style {
    Style::colored(c)
}

fn flat(item: &ParsedLine) -> String {
    match item {
        ParsedLine::Text(line) => line.runs.iter().map(|r| r.text.as_str()).collect(),
        _ => String::new(),
    }
}

const FOOTER: &str = "└─────────────────────────────────────────┘";

#[test]
fn mermaid_block_produces_mermaid_ref() {
    let md = "# Title\n\n```mermaid\ngraph LR\n  A-->B\n```\n\nSome text after.\n";
    let items = markdown_to_lines_with_images(md);

    let has_mermaid_ref = items.iter().any(|item| matches!(item, ParsedLine::MermaidRef { .. }));
    assert!(has_mermaid_ref, "Mermaid code block should produce a MermaidRef variant");

    let mermaid_source = items
        .iter()
        .find_map(|item| {
            if let ParsedLine::MermaidRef { source } = item {
                Some(source.clone())
            } else {
                None
            }
        })
        .expect("Should have a MermaidRef");
    assert!(
        mermaid_source.contains("graph LR"),
        "MermaidRef should contain the mermaid source, got: {}",
        mermaid_source
    );
    assert!(mermaid_source.contains("A-->B"), "MermaidRef should contain the diagram content");
}

#[test]
fn mermaid_block_not_rendered_as_code_text() {
    let md = "```mermaid\ngraph LR\n  A-->B\n```\n";
    let items = markdown_to_lines_with_images(md);

    let has_green_code = items.iter().any(|item| {
        if let ParsedLine::Text(_) = item {
            let text = flat(item);
            text.contains("│ graph LR") || text.contains("│   A-->B")
        } else {
            false
        }
    });
    assert!(!has_green_code, "Mermaid content should NOT appear as regular code text");
}

#[test]
fn non_mermaid_code_block_unchanged() {
    let md = "```rust\nfn main() {}\n```\n";
    let items = markdown_to_lines_with_images(md);

    let has_mermaid_ref = items.iter().any(|item| matches!(item, ParsedLine::MermaidRef { .. }));
    assert!(!has_mermaid_ref, "Non-mermaid code blocks should NOT produce MermaidRef");

    let has_code_text = items.iter().any(|item| {
        if let ParsedLine::Text(_) = item {
            flat(item).contains("│ fn main()")
        } else {
            false
        }
    });
    assert!(has_code_text, "Non-mermaid code should appear as regular code text");
}

#[test]
fn empty_document_has_no_items() {
    assert!(markdown_to_lines_with_images("").is_empty());
}

#[test]
fn heading_and_paragraph() {
    let items = markdown_to_lines_with_images("# Title\nSome content\n");
    assert_eq!(
        items,
        vec![
            blank(),
            one("Title", color(ColorClass::Cyan).bold().underlined()),
            one("═════", color(ColorClass::Cyan)),
            blank(),
            one("Some content", Style::plain()),
        ]
    );
}

#[test]
fn heading_levels() {
    let items = markdown_to_lines_with_images("## Two\n### Three\n#### Four\n##### Five");
    assert_eq!(
        items,
        vec![
            blank(),
            one("Two", color(ColorClass::Blue).bold()),
            one("───", color(ColorClass::Blue)),
            blank(),
            blank(),
            one("Three", color(ColorClass::Yellow).bold()),
            blank(),
            one("Four", color(ColorClass::Magenta).bold()),
            one("##### Five", Style::plain()),
        ]
    );
}

#[test]
fn heading_rule_is_capped_and_counts_bytes() {
    let long = "x".repeat(70);
    let items = markdown_to_lines_with_images(&format!("# {}\n## {}\n# éé", long, long));
    assert_eq!(items[2], one(&"═".repeat(60), color(ColorClass::Cyan)));
    assert_eq!(items[6], one(&"─".repeat(50), color(ColorClass::Blue)));
    assert_eq!(items[10], one("════", color(ColorClass::Cyan)));
}

#[test]
fn hash_without_space_is_plain_text() {
    assert_eq!(
        markdown_to_lines_with_images("#nospace\n#!/bin/sh"),
        vec![one("#nospace", Style::plain()), one("#!/bin/sh", Style::plain())]
    );
}

#[test]
fn horizontal_rules() {
    let rule = one(&"─".repeat(60), color(ColorClass::DarkGray));
    assert_eq!(
        markdown_to_lines_with_images("---\n***\n___\n----- more"),
        vec![rule.clone(), rule.clone(), rule.clone(), rule]
    );
}

#[test]
fn code_block_rows() {
    let items = markdown_to_lines_with_images("```rust\nfn main() {}\n# not a heading\n```\nafter");
    assert_eq!(
        items,
        vec![
            one(&format!("┌─ rust {}", "─".repeat(34)), color(ColorClass::DarkGray)),
            one("│ fn main() {}", color(ColorClass::Green)),
            one("│ # not a heading", color(ColorClass::Green)),
            one(FOOTER, color(ColorClass::DarkGray)),
            blank(),
            one("after", Style::plain()),
        ]
    );
}

#[test]
fn code_block_without_language() {
    let items = markdown_to_lines_with_images("```\nx\n```");
    assert_eq!(
        items,
        vec![
            one("┌─ code ──────────────────────────────────┐", color(ColorClass::DarkGray)),
            one("│ x", color(ColorClass::Green)),
            one(FOOTER, color(ColorClass::DarkGray)),
            blank(),
        ]
    );
}

#[test]
fn code_block_language_is_trimmed_and_long_names_get_no_rule() {
    let name = "l".repeat(40);
    let items = markdown_to_lines_with_images(&format!("````  py  \n```\n```{}", name));
    assert_eq!(items[0], one(&format!("┌─ py {}", "─".repeat(36)), color(ColorClass::DarkGray)));
    assert_eq!(items[3], one(&format!("┌─ {} ", name), color(ColorClass::DarkGray)));
}

#[test]
fn unterminated_blocks() {
    assert_eq!(
        markdown_to_lines_with_images("```\nx"),
        vec![
            one("┌─ code ──────────────────────────────────┐", color(ColorClass::DarkGray)),
            one("│ x", color(ColorClass::Green)),
        ]
    );
    assert!(markdown_to_lines_with_images("```mermaid\ngraph LR").is_empty());
}

#[test]
fn mermaid_source_is_kept_line_by_line() {
    assert_eq!(
        markdown_to_lines_with_images("``` mermaid \ngraph LR\n\n  A-->B\n```"),
        vec![ParsedLine::MermaidRef { source: "graph LR\n\n  A-->B".to_string() }]
    );
    assert_eq!(
        markdown_to_lines_with_images("```mermaid\n\nA\n```"),
        vec![ParsedLine::MermaidRef { source: "A".to_string() }]
    );
}

#[test]
fn table_rows() {
    let bar = || run(" │ ", color(ColorClass::DarkGray));
    let cell = |s: &str| run(s, color(ColorClass::White));
    let items = markdown_to_lines_with_images("| A | B |\n|---|---|\n| 1 | 2 |\n  |x||y|");
    assert_eq!(
        items,
        vec![
            row(vec![cell("A"), bar(), cell("B")]),
            row(vec![cell("---"), bar(), cell("---")]),
            row(vec![cell("1"), bar(), cell("2")]),
            row(vec![cell("x"), bar(), cell(""), bar(), cell("y")]),
        ]
    );
}

#[test]
fn table_separator_opens_a_table() {
    let items = markdown_to_lines_with_images("|---|---|\n| a |\ntext\n| - | --- |");
    assert_eq!(
        items,
        vec![
            one("|---|---|", color(ColorClass::DarkGray)),
            row(vec![run("a", color(ColorClass::White))]),
            one("text", Style::plain()),
            one("| - | --- |", color(ColorClass::DarkGray)),
        ]
    );
}

#[test]
fn table_row_of_bars_only_is_blank() {
    assert_eq!(markdown_to_lines_with_images("| |"), vec![blank()]);
}

#[test]
fn blockquote() {
    assert_eq!(
        markdown_to_lines_with_images("> quoted **text**\n>no space"),
        vec![
            row(vec![
                run("▎ ", color(ColorClass::DarkGray)),
                run("quoted **text**", color(ColorClass::Gray).italic()),
            ]),
            one(">no space", Style::plain()),
        ]
    );
}

#[test]
fn task_lists() {
    assert_eq!(
        markdown_to_lines_with_images("- [x] done\n  - [ ] todo"),
        vec![
            row(vec![
                run("", Style::plain()),
                run("☑ ", color(ColorClass::Green)),
                run("done", color(ColorClass::DarkGray)),
            ]),
            row(vec![
                run("  ", Style::plain()),
                run("☐ ", color(ColorClass::Yellow)),
                run("todo", Style::plain()),
            ]),
        ]
    );
}

#[test]
fn unordered_lists() {
    assert_eq!(
        markdown_to_lines_with_images("- one\n\t* two\n-three"),
        vec![
            row(vec![
                run("", Style::plain()),
                run("• ", color(ColorClass::Cyan)),
                run("one", Style::plain()),
            ]),
            row(vec![
                run(" ", Style::plain()),
                run("• ", color(ColorClass::Cyan)),
                run("two", Style::plain()),
            ]),
            one("-three", Style::plain()),
        ]
    );
}

#[test]
fn indentation_counts_bytes() {
    assert_eq!(
        markdown_to_lines_with_images("\u{3000}- x"),
        vec![row(vec![
            run("   ", Style::plain()),
            run("• ", color(ColorClass::Cyan)),
            run("x", Style::plain()),
        ])]
    );
}

#[test]
fn ordered_lists() {
    assert_eq!(
        markdown_to_lines_with_images("1. foo\n2. bar\n"),
        vec![
            row(vec![
                run("", Style::plain()),
                run("1. ", color(ColorClass::Cyan)),
                run("foo", Style::plain()),
            ]),
            row(vec![
                run("", Style::plain()),
                run("2. ", color(ColorClass::Cyan)),
                run("bar", Style::plain()),
            ]),
        ]
    );
}

#[test]
fn ordered_list_needs_digits() {
    assert_eq!(try_parse_ordered_list("  12. text. more"), Some(("12. ".to_string(), "text. more".to_string())));
    assert_eq!(try_parse_ordered_list("a. text"), None);
    assert_eq!(try_parse_ordered_list(". text"), None);
    assert_eq!(try_parse_ordered_list("1.text"), None);
    assert_eq!(try_parse_ordered_list("1 . text"), None);
    assert_eq!(try_parse_ordered_list("3. "), Some(("3. ".to_string(), String::new())));
    assert_eq!(
        markdown_to_lines_with_images("End. Then"),
        vec![one("End. Then", Style::plain())]
    );
}

#[test]
fn standalone_image() {
    assert_eq!(
        markdown_to_lines_with_images("  ![alt](missing.png) trailing"),
        vec![ParsedLine::ImageRef { alt: "alt".to_string(), url: "missing.png".to_string() }]
    );
    assert_eq!(
        markdown_to_lines_with_images("text ![alt](a.png)"),
        vec![row(vec![
            run("text ", Style::plain()),
            run("[Image: alt]", color(ColorClass::Magenta).italic()),
        ])]
    );
    assert_eq!(
        markdown_to_lines_with_images("![alt](unclosed"),
        vec![one("[Image: alt]", color(ColorClass::Magenta).italic())]
    );
}

#[test]
fn image_alt_and_url() {
    assert_eq!(
        extract_image_alt_and_url("![a b](c d.png)"),
        Some(("a b".to_string(), "c d.png".to_string()))
    );
    assert_eq!(
        extract_image_alt_and_url("x ![](u) ![b](v)"),
        Some((String::new(), "u".to_string()))
    );
    assert_eq!(extract_image_alt_and_url("![a](b"), None);
    assert_eq!(extract_image_alt_and_url("![a] (b)"), None);
    assert_eq!(extract_image_alt_and_url("[a](b)"), None);
}

#[test]
fn carriage_returns_before_line_feeds_are_dropped() {
    assert_eq!(
        markdown_to_lines_with_images("a\r\nb\r\n"),
        vec![one("a", Style::plain()), one("b", Style::plain())]
    );
}
