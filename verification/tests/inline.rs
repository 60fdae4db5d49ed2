use mdr::inline::parse_inline_formatting;
use mdr::style::{ColorClass, Style, StyledLine, StyledRun};

fn run(text: &str, style: Style) -> StyledRun {
    StyledRun { text: text.to_string(), style }
}

fn plain(text: &str) -> StyledRun {
    run(text, Style::plain())
}

fn code() -> Style {
    Style::colored(ColorClass::InlineCode)
}

fn strike() -> Style {
    Style::colored(ColorClass::DarkGray).crossed_out()
}

fn link() -> Style {
    Style::colored(ColorClass::Blue).underlined()
}

fn image() -> Style {
    Style::colored(ColorClass::Magenta).italic()
}

fn runs(line: &str) -> Vec<StyledRun> {
    parse_inline_formatting(line).runs
}

#[test]
fn empty_line_is_a_blank_row() {
    assert_eq!(parse_inline_formatting(""), StyledLine { runs: vec![] });
}

#[test]
fn plain_line_is_one_plain_run() {
    assert_eq!(runs("just some text."), vec![plain("just some text.")]);
}

#[test]
fn plain_line_round_trips_through_format_and_flatten() {
    let line = "Some content, with (parens) ] and ) and more: 100% é ü";
    assert_eq!(parse_inline_formatting(line).text(), line);
}

#[test]
fn inline_code_between_backticks() {
    assert_eq!(runs("a `b c` d"), vec![plain("a "), run("b c", code()), plain(" d")]);
}

#[test]
fn inline_code_keeps_markup_inside() {
    assert_eq!(runs("`**x** [y](z)`"), vec![run("**x** [y](z)", code())]);
}

#[test]
fn unterminated_code_runs_to_the_end() {
    assert_eq!(runs("a `b c"), vec![plain("a "), run("b c", code())]);
    assert_eq!(runs("a `"), vec![plain("a "), run("", code())]);
}

#[test]
fn bold_between_double_stars() {
    assert_eq!(
        runs("x **bold** y"),
        vec![plain("x "), run("bold", Style::plain().bold()), plain(" y")]
    );
}

#[test]
fn unterminated_bold_runs_to_the_end() {
    assert_eq!(runs("**ab*"), vec![run("ab*", Style::plain().bold())]);
    assert_eq!(runs("**"), vec![run("", Style::plain().bold())]);
}

#[test]
fn italic_closes_with_the_same_character() {
    let italic = Style::plain().italic();
    assert_eq!(runs("*a_b* c"), vec![run("a_b", italic), plain(" c")]);
    assert_eq!(runs("_a*b_ c"), vec![run("a*b", italic), plain(" c")]);
    assert_eq!(runs("_a*b"), vec![run("a*b", italic)]);
}

#[test]
fn strikethrough_between_double_tildes() {
    assert_eq!(runs("~~gone~~!"), vec![run("gone", strike()), plain("!")]);
    assert_eq!(runs("~~gone~"), vec![run("gone~", strike())]);
    assert_eq!(runs("a ~ b"), vec![plain("a ~ b")]);
}

#[test]
fn link_shows_its_label_only() {
    assert_eq!(
        runs("see [the docs](http://x.y/z) now"),
        vec![plain("see "), run("the docs", link()), plain(" now")]
    );
    assert_eq!(runs("[a](b"), vec![run("a", link())]);
}

#[test]
fn malformed_link_stays_literal() {
    assert_eq!(runs("a [b] c"), vec![plain("a [b] c")]);
    assert_eq!(runs("a [b"), vec![plain("a [b")]);
    assert_eq!(runs("[b]"), vec![plain("[b]")]);
    assert_eq!(runs("[a] (b)"), vec![plain("[a] (b)")]);
}

#[test]
fn malformed_link_reads_markup_inside_as_text() {
    assert_eq!(runs("[*a*] b"), vec![plain("[*a*] b")]);
}

#[test]
fn inline_image_becomes_a_label() {
    assert_eq!(
        runs("x ![logo](logo.png) y"),
        vec![plain("x "), run("[Image: logo]", image()), plain(" y")]
    );
    assert_eq!(runs("![](logo.png)"), vec![run("[Image: image]", image())]);
}

#[test]
fn malformed_image_stays_literal() {
    assert_eq!(runs("![alt] text"), vec![plain("![alt] text")]);
    assert_eq!(runs("![alt"), vec![plain("![alt")]);
    assert_eq!(runs("wow! [x"), vec![plain("wow! [x")]);
}

#[test]
fn spans_follow_each_other() {
    assert_eq!(
        runs("**a**`b`~~c~~"),
        vec![run("a", Style::plain().bold()), run("b", code()), run("c", strike())]
    );
}

#[test]
fn flattened_text_joins_the_runs() {
    assert_eq!(parse_inline_formatting("a **b** [c](d) `e`").text(), "a b c e");
}
