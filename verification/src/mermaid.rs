//! Diagram sources: the rewriting that makes a source fit for the renderer.

use crate::html::{html_encode, html_encoded};
use crate::text::{
    lines_of, push_range, replace_str, replaced, rows_of, split_lines, to_chars,
};
use vstd::prelude::*;
use vstd::string::*;

verus! {

/// One line of a diagram source made fit for the renderer: line breaks in
/// labels become spaces, and arrows with two heads or two ends become plain
/// lines.
pub open spec fn fitted_line(line: Seq<char>) -> Seq<char> {
    replaced(
        replaced(
            replaced(
                replaced(replaced(replaced(line, "<br/>"@, " "@), "<br>"@, " "@), "<br />"@, " "@),
                "<-->"@,
                "---"@,
            ),
            "x--x"@,
            "---"@,
        ),
        "o--o"@,
        "---"@,
    )
}

/// The first `n` lines, each made fit and ended by a line feed.
pub open spec fn fitted_lines(lines: Seq<Seq<char>>, n: int) -> Seq<char>
    decreases n,
{
    if n <= 0 {
        Seq::empty()
    } else {
        fitted_lines(lines, n - 1) + fitted_line(lines[n - 1]) + seq!['\n']
    }
}

/// A diagram source made fit for the renderer, line by line.
pub open spec fn fitted_source(source: Seq<char>) -> Seq<char> {
    fitted_lines(lines_of(source), lines_of(source).len() as int)
}

fn fit_line(line: &Vec<char>) -> (r: Vec<char>)
    ensures
        r@ == fitted_line(line@),
{
    proof {
        reveal_strlit("<br/>");
        reveal_strlit("<br>");
        reveal_strlit("<br />");
        reveal_strlit("<-->");
        reveal_strlit("x--x");
        reveal_strlit("o--o");
    }
    let v = replace_str(line, "<br/>", " ");
    let v = replace_str(&v, "<br>", " ");
    let v = replace_str(&v, "<br />", " ");
    let v = replace_str(&v, "<-->", "---");
    let v = replace_str(&v, "x--x", "---");
    replace_str(&v, "o--o", "---")
}

/// Rewrites a diagram source so that the renderer accepts more of it.
pub fn preprocess_mermaid_source(source: &str) -> (r: String)
    ensures
        r@ == fitted_source(source@),
{
    let chars = to_chars(source);
    let lines = split_lines(&chars);
    let mut r = String::new();
    let mut i: usize = 0;
    while i < lines.len()
        invariant
            i <= lines.len(),
            rows_of(lines@) == lines_of(source@),
            r@ == fitted_lines(lines_of(source@), i as int),
        decreases lines.len() - i,
    {
        let ghost before = r@;
        let fitted = fit_line(&lines[i]);
        assert(rows_of(lines@)[i as int] == lines@[i as int]@);
        push_range(&mut r, &fitted, 0, fitted.len());
        r.push('\n');
        assert(fitted@.subrange(0, fitted.len() as int) =~= fitted@);
        assert(r@ =~= before + fitted@ + seq!['\n']);
        i += 1;
    }
    r
}

/// How one attempt to render a diagram ended.
#[derive(Clone, Debug, PartialEq, Eq)]
pub enum RenderAttempt {
    /// The renderer drew the diagram.
    Svg(String),
    /// The renderer refused the source, with a message.
    Refused(String),
    /// The renderer broke down.
    Panicked,
}

/// What an attempt is.
pub enum AttemptModel {
    Svg(Seq<char>),
    Refused(Seq<char>),
    Panicked,
}

impl View for RenderAttempt {
    type V = AttemptModel;

    open spec fn view(&self) -> AttemptModel {
        match self {
            RenderAttempt::Svg(svg) => AttemptModel::Svg(svg@),
            RenderAttempt::Refused(message) => AttemptModel::Refused(message@),
            RenderAttempt::Panicked => AttemptModel::Panicked,
        }
    }
}

/// What is said of a renderer that broke down.
pub const PANIC_MESSAGE: &'static str = "mermaid renderer panicked (unsupported diagram syntax)";

/// The result of rendering, by its last attempt: the drawing, or why there
/// is none.
pub open spec fn verdict_of(attempt: AttemptModel) -> Result<Seq<char>, Seq<char>> {
    match attempt {
        AttemptModel::Svg(svg) => Ok(svg),
        AttemptModel::Refused(message) => Err(message),
        AttemptModel::Panicked => Err(PANIC_MESSAGE@),
    }
}

/// Turns the last attempt to render a diagram into the result of rendering.
pub fn render_verdict(attempt: RenderAttempt) -> (r: Result<String, String>)
    ensures
        match r {
            Ok(svg) => verdict_of(attempt@) == Ok::<Seq<char>, Seq<char>>(svg@),
            Err(message) => verdict_of(attempt@) == Err::<Seq<char>, Seq<char>>(message@),
        },
{
    match attempt {
        RenderAttempt::Svg(svg) => Ok(svg),
        RenderAttempt::Refused(message) => Err(message),
        RenderAttempt::Panicked => Err(PANIC_MESSAGE.to_owned()),
    }
}

/// What stands in a page for a diagram block: the drawing in a container,
/// or, without a drawing, the source for the page to draw.
pub open spec fn diagram_element(source: Seq<char>, svg: Option<Seq<char>>) -> Seq<char> {
    match svg {
        Some(drawing) => "<div class=\"mermaid-diagram\">"@ + drawing + "</div>"@,
        None => "<pre class=\"mermaid\">"@ + html_encoded(source) + "</pre>"@,
    }
}

/// Makes the element that stands in a page for a diagram block.
pub fn diagram_html(source: &str, svg: Option<&str>) -> (r: String)
    ensures
        r@ == diagram_element(
            source@,
            match svg {
                Some(drawing) => Some(drawing@),
                None => None,
            },
        ),
{
    let mut r = String::new();
    match svg {
        Some(drawing) => {
            r.append("<div class=\"mermaid-diagram\">");
            r.append(drawing);
            r.append("</div>");
        },
        None => {
            let encoded = html_encode(source);
            r.append("<pre class=\"mermaid\">");
            r.append(encoded.as_str());
            r.append("</pre>");
        },
    }
    r
}

/// What became of a diagram on its way to an embedded image.
#[derive(Clone, Debug, PartialEq, Eq)]
pub enum DiagramImage {
    /// The drawing as a PNG image, in base64.
    Png(String),
    /// The diagram was drawn, but the drawing could not be made an image.
    ConversionFailed,
    /// The renderer could not draw the diagram.
    RenderFailed,
}

/// What a diagram image is.
pub enum DiagramImageModel {
    Png(Seq<char>),
    ConversionFailed,
    RenderFailed,
}

impl View for DiagramImage {
    type V = DiagramImageModel;

    open spec fn view(&self) -> DiagramImageModel {
        match self {
            DiagramImage::Png(data) => DiagramImageModel::Png(data@),
            DiagramImage::ConversionFailed => DiagramImageModel::ConversionFailed,
            DiagramImage::RenderFailed => DiagramImageModel::RenderFailed,
        }
    }
}

/// The note and code block that show the source of a diagram for which
/// there is no image.
pub open spec fn diagram_note(reason: Seq<char>, source: Seq<char>) -> Seq<char> {
    "> **◇ Mermaid Diagram** *("@ + reason + ")*\n\n```\n"@ + source + "```"@
}

/// The markdown that stands for a diagram block: an image that holds the
/// drawing, or a note with the source.
pub open spec fn diagram_markdown_of(source: Seq<char>, image: DiagramImageModel) -> Seq<char> {
    match image {
        DiagramImageModel::Png(data) => "![mermaid diagram](data:image/png;base64,"@ + data
            + ")"@,
        DiagramImageModel::ConversionFailed => diagram_note(
            "SVG to PNG conversion failed"@,
            source,
        ),
        DiagramImageModel::RenderFailed => diagram_note("unsupported by native renderer"@, source),
    }
}

/// Makes the markdown that stands for a diagram block.
pub fn diagram_markdown(source: &str, image: &DiagramImage) -> (r: String)
    ensures
        r@ == diagram_markdown_of(source@, image@),
{
    let mut r = String::new();
    match image {
        DiagramImage::Png(data) => {
            r.append("![mermaid diagram](data:image/png;base64,");
            r.append(data.as_str());
            r.append(")");
        },
        DiagramImage::ConversionFailed => {
            r.append("> **◇ Mermaid Diagram** *(");
            r.append("SVG to PNG conversion failed");
            r.append(")*\n\n```\n");
            r.append(source);
            r.append("```");
        },
        DiagramImage::RenderFailed => {
            r.append("> **◇ Mermaid Diagram** *(");
            r.append("unsupported by native renderer");
            r.append(")*\n\n```\n");
            r.append(source);
            r.append("```");
        },
    }
    r
}

} // verus!
