//! Content elements and the element builder: classified items, with what the
//! resolvers of images and diagrams brought back, to the rows of the display.

use crate::blocks::{code_footer, frame_style, parsed_of, ParsedLine, ParsedModel};
use crate::inline::{image_label, image_label_style};
use crate::style::{run, ColorClass, RunModel, Style, StyledLine, StyledRun};
use crate::text::{lines_of, push_range, rows_of, split_lines, to_chars};
use vstd::prelude::*;
use vstd::string::*;

verus! {

/// One unit of the display: a row of text, a visual block of several rows, or
/// the one-row placeholder of a visual that could not be shown.
#[derive(Clone, Debug, PartialEq, Eq)]
pub enum ContentElement {
    TextLine(StyledLine),
    /// A visual of `height` rows. `handle` names it to the painter: it is the
    /// index of the classified item that the visual was resolved for.
    Image { handle: usize, height: u16 },
    ImagePlaceholder(StyledLine),
}

/// What a content element is.
pub enum ElementModel {
    TextLine(Seq<RunModel>),
    Image { handle: usize, height: u16 },
    ImagePlaceholder(Seq<RunModel>),
}

impl View for ContentElement {
    type V = ElementModel;

    open spec fn view(&self) -> ElementModel {
        match self {
            ContentElement::TextLine(l) => ElementModel::TextLine(l@),
            ContentElement::Image { handle, height } => ElementModel::Image {
                handle: *handle,
                height: *height,
            },
            ContentElement::ImagePlaceholder(l) => ElementModel::ImagePlaceholder(l@),
        }
    }
}

/// The models of the elements of `elements`.
pub open spec fn elements_of(elements: Seq<ContentElement>) -> Seq<ElementModel> {
    elements.map_values(|e: ContentElement| e@)
}

/// The number of rows that an element takes.
pub open spec fn row_height(e: ElementModel) -> nat {
    match e {
        ElementModel::TextLine(_) => 1,
        ElementModel::Image { handle, height } => height as nat,
        ElementModel::ImagePlaceholder(_) => 1,
    }
}

/// The text row or placeholder text of an element, if it has one.
pub open spec fn row_text(e: ElementModel) -> Option<Seq<RunModel>> {
    match e {
        ElementModel::TextLine(l) => Some(l),
        ElementModel::Image { handle, height } => None,
        ElementModel::ImagePlaceholder(l) => Some(l),
    }
}

/// An element is well formed where it takes at least one row.
pub open spec fn well_formed(e: ElementModel) -> bool {
    row_height(e) >= 1
}

impl ContentElement {
    /// The number of rows that the element takes.
    pub fn row_height(&self) -> (h: u16)
        ensures
            h == row_height(self@),
    {
        match self {
            ContentElement::TextLine(_) => 1,
            ContentElement::Image { height, .. } => *height,
            ContentElement::ImagePlaceholder(_) => 1,
        }
    }
}

/// What the resolvers brought back for one classified item: the pixel size of
/// the decoded visual, or a failure.
#[derive(Clone, Copy, Debug, PartialEq, Eq, Structural)]
pub enum Resolution {
    Failed,
    Image { width: u32, height: u32 },
}

/// The number of columns that a visual is laid out for.
pub const TARGET_COLS: u64 = 60;

/// The rows of a visual of `width` by `height` pixels: laid out 60 columns
/// wide in cells twice as high as wide, rounded to the nearest row (half a
/// row rounds up) and kept between 2 and 20. Without width it is as high as
/// it can be, and without any size as low.
pub open spec fn block_rows(width: int, height: int) -> int {
    if width == 0 {
        if height == 0 {
            2
        } else {
            20
        }
    } else {
        let rounded = (TARGET_COLS as int * height + width) / (2 * width);
        if rounded < 2 {
            2
        } else if rounded > 20 {
            20
        } else {
            rounded
        }
    }
}

/// The rows of a visual of the given pixel size.
pub fn block_row_height(width: u32, height: u32) -> (rows: u16)
    ensures
        rows == block_rows(width as int, height as int),
        2 <= rows <= 20,
{
    if width == 0 {
        if height == 0 {
            2
        } else {
            20
        }
    } else {
        let w: u64 = width as u64;
        let h: u64 = height as u64;
        let rounded: u64 = (TARGET_COLS * h + w) / (2 * w);
        if rounded < 2 {
            2
        } else if rounded > 20 {
            20
        } else {
            rounded as u16
        }
    }
}

/// The placeholder row of an image with alternative text `alt`.
pub open spec fn placeholder(alt: Seq<char>) -> ElementModel {
    ElementModel::ImagePlaceholder(seq![run(image_label(alt), image_label_style())])
}

/// The first row of the box that shows a diagram's source.
pub open spec fn fallback_header() -> Seq<char> {
    "┌─ mermaid ─────────────────────────────────┐"@
}

/// One text row as an element.
pub open spec fn text_element(text: Seq<char>, style: Style) -> ElementModel {
    ElementModel::TextLine(seq![run(text, style)])
}

/// The rows that show the lines `lines` of a diagram's source.
pub open spec fn source_rows(lines: Seq<Seq<char>>) -> Seq<ElementModel> {
    lines.map_values(|l: Seq<char>| text_element("│ "@ + l, Style::colored(ColorClass::Green)))
}

/// The rows that stand for a diagram that could not be shown: its source in
/// a box, line by line, and a blank row after it.
pub open spec fn fallback_rows(source: Seq<char>) -> Seq<ElementModel> {
    seq![text_element(fallback_header(), frame_style())] + source_rows(lines_of(source)) + seq![
        text_element(code_footer(), frame_style()),
        ElementModel::TextLine(Seq::empty()),
    ]
}

/// The elements of one classified item, the `index`-th of its document, given
/// what its resolution brought and whether visuals can be shown at all. A
/// styled row stays as it is. An image becomes a block where it was resolved
/// and can be shown, else its placeholder. A diagram becomes a block on the
/// same condition, else its source in a box.
pub open spec fn element_rows(item: ParsedModel, index: usize, outcome: Resolution, capable: bool)
    -> Seq<ElementModel> {
    match item {
        ParsedModel::Text(l) => seq![ElementModel::TextLine(l)],
        ParsedModel::ImageRef { alt, url } => match outcome {
            Resolution::Image { width, height } if capable => seq![
                ElementModel::Image {
                    handle: index,
                    height: block_rows(width as int, height as int) as u16,
                },
            ],
            _ => seq![placeholder(alt)],
        },
        ParsedModel::MermaidRef { source } => match outcome {
            Resolution::Image { width, height } if capable => seq![
                ElementModel::Image {
                    handle: index,
                    height: block_rows(width as int, height as int) as u16,
                },
            ],
            _ => fallback_rows(source),
        },
    }
}

/// The outcome that stands at `i`, a failure where there is none.
pub open spec fn outcome_at(outcomes: Seq<Resolution>, i: int) -> Resolution {
    if 0 <= i < outcomes.len() {
        outcomes[i]
    } else {
        Resolution::Failed
    }
}

/// The elements of the items from `i` on.
pub open spec fn build_from(
    items: Seq<ParsedModel>,
    outcomes: Seq<Resolution>,
    capable: bool,
    i: int,
) -> Seq<ElementModel>
    decreases items.len() - i,
{
    if i < 0 || i >= items.len() {
        Seq::empty()
    } else {
        element_rows(items[i], i as usize, outcome_at(outcomes, i), capable) + build_from(
            items,
            outcomes,
            capable,
            i + 1,
        )
    }
}

/// The elements of a classified document, in document order.
pub open spec fn build(items: Seq<ParsedModel>, outcomes: Seq<Resolution>, capable: bool) -> Seq<
    ElementModel,
> {
    build_from(items, outcomes, capable, 0)
}

fn push_element(elements: &mut Vec<ContentElement>, e: ContentElement)
    ensures
        elements_of(final(elements)@) == elements_of(old(elements)@).push(e@),
{
    elements.push(e);
    assert(elements_of(elements@) =~= elements_of(old(elements)@).push(e@));
}

fn make_text_element(text: String, style: Style) -> (e: ContentElement)
    ensures
        e@ == text_element(text@, style),
{
    ContentElement::TextLine(StyledLine::single(StyledRun::new(text, style)))
}

/// Adds the rows that stand for a diagram that could not be shown.
pub fn push_mermaid_fallback_code(elements: &mut Vec<ContentElement>, source: &str)
    ensures
        elements_of(final(elements)@) == elements_of(old(elements)@) + fallback_rows(source@),
{
    let chars = to_chars(source);
    let lines = split_lines(&chars);
    let ghost before = elements_of(elements@);
    let ghost head = seq![text_element(fallback_header(), frame_style())];
    push_element(
        elements,
        make_text_element(
            "┌─ mermaid ─────────────────────────────────┐".to_owned(),
            Style::colored(ColorClass::DarkGray),
        ),
    );
    let mut i: usize = 0;
    assert(elements_of(elements@) =~= before + head + source_rows(rows_of(lines@).take(0)));
    while i < lines.len()
        invariant
            i <= lines.len(),
            rows_of(lines@) == lines_of(source@),
            elements_of(elements@) == before + head + source_rows(rows_of(lines@).take(i as int)),
        decreases lines.len() - i,
    {
        let mut s = String::new();
        s.append("│ ");
        push_range(&mut s, &lines[i], 0, lines[i].len());
        assert(s@ =~= "│ "@ + lines@[i as int]@);
        push_element(elements, make_text_element(s, Style::colored(ColorClass::Green)));
        assert(elements_of(elements@) =~= before + head + source_rows(
            rows_of(lines@).take(i + 1),
        ));
        i += 1;
    }
    assert(rows_of(lines@).take(i as int) =~= rows_of(lines@));
    push_element(
        elements,
        make_text_element(
            "└─────────────────────────────────────────┘".to_owned(),
            Style::colored(ColorClass::DarkGray),
        ),
    );
    push_element(elements, ContentElement::TextLine(StyledLine::blank()));
    assert(elements_of(elements@) =~= before + fallback_rows(source@));
}

fn make_placeholder(alt: &str) -> (e: ContentElement)
    ensures
        e@ == placeholder(alt@),
{
    let mut s = String::new();
    s.append("[Image: ");
    if alt.is_empty() {
        s.append("image");
    } else {
        s.append(alt);
    }
    s.append("]");
    assert(s@ =~= image_label(alt@));
    ContentElement::ImagePlaceholder(
        StyledLine::single(StyledRun::new(s, Style::colored(ColorClass::Magenta).italic())),
    )
}

/// Adds the elements of one classified item.
pub fn push_item_elements(
    elements: &mut Vec<ContentElement>,
    item: ParsedLine,
    index: usize,
    outcome: Resolution,
    capable: bool,
)
    ensures
        elements_of(final(elements)@) == elements_of(old(elements)@) + element_rows(
            item@,
            index,
            outcome,
            capable,
        ),
{
    let ghost before = elements_of(elements@);
    match item {
        ParsedLine::Text(l) => {
            push_element(elements, ContentElement::TextLine(l));
            assert(elements_of(elements@) =~= before + seq![ElementModel::TextLine(l@)]);
        },
        ParsedLine::ImageRef { alt, url } => {
            match outcome {
                Resolution::Image { width, height } if capable => {
                    let rows = block_row_height(width, height);
                    push_element(elements, ContentElement::Image { handle: index, height: rows });
                    assert(elements_of(elements@) =~= before + element_rows(
                        item@,
                        index,
                        outcome,
                        capable,
                    ));
                },
                _ => {
                    push_element(elements, make_placeholder(alt.as_str()));
                    assert(elements_of(elements@) =~= before + seq![placeholder(alt@)]);
                },
            }
        },
        ParsedLine::MermaidRef { source } => {
            match outcome {
                Resolution::Image { width, height } if capable => {
                    let rows = block_row_height(width, height);
                    push_element(elements, ContentElement::Image { handle: index, height: rows });
                    assert(elements_of(elements@) =~= before + element_rows(
                        item@,
                        index,
                        outcome,
                        capable,
                    ));
                },
                _ => {
                    push_mermaid_fallback_code(elements, source.as_str());
                },
            }
        },
    }
}

/// Builds the content elements of a classified document. `outcomes[i]` is
/// what the resolvers brought for `items[i]` (a missing one counts as a
/// failure), and `capable` says whether visuals can be shown at all.
pub fn build_content_elements(items: Vec<ParsedLine>, outcomes: &Vec<Resolution>, capable: bool)
    -> (elements: Vec<ContentElement>)
    ensures
        elements_of(elements@) == build(parsed_of(items@), outcomes@, capable),
{
    let ghost source = items@;
    let count = items.len();
    let ghost all = parsed_of(items@);
    let mut elements: Vec<ContentElement> = Vec::new();
    let mut index: usize = 0;
    assert(elements_of(elements@) + build_from(all, outcomes@, capable, 0) =~= build(
        all,
        outcomes@,
        capable,
    ));
    for item in it: items
        invariant
            it.seq() == source,
            source.len() == count,
            all == parsed_of(source),
            index == it.index(),
            elements_of(elements@) + build_from(all, outcomes@, capable, index as int) == build(
                all,
                outcomes@,
                capable,
            ),
    {
        let ghost before = elements_of(elements@);
        let outcome = if index < outcomes.len() {
            outcomes[index]
        } else {
            Resolution::Failed
        };
        assert(all[index as int] == item@);
        push_item_elements(&mut elements, item, index, outcome, capable);
        assert(elements_of(elements@) + build_from(all, outcomes@, capable, index + 1) =~= before
            + build_from(all, outcomes@, capable, index as int));
        index += 1;
    }
    assert(build_from(all, outcomes@, capable, index as int) =~= Seq::<ElementModel>::empty());
    assert(elements_of(elements@) + Seq::<ElementModel>::empty() =~= elements_of(elements@));
    elements
}

/// The outside work that one classified item asks for.
#[derive(Clone, Debug, PartialEq, Eq)]
pub enum ResolveRequest {
    /// Nothing to resolve.
    Nothing,
    /// Load and decode the image at `url`.
    Image { url: String },
    /// Render the diagram `source` and rasterize it.
    Diagram { source: String },
}

/// What a resolve request is.
pub enum RequestModel {
    Nothing,
    Image { url: Seq<char> },
    Diagram { source: Seq<char> },
}

impl View for ResolveRequest {
    type V = RequestModel;

    open spec fn view(&self) -> RequestModel {
        match self {
            ResolveRequest::Nothing => RequestModel::Nothing,
            ResolveRequest::Image { url } => RequestModel::Image { url: url@ },
            ResolveRequest::Diagram { source } => RequestModel::Diagram { source: source@ },
        }
    }
}

/// The outside work that `item` asks for: an image is loaded only where
/// visuals can be shown, a diagram is rendered in any case, and a styled row
/// needs nothing.
pub open spec fn request_for(item: ParsedModel, capable: bool) -> RequestModel {
    match item {
        ParsedModel::Text(_) => RequestModel::Nothing,
        ParsedModel::ImageRef { alt, url } => if capable {
            RequestModel::Image { url }
        } else {
            RequestModel::Nothing
        },
        ParsedModel::MermaidRef { source } => RequestModel::Diagram { source },
    }
}

/// Says which resolver, if any, is to be called for `item`.
pub fn resolve_request(item: &ParsedLine, capable: bool) -> (r: ResolveRequest)
    ensures
        r@ == request_for(item@, capable),
{
    match item {
        ParsedLine::Text(_) => ResolveRequest::Nothing,
        ParsedLine::ImageRef { alt, url } => {
            if capable {
                ResolveRequest::Image { url: url.clone() }
            } else {
                ResolveRequest::Nothing
            }
        },
        ParsedLine::MermaidRef { source } => ResolveRequest::Diagram { source: source.clone() },
    }
}

/// Every element that the builder makes takes at least one row, and a block
/// from 2 to 20.
pub proof fn lemma_built_elements_well_formed(
    items: Seq<ParsedModel>,
    outcomes: Seq<Resolution>,
    capable: bool,
    k: int,
)
    requires
        0 <= k < build(items, outcomes, capable).len(),
    ensures
        well_formed(build(items, outcomes, capable)[k]),
        build(items, outcomes, capable)[k] is Image ==> 2 <= row_height(
            build(items, outcomes, capable)[k],
        ) <= 20,
{
    lemma_built_from(items, outcomes, capable, 0, k);
}

proof fn lemma_built_from(
    items: Seq<ParsedModel>,
    outcomes: Seq<Resolution>,
    capable: bool,
    i: int,
    k: int,
)
    requires
        0 <= i,
        0 <= k < build_from(items, outcomes, capable, i).len(),
    ensures
        well_formed(build_from(items, outcomes, capable, i)[k]),
        build_from(items, outcomes, capable, i)[k] is Image ==> 2 <= row_height(
            build_from(items, outcomes, capable, i)[k],
        ) <= 20,
    decreases items.len() - i,
{
    if i < items.len() {
        let first = element_rows(items[i], i as usize, outcome_at(outcomes, i), capable);
        if k >= first.len() {
            lemma_built_from(items, outcomes, capable, i + 1, k - first.len());
        }
    }
}

} // verus!
