//! Table-of-contents entries, their anchors, and the heading navigator that
//! finds the row of a heading among the content elements.

use crate::elements::{elements_of, row_text, ContentElement, ElementModel};
use crate::rows::{lemma_start_row_monotone, lemma_start_row_step, start_row, total_rows};
use crate::style::flat_text;
use crate::text::{contains, contains_seq, lowercase, to_chars, to_lowercase};
use comrak::nodes::NodeValue;
use vstd::prelude::*;
use vstd::string::*;

verus! {

/// One heading of a document, as the table of contents lists it.
#[derive(Debug, Clone)]
pub struct TocEntry {
    /// The heading's level, from 1 to 6.
    pub level: u8,
    /// The heading's text.
    pub text: String,
    /// The anchor that stands for the heading in links.
    pub anchor: String,
}

/// Whether `char::is_alphanumeric` holds of a character: whether Unicode
/// counts it among the letters or the numbers.
pub uninterp spec fn is_alphanumeric(c: char) -> bool;

/// `char::is_alphanumeric`: the result is a function of the character alone,
/// named `is_alphanumeric`.
pub assume_specification[ char::is_alphanumeric ](c: char) -> (b: bool)
    ensures
        b == is_alphanumeric(c),
;

/// The anchor characters of `s`: letters, numbers, hyphens and underscores
/// stay, a space becomes a hyphen, and every other character is dropped.
pub open spec fn slug_chars(s: Seq<char>) -> Seq<char>
    decreases s.len(),
{
    if s.len() == 0 {
        Seq::empty()
    } else {
        let before = slug_chars(s.drop_last());
        let c = s.last();
        if is_alphanumeric(c) || c == '-' || c == '_' {
            before.push(c)
        } else if c == ' ' {
            before.push('-')
        } else {
            before
        }
    }
}

/// The anchor of a heading text: the anchor characters of its lowercase form.
pub open spec fn slug_of(text: Seq<char>) -> Seq<char> {
    slug_chars(lowercase(text))
}

/// The anchor characters of `chars`.
pub fn slug_from_chars(chars: &Vec<char>) -> (slug: String)
    ensures
        slug@ == slug_chars(chars@),
{
    let mut slug = String::new();
    let mut i: usize = 0;
    assert(chars@.take(0) =~= Seq::<char>::empty());
    while i < chars.len()
        invariant
            i <= chars.len(),
            slug@ == slug_chars(chars@.take(i as int)),
        decreases chars.len() - i,
    {
        let c = chars[i];
        proof {
            assert(chars@.take(i + 1).drop_last() =~= chars@.take(i as int));
        }
        if c.is_alphanumeric() || c == '-' || c == '_' {
            slug.push(c);
        } else if c == ' ' {
            slug.push('-');
        }
        i += 1;
    }
    assert(chars@.take(i as int) =~= chars@);
    slug
}

/// Turns a heading text into its anchor.
pub fn slugify(text: &str) -> (slug: String)
    ensures
        slug@ == slug_of(text@),
{
    let lower = to_chars(to_lowercase(text).as_str());
    slug_from_chars(&lower)
}

/// The element's text holds `heading`, letter case included.
pub open spec fn text_holds(e: ElementModel, heading: Seq<char>) -> bool {
    match row_text(e) {
        Some(l) => contains_seq(flat_text(l), heading),
        None => false,
    }
}

/// The start row of the first element from `i` on whose text holds `heading`.
pub open spec fn locate_from(elements: Seq<ElementModel>, heading: Seq<char>, i: int) -> Option<
    usize,
>
    decreases elements.len() - i,
{
    if i < 0 || i >= elements.len() {
        None
    } else if text_holds(elements[i], heading) {
        Some(start_row(elements, i) as usize)
    } else {
        locate_from(elements, heading, i + 1)
    }
}

/// The row of a heading: the start row of the first text or placeholder
/// element whose text holds the heading text.
pub open spec fn heading_row(elements: Seq<ElementModel>, heading: Seq<char>) -> Option<usize> {
    locate_from(elements, heading, 0)
}

fn element_holds(element: &ContentElement, needle: &Vec<char>) -> (found: bool)
    ensures
        found == text_holds(element@, needle@),
{
    match element {
        ContentElement::TextLine(l) => {
            let text = to_chars(l.text().as_str());
            contains(&text, needle)
        },
        ContentElement::Image { .. } => false,
        ContentElement::ImagePlaceholder(l) => {
            let text = to_chars(l.text().as_str());
            contains(&text, needle)
        },
    }
}

/// Finds the row of the first element whose text holds `heading_text`.
pub fn locate(elements: &Vec<ContentElement>, heading_text: &str) -> (row: Option<usize>)
    requires
        total_rows(elements_of(elements@)) <= usize::MAX,
    ensures
        row == heading_row(elements_of(elements@), heading_text@),
{
    let ghost all = elements_of(elements@);
    let needle = to_chars(heading_text);
    let mut start: usize = 0;
    let mut i: usize = 0;
    proof {
        assert(all.take(0) =~= Seq::<ElementModel>::empty());
    }
    while i < elements.len()
        invariant
            i <= elements.len(),
            all == elements_of(elements@),
            total_rows(all) <= usize::MAX,
            needle@ == heading_text@,
            start == start_row(all, i as int),
            heading_row(all, needle@) == locate_from(all, needle@, i as int),
        decreases elements.len() - i,
    {
        proof {
            lemma_start_row_step(all, i as int);
            lemma_start_row_monotone(all, i + 1, all.len() as int);
        }
        if element_holds(&elements[i], &needle) {
            return Some(start);
        }
        start = start + elements[i].row_height() as usize;
        i += 1;
    }
    None
}

/// The heading texts of the entries.
pub open spec fn toc_texts(entries: Seq<TocEntry>) -> Seq<Seq<char>> {
    entries.map_values(|e: TocEntry| e.text@)
}

/// The row of the heading that entry `index` names, none where there is no
/// such entry or no element holds its text.
pub open spec fn toc_row(elements: Seq<ElementModel>, headings: Seq<Seq<char>>, index: int)
    -> Option<usize> {
    if 0 <= index < headings.len() {
        heading_row(elements, headings[index])
    } else {
        None
    }
}

/// Finds the row where the heading of entry `toc_index` stands.
pub fn find_heading_row(
    elements: &Vec<ContentElement>,
    toc_entries: &Vec<TocEntry>,
    toc_index: usize,
) -> (row: Option<usize>)
    requires
        total_rows(elements_of(elements@)) <= usize::MAX,
    ensures
        row == toc_row(elements_of(elements@), toc_texts(toc_entries@), toc_index as int),
{
    if toc_index >= toc_entries.len() {
        return None;
    }
    locate(elements, toc_entries[toc_index].text.as_str())
}

/// The markdown extensions that the parser is asked for.
#[derive(Clone, Copy, Debug, PartialEq, Eq, Structural)]
pub struct Extensions {
    pub strikethrough: bool,
    pub table: bool,
    pub autolink: bool,
    pub tasklist: bool,
    pub footnotes: bool,
}

/// The extensions that documents are read with: strikethrough, tables,
/// autolinks, task lists and footnotes.
pub open spec fn gfm_extensions() -> Extensions {
    Extensions { strikethrough: true, table: true, autolink: true, tasklist: true, footnotes: true }
}

impl Extensions {
    /// The extensions that documents are read with.
    pub fn gfm() -> (extensions: Extensions)
        ensures
            extensions == gfm_extensions(),
    {
        Extensions {
            strikethrough: true,
            table: true,
            autolink: true,
            tasklist: true,
            footnotes: true,
        }
    }
}

/// What a node of a parsed document is, as far as headings go.
#[derive(Clone, Debug, PartialEq, Eq)]
pub enum NodeKind {
    /// A heading of the given level.
    Heading(u8),
    /// A stretch of text.
    Text(String),
    /// An inline code span, with its content.
    Code(String),
    /// Any other node.
    Other,
}

/// One node of a parsed document: the nodes stand in document order, each
/// parent before its children, and `depth` counts a node and its ancestors.
#[derive(Clone, Debug, PartialEq, Eq)]
pub struct OutlineNode {
    pub depth: usize,
    pub kind: NodeKind,
}

/// What a node kind is.
pub enum KindModel {
    Heading(u8),
    Text(Seq<char>),
    Code(Seq<char>),
    Other,
}

/// What an outline node is.
pub struct NodeModel {
    pub depth: usize,
    pub kind: KindModel,
}

impl View for OutlineNode {
    type V = NodeModel;

    open spec fn view(&self) -> NodeModel {
        NodeModel {
            depth: self.depth,
            kind: match self.kind {
                NodeKind::Heading(level) => KindModel::Heading(level),
                NodeKind::Text(text) => KindModel::Text(text@),
                NodeKind::Code(text) => KindModel::Code(text@),
                NodeKind::Other => KindModel::Other,
            },
        }
    }
}

/// The models of the nodes of `nodes`.
pub open spec fn outline_of(nodes: Seq<OutlineNode>) -> Seq<NodeModel> {
    nodes.map_values(|n: OutlineNode| n@)
}

/// The nodes that `comrak::parse_document` makes of a document with the
/// given extensions, in document order.
pub uninterp spec fn markdown_outline(content: Seq<char>, extensions: Extensions) -> Seq<
    NodeModel,
>;

/// `comrak::parse_document`, and the nodes of the tree it returns as
/// `descendants` walks them from the root, each with the number of its
/// `ancestors`: the outcome is a function of the document and the
/// extensions alone, named `markdown_outline`.
#[verifier::external_body]
fn parse_outline(content: &str, extensions: Extensions) -> (nodes: Vec<OutlineNode>)
    ensures
        outline_of(nodes@) == markdown_outline(content@, extensions),
{
    let arena = comrak::Arena::new();
    let mut options = comrak::Options::default();
    options.extension.strikethrough = extensions.strikethrough;
    options.extension.table = extensions.table;
    options.extension.autolink = extensions.autolink;
    options.extension.tasklist = extensions.tasklist;
    options.extension.footnotes = extensions.footnotes;
    let root = comrak::parse_document(&arena, content, &options);
    root.descendants().map(|n| OutlineNode { depth: n.ancestors().count(), kind: match &n.data.borrow().value {
        NodeValue::Heading(h) => NodeKind::Heading(h.level),
        NodeValue::Text(t) => NodeKind::Text(t.to_string()),
        NodeValue::Code(c) => NodeKind::Code(c.literal.clone()),
        _ => NodeKind::Other,
    } }).collect()
}

/// The text that a node holds itself: that of a stretch of text or of a code
/// span.
pub open spec fn literal_of(node: NodeModel) -> Seq<char> {
    match node.kind {
        KindModel::Text(text) => text,
        KindModel::Code(text) => text,
        _ => Seq::empty(),
    }
}

/// The text that the nodes from `j` on hold, as far as they stand below a
/// node of depth `depth`.
pub open spec fn text_below(nodes: Seq<NodeModel>, depth: usize, j: int) -> Seq<char>
    decreases nodes.len() - j,
{
    if j < 0 || j >= nodes.len() || nodes[j].depth <= depth {
        Seq::empty()
    } else {
        literal_of(nodes[j]) + text_below(nodes, depth, j + 1)
    }
}

/// What a table-of-contents entry is.
pub struct TocModel {
    pub level: u8,
    pub text: Seq<char>,
    pub anchor: Seq<char>,
}

impl View for TocEntry {
    type V = TocModel;

    open spec fn view(&self) -> TocModel {
        TocModel { level: self.level, text: self.text@, anchor: self.anchor@ }
    }
}

/// The models of the entries of `entries`.
pub open spec fn toc_of(entries: Seq<TocEntry>) -> Seq<TocModel> {
    entries.map_values(|e: TocEntry| e@)
}

/// The entries of the headings among the first `n` nodes: each heading with
/// its level, the text of the nodes below it, and the anchor of that text.
pub open spec fn entries_upto(nodes: Seq<NodeModel>, n: int) -> Seq<TocModel>
    decreases n,
{
    if n <= 0 {
        Seq::empty()
    } else {
        let before = entries_upto(nodes, n - 1);
        match nodes[n - 1].kind {
            KindModel::Heading(level) => {
                let text = text_below(nodes, nodes[n - 1].depth, n);
                before.push(TocModel { level, text, anchor: slug_of(text) })
            },
            _ => before,
        }
    }
}

/// The table of contents of an outline.
pub open spec fn outline_entries(nodes: Seq<NodeModel>) -> Seq<TocModel> {
    entries_upto(nodes, nodes.len() as int)
}

fn gather_text(nodes: &Vec<OutlineNode>, depth: usize, from: usize) -> (text: String)
    requires
        from <= nodes.len(),
    ensures
        text@ == text_below(outline_of(nodes@), depth, from as int),
{
    let ghost all = outline_of(nodes@);
    let mut text = String::new();
    let mut j: usize = from;
    assert(text@ + text_below(all, depth, from as int) =~= text_below(all, depth, from as int));
    while j < nodes.len() && nodes[j].depth > depth
        invariant
            from <= j <= nodes.len(),
            all == outline_of(nodes@),
            text@ + text_below(all, depth, j as int) == text_below(all, depth, from as int),
        decreases nodes.len() - j,
    {
        let ghost before = text@;
        assert(all[j as int] == nodes@[j as int]@);
        match &nodes[j].kind {
            NodeKind::Text(t) => {
                text.append(t.as_str());
            },
            NodeKind::Code(c) => {
                text.append(c.as_str());
            },
            _ => {},
        }
        assert(text@ =~= before + literal_of(all[j as int]));
        assert(text@ + text_below(all, depth, j + 1) =~= before + text_below(
            all,
            depth,
            j as int,
        ));
        j += 1;
    }
    proof {
        if j < nodes.len() {
            assert(all[j as int] == nodes@[j as int]@);
        }
        assert(text_below(all, depth, j as int) =~= Seq::<char>::empty());
        assert(text@ + Seq::<char>::empty() =~= text@);
    }
    text
}

/// Lists the headings of an outline.
pub fn toc_from_outline(nodes: &Vec<OutlineNode>) -> (entries: Vec<TocEntry>)
    ensures
        toc_of(entries@) == outline_entries(outline_of(nodes@)),
{
    let ghost all = outline_of(nodes@);
    let mut entries: Vec<TocEntry> = Vec::new();
    let mut i: usize = 0;
    assert(toc_of(entries@) =~= entries_upto(all, 0));
    while i < nodes.len()
        invariant
            i <= nodes.len(),
            all == outline_of(nodes@),
            toc_of(entries@) == entries_upto(all, i as int),
        decreases nodes.len() - i,
    {
        let ghost before = toc_of(entries@);
        assert(all[i as int] == nodes@[i as int]@);
        match &nodes[i].kind {
            NodeKind::Heading(level) => {
                let text = gather_text(nodes, nodes[i].depth, i + 1);
                let anchor = slugify(text.as_str());
                let entry = TocEntry { level: *level, text, anchor };
                entries.push(entry);
                assert(toc_of(entries@) =~= before.push(entry@));
            },
            _ => {},
        }
        i += 1;
    }
    entries
}

/// Extracts the table of contents of a markdown document: one entry for
/// each heading, in document order.
pub fn extract_toc(content: &str) -> (entries: Vec<TocEntry>)
    ensures
        toc_of(entries@) == outline_entries(markdown_outline(content@, gfm_extensions())),
{
    let nodes = parse_outline(content, Extensions::gfm());
    toc_from_outline(&nodes)
}

} // verus!
