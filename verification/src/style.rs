//! Styled runs and lines: the text of one display row with its attributes.

use vstd::prelude::*;
use vstd::string::*;

verus! {

/// The colour role of a run; the painter maps each class to a terminal colour.
#[derive(Clone, Copy, Debug, PartialEq, Eq, Structural)]
pub enum ColorClass {
    Default,
    Cyan,
    Blue,
    Yellow,
    Magenta,
    Green,
    White,
    Gray,
    DarkGray,
    /// Green on a dark background, as inline code is shown.
    InlineCode,
    /// Yellow on a dark background, as the search prompt is shown.
    SearchPrompt,
}

/// The attributes of a run.
#[derive(Clone, Copy, Debug, PartialEq, Eq, Structural)]
pub struct Style {
    pub color: ColorClass,
    pub bold: bool,
    pub italic: bool,
    pub strikethrough: bool,
    pub underline: bool,
}

impl Style {
    /// The style of no attribute in the given colour class.
    pub open spec fn spec_colored(color: ColorClass) -> Style {
        Style { color, bold: false, italic: false, strikethrough: false, underline: false }
    }

    /// No attribute set, in the given colour class.
    #[verifier::when_used_as_spec(spec_colored)]
    pub fn colored(color: ColorClass) -> (r: Style)
        ensures
            r == Style::spec_colored(color),
    {
        Style { color, bold: false, italic: false, strikethrough: false, underline: false }
    }

    /// The style of no attribute in the default colour.
    pub open spec fn spec_plain() -> Style {
        Style::spec_colored(ColorClass::Default)
    }

    /// No attribute set, default colour.
    #[verifier::when_used_as_spec(spec_plain)]
    pub fn plain() -> (r: Style)
        ensures
            r == Style::spec_plain(),
    {
        Style::colored(ColorClass::Default)
    }

    /// This style, bold.
    pub open spec fn spec_bold(self) -> Style {
        Style { bold: true, ..self }
    }

    /// This style, bold.
    #[verifier::when_used_as_spec(spec_bold)]
    pub fn bold(self) -> (r: Style)
        ensures
            r == self.spec_bold(),
    {
        Style { bold: true, ..self }
    }

    /// This style, italic.
    pub open spec fn spec_italic(self) -> Style {
        Style { italic: true, ..self }
    }

    /// This style, italic.
    #[verifier::when_used_as_spec(spec_italic)]
    pub fn italic(self) -> (r: Style)
        ensures
            r == self.spec_italic(),
    {
        Style { italic: true, ..self }
    }

    /// This style, underlined.
    pub open spec fn spec_underlined(self) -> Style {
        Style { underline: true, ..self }
    }

    /// This style, underlined.
    #[verifier::when_used_as_spec(spec_underlined)]
    pub fn underlined(self) -> (r: Style)
        ensures
            r == self.spec_underlined(),
    {
        Style { underline: true, ..self }
    }

    /// This style, struck through.
    pub open spec fn spec_crossed_out(self) -> Style {
        Style { strikethrough: true, ..self }
    }

    /// This style, struck through.
    #[verifier::when_used_as_spec(spec_crossed_out)]
    pub fn crossed_out(self) -> (r: Style)
        ensures
            r == self.spec_crossed_out(),
    {
        Style { strikethrough: true, ..self }
    }
}

/// A stretch of text with one style.
#[derive(Clone, Debug, PartialEq, Eq)]
pub struct StyledRun {
    pub text: String,
    pub style: Style,
}

/// What a run is: its characters and its style.
pub struct RunModel {
    pub text: Seq<char>,
    pub style: Style,
}

impl View for StyledRun {
    type V = RunModel;

    open spec fn view(&self) -> RunModel {
        RunModel { text: self.text@, style: self.style }
    }
}

/// The run of `text` in `style`.
pub open spec fn run(text: Seq<char>, style: Style) -> RunModel {
    RunModel { text, style }
}

impl StyledRun {
    /// The run of `text` in `style`.
    pub fn new(text: String, style: Style) -> (r: StyledRun)
        ensures
            r@ == run(text@, style),
    {
        StyledRun { text, style }
    }

    /// A run of the literal `text`.
    pub fn literal(text: &str, style: Style) -> (r: StyledRun)
        ensures
            r@ == run(text@, style),
    {
        StyledRun { text: text.to_owned(), style }
    }
}

/// One display row: runs side by side.
#[derive(Clone, Debug, PartialEq, Eq)]
pub struct StyledLine {
    pub runs: Vec<StyledRun>,
}

/// The models of the runs of `runs`.
pub open spec fn runs_of(runs: Seq<StyledRun>) -> Seq<RunModel> {
    runs.map_values(|r: StyledRun| r@)
}

impl View for StyledLine {
    type V = Seq<RunModel>;

    open spec fn view(&self) -> Seq<RunModel> {
        runs_of(self.runs@)
    }
}

/// The text of a row with the styling stripped: the run texts, concatenated.
pub open spec fn flat_text(runs: Seq<RunModel>) -> Seq<char>
    decreases runs.len(),
{
    if runs.len() == 0 {
        Seq::empty()
    } else {
        flat_text(runs.drop_last()) + runs.last().text
    }
}

/// The text of a row with one more run is the text of the row, then the
/// text of the run.
pub proof fn lemma_flat_text_push(runs: Seq<RunModel>, r: RunModel)
    ensures
        flat_text(runs.push(r)) == flat_text(runs) + r.text,
{
    assert(runs.push(r).drop_last() =~= runs);
}

impl StyledLine {
    /// The blank row.
    pub fn blank() -> (l: StyledLine)
        ensures
            l@ == Seq::<RunModel>::empty(),
    {
        let l = StyledLine { runs: Vec::new() };
        assert(l@ =~= Seq::<RunModel>::empty());
        l
    }

    /// The row of the one run `r`.
    pub fn single(r: StyledRun) -> (l: StyledLine)
        ensures
            l@ == seq![r@],
    {
        let mut runs: Vec<StyledRun> = Vec::new();
        runs.push(r);
        let l = StyledLine { runs };
        assert(l@ =~= seq![r@]);
        l
    }

    /// Adds `r` at the end of the row.
    pub fn push(&mut self, r: StyledRun)
        ensures
            final(self)@ == old(self)@.push(r@),
    {
        self.runs.push(r);
        assert(self@ =~= old(self)@.push(r@));
    }

    /// The row's text with the styling stripped.
    pub fn text(&self) -> (s: String)
        ensures
            s@ == flat_text(self@),
    {
        let mut s = String::new();
        let mut i: usize = 0;
        assert(self@.take(0) =~= Seq::<RunModel>::empty());
        while i < self.runs.len()
            invariant
                i <= self.runs.len(),
                s@ == flat_text(self@.take(i as int)),
            decreases self.runs.len() - i,
        {
            s.append(self.runs[i].text.as_str());
            proof {
                assert(self@.take(i + 1) =~= self@.take(i as int).push(self.runs@[i as int]@));
                lemma_flat_text_push(self@.take(i as int), self.runs@[i as int]@);
            }
            i += 1;
        }
        assert(self@.take(i as int) =~= self@);
        s
    }
}

} // verus!
