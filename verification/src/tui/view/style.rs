//! Styled text.
use vstd::prelude::*;
use vstd::string::*;

use crate::text;

verus! {

/// The colors that are used.
#[derive(Clone, Copy, Debug, PartialEq, Eq, Structural)]
pub enum Color {
    Cyan,
    Green,
    Blue,
    Yellow,
    Red,
    Gray,
    DarkGray,
}

/// How a piece of text looks.
#[derive(Clone, Copy, Debug, PartialEq, Eq, Structural)]
pub struct Style {
    pub fg: Option<Color>,
    pub bg: Option<Color>,
    pub bold: bool,
    pub crossed_out: bool,
}

/// No style at all.
pub open spec fn plain() -> Style {
    Style { fg: None, bg: None, bold: false, crossed_out: false }
}

/// In a color.
pub open spec fn colored(color: Color) -> Style {
    Style { fg: Some(color), ..plain() }
}

/// In bold.
pub open spec fn bold() -> Style {
    Style { bold: true, ..plain() }
}

/// In a color, and bold.
pub open spec fn bold_colored(color: Color) -> Style {
    Style { fg: Some(color), bold: true, ..plain() }
}

impl Style {
    /// No style at all.
    pub fn plain() -> (r: Style)
        ensures
            r == plain(),
    {
        Style { fg: None, bg: None, bold: false, crossed_out: false }
    }

    /// In a color.
    pub fn colored(color: Color) -> (r: Style)
        ensures
            r == colored(color),
    {
        Style { fg: Some(color), bg: None, bold: false, crossed_out: false }
    }

    /// In bold.
    pub fn bold() -> (r: Style)
        ensures
            r == bold(),
    {
        Style { fg: None, bg: None, bold: true, crossed_out: false }
    }

    /// In a color, and bold.
    pub fn bold_colored(color: Color) -> (r: Style)
        ensures
            r == bold_colored(color),
    {
        Style { fg: Some(color), bg: None, bold: true, crossed_out: false }
    }
}

/// A piece of text in one style.
#[derive(Debug)]
pub struct Span {
    pub text: String,
    pub style: Style,
}

/// What a [`Span`] holds.
pub struct SpanView {
    pub text: Seq<char>,
    pub style: Style,
}

impl View for Span {
    type V = SpanView;

    open spec fn view(&self) -> SpanView {
        SpanView { text: self.text@, style: self.style }
    }
}

/// Text in one style.
pub open spec fn styled(text: Seq<char>, style: Style) -> SpanView {
    SpanView { text, style }
}

/// Text without a style.
pub open spec fn raw(text: Seq<char>) -> SpanView {
    SpanView { text, style: plain() }
}

impl Span {
    /// Text in one style.
    pub fn styled(text: &str, style: Style) -> (r: Span)
        ensures
            r@ == styled(text@, style),
    {
        Span { text: text.to_owned(), style }
    }

    /// Text without a style.
    pub fn raw(text: &str) -> (r: Span)
        ensures
            r@ == raw(text@),
    {
        Span { text: text.to_owned(), style: Style::plain() }
    }
}

/// A line of styled text.
#[derive(Debug)]
pub struct Line {
    pub spans: Vec<Span>,
}

impl View for Line {
    type V = Seq<SpanView>;

    open spec fn view(&self) -> Seq<SpanView> {
        text::views(self.spans@)
    }
}

impl Line {
    /// A line with nothing in it.
    pub fn empty() -> (r: Line)
        ensures
            r@ == Seq::<SpanView>::empty(),
    {
        let r = Line { spans: Vec::new() };
        assert(r@ =~= Seq::empty());
        r
    }

    /// A line of one piece.
    pub fn of(span: Span) -> (r: Line)
        ensures
            r@ == seq![span@],
    {
        let mut spans: Vec<Span> = Vec::new();
        spans.push(span);
        let r = Line { spans };
        assert(r@ =~= seq![span@]);
        r
    }

    /// Appends a piece.
    pub fn push(&mut self, span: Span)
        ensures
            final(self)@ == old(self)@.push(span@),
    {
        proof {
            text::lemma_views_push(self.spans@, span);
        }
        self.spans.push(span);
    }
}

} // verus!
