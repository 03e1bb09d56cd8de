//! Lines for the terminal: text in pieces, each with the style it is shown in.
use crate::names;
use vstd::prelude::*;

verus! {

/// How a piece of text is shown.
#[derive(Debug, Clone, Copy, PartialEq, Eq, Structural)]
pub enum Style {
    Plain,
    Title,
    Subtitle,
    Label,
    Name,
    Path,
    Value,
    Success,
    Warning,
    Error,
    Muted,
    Bold,
}

/// A piece of text in one style.
#[derive(Debug)]
pub struct Span {
    pub text: String,
    pub style: Style,
}

/// What a [`Span`] says.
#[verifier::ext_equal]
pub struct SpanModel {
    pub text: Seq<char>,
    pub style: Style,
}

impl View for Span {
    type V = SpanModel;

    open spec fn view(&self) -> SpanModel {
        SpanModel { text: self.text@, style: self.style }
    }
}

impl DeepView for Span {
    type V = SpanModel;

    open spec fn deep_view(&self) -> SpanModel {
        self@
    }
}

/// A line: its pieces from left to right.
#[derive(Debug)]
pub struct Line {
    pub spans: Vec<Span>,
}

impl View for Line {
    type V = Seq<SpanModel>;

    open spec fn view(&self) -> Seq<SpanModel> {
        self.spans.deep_view()
    }
}

impl DeepView for Line {
    type V = Seq<SpanModel>;

    open spec fn deep_view(&self) -> Seq<SpanModel> {
        self@
    }
}

pub open spec fn span(text: Seq<char>, style: Style) -> SpanModel {
    SpanModel { text, style }
}

/// The label of a value, with its colon.
pub open spec fn label_of(text: Seq<char>) -> SpanModel {
    span(text + ":"@, Style::Label)
}

/// A line of plain text.
pub open spec fn text_line(text: Seq<char>) -> Seq<SpanModel> {
    seq![span(text, Style::Plain)]
}

/// A line of one piece behind its indentation.
pub open spec fn one(indent: Seq<char>, a: SpanModel) -> Seq<SpanModel> {
    seq![span(indent, Style::Plain), a]
}

/// A line of two pieces behind its indentation.
pub open spec fn two(indent: Seq<char>, a: SpanModel, b: SpanModel) -> Seq<SpanModel> {
    seq![span(indent, Style::Plain), a, span(" "@, Style::Plain), b]
}

fn styled(text: &str, style: Style) -> (r: Span)
    ensures
        r@ == span(text@, style),
{
    Span { text: text.to_owned(), style }
}

pub fn plain(text: &str) -> (r: Span)
    ensures
        r@ == span(text@, Style::Plain),
{
    styled(text, Style::Plain)
}

pub fn title(text: &str) -> (r: Span)
    ensures
        r@ == span(text@, Style::Title),
{
    styled(text, Style::Title)
}

pub fn subtitle(text: &str) -> (r: Span)
    ensures
        r@ == span(text@, Style::Subtitle),
{
    styled(text, Style::Subtitle)
}

/// The label of a value, with its colon.
pub fn label(text: &str) -> (r: Span)
    ensures
        r@ == label_of(text@),
{
    let mut label = text.to_owned();
    label.append(":");
    Span { text: label, style: Style::Label }
}

pub fn name(text: &str) -> (r: Span)
    ensures
        r@ == span(text@, Style::Name),
{
    styled(text, Style::Name)
}

pub fn path(text: &str) -> (r: Span)
    ensures
        r@ == span(text@, Style::Path),
{
    styled(text, Style::Path)
}

pub fn value(text: &str) -> (r: Span)
    ensures
        r@ == span(text@, Style::Value),
{
    styled(text, Style::Value)
}

pub fn success(text: &str) -> (r: Span)
    ensures
        r@ == span(text@, Style::Success),
{
    styled(text, Style::Success)
}

pub fn warning(text: &str) -> (r: Span)
    ensures
        r@ == span(text@, Style::Warning),
{
    styled(text, Style::Warning)
}

pub fn error(text: &str) -> (r: Span)
    ensures
        r@ == span(text@, Style::Error),
{
    styled(text, Style::Error)
}

pub fn muted(text: &str) -> (r: Span)
    ensures
        r@ == span(text@, Style::Muted),
{
    styled(text, Style::Muted)
}

pub fn bold(text: &str) -> (r: Span)
    ensures
        r@ == span(text@, Style::Bold),
{
    styled(text, Style::Bold)
}

/// The word for a switch and its style.
pub open spec fn switch(on: bool) -> SpanModel {
    if on {
        span("enabled"@, Style::Success)
    } else {
        span("disabled"@, Style::Muted)
    }
}

pub fn enabled(value: bool) -> (r: Span)
    ensures
        r@ == switch(value),
{
    if value {
        success("enabled")
    } else {
        muted("disabled")
    }
}

impl Line {
    /// A line of plain text.
    pub fn text(text: &str) -> (r: Line)
        ensures
            r@ == text_line(text@),
    {
        let mut spans: Vec<Span> = Vec::new();
        names::put(&mut spans, plain(text));
        Line { spans }
    }

    /// A line of one piece behind its indentation.
    pub fn one(indent: &str, a: Span) -> (r: Line)
        ensures
            r@ == self::one(indent@, a@),
    {
        let mut spans: Vec<Span> = Vec::new();
        names::put(&mut spans, plain(indent));
        names::put(&mut spans, a);
        Line { spans }
    }

    /// A line of two pieces behind its indentation.
    pub fn two(indent: &str, a: Span, b: Span) -> (r: Line)
        ensures
            r@ == self::two(indent@, a@, b@),
    {
        let mut spans: Vec<Span> = Vec::new();
        names::put(&mut spans, plain(indent));
        names::put(&mut spans, a);
        names::put(&mut spans, plain(" "));
        names::put(&mut spans, b);
        Line { spans }
    }
}

/// A menu: the lines above it, the question, the choices, and the one that is marked at first.
#[derive(Debug)]
pub struct Menu {
    pub heading: Vec<Line>,
    pub prompt: String,
    pub choices: Vec<String>,
    pub default: usize,
}

/// What a [`Menu`] says.
#[verifier::ext_equal]
pub struct MenuModel {
    pub heading: Seq<Seq<SpanModel>>,
    pub prompt: Seq<char>,
    pub choices: Seq<Seq<char>>,
    pub default: usize,
}

impl View for Menu {
    type V = MenuModel;

    open spec fn view(&self) -> MenuModel {
        MenuModel {
            heading: self.heading.deep_view(),
            prompt: self.prompt@,
            choices: self.choices.deep_view(),
            default: self.default,
        }
    }
}

/// An empty line.
pub open spec fn blank() -> Seq<SpanModel> {
    text_line(""@)
}

/// Adds an empty line.
pub fn put_blank(lines: &mut Vec<Line>)
    ensures
        final(lines).deep_view() == old(lines).deep_view().push(blank()),
{
    names::put(lines, Line::text(""));
}

/// Adds a line of plain text.
pub fn put_text(lines: &mut Vec<Line>, text: &str)
    ensures
        final(lines).deep_view() == old(lines).deep_view().push(text_line(text@)),
{
    names::put(lines, Line::text(text));
}

/// Adds lines behind others.
pub fn put_lines(lines: &mut Vec<Line>, more: Vec<Line>)
    ensures
        final(lines).deep_view() == old(lines).deep_view() + more.deep_view(),
{
    let ghost before = lines.deep_view();
    let ghost models = more.deep_view();
    let ghost items = more@;
    assert(before + models.subrange(0, 0) =~= before);
    for line in it: more
        invariant
            it.seq() == items,
            models.len() == items.len(),
            forall|i: int| 0 <= i < items.len() ==> models[i] == (#[trigger] items[i])@,
            lines.deep_view() == before + models.subrange(0, it.index()),
    {
        names::put(lines, line);
        proof {
            assert(models[it.index()] == line@);
            assert(lines.deep_view() =~= before + models.subrange(0, it.index() + 1));
        }
    }
    assert(models.subrange(0, models.len() as int) =~= models);
}

/// What a person chose from a menu.
#[derive(Debug, Clone, Copy, PartialEq, Eq, Structural)]
pub enum MenuAction {
    Selected(usize),
    Back,
}

/// Where a menu leads.
#[derive(Debug, Clone, Copy, PartialEq, Eq, Structural)]
pub enum Navigation {
    Done,
    Back,
}

} // verus!
