//! Styles and the styled fragments that resolution produces.
use ratatui::style::Color;
use vstd::prelude::*;

verus! {

/// Makes `ratatui::style::Color` known as a value that is carried through and
/// never looked into.
#[verifier::external_type_specification]
#[verifier::external_body]
pub struct ExColor(Color);

/// A record of independently optional display attributes. `add_modifier` and
/// `sub_modifier` are bit sets of text modifiers to switch on and off.
#[derive(Debug, Clone, Copy, PartialEq, Eq)]
pub struct Style {
    pub fg: Option<Color>,
    pub bg: Option<Color>,
    pub add_modifier: u16,
    pub sub_modifier: u16,
}

/// The style with no attribute set.
pub open spec fn plain_style() -> Style {
    Style { fg: None, bg: None, add_modifier: 0u16, sub_modifier: 0u16 }
}

/// `child` laid over `parent`: a colour that `child` sets wins, one that it
/// leaves unset is inherited; a modifier that `child` switches on or off
/// overrides what `parent` says of that modifier.
pub open spec fn patched(parent: Style, child: Style) -> Style {
    Style {
        fg: if child.fg is Some { child.fg } else { parent.fg },
        bg: if child.bg is Some { child.bg } else { parent.bg },
        add_modifier: (parent.add_modifier & !child.sub_modifier) | child.add_modifier,
        sub_modifier: (parent.sub_modifier & !child.add_modifier) | child.sub_modifier,
    }
}

impl Style {
    /// The style with no attribute set.
    pub fn new() -> (r: Style)
        ensures
            r == plain_style(),
    {
        Style { fg: None, bg: None, add_modifier: 0, sub_modifier: 0 }
    }

    /// Lays `other` over `self`, attribute by attribute.
    pub fn patch(self, other: Style) -> (r: Style)
        ensures
            r == patched(self, other),
    {
        Style {
            fg: if other.fg.is_some() { other.fg } else { self.fg },
            bg: if other.bg.is_some() { other.bg } else { self.bg },
            add_modifier: (self.add_modifier & !other.sub_modifier) | other.add_modifier,
            sub_modifier: (self.sub_modifier & !other.add_modifier) | other.sub_modifier,
        }
    }
}

impl Default for Style {
    fn default() -> (r: Style)
        ensures
            r == plain_style(),
    {
        Style::new()
    }
}

/// The style of a node that may leave it out.
pub open spec fn style_or_plain(style: Option<Style>) -> Style {
    match style {
        Some(s) => s,
        None => plain_style(),
    }
}

/// Exec form of [`style_or_plain`].
pub fn unwrap_style(style: &Option<Style>) -> (r: Style)
    ensures
        r == style_or_plain(*style),
{
    match style {
        Some(s) => *s,
        None => Style::new(),
    }
}

/// A run of text with one style.
#[derive(Debug, Clone, PartialEq, Eq)]
pub struct Span {
    pub content: String,
    pub style: Style,
}

/// What a [`Span`] is to a contract: its characters and its style.
pub struct SpanView {
    pub content: Seq<char>,
    pub style: Style,
}

impl View for Span {
    type V = SpanView;

    open spec fn view(&self) -> SpanView {
        SpanView { content: self.content@, style: self.style }
    }
}

impl Span {
    /// A span of `content` in `style`.
    pub fn styled(content: String, style: Style) -> (r: Span)
        ensures
            r@ == (SpanView { content: content@, style }),
    {
        Span { content, style }
    }

    /// A span of `content` with no attribute set.
    pub fn raw(content: String) -> (r: Span)
        ensures
            r@ == (SpanView { content: content@, style: plain_style() }),
    {
        Span { content, style: Style::new() }
    }
}

/// The views of the spans of `v`, in order.
pub open spec fn span_views(v: Seq<Span>) -> Seq<SpanView> {
    Seq::new(v.len(), |i: int| v[i]@)
}

/// A line of spans under a base style, over which each span's own style is laid
/// when the line is drawn.
#[derive(Debug, Clone, PartialEq, Eq)]
pub struct Line {
    pub style: Style,
    pub spans: Vec<Span>,
}

/// What a [`Line`] is to a contract.
pub struct LineView {
    pub style: Style,
    pub spans: Seq<SpanView>,
}

impl View for Line {
    type V = LineView;

    open spec fn view(&self) -> LineView {
        LineView { style: self.style, spans: span_views(self.spans@) }
    }
}

/// The views of the lines of `v`, in order.
pub open spec fn line_views(v: Seq<Line>) -> Seq<LineView> {
    Seq::new(v.len(), |i: int| v[i]@)
}

} // verus!
