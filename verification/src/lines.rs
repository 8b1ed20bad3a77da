//! Resolution of a song format into one line that is cut to a width.
use crate::property::{lemma_member_is_smaller, Property, PropertyKindOrText, SongProperty};
use crate::song::{Song, TagResolutionStrategy};
use crate::spans::{extend_over_base, lemma_regroup, over_base};
use crate::style::{plain_style, span_views, style_or_plain, unwrap_style, Line, LineView, Span, SpanView, Style};
use crate::text::{ellipsized, into_string, StringExt, SymbolsConfig};
use vstd::prelude::*;

verus! {

/// A line in `style` that holds `text`, cut to `max_len` characters, in a span
/// with no attribute set.
pub open spec fn cut_line(text: Seq<char>, style: Style, max_len: nat, marker: Seq<char>) -> LineView {
    LineView {
        style,
        spans: seq![SpanView { content: ellipsized(text, max_len, marker), style: plain_style() }],
    }
}

/// The spans of the lines of the members of `group` from position `from` on,
/// the style of each span laid over the style of its line; `None` as soon as
/// one member does not resolve.
pub open spec fn group_line(
    group: Seq<Property<SongProperty>>,
    from: int,
    song: &Song,
    max_len: nat,
    marker: Seq<char>,
    separator: Seq<char>,
    strategy: TagResolutionStrategy,
) -> Option<Seq<SpanView>>
    decreases group, 0int, group.len() - from,
{
    if from < 0 || from >= group.len() {
        Some(Seq::empty())
    } else {
        match line_of(&group[from], song, max_len, marker, separator, strategy) {
            None => None,
            Some(head) => match group_line(
                group,
                from + 1,
                song,
                max_len,
                marker,
                separator,
                strategy,
            ) {
                None => None,
                Some(tail) => Some(over_base(head.spans, head.style) + tail),
            },
        }
    }
}

/// The line of the node itself, without regard to its default.
pub open spec fn own_line(
    format: &Property<SongProperty>,
    song: &Song,
    max_len: nat,
    marker: Seq<char>,
    separator: Seq<char>,
    strategy: TagResolutionStrategy,
) -> Option<LineView>
    decreases format, 1int,
{
    let style = style_or_plain(format.style);
    match format.kind {
        PropertyKindOrText::Text(value) => Some(cut_line(value@, style, max_len, marker)),
        PropertyKindOrText::Sticker(key) => match song.sticker(key@) {
            Some(text) => Some(cut_line(text, style, max_len, marker)),
            None => None,
        },
        PropertyKindOrText::Property(property) => match song.formatted(
            property,
            separator,
            strategy,
        ) {
            Some(text) => Some(cut_line(text, style, max_len, marker)),
            None => None,
        },
        PropertyKindOrText::Group(group) => match group_line(
            group@,
            0,
            song,
            max_len,
            marker,
            separator,
            strategy,
        ) {
            Some(spans) => Some(LineView { style, spans }),
            None => None,
        },
    }
}

/// The line that the default of the node resolves to.
pub open spec fn default_line(
    format: &Property<SongProperty>,
    song: &Song,
    max_len: nat,
    marker: Seq<char>,
    separator: Seq<char>,
    strategy: TagResolutionStrategy,
) -> Option<LineView>
    decreases format, 0int,
{
    match format.default {
        Some(d) => line_of(&*d, song, max_len, marker, separator, strategy),
        None => None,
    }
}

/// What [`Song::as_line_ellipsized`] returns: the line of the node itself, or,
/// where it has none, that of its default. Every text is cut on its own to
/// `max_len` characters; a group holds the spans of its members' lines.
pub open spec fn line_of(
    format: &Property<SongProperty>,
    song: &Song,
    max_len: nat,
    marker: Seq<char>,
    separator: Seq<char>,
    strategy: TagResolutionStrategy,
) -> Option<LineView>
    decreases format, 2int,
{
    match own_line(format, song, max_len, marker, separator, strategy) {
        Some(line) => Some(line),
        None => default_line(format, song, max_len, marker, separator, strategy),
    }
}

/// The view of an optional line.
pub open spec fn line_view(value: Option<Line>) -> Option<LineView> {
    match value {
        Some(l) => Some(l@),
        None => None,
    }
}

fn cut(text: &str, style: Style, max_len: usize, symbols: &SymbolsConfig) -> (r: Line)
    ensures
        r@ == cut_line(text@, style, max_len as nat, symbols.ellipsis@),
{
    let content = into_string(text.ellipsize(max_len, symbols));
    let mut spans: Vec<Span> = Vec::new();
    spans.push(Span::raw(content));
    let line = Line { style, spans };
    assert(line@.spans == cut_line(text@, style, max_len as nat, symbols.ellipsis@).spans);
    line
}

impl Song {
    /// Resolves the default of `format` to a line.
    pub fn default_as_line_ellipsized(
        &self,
        format: &Property<SongProperty>,
        max_len: usize,
        symbols: &SymbolsConfig,
        tag_separator: &str,
        strategy: TagResolutionStrategy,
    ) -> (r: Option<Line>)
        ensures
            line_view(r) == default_line(
                format,
                self,
                max_len as nat,
                symbols.ellipsis@,
                tag_separator@,
                strategy,
            ),
        decreases format, 0int,
    {
        match &format.default {
            Some(f) => self.as_line_ellipsized(f, max_len, symbols, tag_separator, strategy),
            None => None,
        }
    }

    /// Resolves `format` for this song to one line. Each text is cut to
    /// `max_len` characters, with the ellipsis of `symbols` where it was longer. A
    /// group holds the spans of its members, each in its own style laid over the
    /// style of its member, and resolves only where every member does. Whatever
    /// does not resolve gives way to its default, and to `None` without one.
    pub fn as_line_ellipsized(
        &self,
        format: &Property<SongProperty>,
        max_len: usize,
        symbols: &SymbolsConfig,
        tag_separator: &str,
        strategy: TagResolutionStrategy,
    ) -> (r: Option<Line>)
        ensures
            line_view(r) == line_of(
                format,
                self,
                max_len as nat,
                symbols.ellipsis@,
                tag_separator@,
                strategy,
            ),
        decreases format, 2int,
    {
        let style = unwrap_style(&format.style);
        let own: Option<Line> = match &format.kind {
            PropertyKindOrText::Text(value) => Some(cut(value.as_str(), style, max_len, symbols)),
            PropertyKindOrText::Sticker(key) => {
                let found: Option<&String> = match &self.stickers {
                    Some(stickers) => stickers.get(key.as_str()),
                    None => None,
                };
                match found {
                    Some(sticker) => Some(cut(sticker.as_str(), style, max_len, symbols)),
                    None => None,
                }
            },
            PropertyKindOrText::Property(property) => match self.format(
                property,
                tag_separator,
                strategy,
            ) {
                Some(text) => {
                    let owned = into_string(text);
                    Some(cut(owned.as_str(), style, max_len, symbols))
                },
                None => None,
            },
            PropertyKindOrText::Group(group) => {
                let mut buf: Vec<Span> = Vec::new();
                let mut i: usize = 0;
                let mut failed = false;
                while i < group.len() && !failed
                    invariant
                        i <= group.len(),
                        format.kind == PropertyKindOrText::Group(*group),
                        failed ==> group_line(
                            group@,
                            0,
                            self,
                            max_len as nat,
                            symbols.ellipsis@,
                            tag_separator@,
                            strategy,
                        ) is None,
                        !failed ==> group_line(
                            group@,
                            0,
                            self,
                            max_len as nat,
                            symbols.ellipsis@,
                            tag_separator@,
                            strategy,
                        ) == (match group_line(
                            group@,
                            i as int,
                            self,
                            max_len as nat,
                            symbols.ellipsis@,
                            tag_separator@,
                            strategy,
                        ) {
                            Some(rest) => Some(span_views(buf@) + rest),
                            None => None,
                        }),
                    decreases group.len() - i + (if failed { 0int } else { 1int }),
                {
                    let ghost before = span_views(buf@);
                    proof {
                        lemma_member_is_smaller(format, group, i as int);
                    }
                    match self.as_line_ellipsized(
                        &group[i],
                        max_len,
                        symbols,
                        tag_separator,
                        strategy,
                    ) {
                        Some(res) => {
                            extend_over_base(&mut buf, &res.spans, res.style);
                            proof {
                                lemma_regroup(
                                    before,
                                    over_base(span_views(res.spans@), res.style),
                                    group_line(
                                        group@,
                                        i + 1,
                                        self,
                                        max_len as nat,
                                        symbols.ellipsis@,
                                        tag_separator@,
                                        strategy,
                                    ),
                                );
                            }
                            i += 1;
                        },
                        None => {
                            failed = true;
                        },
                    }
                }
                if failed {
                    None
                } else {
                    assert(span_views(buf@) + Seq::<SpanView>::empty() == span_views(buf@));
                    Some(Line { style, spans: buf })
                }
            },
        };
        match own {
            Some(line) => Some(line),
            None => self.default_as_line_ellipsized(
                format,
                max_len,
                symbols,
                tag_separator,
                strategy,
            ),
        }
    }
}

} // verus!
