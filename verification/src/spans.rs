//! Resolution of formats into styled spans.
use crate::context::AppContext;
use crate::numbers::{decimal, grouped, push_decimal, push_grouped, to_decimal};
use crate::property::{
    lemma_member_is_smaller, song_sticker, song_text, Property, PropertyKind, PropertyKindOrText, StatusProperty,
    WidgetProperty,
};
use crate::song::{clock_string, clock_text, Song, TagResolutionStrategy};
use crate::status::{
    capped, current_position, duration_text, format_to_duration, queue_millis, queue_time,
    OnOffOneshot, State,
};
use crate::style::{patched, span_views, style_or_plain, unwrap_style, Span, SpanView, Style};
use crate::text::{into_string, push_char};
use either::Either;
use vstd::prelude::*;

verus! {

/// Makes `either::Either` known as it is defined: `Left` with a value of the
/// first type or `Right` with a value of the second.
#[verifier::external_type_specification]
#[verifier::reject_recursive_types(L)]
#[verifier::reject_recursive_types(R)]
pub struct ExEither<L, R>(Either<L, R>);

/// One span or several, as contracts see them.
pub type Fragments = Either<SpanView, Seq<SpanView>>;

/// What a resolved value is to a contract.
pub open spec fn fragments_view(value: Option<Either<Span, Vec<Span>>>) -> Option<Fragments> {
    match value {
        Some(Either::Left(span)) => Some(Either::Left(span@)),
        Some(Either::Right(spans)) => Some(Either::Right(crate::style::span_views(spans@))),
        None => None,
    }
}

/// The spans of `fragments`, in order.
pub open spec fn flat(fragments: Fragments) -> Seq<SpanView> {
    match fragments {
        Either::Left(span) => seq![span],
        Either::Right(spans) => spans,
    }
}

/// `spans` with the style of each laid over `base`.
pub open spec fn over_base(spans: Seq<SpanView>, base: Style) -> Seq<SpanView> {
    Seq::new(
        spans.len(),
        |i: int| SpanView { content: spans[i].content, style: patched(base, spans[i].style) },
    )
}

/// `own` where it is set, `base` where it is not.
pub open spec fn style_or(own: Option<Style>, base: Style) -> Style {
    match own {
        Some(s) => s,
        None => base,
    }
}

fn pick_style(own: &Option<Style>, base: Style) -> (r: Style)
    ensures
        r == style_or(*own, base),
{
    match own {
        Some(s) => *s,
        None => base,
    }
}

/// One span of `content` in `style`.
pub open spec fn one(content: Seq<char>, style: Style) -> Option<Fragments> {
    Some(Either::Left(SpanView { content, style }))
}

/// The label and style of a switch with two positions.
pub open spec fn two_way(
    on: bool,
    on_label: String,
    off_label: String,
    on_style: Option<Style>,
    off_style: Option<Style>,
    base: Style,
) -> SpanView {
    if on {
        SpanView { content: on_label@, style: style_or(on_style, base) }
    } else {
        SpanView { content: off_label@, style: style_or(off_style, base) }
    }
}

/// The label and style of a switch with three positions.
pub open spec fn three_way(
    position: OnOffOneshot,
    on_label: String,
    off_label: String,
    oneshot_label: String,
    on_style: Option<Style>,
    off_style: Option<Style>,
    oneshot_style: Option<Style>,
    base: Style,
) -> SpanView {
    match position {
        OnOffOneshot::On => SpanView { content: on_label@, style: style_or(on_style, base) },
        OnOffOneshot::Off => SpanView { content: off_label@, style: style_or(off_style, base) },
        OnOffOneshot::Oneshot => SpanView {
            content: oneshot_label@,
            style: style_or(oneshot_style, base),
        },
    }
}

/// The playing time that is left in the queue, in milliseconds: that of the
/// song that plays and of all behind it; nothing where no song of the queue
/// plays.
pub open spec fn remaining_millis(context: &AppContext) -> nat {
    match current_position(context.queue@, context.status.songid) {
        Some(i) => capped(queue_millis(context.queue@, i)),
        None => 0,
    }
}

/// The span of a status property, `None` for a reading that the player has not
/// reported. A label takes the style given for the position of its switch, and
/// `base` where none is given.
pub open spec fn status_span_of(
    property: StatusProperty,
    base: Style,
    context: &AppContext,
) -> Option<SpanView> {
    let status = context.status;
    match property {
        StatusProperty::State {
            playing_label,
            paused_label,
            stopped_label,
            playing_style,
            paused_style,
            stopped_style,
        } => Some(
            match status.state {
                State::Play => SpanView {
                    content: playing_label@,
                    style: style_or(playing_style, base),
                },
                State::Stop => SpanView {
                    content: stopped_label@,
                    style: style_or(stopped_style, base),
                },
                State::Pause => SpanView {
                    content: paused_label@,
                    style: style_or(paused_style, base),
                },
            },
        ),
        StatusProperty::Duration => Some(
            SpanView { content: clock_text(status.duration as nat), style: base },
        ),
        StatusProperty::Elapsed => Some(
            SpanView { content: clock_text(status.elapsed as nat), style: base },
        ),
        StatusProperty::Volume => Some(
            SpanView { content: decimal(status.volume.level()), style: base },
        ),
        StatusProperty::Repeat { on_label, off_label, on_style, off_style } => Some(
            two_way(status.repeat, on_label, off_label, on_style, off_style, base),
        ),
        StatusProperty::Random { on_label, off_label, on_style, off_style } => Some(
            two_way(status.random, on_label, off_label, on_style, off_style, base),
        ),
        StatusProperty::Consume {
            on_label,
            off_label,
            oneshot_label,
            on_style,
            off_style,
            oneshot_style,
        } => Some(
            three_way(
                status.consume,
                on_label,
                off_label,
                oneshot_label,
                on_style,
                off_style,
                oneshot_style,
                base,
            ),
        ),
        StatusProperty::Single {
            on_label,
            off_label,
            oneshot_label,
            on_style,
            off_style,
            oneshot_style,
        } => Some(
            three_way(
                status.single,
                on_label,
                off_label,
                oneshot_label,
                on_style,
                off_style,
                oneshot_style,
                base,
            ),
        ),
        StatusProperty::Bitrate => match status.bitrate {
            Some(v) => Some(SpanView { content: decimal(v as nat), style: base }),
            None => None,
        },
        StatusProperty::Crossfade => match status.xfade {
            Some(v) => Some(SpanView { content: decimal(v as nat), style: base }),
            None => None,
        },
        StatusProperty::QueueLength { thousands_separator } => Some(
            SpanView {
                content: grouped(context.queue@.len(), thousands_separator@),
                style: base,
            },
        ),
        StatusProperty::QueueTimeTotal { separator } => Some(
            SpanView {
                content: duration_text(capped(queue_millis(context.queue@, 0)), separator@),
                style: base,
            },
        ),
        StatusProperty::QueueTimeRemaining { separator } => Some(
            SpanView { content: duration_text(remaining_millis(context), separator@), style: base },
        ),
        StatusProperty::ActiveTab => Some(SpanView { content: context.active_tab@, style: base }),
    }
}

fn two_way_span(
    on: bool,
    on_label: &String,
    off_label: &String,
    on_style: &Option<Style>,
    off_style: &Option<Style>,
    base: Style,
) -> (r: Span)
    ensures
        r@ == two_way(on, *on_label, *off_label, *on_style, *off_style, base),
{
    if on {
        Span::styled(on_label.clone(), pick_style(on_style, base))
    } else {
        Span::styled(off_label.clone(), pick_style(off_style, base))
    }
}

fn three_way_span(
    position: OnOffOneshot,
    on_label: &String,
    off_label: &String,
    oneshot_label: &String,
    on_style: &Option<Style>,
    off_style: &Option<Style>,
    oneshot_style: &Option<Style>,
    base: Style,
) -> (r: Span)
    ensures
        r@ == three_way(
            position,
            *on_label,
            *off_label,
            *oneshot_label,
            *on_style,
            *off_style,
            *oneshot_style,
            base,
        ),
{
    match position {
        OnOffOneshot::On => Span::styled(on_label.clone(), pick_style(on_style, base)),
        OnOffOneshot::Off => Span::styled(off_label.clone(), pick_style(off_style, base)),
        OnOffOneshot::Oneshot => Span::styled(
            oneshot_label.clone(),
            pick_style(oneshot_style, base),
        ),
    }
}

/// The view of an optional span.
pub open spec fn span_view(value: Option<Span>) -> Option<SpanView> {
    match value {
        Some(s) => Some(s@),
        None => None,
    }
}

/// Resolves a status property against the snapshot in `context`.
pub fn status_span(property: &StatusProperty, base: Style, context: &AppContext) -> (r: Option<
    Span,
>)
    ensures
        span_view(r) == status_span_of(*property, base, context),
{
    let status = &context.status;
    match property {
        StatusProperty::State {
            playing_label,
            paused_label,
            stopped_label,
            playing_style,
            paused_style,
            stopped_style,
        } => Some(
            match status.state {
                State::Play => Span::styled(playing_label.clone(), pick_style(playing_style, base)),
                State::Stop => Span::styled(stopped_label.clone(), pick_style(stopped_style, base)),
                State::Pause => Span::styled(paused_label.clone(), pick_style(paused_style, base)),
            },
        ),
        StatusProperty::Duration => Some(Span::styled(clock_string(status.duration), base)),
        StatusProperty::Elapsed => Some(Span::styled(clock_string(status.elapsed), base)),
        StatusProperty::Volume => Some(
            Span::styled(to_decimal(status.volume.value() as u64), base),
        ),
        StatusProperty::Repeat { on_label, off_label, on_style, off_style } => Some(
            two_way_span(status.repeat, on_label, off_label, on_style, off_style, base),
        ),
        StatusProperty::Random { on_label, off_label, on_style, off_style } => Some(
            two_way_span(status.random, on_label, off_label, on_style, off_style, base),
        ),
        StatusProperty::Consume {
            on_label,
            off_label,
            oneshot_label,
            on_style,
            off_style,
            oneshot_style,
        } => Some(
            three_way_span(
                status.consume,
                on_label,
                off_label,
                oneshot_label,
                on_style,
                off_style,
                oneshot_style,
                base,
            ),
        ),
        StatusProperty::Single {
            on_label,
            off_label,
            oneshot_label,
            on_style,
            off_style,
            oneshot_style,
        } => Some(
            three_way_span(
                status.single,
                on_label,
                off_label,
                oneshot_label,
                on_style,
                off_style,
                oneshot_style,
                base,
            ),
        ),
        StatusProperty::Bitrate => match status.bitrate {
            Some(v) => Some(Span::styled(to_decimal(v as u64), base)),
            None => None,
        },
        StatusProperty::Crossfade => match status.xfade {
            Some(v) => Some(Span::styled(to_decimal(v as u64), base)),
            None => None,
        },
        StatusProperty::QueueLength { thousands_separator } => {
            let mut out = String::new();
            push_grouped(&mut out, context.queue.len() as u64, thousands_separator.as_str());
            assert(Seq::<char>::empty() + grouped(context.queue@.len(), thousands_separator@)
                == grouped(context.queue@.len(), thousands_separator@));
            Some(Span::styled(out, base))
        },
        StatusProperty::QueueTimeTotal { separator } => {
            let sum = queue_time(&context.queue, 0);
            Some(Span::styled(format_to_duration(sum, separator.as_str()), base))
        },
        StatusProperty::QueueTimeRemaining { separator } => {
            let sum: u64 = match context.find_current_song_in_queue() {
                Some((index, _)) => queue_time(&context.queue, index),
                None => 0,
            };
            Some(Span::styled(format_to_duration(sum, separator.as_str()), base))
        },
        StatusProperty::ActiveTab => Some(Span::styled(context.active_tab.clone(), base)),
    }
}

/// The cells of the loudness gauge, from the lowest to the highest.
pub open spec fn gauge_cells() -> Seq<char> {
    "▁▂▃▄▅▆▇█"@
}

/// The text of the loudness gauge at `level` per cent: one cell for every full
/// eighth of the scale, a space, the level and a per cent sign.
pub open spec fn volume_gauge(level: nat) -> Seq<char> {
    gauge_cells().take((level * 8 / 100) as int) + seq![' '] + decimal(level) + seq!['%']
}

/// Writes the loudness gauge for `value` per cent; a value above 100 counts as
/// 100.
pub fn volume_gauge_string(value: u8) -> (r: String)
    ensures
        r@ == volume_gauge(if value <= 100 { value as nat } else { 100 }),
{
    let level: u8 = if value <= 100 {
        value
    } else {
        100
    };
    let cells: usize = (level as usize) * 8 / 100;
    proof {
        reveal_strlit("▁▂▃▄▅▆▇█");
    }
    let bars = "▁▂▃▄▅▆▇█".substring_char(0, cells);
    let mut out = String::from_str(bars);
    push_char(&mut out, ' ');
    push_decimal(&mut out, level as u64);
    push_char(&mut out, '%');
    assert(gauge_cells().subrange(0, cells as int) == gauge_cells().take(cells as int));
    out
}

/// The frames of the sign that a scan is under way.
pub open spec fn scan_frames() -> Seq<char> {
    "⠋⠙⠹⠸⠼⠴⠦⠧⠇⠏"@
}

/// The text of the scan sign after `elapsed` milliseconds: one frame, the next
/// one every tenth of a second.
pub open spec fn scan_text(elapsed: nat) -> Seq<char> {
    seq![scan_frames()[((elapsed / 100) % 10) as int]]
}

/// Writes the scan sign for a scan that has run for `elapsed` milliseconds.
pub fn scan_string(elapsed: u64) -> (r: String)
    ensures
        r@ == scan_text(elapsed as nat),
{
    let frame: usize = ((elapsed / 100) % 10) as usize;
    proof {
        reveal_strlit("⠋⠙⠹⠸⠼⠴⠦⠧⠇⠏");
    }
    let c = "⠋⠙⠹⠸⠼⠴⠦⠧⠇⠏".get_char(frame);
    let mut out = String::new();
    push_char(&mut out, c);
    assert(Seq::<char>::empty().push(c) == seq![c]);
    out
}

/// `active` where `on`, `base` where not.
pub open spec fn active_or(on: bool, active: Style, base: Style) -> Style {
    if on {
        active
    } else {
        base
    }
}

/// The cell of a switch with three positions in the line of switches: its name
/// in `base` when off and in `active` when on, and a name of its own in `active`
/// when on for one song.
pub open spec fn switch_cell(
    position: OnOffOneshot,
    name: Seq<char>,
    oneshot_name: Seq<char>,
    active: Style,
    base: Style,
) -> SpanView {
    match position {
        OnOffOneshot::On => SpanView { content: name, style: active },
        OnOffOneshot::Off => SpanView { content: name, style: base },
        OnOffOneshot::Oneshot => SpanView { content: oneshot_name, style: active },
    }
}

/// The line of the four switches of the player, with a separator between
/// neighbours.
pub open spec fn states_line(
    active: Style,
    separator: Style,
    base: Style,
    context: &AppContext,
) -> Seq<SpanView> {
    let status = context.status;
    let sep = SpanView { content: " / "@, style: separator };
    seq![
        SpanView { content: "Repeat"@, style: active_or(status.repeat, active, base) },
        sep,
        SpanView { content: "Random"@, style: active_or(status.random, active, base) },
        sep,
        switch_cell(status.consume, "Consume"@, "Oneshot(C)"@, active, base),
        sep,
        switch_cell(status.single, "Single"@, "Oneshot(S)"@, active, base),
    ]
}

/// What a widget property resolves to; the scan sign to nothing while no scan
/// is under way.
pub open spec fn widget_fragments(
    widget: WidgetProperty,
    base: Style,
    context: &AppContext,
) -> Option<Fragments> {
    match widget {
        WidgetProperty::Volume => one(volume_gauge(context.status.volume.level()), base),
        WidgetProperty::States { active_style, separator_style } => Some(
            Either::Right(states_line(active_style, separator_style, base, context)),
        ),
        WidgetProperty::ScanStatus => match context.db_update_elapsed {
            Some(elapsed) => one(scan_text(elapsed as nat), base),
            None => None,
        },
    }
}

fn switch_span(
    position: OnOffOneshot,
    name: &str,
    oneshot_name: &str,
    active: Style,
    base: Style,
) -> (r: Span)
    ensures
        r@ == switch_cell(position, name@, oneshot_name@, active, base),
{
    match position {
        OnOffOneshot::On => Span::styled(String::from_str(name), active),
        OnOffOneshot::Off => Span::styled(String::from_str(name), base),
        OnOffOneshot::Oneshot => Span::styled(String::from_str(oneshot_name), active),
    }
}

/// Resolves a widget property against the snapshot in `context`.
pub fn widget_spans(widget: &WidgetProperty, base: Style, context: &AppContext) -> (r: Option<
    Either<Span, Vec<Span>>,
>)
    ensures
        fragments_view(r) == widget_fragments(*widget, base, context),
{
    let status = &context.status;
    match widget {
        WidgetProperty::Volume => Some(
            Either::Left(Span::styled(volume_gauge_string(status.volume.value()), base)),
        ),
        WidgetProperty::States { active_style, separator_style } => {
            let mut spans: Vec<Span> = Vec::new();
            spans.push(
                Span::styled(
                    String::from_str("Repeat"),
                    if status.repeat {
                        *active_style
                    } else {
                        base
                    },
                ),
            );
            spans.push(Span::styled(String::from_str(" / "), *separator_style));
            spans.push(
                Span::styled(
                    String::from_str("Random"),
                    if status.random {
                        *active_style
                    } else {
                        base
                    },
                ),
            );
            spans.push(Span::styled(String::from_str(" / "), *separator_style));
            spans.push(switch_span(status.consume, "Consume", "Oneshot(C)", *active_style, base));
            spans.push(Span::styled(String::from_str(" / "), *separator_style));
            spans.push(switch_span(status.single, "Single", "Oneshot(S)", *active_style, base));
            assert(span_views(spans@) == states_line(
                *active_style,
                *separator_style,
                base,
                context,
            ));
            Some(Either::Right(spans))
        },
        WidgetProperty::ScanStatus => match context.db_update_elapsed {
            Some(elapsed) => Some(Either::Left(Span::styled(scan_string(elapsed), base))),
            None => None,
        },
    }
}

/// The spans of the members of `group` from position `from` on, each laid over
/// `base`; `None` as soon as one member does not resolve.
pub open spec fn group_spans(
    group: Seq<Property<PropertyKind>>,
    from: int,
    base: Style,
    song: Option<&Song>,
    context: &AppContext,
    separator: Seq<char>,
    strategy: TagResolutionStrategy,
) -> Option<Seq<SpanView>>
    decreases group, 0int, group.len() - from,
{
    if from < 0 || from >= group.len() {
        Some(Seq::empty())
    } else {
        match group[from].spans(song, context, separator, strategy) {
            None => None,
            Some(head) => match group_spans(
                group,
                from + 1,
                base,
                song,
                context,
                separator,
                strategy,
            ) {
                None => None,
                Some(tail) => Some(over_base(flat(head), base) + tail),
            },
        }
    }
}

/// One span of `text` in `style`, where there is a text.
pub open spec fn one_of(text: Option<Seq<char>>, style: Style) -> Option<Fragments> {
    match text {
        Some(t) => one(t, style),
        None => None,
    }
}

/// One span, where there is one.
pub open spec fn left_of(span: Option<SpanView>) -> Option<Fragments> {
    match span {
        Some(s) => Some(Either::Left(s)),
        None => None,
    }
}

impl Property<PropertyKind> {
    /// The spans of the node itself, without regard to its default. A literal, a
    /// sticker and a property of the song give one span in the style of the
    /// node; a status property and a widget give what the snapshot holds; a
    /// group gives the spans of all its members, each laid over the style of the
    /// group, or nothing where any member fails.
    pub open spec fn own_spans(
        &self,
        song: Option<&Song>,
        context: &AppContext,
        separator: Seq<char>,
        strategy: TagResolutionStrategy,
    ) -> Option<Fragments>
        decreases self, 1int,
    {
        let style = style_or_plain(self.style);
        match self.kind {
            PropertyKindOrText::Text(value) => one(value@, style),
            PropertyKindOrText::Sticker(key) => one_of(song_sticker(song, key@), style),
            PropertyKindOrText::Property(PropertyKind::Song(property)) => one_of(
                song_text(song, property, separator, strategy),
                style,
            ),
            PropertyKindOrText::Property(PropertyKind::Status(property)) => left_of(
                status_span_of(property, style, context),
            ),
            PropertyKindOrText::Property(PropertyKind::Widget(widget)) => widget_fragments(
                widget,
                style,
                context,
            ),
            PropertyKindOrText::Group(group) => match group_spans(
                group@,
                0,
                style,
                song,
                context,
                separator,
                strategy,
            ) {
                Some(spans) => Some(Either::Right(spans)),
                None => None,
            },
        }
    }

    /// The spans that the default of the node resolves to.
    pub open spec fn default_spans(
        &self,
        song: Option<&Song>,
        context: &AppContext,
        separator: Seq<char>,
        strategy: TagResolutionStrategy,
    ) -> Option<Fragments>
        decreases self, 0int,
    {
        match self.default {
            Some(d) => d.spans(song, context, separator, strategy),
            None => None,
        }
    }

    /// What [`Property::as_span`] returns: the spans of the node itself, or, where
    /// it has none, those of its default.
    pub open spec fn spans(
        &self,
        song: Option<&Song>,
        context: &AppContext,
        separator: Seq<char>,
        strategy: TagResolutionStrategy,
    ) -> Option<Fragments>
        decreases self, 2int,
    {
        match self.own_spans(song, context, separator, strategy) {
            Some(f) => Some(f),
            None => self.default_spans(song, context, separator, strategy),
        }
    }

    /// Resolves the default of the node to spans.
    pub fn default_as_span(
        &self,
        song: Option<&Song>,
        context: &AppContext,
        tag_separator: &str,
        strategy: TagResolutionStrategy,
    ) -> (r: Option<Either<Span, Vec<Span>>>)
        ensures
            fragments_view(r) == self.default_spans(song, context, tag_separator@, strategy),
        decreases self, 0int,
    {
        match &self.default {
            Some(p) => p.as_span(song, context, tag_separator, strategy),
            None => None,
        }
    }

    /// Resolves the node to styled spans: one span for a single value, several
    /// for a group or a composed widget. Whatever does not resolve gives way to
    /// its default, and to `None` without one.
    pub fn as_span(
        &self,
        song: Option<&Song>,
        context: &AppContext,
        tag_separator: &str,
        strategy: TagResolutionStrategy,
    ) -> (r: Option<Either<Span, Vec<Span>>>)
        ensures
            fragments_view(r) == self.spans(song, context, tag_separator@, strategy),
        decreases self, 2int,
    {
        let style = unwrap_style(&self.style);
        let own: Option<Either<Span, Vec<Span>>> = match &self.kind {
            PropertyKindOrText::Text(value) => Some(
                Either::Left(Span::styled(value.clone(), style)),
            ),
            PropertyKindOrText::Sticker(key) => {
                let found: Option<&String> = match song {
                    Some(s) => match &s.stickers {
                        Some(stickers) => stickers.get(key.as_str()),
                        None => None,
                    },
                    None => None,
                };
                match found {
                    Some(sticker) => Some(Either::Left(Span::styled(sticker.clone(), style))),
                    None => None,
                }
            },
            PropertyKindOrText::Property(PropertyKind::Song(property)) => {
                let found = match song {
                    Some(s) => s.format(property, tag_separator, strategy),
                    None => None,
                };
                match found {
                    Some(text) => Some(Either::Left(Span::styled(into_string(text), style))),
                    None => None,
                }
            },
            PropertyKindOrText::Property(PropertyKind::Status(property)) => match status_span(
                property,
                style,
                context,
            ) {
                Some(span) => Some(Either::Left(span)),
                None => None,
            },
            PropertyKindOrText::Property(PropertyKind::Widget(widget)) => widget_spans(
                widget,
                style,
                context,
            ),
            PropertyKindOrText::Group(group) => {
                let mut buf: Vec<Span> = Vec::new();
                let mut i: usize = 0;
                let mut failed = false;
                while i < group.len() && !failed
                    invariant
                        i <= group.len(),
                        self.kind == PropertyKindOrText::Group(*group),
                        failed ==> group_spans(
                            group@,
                            0,
                            style,
                            song,
                            context,
                            tag_separator@,
                            strategy,
                        ) is None,
                        !failed ==> group_spans(
                            group@,
                            0,
                            style,
                            song,
                            context,
                            tag_separator@,
                            strategy,
                        ) == (match group_spans(
                            group@,
                            i as int,
                            style,
                            song,
                            context,
                            tag_separator@,
                            strategy,
                        ) {
                            Some(rest) => Some(span_views(buf@) + rest),
                            None => None,
                        }),
                    decreases group.len() - i + (if failed { 0int } else { 1int }),
                {
                    let ghost before = span_views(buf@);
                    proof {
                        lemma_member_is_smaller(self, group, i as int);
                    }
                    match group[i].as_span(song, context, tag_separator, strategy) {
                        Some(Either::Left(span)) => {
                            push_over_base(&mut buf, &span, style);
                            proof {
                                assert(over_base(seq![span@], style) == seq![
                                    SpanView {
                                        content: span@.content,
                                        style: patched(style, span@.style),
                                    },
                                ]);
                                lemma_regroup(
                                    before,
                                    over_base(seq![span@], style),
                                    group_spans(
                                        group@,
                                        i + 1,
                                        style,
                                        song,
                                        context,
                                        tag_separator@,
                                        strategy,
                                    ),
                                );
                            }
                            i += 1;
                        },
                        Some(Either::Right(spans)) => {
                            extend_over_base(&mut buf, &spans, style);
                            proof {
                                lemma_regroup(
                                    before,
                                    over_base(span_views(spans@), style),
                                    group_spans(
                                        group@,
                                        i + 1,
                                        style,
                                        song,
                                        context,
                                        tag_separator@,
                                        strategy,
                                    ),
                                );
                            }
                            i += 1;
                        },
                        None => {
                            failed = true;
                        },
                    }
                }
                if failed {
                    None
                } else {
                    assert(span_views(buf@) + Seq::<SpanView>::empty() == span_views(buf@));
                    Some(Either::Right(buf))
                }
            },
        };
        match own {
            Some(found) => Some(found),
            None => self.default_as_span(song, context, tag_separator, strategy),
        }
    }
}

/// Every member of `group` from position `from` on resolves to spans.
pub open spec fn all_resolve_to_spans(
    group: Seq<Property<PropertyKind>>,
    from: int,
    song: Option<&Song>,
    context: &AppContext,
    separator: Seq<char>,
    strategy: TagResolutionStrategy,
) -> bool {
    forall|i: int|
        from <= i < group.len() && 0 <= i ==> (#[trigger] group[i]).spans(
            song,
            context,
            separator,
            strategy,
        ) is Some
}

/// A group is all or nothing in spans as it is in text: it has spans of its own
/// exactly where every member resolves, and gives way to its default as a
/// whole where one does not.
pub proof fn lemma_group_spans_all_or_nothing(
    node: Property<PropertyKind>,
    song: Option<&Song>,
    context: &AppContext,
    separator: Seq<char>,
    strategy: TagResolutionStrategy,
)
    requires
        node.kind is Group,
    ensures
        all_resolve_to_spans(node.kind->Group_0@, 0, song, context, separator, strategy)
            <==> node.own_spans(song, context, separator, strategy) is Some,
        !all_resolve_to_spans(node.kind->Group_0@, 0, song, context, separator, strategy)
            ==> node.spans(song, context, separator, strategy) == (match node.default {
            Some(d) => d.spans(song, context, separator, strategy),
            None => None,
        }),
{
    lemma_group_spans(
        node.kind->Group_0@,
        0,
        style_or_plain(node.style),
        song,
        context,
        separator,
        strategy,
    );
}

/// A run of members has spans exactly when each of them resolves.
pub proof fn lemma_group_spans(
    group: Seq<Property<PropertyKind>>,
    from: int,
    base: Style,
    song: Option<&Song>,
    context: &AppContext,
    separator: Seq<char>,
    strategy: TagResolutionStrategy,
)
    requires
        0 <= from,
    ensures
        group_spans(group, from, base, song, context, separator, strategy) is Some
            <==> all_resolve_to_spans(group, from, song, context, separator, strategy),
    decreases group.len() - from,
{
    if from < group.len() {
        lemma_group_spans(group, from + 1, base, song, context, separator, strategy);
        if all_resolve_to_spans(group, from, song, context, separator, strategy) {
            assert(group[from].spans(song, context, separator, strategy) is Some);
            assert(all_resolve_to_spans(group, from + 1, song, context, separator, strategy));
        }
    }
}

/// Concatenation may be regrouped.
pub(crate) proof fn lemma_regroup(before: Seq<SpanView>, head: Seq<SpanView>, tail: Option<Seq<SpanView>>)
    ensures
        tail matches Some(t) ==> before + (head + t) == before + head + t,
{
    match tail {
        Some(t) => {
            assert(before + (head + t) == before + head + t);
        },
        None => {},
    }
}

/// Appends `span` to `buf`, its style laid over `base`.
pub(crate) fn push_over_base(buf: &mut Vec<Span>, span: &Span, base: Style)
    ensures
        span_views(final(buf)@) == span_views(old(buf)@).push(
            SpanView { content: span@.content, style: patched(base, span@.style) },
        ),
{
    buf.push(Span::styled(span.content.clone(), base.patch(span.style)));
    assert(span_views(buf@) == span_views(old(buf)@).push(
        SpanView { content: span@.content, style: patched(base, span@.style) },
    ));
}

/// Appends `spans` to `buf`, the style of each laid over `base`.
pub(crate) fn extend_over_base(buf: &mut Vec<Span>, spans: &Vec<Span>, base: Style)
    ensures
        span_views(final(buf)@) == span_views(old(buf)@) + over_base(span_views(spans@), base),
{
    let mut j: usize = 0;
    assert(span_views(buf@) + over_base(span_views(spans@), base).take(0) == span_views(buf@));
    while j < spans.len()
        invariant
            j <= spans.len(),
            span_views(buf@) == span_views(old(buf)@) + over_base(span_views(spans@), base).take(
                j as int,
            ),
        decreases spans.len() - j,
    {
        push_over_base(buf, &spans[j], base);
        assert(over_base(span_views(spans@), base).take(j + 1) == over_base(
            span_views(spans@),
            base,
        ).take(j as int).push(
            SpanView {
                content: spans@[j as int]@.content,
                style: patched(base, spans@[j as int]@.style),
            },
        ));
        j += 1;
    }
    assert(over_base(span_views(spans@), base).take(spans.len() as int) == over_base(
        span_views(spans@),
        base,
    ));
}

} // verus!

