use either::Either;
use panes::context::{AppContext, Config};
use panes::property::{
    Property, PropertyKind, PropertyKindOrText, SongProperty, StatusProperty, WidgetProperty,
};
use panes::song::{Song, TagResolutionStrategy};
use panes::spans::{status_span, widget_spans};
use panes::status::{queue_time, OnOffOneshot, State, Status, Volume};
use panes::style::{unwrap_style, Span, Style};
use panes::tagmap::TagMap;
use panes::text::SymbolsConfig;
use ratatui::style::{Color, Modifier, Style as TermStyle};

fn context(status: Status) -> AppContext {
    AppContext {
        status,
        queue: Vec::new(),
        active_tab: "Queue".to_string(),
        db_update_elapsed: None,
        config: Config {
            tabs: Vec::new(),
            symbols: SymbolsConfig {
                song: String::new(),
                dir: String::new(),
                playlist: String::new(),
                marker: String::new(),
                ellipsis: "...".to_string(),
            },
            format_tag_separator: ", ".to_string(),
            multiple_tag_resolution_strategy: TagResolutionStrategy::All,
        },
    }
}

fn song(id: u32, seconds: Option<u64>) -> Song {
    Song {
        id,
        file: "file".to_owned(),
        duration: seconds.map(|s| s * 1000),
        metadata: TagMap::from_pairs(vec![
            ("artist".to_string(), "artist".into()),
            ("album".to_string(), "album".into()),
            ("title".to_string(), "title".into()),
            ("track".to_string(), "123".into()),
        ]),
        ..Default::default()
    }
}

fn status_node(prop: StatusProperty) -> Property<PropertyKind> {
    Property {
        kind: PropertyKindOrText::Property(PropertyKind::Status(prop)),
        style: None,
        default: None,
    }
}

fn fg(color: Color) -> Style {
    Style { fg: Some(color), bg: None, add_modifier: 0, sub_modifier: 0 }
}

fn left(text: &str) -> Option<Either<Span, Vec<Span>>> {
    Some(Either::Left(Span::raw(text.to_string())))
}

fn playing() -> Status {
    Status {
        volume: Volume::new(123),
        repeat: true,
        random: true,
        single: OnOffOneshot::On,
        consume: OnOffOneshot::On,
        bitrate: Some(123),
        elapsed: 123_000,
        duration: 123_000,
        xfade: Some(3),
        state: State::Play,
        ..Default::default()
    }
}

#[test]
fn status_property_resolves_correctly() {
    let ctx = context(playing());
    let s = song(123, Some(123));
    let all = TagResolutionStrategy::All;
    for (prop, expected) in [
        (StatusProperty::Volume, "100"),
        (StatusProperty::Elapsed, "2:03"),
        (StatusProperty::Duration, "2:03"),
        (StatusProperty::Crossfade, "3"),
        (StatusProperty::Bitrate, "123"),
        (StatusProperty::ActiveTab, "Queue"),
    ] {
        let result = status_node(prop).as_span(Some(&s), &ctx, "", all);
        assert_eq!(result, left(expected));
    }
}

#[test]
fn unset_readings_fall_back() {
    let ctx = context(Status::default());
    let all = TagResolutionStrategy::All;
    assert_eq!(status_node(StatusProperty::Bitrate).as_span(None, &ctx, "", all), None);
    assert_eq!(status_node(StatusProperty::Crossfade).as_span(None, &ctx, "", all), None);
    let with_default = Property {
        kind: PropertyKindOrText::Property(PropertyKind::Status(StatusProperty::Bitrate)),
        style: None,
        default: Some(Box::new(Property {
            kind: PropertyKindOrText::Text("-".to_string()),
            style: Some(fg(Color::Gray)),
            default: None,
        })),
    };
    assert_eq!(
        with_default.as_span(None, &ctx, "", all),
        Some(Either::Left(Span::styled("-".to_string(), fg(Color::Gray))))
    );
    assert_eq!(
        with_default.default_as_span(None, &ctx, "", all),
        Some(Either::Left(Span::styled("-".to_string(), fg(Color::Gray))))
    );
    assert_eq!(status_span(&StatusProperty::Bitrate, Style::new(), &ctx), None);
}

#[test]
fn playback_state_label_is_correct() {
    let all = TagResolutionStrategy::All;
    for (state, expected) in
        [(State::Play, "otherplay"), (State::Pause, "otherpaused"), (State::Stop, "otherstopped")]
    {
        let format = status_node(StatusProperty::State {
            playing_label: "otherplay".to_string(),
            paused_label: "otherpaused".to_string(),
            stopped_label: "otherstopped".to_string(),
            playing_style: None,
            paused_style: None,
            stopped_style: None,
        });
        let ctx = context(Status { state, ..Default::default() });
        let s = Song { id: 1, file: "file".to_owned(), ..Default::default() };
        assert_eq!(format.as_span(Some(&s), &ctx, "", all), left(expected));
    }
}

fn three(position_style: Option<Style>) -> (StatusProperty, StatusProperty) {
    (
        StatusProperty::Consume {
            on_label: "ye".to_string(),
            off_label: "naw".to_string(),
            oneshot_label: "1111".to_string(),
            on_style: position_style,
            off_style: Some(fg(Color::Green)),
            oneshot_style: Some(fg(Color::Blue)),
        },
        StatusProperty::Single {
            on_label: "ye".to_string(),
            off_label: "naw".to_string(),
            oneshot_label: "1111".to_string(),
            on_style: position_style,
            off_style: Some(fg(Color::Green)),
            oneshot_style: Some(fg(Color::Blue)),
        },
    )
}

#[test]
fn on_off_states_label_is_correct() {
    let all = TagResolutionStrategy::All;
    for (position, expected, style) in [
        (OnOffOneshot::On, "ye", Style::new()),
        (OnOffOneshot::Off, "naw", fg(Color::Green)),
        (OnOffOneshot::Oneshot, "1111", fg(Color::Blue)),
    ] {
        let (consume, single) = three(None);
        let ctx = context(Status { consume: position, single: position, ..Default::default() });
        let want = Some(Either::Left(Span::styled(expected.to_string(), style)));
        assert_eq!(status_node(consume).as_span(None, &ctx, "", all), want);
        assert_eq!(status_node(single).as_span(None, &ctx, "", all), want);
    }
    for (on, expected) in [(true, "ye"), (false, "naw")] {
        let repeat = StatusProperty::Repeat {
            on_label: "ye".to_string(),
            off_label: "naw".to_string(),
            on_style: None,
            off_style: None,
        };
        let random = StatusProperty::Random {
            on_label: "ye".to_string(),
            off_label: "naw".to_string(),
            on_style: None,
            off_style: None,
        };
        let ctx = context(Status { repeat: on, random: on, ..Default::default() });
        assert_eq!(status_node(repeat).as_span(None, &ctx, "", all), left(expected));
        assert_eq!(status_node(random).as_span(None, &ctx, "", all), left(expected));
    }
}

#[test]
fn on_off_oneshot_styles_are_correct() {
    let all = TagResolutionStrategy::All;
    let base = fg(Color::White);
    for (own, expected) in [(Some(fg(Color::Red)), fg(Color::Red)), (None, base)] {
        let (consume, single) = three(own);
        let ctx = context(Status {
            consume: OnOffOneshot::On,
            single: OnOffOneshot::On,
            ..Default::default()
        });
        for prop in [consume, single] {
            let node = Property {
                kind: PropertyKindOrText::Property(PropertyKind::Status(prop)),
                style: Some(base),
                default: None,
            };
            assert_eq!(
                node.as_span(None, &ctx, "", all),
                Some(Either::Left(Span::styled("ye".to_string(), expected)))
            );
        }
    }
    assert_eq!(unwrap_style(&None), Style::default());
    assert_eq!(unwrap_style(&Some(base)), base);
}

#[test]
fn queue_readings() {
    let all = TagResolutionStrategy::All;
    let mut ctx = context(Status { songid: Some(2), ..Default::default() });
    ctx.queue = vec![song(1, Some(60)), song(2, Some(3600)), song(3, None), song(4, Some(5))];
    let length = status_node(StatusProperty::QueueLength { thousands_separator: ",".to_string() });
    assert_eq!(length.as_span(None, &ctx, "", all), left("4"));
    let total = status_node(StatusProperty::QueueTimeTotal { separator: " ".to_string() });
    assert_eq!(total.as_span(None, &ctx, "", all), left("1h 1m 5s"));
    let remaining = status_node(StatusProperty::QueueTimeRemaining { separator: " ".to_string() });
    assert_eq!(remaining.as_span(None, &ctx, "", all), left("1h 5s"));
    assert_eq!(ctx.find_current_song_in_queue().map(|(i, s)| (i, s.id)), Some((1, 2)));
    ctx.status.songid = Some(9);
    assert_eq!(remaining.as_span(None, &ctx, "", all), left("0s"));
    assert_eq!(ctx.find_current_song_in_queue(), None);
    ctx.status.songid = None;
    assert_eq!(remaining.as_span(None, &ctx, "", all), left("0s"));
    assert_eq!(queue_time(&ctx.queue, 0), 3_665_000);
    assert_eq!(queue_time(&ctx.queue, 3), 5_000);
    assert_eq!(queue_time(&ctx.queue, 4), 0);
    let huge = vec![song(1, Some(u64::MAX / 1000)), song(2, Some(u64::MAX / 1000))];
    assert_eq!(queue_time(&huge, 0), u64::MAX);
}

#[test]
fn queue_length_is_grouped() {
    let all = TagResolutionStrategy::All;
    let mut ctx = context(Status::default());
    ctx.queue = (0..1234).map(|i| song(i, None)).collect();
    let length = status_node(StatusProperty::QueueLength { thousands_separator: ".".to_string() });
    assert_eq!(length.as_span(None, &ctx, "", all), left("1.234"));
}

#[test]
fn song_kinds_resolve_to_one_span_in_the_node_style() {
    let all = TagResolutionStrategy::All;
    let ctx = context(Status::default());
    let s = song(1, Some(123));
    let node = Property {
        kind: PropertyKindOrText::Property(PropertyKind::Song(SongProperty::Title)),
        style: Some(fg(Color::Red)),
        default: None,
    };
    assert_eq!(
        node.as_span(Some(&s), &ctx, "", all),
        Some(Either::Left(Span::styled("title".to_string(), fg(Color::Red))))
    );
    assert_eq!(node.as_span(None, &ctx, "", all), None);
    let literal: Property<PropertyKind> =
        Property { kind: PropertyKindOrText::Text("x".to_string()), style: None, default: None };
    assert_eq!(literal.as_span(None, &ctx, "", all), left("x"));
    let sticker: Property<PropertyKind> = Property {
        kind: PropertyKindOrText::Sticker("rating".to_string()),
        style: None,
        default: None,
    };
    assert_eq!(sticker.as_span(Some(&s), &ctx, "", all), None);
    let mut rated = song(1, None);
    rated.stickers = Some(TagMap::from_pairs(vec![("rating".to_string(), "4".to_string())]));
    assert_eq!(sticker.as_span(Some(&rated), &ctx, "", all), left("4"));
}

#[test]
fn states_widget_lists_four_switches() {
    let all = TagResolutionStrategy::All;
    let active = fg(Color::Red);
    let separator = fg(Color::DarkGray);
    let base = fg(Color::White);
    let node = Property {
        kind: PropertyKindOrText::Property(PropertyKind::Widget(WidgetProperty::States {
            active_style: active,
            separator_style: separator,
        })),
        style: Some(base),
        default: None,
    };
    let ctx = context(Status {
        repeat: true,
        random: false,
        consume: OnOffOneshot::Oneshot,
        single: OnOffOneshot::Off,
        ..Default::default()
    });
    let sep = Span::styled(" / ".to_string(), separator);
    assert_eq!(
        node.as_span(None, &ctx, "", all),
        Some(Either::Right(vec![
            Span::styled("Repeat".to_string(), active),
            sep.clone(),
            Span::styled("Random".to_string(), base),
            sep.clone(),
            Span::styled("Oneshot(C)".to_string(), active),
            sep.clone(),
            Span::styled("Single".to_string(), base),
        ]))
    );
    let ctx = context(Status {
        consume: OnOffOneshot::On,
        single: OnOffOneshot::Oneshot,
        ..Default::default()
    });
    let spans = match node.as_span(None, &ctx, "", all) {
        Some(Either::Right(spans)) => spans,
        other => panic!("expected several spans, got {other:?}"),
    };
    assert_eq!(spans[4], Span::styled("Consume".to_string(), active));
    assert_eq!(spans[6], Span::styled("Oneshot(S)".to_string(), active));
}

#[test]
fn volume_and_scan_widgets() {
    let mut ctx = context(Status { volume: Volume::new(50), ..Default::default() });
    assert_eq!(
        widget_spans(&WidgetProperty::Volume, Style::new(), &ctx),
        left("▁▂▃▄ 50%")
    );
    assert_eq!(widget_spans(&WidgetProperty::ScanStatus, Style::new(), &ctx), None);
    ctx.db_update_elapsed = Some(250);
    assert_eq!(widget_spans(&WidgetProperty::ScanStatus, Style::new(), &ctx), left("⠹"));
    let all = TagResolutionStrategy::All;
    let scan = Property {
        kind: PropertyKindOrText::Property(PropertyKind::Widget(WidgetProperty::ScanStatus)),
        style: None,
        default: Some(Box::new(Property {
            kind: PropertyKindOrText::Text("idle".to_string()),
            style: None,
            default: None,
        })),
    };
    assert_eq!(scan.as_span(None, &ctx, "", all), left("⠹"));
    ctx.db_update_elapsed = None;
    assert_eq!(scan.as_span(None, &ctx, "", all), left("idle"));
    assert_eq!(Volume::new(7).value(), 7);
    assert_eq!(Volume::new(255).value(), 100);
}

#[test]
fn styled_group_lays_members_over_its_style() {
    let all = TagResolutionStrategy::All;
    let ctx = context(playing());
    let s = song(1, Some(123));
    let base = Style { fg: Some(Color::White), bg: Some(Color::Black), add_modifier: 1, sub_modifier: 0 };
    let own = Style { fg: Some(Color::Red), bg: None, add_modifier: 0, sub_modifier: 1 };
    let group = Property {
        kind: PropertyKindOrText::Group(vec![
            Property {
                kind: PropertyKindOrText::Property(PropertyKind::Song(SongProperty::Title)),
                style: Some(own),
                default: None,
            },
            Property { kind: PropertyKindOrText::Text(" @ ".to_string()), style: None, default: None },
            status_node(StatusProperty::Elapsed),
        ]),
        style: Some(base),
        default: None,
    };
    assert_eq!(
        group.as_span(Some(&s), &ctx, "", all),
        Some(Either::Right(vec![
            Span::styled(
                "title".to_string(),
                Style { fg: Some(Color::Red), bg: Some(Color::Black), add_modifier: 0, sub_modifier: 1 }
            ),
            Span::styled(" @ ".to_string(), base),
            Span::styled("2:03".to_string(), base),
        ]))
    );
    assert_eq!(base.patch(own), Style { fg: Some(Color::Red), bg: Some(Color::Black), add_modifier: 0, sub_modifier: 1 });
    assert_eq!(Style::new().patch(base), base);
    assert_eq!(base.patch(Style::new()), base);
}

#[test]
fn styled_group_falls_back_as_a_whole() {
    let all = TagResolutionStrategy::All;
    let ctx = context(Status::default());
    let s = song(1, None);
    let members = || {
        vec![
            Property {
                kind: PropertyKindOrText::Property(PropertyKind::Song(SongProperty::Title)),
                style: None,
                default: None,
            },
            status_node(StatusProperty::Bitrate),
        ]
    };
    let broken = Property { kind: PropertyKindOrText::Group(members()), style: None, default: None };
    assert_eq!(broken.as_span(Some(&s), &ctx, "", all), None);
    let with_default = Property {
        kind: PropertyKindOrText::Group(members()),
        style: None,
        default: Some(Box::new(Property {
            kind: PropertyKindOrText::Text("fallback".to_string()),
            style: None,
            default: None,
        })),
    };
    assert_eq!(with_default.as_span(Some(&s), &ctx, "", all), left("fallback"));
    let nested = Property {
        kind: PropertyKindOrText::Group(vec![
            with_default,
            Property { kind: PropertyKindOrText::Text("!".to_string()), style: None, default: None },
        ]),
        style: None,
        default: None,
    };
    assert_eq!(
        nested.as_span(Some(&s), &ctx, "", all),
        Some(Either::Right(vec![Span::raw("fallback".to_string()), Span::raw("!".to_string())]))
    );
}

#[test]
fn patch_agrees_with_the_terminal_library() {
    let colors = [None, Some(Color::Red), Some(Color::Rgb(1, 2, 3)), Some(Color::Reset)];
    let bits = [0u16, 1, 2, 3, 0b1_0000_0101, 0b1_1111_1111];
    let term = |s: Style| TermStyle {
        fg: s.fg,
        bg: s.bg,
        add_modifier: Modifier::from_bits_truncate(s.add_modifier),
        sub_modifier: Modifier::from_bits_truncate(s.sub_modifier),
    };
    let mut styles = Vec::new();
    for (i, fg) in colors.iter().enumerate() {
        for (j, add) in bits.iter().enumerate() {
            styles.push(Style {
                fg: *fg,
                bg: colors[(i + j) % colors.len()],
                add_modifier: *add,
                sub_modifier: bits[(i + 2 * j + 1) % bits.len()],
            });
        }
    }
    for parent in &styles {
        for child in &styles {
            let ours = parent.patch(*child);
            let theirs = term(*parent).patch(term(*child));
            assert_eq!(term(ours), theirs, "{parent:?} under {child:?}");
        }
    }
}
