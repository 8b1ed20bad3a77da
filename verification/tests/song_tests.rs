use panes::lines::line_of;
use panes::property::{Property, PropertyKindOrText, SongProperty};
use panes::song::{MetadataTag, Song, TagResolutionStrategy};
use panes::style::{Line, Span, Style};
use panes::tagmap::TagMap;
use panes::text::SymbolsConfig;
use ratatui::style::Color;
use std::cmp::Ordering;

fn leaf(kind: PropertyKindOrText<SongProperty>) -> Property<SongProperty> {
    Property { kind, style: None, default: None }
}

fn prop(kind: SongProperty) -> Property<SongProperty> {
    leaf(PropertyKindOrText::Property(kind))
}

fn text(value: &str) -> Property<SongProperty> {
    leaf(PropertyKindOrText::Text(value.into()))
}

fn tagged(pairs: Vec<(&str, MetadataTag)>) -> Song {
    Song {
        id: 123,
        file: "music/artist/01 title.flac".to_owned(),
        duration: Some(123_000),
        metadata: TagMap::from_pairs(pairs.into_iter().map(|(k, v)| (k.to_string(), v)).collect()),
        ..Default::default()
    }
}

fn full_song() -> Song {
    tagged(vec![
        ("title", "title".into()),
        ("album", "album".into()),
        ("track", "123".into()),
        ("artist", MetadataTag::Multiple(vec!["first".to_string(), "second".to_string()])),
        ("disc", MetadataTag::Multiple(vec!["1".to_string(), "2".to_string()])),
    ])
}

fn symbols() -> SymbolsConfig {
    SymbolsConfig {
        song: String::new(),
        dir: String::new(),
        playlist: String::new(),
        marker: String::new(),
        ellipsis: "...".to_string(),
    }
}

#[test]
fn tag_map_keeps_first_place_and_last_value() {
    let mut map: TagMap<u32> = TagMap::new();
    assert_eq!(map.len(), 0);
    map.insert("a".to_string(), 1);
    map.insert("b".to_string(), 2);
    map.insert("a".to_string(), 3);
    assert_eq!(map.len(), 2);
    assert_eq!(map.get("a"), Some(&3));
    assert_eq!(map.get("b"), Some(&2));
    assert_eq!(map.get("c"), None);
    assert!(map.contains_key("a"));
    assert!(!map.contains_key("A"));
    assert_eq!(map.key_at(0), "a");
    assert_eq!(map.key_at(1), "b");
    assert_eq!(*map.value_at(0), 3);
    let built = TagMap::from_pairs(vec![
        ("a".to_string(), 1),
        ("b".to_string(), 2),
        ("a".to_string(), 3),
    ]);
    assert_eq!(built, map);
}

#[test]
fn metadata_tag_values() {
    let single: MetadataTag = "one".into();
    assert_eq!(single.first(), "one");
    assert_eq!(single.last(), "one");
    assert_eq!(single.nth(5), "one");
    assert_eq!(single.join(", "), "one");
    assert_eq!(single.len(), 1);
    let many: MetadataTag = vec!["a".to_string(), "b".to_string(), "c".to_string()].into();
    assert_eq!(many.first(), "a");
    assert_eq!(many.last(), "c");
    assert_eq!(many.nth(1), "b");
    assert_eq!(many.nth(9), "c");
    assert_eq!(many.join(" / "), "a / b / c");
    assert_eq!(many.value_at(2), "c");
    let none = MetadataTag::Multiple(Vec::new());
    assert_eq!(none.first(), "");
    assert_eq!(none.last(), "");
    assert_eq!(none.nth(0), "");
    assert_eq!(none.join(","), "");
    assert_eq!(none.len(), 0);
}

#[test]
fn strategies_collapse_a_tag() {
    let many: MetadataTag = vec!["a".to_string(), "b".to_string(), "c".to_string()].into();
    assert_eq!(TagResolutionStrategy::First.resolve(&many, ", "), "a");
    assert_eq!(TagResolutionStrategy::Last.resolve(&many, ", "), "c");
    assert_eq!(TagResolutionStrategy::All.resolve(&many, ", "), "a, b, c");
    assert_eq!(TagResolutionStrategy::Nth(1).resolve(&many, ", "), "b");
    assert_eq!(TagResolutionStrategy::Nth(7).resolve(&many, ", "), "c");
    assert_eq!(TagResolutionStrategy::default(), TagResolutionStrategy::All);
}

#[test]
fn title_and_artist_have_stand_ins() {
    let song = full_song();
    assert_eq!(song.title_str(", "), "title");
    assert_eq!(song.artist_str(", "), "first, second");
    let bare = Song::default();
    assert_eq!(bare.title_str(", "), "Untitled");
    assert_eq!(bare.artist_str(", "), "Unknown");
}

#[test]
fn file_name_and_extension() {
    let song = full_song();
    assert_eq!(song.file_name().as_deref(), Some("01 title"));
    assert_eq!(song.file_ext().as_deref(), Some("flac"));
    let bare = Song { file: "dir/noext".to_string(), ..Default::default() };
    assert_eq!(bare.file_name().as_deref(), Some("noext"));
    assert_eq!(bare.file_ext(), None);
    let empty = Song::default();
    assert_eq!(empty.file_name(), None);
    assert_eq!(empty.file_ext(), None);
}

#[test]
fn song_property_resolves_correctly() {
    let song = full_song();
    let all = TagResolutionStrategy::All;
    assert_eq!(song.format(&SongProperty::Title, "", all).as_deref(), Some("title"));
    assert_eq!(song.format(&SongProperty::Artist, "; ", all).as_deref(), Some("first; second"));
    assert_eq!(
        song.format(&SongProperty::Artist, "; ", TagResolutionStrategy::First).as_deref(),
        Some("first")
    );
    assert_eq!(song.format(&SongProperty::Album, "", all).as_deref(), Some("album"));
    assert_eq!(song.format(&SongProperty::Track, "", all).as_deref(), Some("123"));
    assert_eq!(song.format(&SongProperty::Disc, "", all).as_deref(), Some("2"));
    assert_eq!(song.format(&SongProperty::Duration, "", all).as_deref(), Some("2:03"));
    assert_eq!(
        song.format(&SongProperty::Other("track".to_string()), "", all).as_deref(),
        Some("123")
    );
    assert_eq!(song.format(&SongProperty::Other("genre".to_string()), "", all), None);
    assert_eq!(
        song.format(&SongProperty::File, "", all).as_deref(),
        Some("music/artist/01 title.flac")
    );
    assert_eq!(song.format(&SongProperty::Filename, "", all).as_deref(), Some("01 title"));
    assert_eq!(song.format(&SongProperty::FileExtension, "", all).as_deref(), Some("flac"));
}

#[test]
fn track_is_padded_where_it_is_a_number() {
    let all = TagResolutionStrategy::All;
    let short = tagged(vec![("track", "7".into())]);
    assert_eq!(short.format(&SongProperty::Track, "", all).as_deref(), Some("07"));
    let of = tagged(vec![("track", "7/12".into())]);
    assert_eq!(of.format(&SongProperty::Track, "", all).as_deref(), Some("7/12"));
    let last = tagged(vec![("track", vec!["1".to_string(), "2".to_string()].into())]);
    assert_eq!(last.format(&SongProperty::Track, "", all).as_deref(), Some("02"));
    let none = tagged(vec![]);
    assert_eq!(none.format(&SongProperty::Track, "", all), None);
    assert_eq!(none.format(&SongProperty::Disc, "", all), None);
    let unknown = Song::default();
    assert_eq!(unknown.format(&SongProperty::Duration, "", all), None);
}

#[test]
fn sticker_resolves_or_falls_back() {
    let mut song = full_song();
    let sticker = Property::<SongProperty> {
        kind: PropertyKindOrText::Sticker("rating".to_string()),
        style: None,
        default: Some(Box::new(text("unrated"))),
    };
    let all = TagResolutionStrategy::All;
    assert_eq!(sticker.as_string(Some(&song), "", all), Some("unrated".to_string()));
    assert_eq!(sticker.as_string(None, "", all), Some("unrated".to_string()));
    song.stickers = Some(TagMap::from_pairs(vec![("rating".to_string(), "5".to_string())]));
    assert_eq!(sticker.as_string(Some(&song), "", all), Some("5".to_string()));
    let bare = leaf(PropertyKindOrText::Sticker("missing".to_string()));
    assert_eq!(bare.as_string(Some(&song), "", all), None);
    assert_eq!(sticker.default(Some(&song), "", all), Some("unrated".to_string()));
    assert_eq!(bare.default(Some(&song), "", all), None);
}

#[test]
fn property_without_a_song_falls_back() {
    let all = TagResolutionStrategy::All;
    let with_default = Property::<SongProperty> {
        kind: PropertyKindOrText::Property(SongProperty::Title),
        style: None,
        default: Some(Box::new(text("nothing plays"))),
    };
    assert_eq!(with_default.as_string(None, "", all), Some("nothing plays".to_string()));
    assert_eq!(prop(SongProperty::Title).as_string(None, "", all), None);
}

#[test]
fn group_is_all_or_nothing() {
    let all = TagResolutionStrategy::All;
    let song = full_song();
    let whole = leaf(PropertyKindOrText::Group(vec![
        prop(SongProperty::Artist),
        text(" - "),
        prop(SongProperty::Title),
    ]));
    assert_eq!(whole.as_string(Some(&song), ", ", all), Some("first, second - title".to_string()));
    let broken = Property::<SongProperty> {
        kind: PropertyKindOrText::Group(vec![
            prop(SongProperty::Artist),
            text(" - "),
            prop(SongProperty::Other("genre".to_string())),
        ]),
        style: None,
        default: Some(Box::new(prop(SongProperty::Album))),
    };
    assert_eq!(broken.as_string(Some(&song), ", ", all), Some("album".to_string()));
    let empty = leaf(PropertyKindOrText::Group(Vec::new()));
    assert_eq!(empty.as_string(Some(&song), "", all), Some(String::new()));
}

#[test]
fn default_chain_is_followed_to_its_end() {
    let all = TagResolutionStrategy::All;
    let song = full_song();
    let chain = Property::<SongProperty> {
        kind: PropertyKindOrText::Property(SongProperty::Other("a".to_string())),
        style: None,
        default: Some(Box::new(Property {
            kind: PropertyKindOrText::Property(SongProperty::Other("b".to_string())),
            style: None,
            default: Some(Box::new(Property {
                kind: PropertyKindOrText::Property(SongProperty::Other("c".to_string())),
                style: None,
                default: Some(Box::new(text("end"))),
            })),
        })),
    };
    assert_eq!(chain.as_string(Some(&song), "", all), Some("end".to_string()));
}

#[test]
fn matches_finds_text_in_any_format() {
    let song = full_song();
    let formats = vec![prop(SongProperty::Title), prop(SongProperty::Artist)];
    assert!(song.matches(&formats, "TITLE"));
    assert!(song.matches(&formats, "firstsec"));
    assert!(song.matches(&formats, ""));
    assert!(!song.matches(&formats, "album"));
    assert!(!song.matches(&[], ""));
    assert!(!song.matches(&[prop(SongProperty::Other("genre".to_string()))], ""));
    let group = leaf(PropertyKindOrText::Group(vec![
        prop(SongProperty::Title),
        text(" by "),
        prop(SongProperty::Album),
    ]));
    assert!(song.matches(std::slice::from_ref(&group), "Title BY Album"));
    let fallback = Property::<SongProperty> {
        kind: PropertyKindOrText::Property(SongProperty::Other("genre".to_string())),
        style: None,
        default: Some(Box::new(text("No Genre"))),
    };
    assert!(song.matches(std::slice::from_ref(&fallback), "no genre"));
    assert!(song.matches(&[text("Literal")], "LIT"));
}

#[test]
fn compare_text_ignores_case() {
    let a = tagged(vec![("title", "apple".into())]);
    let b = tagged(vec![("title", "Banana".into())]);
    let c = tagged(vec![("title", "APPLE".into())]);
    assert_eq!(a.cmp_by_prop(&b, &SongProperty::Title), Ordering::Less);
    assert_eq!(b.cmp_by_prop(&a, &SongProperty::Title), Ordering::Greater);
    assert_eq!(a.cmp_by_prop(&c, &SongProperty::Title), Ordering::Equal);
    let x = tagged(vec![("genre", "rock".into())]);
    let y = tagged(vec![("genre", "Pop".into())]);
    assert_eq!(x.cmp_by_prop(&y, &SongProperty::Other("genre".to_string())), Ordering::Greater);
    let u = tagged(vec![("title", "Éclair".into())]);
    let v = tagged(vec![("title", "éclair".into())]);
    assert_eq!(u.cmp_by_prop(&v, &SongProperty::Title), Ordering::Equal);
    let s = tagged(vec![("title", "straße".into())]);
    let t = tagged(vec![("title", "STRASSE".into())]);
    assert_eq!(s.cmp_by_prop(&t, &SongProperty::Title), Ordering::Equal);
}

#[test]
fn compare_places_absent_last() {
    let has = tagged(vec![("album", "zzz".into())]);
    let lacks = tagged(vec![]);
    for property in [SongProperty::Album] {
        assert_eq!(has.cmp_by_prop(&lacks, &property), Ordering::Less);
        assert_eq!(lacks.cmp_by_prop(&has, &property), Ordering::Greater);
        assert_eq!(lacks.cmp_by_prop(&lacks, &property), Ordering::Equal);
    }
    let timed = Song { duration: Some(u64::MAX), ..Default::default() };
    let untimed = Song::default();
    assert_eq!(timed.cmp_by_prop(&untimed, &SongProperty::Duration), Ordering::Less);
    assert_eq!(untimed.cmp_by_prop(&timed, &SongProperty::Duration), Ordering::Greater);
    assert_eq!(untimed.cmp_by_prop(&untimed, &SongProperty::Duration), Ordering::Equal);
    let named = Song { file: "a/b.mp3".to_string(), ..Default::default() };
    let unnamed = Song { file: "..".to_string(), ..Default::default() };
    assert_eq!(named.cmp_by_prop(&unnamed, &SongProperty::Filename), Ordering::Less);
    assert_eq!(unnamed.cmp_by_prop(&named, &SongProperty::FileExtension), Ordering::Greater);
    assert_eq!(unnamed.cmp_by_prop(&unnamed, &SongProperty::Filename), Ordering::Equal);
}

#[test]
fn compare_numbers_by_value_and_falls_back_to_text() {
    let two = tagged(vec![("track", "2".into())]);
    let ten = tagged(vec![("track", "10".into())]);
    let odd = tagged(vec![("track", "1a".into())]);
    assert_eq!(two.cmp_by_prop(&ten, &SongProperty::Track), Ordering::Less);
    assert_eq!(ten.cmp_by_prop(&two, &SongProperty::Track), Ordering::Greater);
    assert_eq!(ten.cmp_by_prop(&odd, &SongProperty::Track), Ordering::Less);
    assert_eq!(odd.cmp_by_prop(&two, &SongProperty::Track), Ordering::Less);
    let minus = tagged(vec![("disc", "-1".into())]);
    let plus = tagged(vec![("disc", "+1".into())]);
    assert_eq!(minus.cmp_by_prop(&plus, &SongProperty::Disc), Ordering::Less);
    let joined = tagged(vec![("disc", vec!["1".to_string(), "2".to_string()].into())]);
    let eleven = tagged(vec![("disc", "11".into())]);
    assert_eq!(joined.cmp_by_prop(&eleven, &SongProperty::Disc), Ordering::Greater);
    let short = Song { duration: Some(1_000), ..Default::default() };
    let long = Song { duration: Some(2_000), ..Default::default() };
    assert_eq!(short.cmp_by_prop(&long, &SongProperty::Duration), Ordering::Less);
    assert_eq!(long.cmp_by_prop(&long, &SongProperty::Duration), Ordering::Equal);
    let lower = Song { file: "a/B.mp3".to_string(), ..Default::default() };
    let upper = Song { file: "A/b.MP3".to_string(), ..Default::default() };
    assert_eq!(lower.cmp_by_prop(&upper, &SongProperty::File), Ordering::Equal);
}

#[test]
fn compare_is_a_total_order_on_texts() {
    let titles = ["", "a", "A", "ab", "B", "b ", "Zebra", "éclair", "Ölçü", "10", "9"];
    let songs: Vec<Song> = titles.iter().map(|t| tagged(vec![("title", (*t).into())])).collect();
    let by = SongProperty::Title;
    for a in &songs {
        assert_eq!(a.cmp_by_prop(a, &by), Ordering::Equal);
        for b in &songs {
            assert_eq!(a.cmp_by_prop(b, &by), b.cmp_by_prop(a, &by).reverse());
            for c in &songs {
                if a.cmp_by_prop(b, &by) != Ordering::Greater
                    && b.cmp_by_prop(c, &by) != Ordering::Greater
                {
                    assert_ne!(a.cmp_by_prop(c, &by), Ordering::Greater);
                }
            }
        }
    }
}

#[test]
fn line_holds_cut_text_in_the_style_of_the_format() {
    let song = full_song();
    let red = Style { fg: Some(Color::Red), bg: None, add_modifier: 0, sub_modifier: 0 };
    let format = Property::<SongProperty> {
        kind: PropertyKindOrText::Property(SongProperty::File),
        style: Some(red),
        default: None,
    };
    let line = song
        .as_line_ellipsized(&format, 10, &symbols(), "", TagResolutionStrategy::All)
        .unwrap();
    assert_eq!(
        line,
        Line { style: red, spans: vec![Span::raw("music/a...".to_string())] }
    );
    let missing = prop(SongProperty::Other("genre".to_string()));
    assert_eq!(
        song.as_line_ellipsized(&missing, 10, &symbols(), "", TagResolutionStrategy::All),
        None
    );
    assert_eq!(
        song.default_as_line_ellipsized(&missing, 10, &symbols(), "", TagResolutionStrategy::All),
        None
    );
    let _ = line_of;
}

#[test]
fn line_of_a_group_lays_span_styles_over_member_styles() {
    let song = full_song();
    let red = Style { fg: Some(Color::Red), bg: None, add_modifier: 1, sub_modifier: 0 };
    let blue = Style { fg: None, bg: Some(Color::Blue), add_modifier: 0, sub_modifier: 0 };
    let group = Property::<SongProperty> {
        kind: PropertyKindOrText::Group(vec![
            Property {
                kind: PropertyKindOrText::Property(SongProperty::Title),
                style: Some(red),
                default: None,
            },
            Property { kind: PropertyKindOrText::Text(" | ".into()), style: None, default: None },
            Property {
                kind: PropertyKindOrText::Property(SongProperty::Album),
                style: None,
                default: None,
            },
        ]),
        style: Some(blue),
        default: None,
    };
    let line = song
        .as_line_ellipsized(&group, 4, &symbols(), "", TagResolutionStrategy::All)
        .unwrap();
    assert_eq!(line.style, blue);
    assert_eq!(
        line.spans,
        vec![
            Span::styled("t...".to_string(), red),
            Span::styled(" | ".to_string(), Style::new()),
            Span::styled("a...".to_string(), Style::new()),
        ]
    );
    let broken = Property::<SongProperty> {
        kind: PropertyKindOrText::Group(vec![
            prop(SongProperty::Title),
            prop(SongProperty::Other("genre".to_string())),
        ]),
        style: None,
        default: Some(Box::new(text("fallback"))),
    };
    let line = song
        .as_line_ellipsized(&broken, 20, &symbols(), "", TagResolutionStrategy::All)
        .unwrap();
    assert_eq!(line.spans, vec![Span::raw("fallback".to_string())]);
}

#[test]
fn preview_lists_info_then_other_tags_in_order() {
    let key = Style { fg: Some(Color::Yellow), bg: None, add_modifier: 0, sub_modifier: 0 };
    let head = Style { fg: Some(Color::Green), bg: None, add_modifier: 0, sub_modifier: 0 };
    let mut song = tagged(vec![
        ("title", "title".into()),
        ("genre", vec!["rock".to_string(), "pop".to_string()].into()),
        ("artist", "artist".into()),
        ("Composer", "someone".into()),
        ("duration", "123".into()),
        ("album", "album".into()),
        ("date", "1999".into()),
    ]);
    song.last_modified = "2024-01-02".to_string();
    song.added = Some("2024-01-03".to_string());
    let groups = song.to_preview(key, head);
    assert_eq!(groups.len(), 2);
    let line = |label: &str, value: &str| Line {
        style: Style::new(),
        spans: vec![
            Span::raw(" ".to_string()),
            Span::styled(label.to_string(), key),
            Span::raw(": ".to_string()),
            Span::raw(value.to_string()),
        ],
    };
    assert_eq!(groups[0].name.as_deref(), Some(" --- [Info]"));
    assert_eq!(groups[0].header_style, Some(head));
    assert_eq!(
        groups[0].items,
        vec![
            line("File", "music/artist/01 title.flac"),
            line("Filename", "01 title"),
            line("Title", "title"),
            line("Artist", "artist"),
            line("Album", "album"),
            line("Duration", "123"),
            line("Last Modified", "2024-01-02"),
            line("Added", "2024-01-03"),
        ]
    );
    assert_eq!(groups[1].name.as_deref(), Some(" --- [Tags]"));
    assert_eq!(groups[1].header_style, Some(head));
    assert_eq!(
        groups[1].items,
        vec![
            line("Composer", "someone"),
            line("date", "1999"),
            line("genre", "rock"),
            line("genre", "pop"),
        ]
    );
}

#[test]
fn preview_of_a_bare_song() {
    let groups = Song::default().to_preview(Style::new(), Style::new());
    assert_eq!(groups.len(), 2);
    assert_eq!(groups[0].items.len(), 2);
    assert_eq!(groups[1].items.len(), 0);
}
