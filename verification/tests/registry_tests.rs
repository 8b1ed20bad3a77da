use panes::context::{AppContext, Config, Tab};
use panes::events::{
    CommonAction, Frame, KeyEvent, MouseEvent, MouseEventKind, MpdQueryResult, UiEvent,
};
use panes::layout::{Borders, Pane as ConfigPane, PaneType, PercentOrLength, SizedPaneOrSplit, SubPane};
use panes::panes::{
    Pane, PaneContainer, PaneError, PaneKinds, Panes, PanesDiscriminants, PropertyPane, Tag,
};
use panes::property::{Property, PropertyKind, PropertyKindOrText, SongProperty, StatusProperty};
use panes::song::{Song, TagResolutionStrategy};
use panes::status::Status;
use panes::style::{Line, Span, Style};
use panes::tagmap::TagMap;
use panes::text::SymbolsConfig;
use ratatui::layout::{Alignment, Direction, Rect};

#[derive(Debug, PartialEq)]
struct Recorder {
    made_as: String,
    calls: Vec<String>,
}

impl Recorder {
    fn new(made_as: &str) -> Self {
        Recorder { made_as: made_as.to_string(), calls: Vec::new() }
    }
}

impl Pane for Recorder {
    fn render(&mut self, _frame: &mut Frame, area: Rect, _context: &AppContext) -> Result<(), PaneError> {
        self.calls.push(format!("render {area}"));
        Ok(())
    }

    fn on_hide(&mut self, _context: &AppContext) -> Result<(), PaneError> {
        self.calls.push("on_hide".to_string());
        Err(PaneError::Failed(format!("{} will not hide", self.made_as)))
    }

    fn handle_action(&mut self, event: &mut KeyEvent, _context: &mut AppContext) -> Result<(), PaneError> {
        self.calls.push(format!("handle_action {:?}", event.action));
        event.stop_propagation = true;
        Ok(())
    }
}

struct Kinds;

impl PaneKinds for Kinds {
    type Queue = Recorder;
    type Directories = Recorder;
    type Albums = Recorder;
    type TagBrowser = Recorder;
    type Playlists = Recorder;
    type Search = Recorder;
    type AlbumArt = Recorder;
    type Lyrics = Recorder;
    type ProgressBar = Recorder;
    type Header = Recorder;
    type Tabs = Recorder;
    type Cava = Recorder;

    fn queue(_: &AppContext) -> Recorder {
        Recorder::new("queue")
    }

    fn directories(_: &AppContext) -> Recorder {
        Recorder::new("directories")
    }

    fn albums(_: &AppContext) -> Recorder {
        Recorder::new("albums")
    }

    fn tag_browser(root_tag: Tag, target: &PaneType, separator: Option<String>, _: &AppContext) -> Recorder {
        Recorder::new(&format!("browser {root_tag:?} {} {separator:?}", matches!(target, PaneType::Browser { .. })))
    }

    fn playlists(_: &AppContext) -> Recorder {
        Recorder::new("playlists")
    }

    fn search(_: &AppContext) -> Recorder {
        Recorder::new("search")
    }

    fn album_art(_: &AppContext) -> Recorder {
        Recorder::new("album_art")
    }

    fn lyrics(_: &AppContext) -> Recorder {
        Recorder::new("lyrics")
    }

    fn progress_bar() -> Recorder {
        Recorder::new("progress_bar")
    }

    fn header() -> Recorder {
        Recorder::new("header")
    }

    fn tabs(context: &AppContext) -> Result<Recorder, PaneError> {
        match context.config.tabs.first() {
            Some(tab) => Ok(Recorder::new(&format!("tabs at {}", tab.name))),
            None => Err(PaneError::Failed("expected at least one tab".to_string())),
        }
    }

    fn cava(_: &AppContext) -> Recorder {
        Recorder::new("cava")
    }
}

fn browser(root_tag: &str, separator: Option<&str>) -> PaneType {
    PaneType::Browser { root_tag: root_tag.to_string(), separator: separator.map(str::to_string) }
}

fn leaf(pane: PaneType) -> SubPane {
    SubPane {
        size: PercentOrLength::Percent(50),
        pane: SizedPaneOrSplit::Pane(ConfigPane { pane, borders: Borders { bits: 0 }, id: 0 }),
    }
}

fn tab(name: &str, panes: Vec<PaneType>) -> Tab {
    Tab {
        name: name.to_string(),
        panes: SizedPaneOrSplit::Split {
            direction: Direction::Horizontal,
            borders: Borders { bits: 0 },
            panes: panes.into_iter().map(leaf).collect(),
        },
    }
}

fn context(tabs: Vec<Tab>) -> AppContext {
    AppContext {
        status: Status { songid: Some(7), bitrate: Some(320), ..Default::default() },
        queue: vec![Song {
            id: 7,
            metadata: TagMap::from_pairs(vec![
                ("title".to_string(), "title".into()),
                ("artist".to_string(), vec!["a".to_string(), "b".to_string()].into()),
            ]),
            ..Default::default()
        }],
        active_tab: "Library".to_string(),
        db_update_elapsed: None,
        config: Config {
            tabs,
            symbols: SymbolsConfig {
                song: String::new(),
                dir: String::new(),
                playlist: String::new(),
                marker: String::new(),
                ellipsis: "...".to_string(),
            },
            format_tag_separator: " & ".to_string(),
            multiple_tag_resolution_strategy: TagResolutionStrategy::All,
        },
    }
}

fn configured() -> AppContext {
    context(vec![
        tab("Library", vec![browser("genre", None), PaneType::Queue, browser("composer", Some("; "))]),
        tab("Other", vec![browser("genre", None), browser("genre", Some(", "))]),
    ])
}

fn keys(container: &PaneContainer<Kinds>) -> Vec<&PaneType> {
    container.others.iter().map(|(key, _)| key).collect()
}

#[test]
fn registry_is_made_from_the_configuration() {
    let ctx = configured();
    let container = PaneContainer::<Kinds>::new(&ctx).unwrap();
    assert_eq!(container.queue.made_as, "queue");
    assert_eq!(container.artists.made_as, "browser Artist false None");
    assert_eq!(container.album_artists.made_as, "browser AlbumArtist false None");
    assert_eq!(container.tabs.made_as, "tabs at Library");
    assert_eq!(container.cava.made_as, "cava");
    assert_eq!(
        keys(&container),
        vec![&browser("genre", None), &browser("composer", Some("; ")), &browser("genre", Some(", "))]
    );
    assert_eq!(container.others[0].1.made_as, "browser Custom(\"genre\") true None");
    assert_eq!(container.others[1].1.made_as, "browser Custom(\"composer\") true Some(\"; \")");
}

#[test]
fn registry_fails_where_the_tab_bar_fails() {
    let ctx = context(Vec::new());
    match PaneContainer::<Kinds>::new(&ctx) {
        Err(e) => assert_eq!(e, PaneError::Failed("expected at least one tab".to_string())),
        Ok(_) => panic!("a registry without tabs"),
    }
}

#[test]
fn other_panes_are_listed_as_declared() {
    let ctx = configured();
    let declared = PaneContainer::<Kinds>::init_other_panes(&ctx);
    let listed: Vec<&PaneType> = declared.iter().map(|(key, _)| key).collect();
    assert_eq!(
        listed,
        vec![
            &browser("genre", None),
            &browser("composer", Some("; ")),
            &browser("genre", None),
            &browser("genre", Some(", ")),
        ]
    );
    let kept = PaneContainer::<Kinds>::keyed(vec![
        (browser("a", None), Recorder::new("first")),
        (PaneType::Queue, Recorder::new("no browser")),
        (browser("b", None), Recorder::new("second")),
        (browser("a", None), Recorder::new("third")),
    ]);
    assert_eq!(
        kept,
        vec![(browser("a", None), Recorder::new("third")), (browser("b", None), Recorder::new("second"))]
    );
    assert_eq!(PaneContainer::<Kinds>::init_other_panes(&context(Vec::new())).len(), 0);
}

#[test]
fn static_pane_is_the_same_on_every_lookup() {
    let ctx = configured();
    let mut container = PaneContainer::<Kinds>::new(&ctx).unwrap();
    match container.get_mut(&PaneType::Queue, &ctx).unwrap() {
        Panes::Queue(pane) => {
            assert_eq!(pane.made_as, "queue");
            pane.calls.push("first lookup".to_string());
        }
        other => panic!("expected the queue, got {}", other.name()),
    }
    match container.get_mut(&PaneType::Queue, &ctx).unwrap() {
        Panes::Queue(pane) => {
            assert_eq!(pane.calls, vec!["first lookup"]);
            pane.calls.push("second lookup".to_string());
        }
        other => panic!("expected the queue, got {}", other.name()),
    }
    assert_eq!(container.queue.calls, vec!["first lookup", "second lookup"]);
    assert!(container.directories.calls.is_empty());
    assert!(container.artists.calls.is_empty());
}

#[test]
fn every_pane_type_gets_its_own_handle() {
    let ctx = configured();
    let mut container = PaneContainer::<Kinds>::new(&ctx).unwrap();
    for (pane, kind, made_as) in [
        (PaneType::Queue, PanesDiscriminants::Queue, "queue"),
        (PaneType::Directories, PanesDiscriminants::Directories, "directories"),
        (PaneType::Artists, PanesDiscriminants::Artists, "browser Artist false None"),
        (PaneType::AlbumArtists, PanesDiscriminants::AlbumArtists, "browser AlbumArtist false None"),
        (PaneType::Albums, PanesDiscriminants::Albums, "albums"),
        (PaneType::Playlists, PanesDiscriminants::Playlists, "playlists"),
        (PaneType::Search, PanesDiscriminants::Search, "search"),
        (PaneType::AlbumArt, PanesDiscriminants::AlbumArt, "album_art"),
        (PaneType::Lyrics, PanesDiscriminants::Lyrics, "lyrics"),
        (PaneType::ProgressBar, PanesDiscriminants::ProgressBar, "progress_bar"),
        (PaneType::Header, PanesDiscriminants::Header, "header"),
        (PaneType::Tabs, PanesDiscriminants::Tabs, "tabs at Library"),
        (PaneType::Cava, PanesDiscriminants::Cava, "cava"),
        (browser("composer", Some("; ")), PanesDiscriminants::Others, "browser Custom(\"composer\") true Some(\"; \")"),
    ] {
        let handle = container.get_mut(&pane, &ctx).unwrap();
        assert_eq!(handle.discriminant(), kind);
        let held = match handle {
            Panes::Queue(p) | Panes::Directories(p) | Panes::Artists(p) | Panes::AlbumArtists(p)
            | Panes::Albums(p) | Panes::Playlists(p) | Panes::Search(p) | Panes::AlbumArt(p)
            | Panes::Lyrics(p) | Panes::ProgressBar(p) | Panes::Header(p) | Panes::Tabs(p)
            | Panes::Others(p) | Panes::Cava(p) => p,
            Panes::TabContent | Panes::Property(_) => unreachable!(),
        };
        assert_eq!(held.made_as, made_as);
    }
    assert!(matches!(container.get_mut(&PaneType::TabContent, &ctx), Ok(Panes::TabContent)));
}

#[test]
fn unregistered_browser_is_an_error() {
    let ctx = configured();
    let mut container = PaneContainer::<Kinds>::new(&ctx).unwrap();
    for missing in [browser("genre", Some("; ")), browser("Genre", None), browser("", None)] {
        match container.get_mut(&missing, &ctx) {
            Err(PaneError::NotDefined { root_tag, separator }) => {
                assert_eq!(browser(&root_tag, separator.as_deref()), missing);
            }
            Err(other) => panic!("unexpected error {other:?}"),
            Ok(handle) => panic!("unexpected handle {}", handle.name()),
        }
    }
    assert!(matches!(container.get_mut(&browser("genre", None), &ctx), Ok(Panes::Others(_))));
    container.others.clear();
    assert!(matches!(
        container.get_mut(&browser("genre", None), &ctx),
        Err(PaneError::NotDefined { .. })
    ));
}

#[test]
fn browser_handle_is_on_the_registered_pane() {
    let ctx = configured();
    let mut container = PaneContainer::<Kinds>::new(&ctx).unwrap();
    let key = browser("genre", Some(", "));
    for _ in 0..2 {
        match container.get_mut(&key, &ctx).unwrap() {
            Panes::Others(pane) => pane.calls.push("seen".to_string()),
            other => panic!("expected a browser, got {}", other.name()),
        }
    }
    assert_eq!(container.others[2].1.calls, vec!["seen", "seen"]);
    assert!(container.others[0].1.calls.is_empty());
    assert!(container.others[1].1.calls.is_empty());
}

fn content() -> Vec<Property<PropertyKind>> {
    vec![
        Property {
            kind: PropertyKindOrText::Property(PropertyKind::Song(SongProperty::Artist)),
            style: None,
            default: None,
        },
        Property {
            kind: PropertyKindOrText::Property(PropertyKind::Song(SongProperty::Album)),
            style: None,
            default: None,
        },
        Property { kind: PropertyKindOrText::Text(" @ ".to_string()), style: None, default: None },
        Property {
            kind: PropertyKindOrText::Group(vec![
                Property {
                    kind: PropertyKindOrText::Property(PropertyKind::Status(StatusProperty::Bitrate)),
                    style: None,
                    default: None,
                },
                Property { kind: PropertyKindOrText::Text(" kbps".to_string()), style: None, default: None },
            ]),
            style: None,
            default: None,
        },
    ]
}

#[test]
fn property_pane_is_made_on_lookup_and_draws_its_line() {
    let ctx = configured();
    let mut container = PaneContainer::<Kinds>::new(&ctx).unwrap();
    let pane = PaneType::Property { content: content(), align: Alignment::Center, scroll_speed: 3 };
    let mut handle = container.get_mut(&pane, &ctx).unwrap();
    assert_eq!(handle.name(), "Property");
    match &handle {
        Panes::Property(p) => {
            assert_eq!(p.align, Alignment::Center);
            assert_eq!(p.scroll_speed, 3);
            assert_eq!(p.content.len(), 4);
        }
        other => panic!("expected a property pane, got {}", other.name()),
    }
    let mut frame = Frame::new(Rect::new(0, 0, 80, 24));
    let area = Rect::new(0, 23, 80, 1);
    assert_eq!(handle.render(&mut frame, area, &ctx), Ok(()));
    let line = Line {
        style: Style::new(),
        spans: vec![
            Span::raw("a & b".to_string()),
            Span::raw(" @ ".to_string()),
            Span::raw("320".to_string()),
            Span::raw(" kbps".to_string()),
        ],
    };
    assert_eq!(frame.lines, vec![(area, Alignment::Center, line.clone())]);
    assert_eq!(frame.area, Rect::new(0, 0, 80, 24));
    let own = PropertyPane::new(&content(), Alignment::Left, 0, &ctx).line(&ctx);
    assert_eq!(own, line);
    assert_eq!(handle.on_hide(&ctx), Ok(()));
    assert_eq!(handle.before_show(&ctx), Ok(()));
    assert_eq!(handle.resize(area, &ctx), Ok(()));
}

#[test]
fn dispatch_reaches_the_pane_behind_the_handle() {
    let ctx = configured();
    let mut other = configured();
    let mut container = PaneContainer::<Kinds>::new(&ctx).unwrap();
    let mut frame = Frame::new(Rect::new(0, 0, 80, 24));
    let mut handle = container.get_mut(&PaneType::Lyrics, &ctx).unwrap();
    assert_eq!(handle.render(&mut frame, Rect::new(1, 2, 3, 4), &ctx), Ok(()));
    assert_eq!(handle.on_hide(&ctx), Err(PaneError::Failed("lyrics will not hide".to_string())));
    assert_eq!(handle.before_show(&ctx), Ok(()));
    assert_eq!(handle.on_event(&mut UiEvent::Database, false, &ctx), Ok(()));
    let mut key = KeyEvent { action: Some(CommonAction::Confirm), stop_propagation: false };
    assert_eq!(handle.handle_action(&mut key, &mut other), Ok(()));
    assert!(key.stop_propagation);
    let click = MouseEvent { x: 1, y: 2, kind: MouseEventKind::LeftClick };
    assert_eq!(handle.handle_mouse_event(click, &ctx), Ok(()));
    assert_eq!(handle.on_query_finished("lyrics", MpdQueryResult::Lyrics(None), true, &ctx), Ok(()));
    assert_eq!(handle.calculate_areas(Rect::new(0, 0, 1, 1), &ctx), Ok(()));
    assert_eq!(handle.resize(Rect::new(0, 0, 1, 1), &ctx), Ok(()));
    assert_eq!(
        container.lyrics.calls,
        vec!["render 3x4+1+2", "on_hide", "handle_action Some(Confirm)"]
    );
    assert!(frame.lines.is_empty());
}

#[test]
fn tab_content_takes_every_call_and_does_nothing() {
    let ctx = configured();
    let mut other = configured();
    let mut container = PaneContainer::<Kinds>::new(&ctx).unwrap();
    let mut handle = container.get_mut(&PaneType::TabContent, &ctx).unwrap();
    assert_eq!(handle.discriminant(), PanesDiscriminants::TabContent);
    assert_eq!(handle.name(), "TabContent");
    let mut frame = Frame::new(Rect::new(0, 0, 80, 24));
    assert_eq!(handle.render(&mut frame, Rect::new(0, 0, 80, 24), &ctx), Ok(()));
    assert!(frame.lines.is_empty());
    assert_eq!(handle.on_hide(&ctx), Ok(()));
    assert_eq!(handle.before_show(&ctx), Ok(()));
    let mut event = UiEvent::Resized { columns: 1, rows: 2 };
    assert_eq!(handle.on_event(&mut event, true, &ctx), Ok(()));
    assert_eq!(event, UiEvent::Resized { columns: 1, rows: 2 });
    let mut key = KeyEvent { action: None, stop_propagation: false };
    assert_eq!(handle.handle_action(&mut key, &mut other), Ok(()));
    assert!(!key.stop_propagation);
    let scroll = MouseEvent { x: 0, y: 0, kind: MouseEventKind::ScrollDown };
    assert_eq!(handle.handle_mouse_event(scroll, &ctx), Ok(()));
    assert_eq!(handle.on_query_finished("id", MpdQueryResult::Names(Vec::new()), false, &ctx), Ok(()));
    assert_eq!(handle.calculate_areas(Rect::new(0, 0, 1, 1), &ctx), Ok(()));
    assert_eq!(handle.resize(Rect::new(0, 0, 1, 1), &ctx), Ok(()));
}

#[test]
fn kinds_have_their_names() {
    for (kind, name) in [
        (PanesDiscriminants::Queue, "Queue"),
        (PanesDiscriminants::Directories, "Directories"),
        (PanesDiscriminants::Artists, "Artists"),
        (PanesDiscriminants::AlbumArtists, "AlbumArtists"),
        (PanesDiscriminants::Albums, "Albums"),
        (PanesDiscriminants::Playlists, "Playlists"),
        (PanesDiscriminants::Search, "Search"),
        (PanesDiscriminants::AlbumArt, "AlbumArt"),
        (PanesDiscriminants::Lyrics, "Lyrics"),
        (PanesDiscriminants::ProgressBar, "ProgressBar"),
        (PanesDiscriminants::Header, "Header"),
        (PanesDiscriminants::Tabs, "Tabs"),
        (PanesDiscriminants::TabContent, "TabContent"),
        (PanesDiscriminants::Property, "Property"),
        (PanesDiscriminants::Others, "Others"),
        (PanesDiscriminants::Cava, "Cava"),
    ] {
        assert_eq!(kind.name(), name);
    }
}
