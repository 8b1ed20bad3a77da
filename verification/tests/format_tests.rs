use panes::property::{Property, PropertyKindOrText, SongProperty};
use panes::song::{Song, TagResolutionStrategy};
use panes::tagmap::TagMap;

fn text(value: &str) -> Property<SongProperty> {
    Property { kind: PropertyKindOrText::Text(value.into()), style: None, default: None }
}

fn prop(kind: SongProperty) -> Property<SongProperty> {
    Property { kind: PropertyKindOrText::Property(kind), style: None, default: None }
}

fn artist_and_title() -> Song {
    Song {
        metadata: TagMap::from_pairs(vec![
            ("artist".to_string(), "artist".into()),
            ("title".to_string(), "title".into()),
        ]),
        ..Default::default()
    }
}

#[test]
fn mod_works() {
    let format = prop(SongProperty::Title);
    let song = artist_and_title();

    let result = format.as_string(Some(&song), "", TagResolutionStrategy::All);

    assert_eq!(result, Some("title".to_owned()));
}

#[test]
fn falls_back() {
    let format = Property::<SongProperty> {
        kind: PropertyKindOrText::Property(SongProperty::Track),
        style: None,
        default: Some(text("fallback").into()),
    };
    let song = artist_and_title();

    let result = format.as_string(Some(&song), "", TagResolutionStrategy::All);

    assert_eq!(result, Some("fallback".to_owned()));
}

#[test]
fn falls_back_to_none() {
    let format = prop(SongProperty::Track);
    let song = artist_and_title();

    let result = format.as_string(Some(&song), "", TagResolutionStrategy::All);

    assert_eq!(result, None);
}

#[test]
fn works() {
    let format = text("test");
    let song = artist_and_title();

    let result = format.as_string(Some(&song), "", TagResolutionStrategy::All);

    assert_eq!(result, Some("test".to_owned()));
}

#[test]
fn fallback_is_ignored() {
    let format = Property::<SongProperty> {
        kind: PropertyKindOrText::Text("test".into()),
        style: None,
        default: Some(text("fallback").into()),
    };
    let song = artist_and_title();

    let result = format.as_string(Some(&song), "", TagResolutionStrategy::All);

    assert_eq!(result, Some("test".to_owned()));
}

#[test]
fn group_no_fallback() {
    let format = Property::<SongProperty> {
        kind: PropertyKindOrText::Group(vec![prop(SongProperty::Track), text(" ")]),
        style: None,
        default: None,
    };
    let song = artist_and_title();

    let result = format.as_string(Some(&song), "", TagResolutionStrategy::All);

    assert_eq!(result, None);
}

#[test]
fn group_fallback() {
    let format = Property::<SongProperty> {
        kind: PropertyKindOrText::Group(vec![prop(SongProperty::Track), text(" ")]),
        style: None,
        default: Some(text("fallback").into()),
    };
    let song = artist_and_title();

    let result = format.as_string(Some(&song), "", TagResolutionStrategy::All);

    assert_eq!(result, Some("fallback".to_owned()));
}

#[test]
fn group_resolved() {
    let format = Property::<SongProperty> {
        kind: PropertyKindOrText::Group(vec![prop(SongProperty::Title), text("text")]),
        style: None,
        default: Some(text("fallback").into()),
    };
    let song = artist_and_title();

    let result = format.as_string(Some(&song), "", TagResolutionStrategy::All);

    assert_eq!(result, Some("titletext".to_owned()));
}

#[test]
fn group_fallback_in_group() {
    let format = Property::<SongProperty> {
        kind: PropertyKindOrText::Group(vec![
            Property {
                kind: PropertyKindOrText::Property(SongProperty::Track),
                style: None,
                default: Some(text("fallback").into()),
            },
            text("text"),
        ]),
        style: None,
        default: None,
    };
    let song = artist_and_title();

    let result = format.as_string(Some(&song), "", TagResolutionStrategy::All);

    assert_eq!(result, Some("fallbacktext".to_owned()));
}

#[test]
fn group_nesting() {
    let format = Property::<SongProperty> {
        kind: PropertyKindOrText::Group(vec![
            Property {
                kind: PropertyKindOrText::Group(vec![prop(SongProperty::Track), text("inner")]),
                style: None,
                default: Some(text("innerfallback").into()),
            },
            text("outer"),
        ]),
        style: None,
        default: None,
    };
    let song = Song {
        metadata: TagMap::from_pairs(vec![("title".to_string(), "title".into())]),
        ..Default::default()
    };

    let result = format.as_string(Some(&song), "", TagResolutionStrategy::All);

    assert_eq!(result, Some("innerfallbackouter".to_owned()));
}
