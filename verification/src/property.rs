//! Formats, which say what to show of a song or of the player, and their
//! resolution into text.
use crate::song::{Song, TagResolutionStrategy};
use crate::style::Style;
use crate::text::into_string;
use vstd::prelude::*;

verus! {

/// What can be shown of a song.
#[derive(Debug, Clone, PartialEq, Eq)]
pub enum SongProperty {
    Filename,
    FileExtension,
    File,
    Title,
    Artist,
    Album,
    Duration,
    Track,
    Disc,
    Other(String),
}

/// What can be shown of the player.
#[derive(Debug, Clone, PartialEq, Eq)]
pub enum StatusProperty {
    Volume,
    Repeat { on_label: String, off_label: String, on_style: Option<Style>, off_style: Option<Style> },
    Random { on_label: String, off_label: String, on_style: Option<Style>, off_style: Option<Style> },
    Single {
        on_label: String,
        off_label: String,
        oneshot_label: String,
        on_style: Option<Style>,
        off_style: Option<Style>,
        oneshot_style: Option<Style>,
    },
    Consume {
        on_label: String,
        off_label: String,
        oneshot_label: String,
        on_style: Option<Style>,
        off_style: Option<Style>,
        oneshot_style: Option<Style>,
    },
    State {
        playing_label: String,
        paused_label: String,
        stopped_label: String,
        playing_style: Option<Style>,
        paused_style: Option<Style>,
        stopped_style: Option<Style>,
    },
    Elapsed,
    Duration,
    Crossfade,
    Bitrate,
    QueueLength { thousands_separator: String },
    QueueTimeTotal { separator: String },
    QueueTimeRemaining { separator: String },
    ActiveTab,
}

/// Presentations that are composed of several readings.
#[derive(Debug, Clone, PartialEq, Eq)]
pub enum WidgetProperty {
    /// The four switches of the player, each shown as active or not.
    States { active_style: Style, separator_style: Style },
    /// The loudness as a gauge.
    Volume,
    /// A sign that a scan of the music directory is under way.
    ScanStatus,
}

/// What a format node can show: a field of a song, of the player, or a widget.
#[derive(Debug, Clone, PartialEq, Eq)]
pub enum PropertyKind {
    Song(SongProperty),
    Status(StatusProperty),
    Widget(WidgetProperty),
}

/// The body of a format node.
#[derive(Debug, PartialEq, Eq)]
pub enum PropertyKindOrText<K> {
    /// A literal.
    Text(String),
    /// The sticker of a song under the given key.
    Sticker(String),
    /// A field of the song or of the player.
    Property(K),
    /// Several nodes that resolve together or not at all.
    Group(Vec<Property<K>>),
}

/// A node of a format: what to show, in which style, and what to
/// show instead where it cannot be resolved.
#[derive(Debug, PartialEq, Eq)]
pub struct Property<K> {
    pub kind: PropertyKindOrText<K>,
    pub style: Option<Style>,
    pub default: Option<Box<Property<K>>>,
}

/// A member of a group is a smaller node than the group.
pub proof fn lemma_member_is_smaller<K>(node: &Property<K>, group: &Vec<Property<K>>, i: int)
    requires
        node.kind == PropertyKindOrText::Group(*group),
        0 <= i < group@.len(),
    ensures
        decreases_to!(node => group@[i]),
{
    assert(decreases_to!(node => node.kind));
    assert(decreases_to!(node.kind => node.kind->Group_0));
    assert(decreases_to!(node.kind->Group_0 => node.kind->Group_0@));
    assert(decreases_to!(group@ => group@[i]));
}

/// The text of a song, where there is one.
pub open spec fn song_text(
    song: Option<&Song>,
    property: SongProperty,
    separator: Seq<char>,
    strategy: TagResolutionStrategy,
) -> Option<Seq<char>> {
    match song {
        Some(s) => s.formatted(property, separator, strategy),
        None => None,
    }
}

/// The sticker `key` of a song, where there is a song that has it.
pub open spec fn song_sticker(song: Option<&Song>, key: Seq<char>) -> Option<Seq<char>> {
    match song {
        Some(s) => s.sticker(key),
        None => None,
    }
}

/// The texts of the members of `group` from position `from` on, written one
/// after another; `None` as soon as one of them does not resolve.
pub open spec fn group_text(
    group: Seq<Property<SongProperty>>,
    from: int,
    song: Option<&Song>,
    separator: Seq<char>,
    strategy: TagResolutionStrategy,
) -> Option<Seq<char>>
    decreases group, 0int, group.len() - from,
{
    if from < 0 || from >= group.len() {
        Some(Seq::empty())
    } else {
        match group[from].text(song, separator, strategy) {
            None => None,
            Some(head) => match group_text(group, from + 1, song, separator, strategy) {
                None => None,
                Some(tail) => Some(head + tail),
            },
        }
    }
}

impl Property<SongProperty> {
    /// The text of the node itself, without regard to its default: the literal;
    /// the sticker or the property of the song; for a group the texts of all
    /// members, or nothing where any of them fails.
    pub open spec fn own_text(
        &self,
        song: Option<&Song>,
        separator: Seq<char>,
        strategy: TagResolutionStrategy,
    ) -> Option<Seq<char>>
        decreases self, 1int,
    {
        match self.kind {
            PropertyKindOrText::Text(value) => Some(value@),
            PropertyKindOrText::Sticker(key) => song_sticker(song, key@),
            PropertyKindOrText::Property(property) => song_text(
                song,
                property,
                separator,
                strategy,
            ),
            PropertyKindOrText::Group(group) => group_text(group@, 0, song, separator, strategy),
        }
    }

    /// The text that the default of the node resolves to, `None` where it has no
    /// default or the default does not resolve.
    pub open spec fn default_text(
        &self,
        song: Option<&Song>,
        separator: Seq<char>,
        strategy: TagResolutionStrategy,
    ) -> Option<Seq<char>>
        decreases self, 0int,
    {
        match self.default {
            Some(d) => d.text(song, separator, strategy),
            None => None,
        }
    }

    /// What [`Property::as_string`] returns: the text of the node itself, or, where
    /// it has none, that of its default.
    pub open spec fn text(
        &self,
        song: Option<&Song>,
        separator: Seq<char>,
        strategy: TagResolutionStrategy,
    ) -> Option<Seq<char>>
        decreases self, 2int,
    {
        match self.own_text(song, separator, strategy) {
            Some(t) => Some(t),
            None => self.default_text(song, separator, strategy),
        }
    }

    /// Resolves the default of the node.
    pub fn default(
        &self,
        song: Option<&Song>,
        tag_separator: &str,
        strategy: TagResolutionStrategy,
    ) -> (r: Option<String>)
        ensures
            string_view(r) == self.default_text(song, tag_separator@, strategy),
        decreases self, 0int,
    {
        match &self.default {
            Some(p) => p.as_string(song, tag_separator, strategy),
            None => None,
        }
    }

    /// Resolves the node to plain text. A literal always resolves. A sticker or a
    /// property resolves where the song has it. A group resolves where all its
    /// members do, to their texts written one after another. Whatever does not
    /// resolve gives way to its default, and to `None` without one.
    pub fn as_string(
        &self,
        song: Option<&Song>,
        tag_separator: &str,
        strategy: TagResolutionStrategy,
    ) -> (r: Option<String>)
        ensures
            string_view(r) == self.text(song, tag_separator@, strategy),
        decreases self, 2int,
    {
        match &self.kind {
            PropertyKindOrText::Text(value) => Some(value.clone()),
            PropertyKindOrText::Sticker(key) => {
                let found: Option<&String> = match song {
                    Some(s) => match &s.stickers {
                        Some(stickers) => stickers.get(key.as_str()),
                        None => None,
                    },
                    None => None,
                };
                match found {
                    Some(sticker) => Some(sticker.clone()),
                    None => self.default(song, tag_separator, strategy),
                }
            },
            PropertyKindOrText::Property(property) => {
                let found = match song {
                    Some(s) => s.format(property, tag_separator, strategy),
                    None => None,
                };
                match found {
                    Some(v) => Some(into_string(v)),
                    None => self.default(song, tag_separator, strategy),
                }
            },
            PropertyKindOrText::Group(group) => {
                let mut buf = String::new();
                let mut i: usize = 0;
                while i < group.len()
                    invariant
                        i <= group.len(),
                        self.kind == PropertyKindOrText::Group(*group),
                        group_text(group@, 0, song, tag_separator@, strategy) == (match group_text(
                            group@,
                            i as int,
                            song,
                            tag_separator@,
                            strategy,
                        ) {
                            Some(rest) => Some(buf@ + rest),
                            None => None,
                        }),
                    decreases group.len() - i,
                {
                    match group[i].as_string(song, tag_separator, strategy) {
                        Some(res) => {
                            let ghost before = buf@;
                            buf.append(res.as_str());
                            proof {
                                match group_text(
                                    group@,
                                    i + 1,
                                    song,
                                    tag_separator@,
                                    strategy,
                                ) {
                                    Some(tail) => {
                                        assert(before + (res@ + tail) == before + res@ + tail);
                                    },
                                    None => {},
                                }
                            }
                        },
                        None => {
                            return self.default(song, tag_separator, strategy);
                        },
                    }
                    i += 1;
                }
                assert(buf@ + Seq::<char>::empty() == buf@);
                Some(buf)
            },
        }
    }
}

/// Every member of `group` from position `from` on resolves.
pub open spec fn all_resolve(
    group: Seq<Property<SongProperty>>,
    from: int,
    song: Option<&Song>,
    separator: Seq<char>,
    strategy: TagResolutionStrategy,
) -> bool {
    forall|i: int|
        from <= i < group.len() && 0 <= i ==> (#[trigger] group[i]).text(
            song,
            separator,
            strategy,
        ) is Some
}

/// The texts of the members of `group` from position `from` on, one after
/// another, each taken as the empty text where it does not resolve.
pub open spec fn concat_texts(
    group: Seq<Property<SongProperty>>,
    from: int,
    song: Option<&Song>,
    separator: Seq<char>,
    strategy: TagResolutionStrategy,
) -> Seq<char>
    decreases group.len() - from,
{
    if from < 0 || from >= group.len() {
        Seq::empty()
    } else {
        (match group[from].text(song, separator, strategy) {
            Some(t) => t,
            None => Seq::empty(),
        }) + concat_texts(group, from + 1, song, separator, strategy)
    }
}

/// A run of members resolves exactly when each of them does, and then to their
/// texts written one after another.
pub proof fn lemma_group_text(
    group: Seq<Property<SongProperty>>,
    from: int,
    song: Option<&Song>,
    separator: Seq<char>,
    strategy: TagResolutionStrategy,
)
    requires
        0 <= from,
    ensures
        group_text(group, from, song, separator, strategy) is Some <==> all_resolve(
            group,
            from,
            song,
            separator,
            strategy,
        ),
        all_resolve(group, from, song, separator, strategy) ==> group_text(
            group,
            from,
            song,
            separator,
            strategy,
        ) == Some(concat_texts(group, from, song, separator, strategy)),
    decreases group.len() - from,
{
    if from < group.len() {
        lemma_group_text(group, from + 1, song, separator, strategy);
        if group[from].text(song, separator, strategy) is Some && all_resolve(
            group,
            from + 1,
            song,
            separator,
            strategy,
        ) {
            assert forall|i: int| from <= i < group.len() && 0 <= i implies (#[trigger] group[i]).text(
                song,
                separator,
                strategy,
            ) is Some by {
                if i > from {
                }
            }
        }
        if all_resolve(group, from, song, separator, strategy) {
            assert(group[from].text(song, separator, strategy) is Some);
            assert(all_resolve(group, from + 1, song, separator, strategy));
        }
    }
}

/// A group is all or nothing. Where every member resolves, the group resolves
/// to the members' texts written one after another. Where a member does not
/// resolve, the group resolves to what its own default resolves to, and to
/// nothing without one: never to a part of the members' texts.
pub proof fn lemma_group_all_or_nothing(
    node: Property<SongProperty>,
    song: Option<&Song>,
    separator: Seq<char>,
    strategy: TagResolutionStrategy,
)
    requires
        node.kind is Group,
    ensures
        all_resolve(node.kind->Group_0@, 0, song, separator, strategy) ==> node.text(
            song,
            separator,
            strategy,
        ) == Some(concat_texts(node.kind->Group_0@, 0, song, separator, strategy)),
        !all_resolve(node.kind->Group_0@, 0, song, separator, strategy) ==> node.text(
            song,
            separator,
            strategy,
        ) == (match node.default {
            Some(d) => d.text(song, separator, strategy),
            None => None,
        }),
{
    lemma_group_text(node.kind->Group_0@, 0, song, separator, strategy);
}

/// A literal resolves to itself, whatever the song and whatever its default.
pub proof fn lemma_text_always_resolves(
    node: Property<SongProperty>,
    song: Option<&Song>,
    separator: Seq<char>,
    strategy: TagResolutionStrategy,
)
    requires
        node.kind is Text,
    ensures
        node.text(song, separator, strategy) == Some(node.kind->Text_0@),
{
}

/// The characters of an optional string.
pub open spec fn string_view(value: Option<String>) -> Option<Seq<char>> {
    match value {
        Some(v) => Some(v@),
        None => None,
    }
}

} // verus!

