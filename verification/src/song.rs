//! Songs and their tags, and the text of a single song property.
use crate::numbers::{decimal, parse_u32, parsed_u32, push_decimal, push_zero_padded, zero_padded};
use crate::property::{Property, SongProperty};
use crate::tagmap::TagMap;
use crate::text::{
    contains_ignoring_case, contains_lowercased, join, joined, lemma_empty_literal, push_char,
    views,
};
use std::borrow::Cow;
use vstd::prelude::*;

verus! {

/// The values of one tag of a song. A tag may repeat, so it may hold several
/// values; they stay in the order in which the source gave them.
#[derive(Debug, Clone, PartialEq, Eq)]
pub enum MetadataTag {
    Single(String),
    Multiple(Vec<String>),
}

impl MetadataTag {
    /// The values of the tag, in source order.
    pub open spec fn values(&self) -> Seq<Seq<char>> {
        match self {
            MetadataTag::Single(s) => seq![s@],
            MetadataTag::Multiple(v) => views(v@),
        }
    }

    /// The first value, or the empty text where there is none.
    pub fn first(&self) -> (r: &str)
        ensures
            r@ == first_value(self.values()),
    {
        proof {
            lemma_empty_literal();
        }
        match self {
            MetadataTag::Single(s) => s.as_str(),
            MetadataTag::Multiple(v) => if v.len() > 0 {
                v[0].as_str()
            } else {
                ""
            },
        }
    }

    /// The last value, or the empty text where there is none.
    pub fn last(&self) -> (r: &str)
        ensures
            r@ == last_value(self.values()),
    {
        proof {
            lemma_empty_literal();
        }
        match self {
            MetadataTag::Single(s) => s.as_str(),
            MetadataTag::Multiple(v) => if v.len() > 0 {
                v[v.len() - 1].as_str()
            } else {
                ""
            },
        }
    }

    /// The value at `index`; the last value where the tag has fewer, and the
    /// empty text where it has none.
    pub fn nth(&self, index: usize) -> (r: &str)
        ensures
            r@ == nth_value(self.values(), index as nat),
    {
        proof {
            lemma_empty_literal();
        }
        match self {
            MetadataTag::Single(s) => s.as_str(),
            MetadataTag::Multiple(v) => if index < v.len() {
                v[index].as_str()
            } else if v.len() > 0 {
                v[v.len() - 1].as_str()
            } else {
                ""
            },
        }
    }

    /// All values with `separator` between them.
    pub fn join(&self, separator: &str) -> (r: Cow<'_, str>)
        ensures
            r@ == joined(self.values(), separator@),
    {
        match self {
            MetadataTag::Single(s) => Cow::Borrowed(s.as_str()),
            MetadataTag::Multiple(v) => Cow::Owned(join(v, separator)),
        }
    }

    /// The number of values.
    pub fn len(&self) -> (r: usize)
        ensures
            r == self.values().len(),
    {
        match self {
            MetadataTag::Single(_) => 1,
            MetadataTag::Multiple(v) => v.len(),
        }
    }

    /// The value at `index`.
    pub fn value_at(&self, index: usize) -> (r: &str)
        requires
            index < self.values().len(),
        ensures
            r@ == self.values()[index as int],
    {
        match self {
            MetadataTag::Single(s) => s.as_str(),
            MetadataTag::Multiple(v) => v[index].as_str(),
        }
    }
}

impl From<&str> for MetadataTag {
    /// A tag with the one value `value`.
    fn from(value: &str) -> (r: MetadataTag)
        ensures
            r.values() == seq![value@],
    {
        MetadataTag::Single(String::from_str(value))
    }
}

impl vstd::std_specs::convert::FromSpecImpl<&str> for MetadataTag {
    open spec fn obeys_from_spec() -> bool {
        false
    }

    open spec fn from_spec(value: &str) -> MetadataTag {
        choose|tag: MetadataTag| tag.values() == seq![value@]
    }
}

impl From<Vec<String>> for MetadataTag {
    fn from(value: Vec<String>) -> (r: MetadataTag) {
        MetadataTag::Multiple(value)
    }
}

impl vstd::std_specs::convert::FromSpecImpl<Vec<String>> for MetadataTag {
    open spec fn obeys_from_spec() -> bool {
        true
    }

    open spec fn from_spec(value: Vec<String>) -> MetadataTag {
        MetadataTag::Multiple(value)
    }
}

/// The first of `values`, or the empty text where there is none.
pub open spec fn first_value(values: Seq<Seq<char>>) -> Seq<char> {
    if values.len() > 0 {
        values[0]
    } else {
        Seq::empty()
    }
}

/// The last of `values`, or the empty text where there is none.
pub open spec fn last_value(values: Seq<Seq<char>>) -> Seq<char> {
    if values.len() > 0 {
        values.last()
    } else {
        Seq::empty()
    }
}

/// The value at `index`; the last value where there are fewer, and the empty
/// text where there is none.
pub open spec fn nth_value(values: Seq<Seq<char>>, index: nat) -> Seq<char> {
    if index < values.len() {
        values[index as int]
    } else {
        last_value(values)
    }
}

/// How a tag with several values becomes one text.
#[derive(Debug, Clone, Copy, PartialEq, Eq)]
pub enum TagResolutionStrategy {
    /// The first value.
    First,
    /// The last value.
    Last,
    /// All values, joined by the separator.
    All,
    /// The value at the given position, or the last one where there are fewer.
    Nth(usize),
}

/// The one text that `strategy` makes of `values`.
pub open spec fn resolved_tag(
    strategy: TagResolutionStrategy,
    values: Seq<Seq<char>>,
    separator: Seq<char>,
) -> Seq<char> {
    match strategy {
        TagResolutionStrategy::First => first_value(values),
        TagResolutionStrategy::Last => last_value(values),
        TagResolutionStrategy::All => joined(values, separator),
        TagResolutionStrategy::Nth(index) => nth_value(values, index as nat),
    }
}

impl TagResolutionStrategy {
    /// Collapses `tag` to one text.
    pub fn resolve<'a>(self, tag: &'a MetadataTag, separator: &str) -> (r: Cow<'a, str>)
        ensures
            r@ == resolved_tag(self, tag.values(), separator@),
    {
        match self {
            TagResolutionStrategy::First => Cow::Borrowed(tag.first()),
            TagResolutionStrategy::Last => Cow::Borrowed(tag.last()),
            TagResolutionStrategy::All => tag.join(separator),
            TagResolutionStrategy::Nth(index) => Cow::Borrowed(tag.nth(index)),
        }
    }
}

impl Default for TagResolutionStrategy {
    fn default() -> (r: TagResolutionStrategy)
        ensures
            r == TagResolutionStrategy::All,
    {
        TagResolutionStrategy::All
    }
}

/// The stem that `std::path::Path::file_stem` finds in `path`: the final
/// component without its extension, `None` where the path has no final
/// component.
pub uninterp spec fn file_stem_of(path: Seq<char>) -> Option<Seq<char>>;

/// The extension that `std::path::Path::extension` finds in `path`: what follows
/// the last dot of the final component, `None` where there is none.
pub uninterp spec fn file_extension_of(path: Seq<char>) -> Option<Seq<char>>;

/// The text of an optional piece of text.
pub open spec fn text_of(value: Option<Cow<'_, str>>) -> Option<Seq<char>> {
    match value {
        Some(v) => Some(v@),
        None => None,
    }
}

/// Calls `Path::file_stem` on `path`, read as a path and written back as text.
/// The result is a function of the path alone; the contract gives it the name
/// [`file_stem_of`] and claims nothing else of it.
#[verifier::external_body]
fn path_file_stem<'a>(path: &'a str) -> (r: Option<Cow<'a, str>>)
    ensures
        text_of(r) == file_stem_of(path@),
{
    match std::path::Path::new(path).file_stem() {
        Some(stem) => Some(stem.to_string_lossy()),
        None => None,
    }
}

/// Calls `Path::extension` on `path`, read as a path and written back as text.
/// The result is a function of the path alone; the contract gives it the name
/// [`file_extension_of`] and claims nothing else of it.
#[verifier::external_body]
fn path_extension<'a>(path: &'a str) -> (r: Option<Cow<'a, str>>)
    ensures
        text_of(r) == file_extension_of(path@),
{
    match std::path::Path::new(path).extension() {
        Some(ext) => Some(ext.to_string_lossy()),
        None => None,
    }
}

/// The text `m:ss` of a duration given in milliseconds: whole minutes, a colon,
/// and the remaining whole seconds in two digits.
pub open spec fn clock_text(millis: nat) -> Seq<char> {
    decimal((millis / 1000) / 60).push(':') + zero_padded((millis / 1000) % 60, 2)
}

/// Writes a duration of `millis` milliseconds as `m:ss`.
pub fn clock_string(millis: u64) -> (r: String)
    ensures
        r@ == clock_text(millis as nat),
{
    let secs: u64 = millis / 1000;
    let mut out = String::new();
    push_decimal(&mut out, secs / 60);
    push_char(&mut out, ':');
    push_zero_padded(&mut out, secs % 60, 2);
    assert(out@ == clock_text(millis as nat)) by {
        assert(Seq::<char>::empty() + decimal((secs / 60) as nat) == decimal((secs / 60) as nat));
    }
    out
}

/// The text of a track number `value`: in two digits where it reads as a number,
/// unchanged where it does not.
pub open spec fn track_text(value: Seq<char>) -> Seq<char> {
    match parsed_u32(value) {
        Some(n) => zero_padded(n as nat, 2),
        None => value,
    }
}

/// A track of the library.
#[derive(Debug, Clone, PartialEq, Eq)]
pub struct Song {
    /// The identifier that the play queue gives the song.
    pub id: u32,
    /// The path of the file, relative to the music directory.
    pub file: String,
    /// The playing time in milliseconds, where known.
    pub duration: Option<u64>,
    /// The tags, by name.
    pub metadata: TagMap<MetadataTag>,
    /// The stickers, by key, where they were fetched.
    pub stickers: Option<TagMap<String>>,
    /// When the file was last modified, as text.
    pub last_modified: String,
    /// When the file was added, as text, where known.
    pub added: Option<String>,
}

impl Default for Song {
    /// A song of which nothing is known.
    fn default() -> (r: Song)
        ensures
            r.id == 0,
            r.file@.len() == 0,
            r.duration is None,
            r.metadata.entries().len() == 0,
            r.stickers is None,
            r.last_modified@.len() == 0,
            r.added is None,
    {
        Song {
            id: 0,
            file: String::new(),
            duration: None,
            metadata: TagMap::new(),
            stickers: None,
            last_modified: String::new(),
            added: None,
        }
    }
}

impl Song {
    /// The values of the tag `name`, where the song has it.
    pub open spec fn tag(&self, name: Seq<char>) -> Option<Seq<Seq<char>>> {
        match self.metadata.lookup(name) {
            Some(t) => Some(t.values()),
            None => None,
        }
    }

    /// The tag `name` collapsed by `strategy`, where the song has it.
    pub open spec fn tag_text(
        &self,
        name: Seq<char>,
        separator: Seq<char>,
        strategy: TagResolutionStrategy,
    ) -> Option<Seq<char>> {
        match self.tag(name) {
            Some(values) => Some(resolved_tag(strategy, values, separator)),
            None => None,
        }
    }

    /// The sticker `key`, where the stickers were fetched and hold it.
    pub open spec fn sticker(&self, key: Seq<char>) -> Option<Seq<char>> {
        match self.stickers {
            Some(stickers) => match stickers.lookup(key) {
                Some(v) => Some(v@),
                None => None,
            },
            None => None,
        }
    }

    /// What [`Song::format`] returns for `property`.
    pub open spec fn formatted(
        &self,
        property: SongProperty,
        separator: Seq<char>,
        strategy: TagResolutionStrategy,
    ) -> Option<Seq<char>> {
        match property {
            SongProperty::Filename => file_stem_of(self.file@),
            SongProperty::FileExtension => file_extension_of(self.file@),
            SongProperty::File => Some(self.file@),
            SongProperty::Title => self.tag_text("title"@, separator, strategy),
            SongProperty::Artist => self.tag_text("artist"@, separator, strategy),
            SongProperty::Album => self.tag_text("album"@, separator, strategy),
            SongProperty::Duration => match self.duration {
                Some(d) => Some(clock_text(d as nat)),
                None => None,
            },
            SongProperty::Other(name) => self.tag_text(name@, separator, strategy),
            SongProperty::Disc => match self.tag("disc"@) {
                Some(values) => Some(last_value(values)),
                None => None,
            },
            SongProperty::Track => match self.tag("track"@) {
                Some(values) => Some(track_text(last_value(values))),
                None => None,
            },
        }
    }

    /// `format` resolves for this song, with tags joined without a separator, to
    /// a text that contains `filter` when letter case is ignored.
    pub open spec fn matches_one(&self, format: Property<SongProperty>, filter: Seq<char>) -> bool {
        match format.text(Some(self), Seq::empty(), TagResolutionStrategy::All) {
            Some(t) => contains_ignoring_case(t, filter),
            None => false,
        }
    }

    /// One of `formats` matches in the sense of [`Song::matches_one`].
    pub open spec fn matches_any(
        &self,
        formats: Seq<Property<SongProperty>>,
        filter: Seq<char>,
    ) -> bool {
        exists|i: int| 0 <= i < formats.len() && self.matches_one(#[trigger] formats[i], filter)
    }

    /// Whether the song passes `filter`: whether one of `formats` resolves for it
    /// to a text that contains `filter`, letter case ignored. A format that does
    /// not resolve matches nothing.
    pub fn matches(&self, formats: &[Property<SongProperty>], filter: &str) -> (r: bool)
        ensures
            r == self.matches_any(formats@, filter@),
    {
        proof {
            lemma_empty_literal();
        }
        let mut i: usize = 0;
        while i < formats.len()
            invariant
                i <= formats.len(),
                ""@ == Seq::<char>::empty(),
                forall|j: int| 0 <= j < i ==> !self.matches_one(#[trigger] formats@[j], filter@),
            decreases formats.len() - i,
        {
            let found = match formats[i].as_string(Some(self), "", TagResolutionStrategy::All) {
                Some(text) => contains_lowercased(text.as_str(), filter),
                None => false,
            };
            if found {
                return true;
            }
            i += 1;
        }
        false
    }

    /// The title, all values joined by `separator`; `Untitled` where the song has
    /// no title tag.
    pub fn title_str(&self, separator: &str) -> (r: Cow<'_, str>)
        ensures
            r@ == (match self.tag("title"@) {
                Some(values) => joined(values, separator@),
                None => "Untitled"@,
            }),
    {
        match self.metadata.get("title") {
            Some(v) => v.join(separator),
            None => Cow::Borrowed("Untitled"),
        }
    }

    /// The artist, all values joined by `separator`; `Unknown` where the song has
    /// no artist tag.
    pub fn artist_str(&self, separator: &str) -> (r: Cow<'_, str>)
        ensures
            r@ == (match self.tag("artist"@) {
                Some(values) => joined(values, separator@),
                None => "Unknown"@,
            }),
    {
        match self.metadata.get("artist") {
            Some(v) => v.join(separator),
            None => Cow::Borrowed("Unknown"),
        }
    }

    /// The name of the file without directories and extension.
    pub fn file_name(&self) -> (r: Option<Cow<'_, str>>)
        ensures
            text_of(r) == file_stem_of(self.file@),
    {
        path_file_stem(self.file.as_str())
    }

    /// The extension of the file.
    pub fn file_ext(&self) -> (r: Option<Cow<'_, str>>)
        ensures
            text_of(r) == file_extension_of(self.file@),
    {
        path_extension(self.file.as_str())
    }

    fn resolved<'song>(
        &'song self,
        name: &str,
        separator: &str,
        strategy: TagResolutionStrategy,
    ) -> (r: Option<Cow<'song, str>>)
        ensures
            text_of(r) == self.tag_text(name@, separator@, strategy),
    {
        match self.metadata.get(name) {
            Some(v) => Some(strategy.resolve(v, separator)),
            None => None,
        }
    }

    /// The text of `property` for this song, `None` where the song lacks what the
    /// property names. Tags with several values collapse by `strategy`; the track
    /// and the disc take the last value, the track in two digits where it is a
    /// number.
    pub fn format<'song>(
        &'song self,
        property: &SongProperty,
        tag_separator: &str,
        strategy: TagResolutionStrategy,
    ) -> (r: Option<Cow<'song, str>>)
        ensures
            text_of(r) == self.formatted(*property, tag_separator@, strategy),
    {
        match property {
            SongProperty::Filename => self.file_name(),
            SongProperty::FileExtension => self.file_ext(),
            SongProperty::File => Some(Cow::Borrowed(self.file.as_str())),
            SongProperty::Title => self.resolved("title", tag_separator, strategy),
            SongProperty::Artist => self.resolved("artist", tag_separator, strategy),
            SongProperty::Album => self.resolved("album", tag_separator, strategy),
            SongProperty::Duration => match self.duration {
                Some(d) => Some(Cow::Owned(clock_string(d))),
                None => None,
            },
            SongProperty::Other(name) => self.resolved(name.as_str(), tag_separator, strategy),
            SongProperty::Disc => match self.metadata.get("disc") {
                Some(v) => Some(Cow::Borrowed(v.last())),
                None => None,
            },
            SongProperty::Track => match self.metadata.get("track") {
                Some(v) => {
                    let last = v.last();
                    match parse_u32(last) {
                        Some(n) => {
                            let mut out = String::new();
                            push_zero_padded(&mut out, n as u64, 2);
                            assert(out@ == zero_padded(n as nat, 2)) by {
                                assert(Seq::<char>::empty() + zero_padded(n as nat, 2)
                                    == zero_padded(n as nat, 2));
                            }
                            Some(Cow::Owned(out))
                        },
                        None => Some(Cow::Borrowed(last)),
                    }
                },
                None => None,
            },
        }
    }
}

} // verus!
