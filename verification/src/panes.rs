//! The registry of panes and the one surface through which all of them are
//! reached.
use crate::context::{AppContext, Tab};
use crate::events::{Frame, KeyEvent, MouseEvent, MpdQueryResult, UiEvent};
use crate::layout::{leaves, Pane as ConfigPane, PaneType};
use crate::status::current_position;
use crate::text::str_eq;
use crate::property::{Property, PropertyKind};
use crate::song::Song;
use crate::spans::flat;
use crate::style::{plain_style, span_views, Line, LineView, Span, SpanView, Style};
use either::Either;
use ratatui::layout::{Alignment, Rect};
use vstd::prelude::*;

verus! {

/// Why a pane could not be reached or could not do what it was asked.
#[derive(Debug, Clone, PartialEq, Eq)]
pub enum PaneError {
    /// The layout names a browser that the registry does not hold.
    NotDefined { root_tag: String, separator: Option<String> },
    /// A pane failed; the text says how.
    Failed(String),
}

/// The operations that every pane answers to. Only drawing and key strokes
/// have to be handled; whatever else a pane does not handle leaves everything
/// as it is and succeeds.
pub trait Pane: Sized {
    /// Draws the pane into `area` of `frame`.
    fn render(&mut self, frame: &mut Frame, area: Rect, context: &AppContext) -> (r: Result<
        (),
        PaneError,
    >);

    /// Cleans up when the pane leaves the screen.
    fn on_hide(&mut self, context: &AppContext) -> (r: Result<(), PaneError>)
        default_ensures
            r is Ok,
            *final(self) == *old(self),
    {
        Ok(())
    }

    /// Prepares the pane before it is drawn for the first time after it was
    /// hidden.
    fn before_show(&mut self, context: &AppContext) -> (r: Result<(), PaneError>)
        default_ensures
            r is Ok,
            *final(self) == *old(self),
    {
        Ok(())
    }

    /// Takes note of an event. Hidden panes receive events too, so that what
    /// they hold is current when they are shown.
    fn on_event(&mut self, event: &mut UiEvent, is_visible: bool, context: &AppContext) -> (r:
        Result<(), PaneError>)
        default_ensures
            r is Ok,
            *final(self) == *old(self),
            *final(event) == *old(event),
    {
        Ok(())
    }

    /// Acts on a key stroke.
    fn handle_action(&mut self, event: &mut KeyEvent, context: &mut AppContext) -> (r: Result<
        (),
        PaneError,
    >);

    /// Acts on a mouse event.
    fn handle_mouse_event(&mut self, event: MouseEvent, context: &AppContext) -> (r: Result<
        (),
        PaneError,
    >)
        default_ensures
            r is Ok,
            *final(self) == *old(self),
    {
        Ok(())
    }

    /// Receives the result of the query that the pane had sent under `id`.
    fn on_query_finished(
        &mut self,
        id: &'static str,
        data: MpdQueryResult,
        is_visible: bool,
        context: &AppContext,
    ) -> (r: Result<(), PaneError>)
        default_ensures
            r is Ok,
            *final(self) == *old(self),
    {
        Ok(())
    }

    /// Works out the areas of the parts of the pane inside `area`.
    fn calculate_areas(&mut self, area: Rect, context: &AppContext) -> (r: Result<(), PaneError>)
        default_ensures
            r is Ok,
            *final(self) == *old(self),
    {
        Ok(())
    }

    /// Takes note that the pane now has `area`.
    fn resize(&mut self, area: Rect, context: &AppContext) -> (r: Result<(), PaneError>)
        default_ensures
            r is Ok,
            *final(self) == *old(self),
    {
        Ok(())
    }
}

/// A pane that the registry can hold under a key given at run time.
pub trait BoxedPane: Pane {

}

impl<P: Pane> BoxedPane for P {

}

/// The tag by which a browser groups the library.
#[derive(Debug, Clone, PartialEq, Eq)]
pub enum Tag {
    Artist,
    AlbumArtist,
    Custom(String),
}

/// The components of a host: the type of each pane that the registry owns, and
/// how each is made.
pub trait PaneKinds {
    type Queue: Pane;

    type Directories: Pane;

    type Albums: Pane;

    type TagBrowser: BoxedPane + 'static;

    type Playlists: Pane;

    type Search: Pane;

    type AlbumArt: Pane;

    type Lyrics: Pane;

    type ProgressBar: Pane;

    type Header: Pane;

    type Tabs: Pane;

    type Cava: Pane;

    fn queue(context: &AppContext) -> Self::Queue;

    fn directories(context: &AppContext) -> Self::Directories;

    fn albums(context: &AppContext) -> Self::Albums;

    /// A browser by `root_tag` that stands for the pane `target`.
    fn tag_browser(
        root_tag: Tag,
        target: &PaneType,
        separator: Option<String>,
        context: &AppContext,
    ) -> Self::TagBrowser;

    fn playlists(context: &AppContext) -> Self::Playlists;

    fn search(context: &AppContext) -> Self::Search;

    fn album_art(context: &AppContext) -> Self::AlbumArt;

    fn lyrics(context: &AppContext) -> Self::Lyrics;

    fn progress_bar() -> Self::ProgressBar;

    fn header() -> Self::Header;

    /// The tab bar; it may refuse a configuration that it cannot show.
    fn tabs(context: &AppContext) -> Result<Self::Tabs, PaneError>;

    fn cava(context: &AppContext) -> Self::Cava;
}

/// The song that plays, where the player reports one and the queue holds it.
pub open spec fn current_song(context: &AppContext) -> Option<&Song> {
    match current_position(context.queue@, context.status.songid) {
        Some(i) => Some(&context.queue@[i]),
        None => None,
    }
}

/// The spans of the members of `content` from position `from` on, resolved for
/// the song that plays with the separator and the strategy of the
/// configuration; a member that does not resolve adds nothing.
pub open spec fn content_spans(
    content: Seq<Property<PropertyKind>>,
    from: int,
    context: &AppContext,
) -> Seq<SpanView>
    decreases content.len() - from,
{
    if from < 0 || from >= content.len() {
        Seq::empty()
    } else {
        (match content[from].spans(
            current_song(context),
            context,
            context.config.format_tag_separator@,
            context.config.multiple_tag_resolution_strategy,
        ) {
            Some(fragments) => flat(fragments),
            None => Seq::empty(),
        }) + content_spans(content, from + 1, context)
    }
}

/// A pane that shows one line resolved from a format. It holds nothing of its
/// own and is made anew whenever it is asked for.
#[derive(Debug)]
pub struct PropertyPane<'a> {
    pub content: &'a Vec<Property<PropertyKind>>,
    pub align: Alignment,
    pub scroll_speed: u64,
}

impl<'a> PropertyPane<'a> {
    /// The pane that shows `content`.
    pub fn new(
        content: &'a Vec<Property<PropertyKind>>,
        align: Alignment,
        scroll_speed: u64,
        context: &AppContext,
    ) -> (r: PropertyPane<'a>)
        ensures
            r == (PropertyPane { content, align, scroll_speed }),
    {
        PropertyPane { content, align, scroll_speed }
    }

    /// The line that the pane shows: the spans of its content that resolve.
    pub fn line(&self, context: &AppContext) -> (r: Line)
        ensures
            r@ == (LineView { style: plain_style(), spans: content_spans(self.content@, 0, context) }),
    {
        let song: Option<&Song> = match context.find_current_song_in_queue() {
            Some((_, song)) => Some(song),
            None => None,
        };
        let mut spans: Vec<Span> = Vec::new();
        let mut i: usize = 0;
        assert(span_views(spans@) == Seq::<SpanView>::empty());
        while i < self.content.len()
            invariant
                i <= self.content.len(),
                song == current_song(context),
                span_views(spans@) + content_spans(self.content@, i as int, context)
                    == content_spans(self.content@, 0, context),
            decreases self.content.len() - i,
        {
            let ghost before = span_views(spans@);
            let ghost rest = content_spans(self.content@, i + 1, context);
            match self.content[i].as_span(
                song,
                context,
                context.config.format_tag_separator.as_str(),
                context.config.multiple_tag_resolution_strategy,
            ) {
                Some(Either::Left(span)) => {
                    spans.push(span);
                    assert(span_views(spans@) == before + seq![span@]);
                    assert(before + (seq![span@] + rest) == before + seq![span@] + rest);
                },
                Some(Either::Right(more)) => {
                    let mut more = more;
                    let ghost added = span_views(more@);
                    spans.append(&mut more);
                    assert(span_views(spans@) == before + added);
                    assert(before + (added + rest) == before + added + rest);
                },
                None => {
                    assert(before + (Seq::<SpanView>::empty() + rest) == before + rest);
                },
            }
            i += 1;
        }
        assert(span_views(spans@) + Seq::<SpanView>::empty() == span_views(spans@));
        Line { style: Style::new(), spans }
    }
}

impl<'a> Pane for PropertyPane<'a> {
    /// Puts the line of the pane on the frame, aligned as configured.
    fn render(&mut self, frame: &mut Frame, area: Rect, context: &AppContext) -> (r: Result<
        (),
        PaneError,
    >)
        ensures
            r is Ok,
            *final(self) == *old(self),
            final(frame).area == old(frame).area,
            final(frame).lines@.len() == old(frame).lines@.len() + 1,
            final(frame).lines@.drop_last() == old(frame).lines@,
            final(frame).lines@.last().0 == area,
            final(frame).lines@.last().1 == old(self).align,
            final(frame).lines@.last().2@ == (LineView {
                style: plain_style(),
                spans: content_spans(old(self).content@, 0, context),
            }),
    {
        let line = self.line(context);
        frame.render_line(line, self.align, area);
        Ok(())
    }

    /// The pane takes no key stroke.
    fn handle_action(&mut self, event: &mut KeyEvent, context: &mut AppContext) -> (r: Result<
        (),
        PaneError,
    >)
        ensures
            r is Ok,
            *final(self) == *old(self),
            *final(event) == *old(event),
            *final(context) == *old(context),
    {
        Ok(())
    }
}

/// What tells one browser from another: the tag it groups by and the separator
/// it shows between values.
pub type BrowserKey = (Seq<char>, Option<Seq<char>>);

/// The characters of an optional string.
pub open spec fn optional_view(value: Option<String>) -> Option<Seq<char>> {
    match value {
        Some(v) => Some(v@),
        None => None,
    }
}

/// The key of a browser pane. Of any other pane, the key of a browser by the
/// empty tag.
pub open spec fn key_of(pane: &PaneType) -> BrowserKey {
    match pane {
        PaneType::Browser { root_tag, separator } => (root_tag@, optional_view(*separator)),
        _ => (Seq::empty(), None),
    }
}

/// The keys of the browsers among `panes` from position `from` on, in order.
pub open spec fn browsers(panes: Seq<&ConfigPane>, from: int) -> Seq<BrowserKey>
    decreases panes.len() - from,
{
    if from < 0 || from >= panes.len() {
        Seq::empty()
    } else if panes[from].pane is Browser {
        seq![key_of(&panes[from].pane)] + browsers(panes, from + 1)
    } else {
        browsers(panes, from + 1)
    }
}

/// The keys of the browsers in the layouts of `tabs` from position `from` on, in
/// the order in which they are declared. A browser that is declared twice is
/// listed twice.
pub open spec fn configured_browsers(tabs: Seq<Tab>, from: int) -> Seq<BrowserKey>
    decreases tabs.len() - from,
{
    if from < 0 || from >= tabs.len() {
        Seq::empty()
    } else {
        browsers(leaves(&tabs[from].panes), 0) + configured_browsers(tabs, from + 1)
    }
}

/// The first `count` of `keys` without those that occurred before.
pub open spec fn without_repeats(keys: Seq<BrowserKey>, count: int) -> Seq<BrowserKey>
    decreases count,
{
    if count <= 0 || count > keys.len() {
        Seq::empty()
    } else if without_repeats(keys, count - 1).contains(keys[count - 1]) {
        without_repeats(keys, count - 1)
    } else {
        without_repeats(keys, count - 1).push(keys[count - 1])
    }
}

/// The keys of the browsers among the first `count` of `declared`, each once,
/// in the order in which they first occur.
pub open spec fn kept_keys<P>(declared: Seq<(PaneType, P)>, count: int) -> Seq<BrowserKey>
    decreases count,
{
    if count <= 0 || count > declared.len() {
        Seq::empty()
    } else if declared[count - 1].0 is Browser && !kept_keys(declared, count - 1).contains(
        key_of(&declared[count - 1].0),
    ) {
        kept_keys(declared, count - 1).push(key_of(&declared[count - 1].0))
    } else {
        kept_keys(declared, count - 1)
    }
}

/// The pane of the last of the first `count` of `declared` that is held under
/// `key`.
pub open spec fn latest_pane<P>(declared: Seq<(PaneType, P)>, count: int, key: BrowserKey) -> Option<
    P,
>
    decreases count,
{
    if count <= 0 || count > declared.len() {
        None
    } else if declared[count - 1].0 is Browser && key_of(&declared[count - 1].0) == key {
        Some(declared[count - 1].1)
    } else {
        latest_pane(declared, count - 1, key)
    }
}

/// Where every key is that of a browser, the keys that are kept are the keys
/// without repeats.
pub proof fn lemma_kept_keys<P>(declared: Seq<(PaneType, P)>, count: int)
    requires
        all_browsers(declared),
        0 <= count <= declared.len(),
    ensures
        kept_keys(declared, count) == without_repeats(other_keys(declared), count),
    decreases count,
{
    if count > 0 {
        assert(declared[count - 1].0 is Browser);
        lemma_kept_keys(declared, count - 1);
    }
}

/// The keys of `others`, in order.
pub open spec fn other_keys<P>(others: Seq<(PaneType, P)>) -> Seq<BrowserKey> {
    Seq::new(others.len(), |i: int| key_of(&others[i].0))
}

/// Every key of `others` is a browser pane.
pub open spec fn all_browsers<P>(others: Seq<(PaneType, P)>) -> bool {
    forall|i: int| 0 <= i < others.len() ==> (#[trigger] others[i]).0 is Browser
}

/// The position of the first of `keys` that is `key`, or the length of `keys`
/// where there is none.
pub open spec fn key_position(keys: Seq<BrowserKey>, key: BrowserKey, from: int) -> int
    decreases keys.len() - from,
{
    if from < 0 || from >= keys.len() {
        keys.len() as int
    } else if keys[from] == key {
        from
    } else {
        key_position(keys, key, from + 1)
    }
}

/// What [`key_position`] finds: the first position of the key.
pub proof fn lemma_key_position(keys: Seq<BrowserKey>, key: BrowserKey, from: int)
    requires
        0 <= from <= keys.len(),
    ensures
        from <= key_position(keys, key, from) <= keys.len(),
        key_position(keys, key, from) < keys.len() ==> keys[key_position(keys, key, from)] == key,
        forall|i: int| from <= i < key_position(keys, key, from) ==> #[trigger] keys[i] != key,
    decreases keys.len() - from,
{
    if from < keys.len() && keys[from] != key {
        lemma_key_position(keys, key, from + 1);
    }
}

/// The position of the first of `others` that is held under `key`, or the
/// length of `others` where there is none.
pub open spec fn pane_position<P>(others: Seq<(PaneType, P)>, key: BrowserKey, from: int) -> int
    decreases others.len() - from,
{
    if from < 0 || from >= others.len() {
        others.len() as int
    } else if others[from].0 is Browser && key_of(&others[from].0) == key {
        from
    } else {
        pane_position(others, key, from + 1)
    }
}

/// Where every key is that of a browser, a pane is found where its key is.
pub proof fn lemma_pane_position<P>(others: Seq<(PaneType, P)>, key: BrowserKey, from: int)
    requires
        all_browsers(others),
        0 <= from,
    ensures
        pane_position(others, key, from) == key_position(other_keys(others), key, from),
    decreases others.len() - from,
{
    if from < others.len() {
        assert(others[from].0 is Browser);
        lemma_pane_position(others, key, from + 1);
    }
}

fn same_text(a: &Option<String>, b: &Option<String>) -> (r: bool)
    ensures
        r == (optional_view(*a) == optional_view(*b)),
{
    match (a, b) {
        (Some(x), Some(y)) => str_eq(x.as_str(), y.as_str()),
        (None, None) => true,
        _ => false,
    }
}

fn find_key<P>(others: &Vec<(PaneType, P)>, root_tag: &String, separator: &Option<String>) -> (r:
    usize)
    ensures
        r == pane_position(others@, (root_tag@, optional_view(*separator)), 0),
        r <= others@.len(),
{
    let ghost key = (root_tag@, optional_view(*separator));
    let mut i: usize = 0;
    while i < others.len()
        invariant
            i <= others@.len(),
            key == (root_tag@, optional_view(*separator)),
            pane_position(others@, key, 0) == pane_position(others@, key, i as int),
        decreases others.len() - i,
    {
        let found = match &others[i].0 {
            PaneType::Browser { root_tag: tag, separator: sep } => str_eq(
                tag.as_str(),
                root_tag.as_str(),
            ) && same_text(sep, separator),
            _ => false,
        };
        if found {
            return i;
        }
        i += 1;
    }
    i
}

fn copy_text(value: &Option<String>) -> (r: Option<String>)
    ensures
        optional_view(r) == optional_view(*value),
{
    match value {
        Some(v) => Some(v.clone()),
        None => None,
    }
}

/// `pane` is a browser that the host made for the key `key`: for a browser pane
/// with this key, grouping by the tag of the key and showing its separator.
pub open spec fn made_for<K: PaneKinds>(
    context: &AppContext,
    key: BrowserKey,
    pane: K::TagBrowser,
) -> bool {
    exists|tag: String, target: &PaneType, separator: Option<String>|
        tag@ == key.0 && optional_view(separator) == key.1 && target is Browser && key_of(target)
            == key && #[trigger] call_ensures(
            K::tag_browser,
            (Tag::Custom(tag), target, separator, context),
            pane,
        )
}

/// The pane that is kept under a key is one of those declared under it.
pub proof fn lemma_latest_pane<P>(declared: Seq<(PaneType, P)>, count: int, key: BrowserKey)
    requires
        latest_pane(declared, count, key) is Some,
    ensures
        exists|j: int|
            0 <= j < declared.len() && (#[trigger] declared[j]).0 is Browser && key_of(
                &declared[j].0,
            ) == key && latest_pane(declared, count, key) == Some(declared[j].1),
    decreases count,
{
    if count > 0 && count <= declared.len() {
        if declared[count - 1].0 is Browser && key_of(&declared[count - 1].0) == key {
            assert(declared[count - 1].0 is Browser);
        } else {
            lemma_latest_pane(declared, count - 1, key);
        }
    }
}

/// The registry: one pane of each fixed kind, and the browsers that the
/// configuration declares, each under its key.
pub struct PaneContainer<K: PaneKinds> {
    pub queue: K::Queue,
    pub directories: K::Directories,
    pub albums: K::Albums,
    pub artists: K::TagBrowser,
    pub album_artists: K::TagBrowser,
    pub playlists: K::Playlists,
    pub search: K::Search,
    pub album_art: K::AlbumArt,
    pub lyrics: K::Lyrics,
    pub progress_bar: K::ProgressBar,
    pub header: K::Header,
    pub tabs: K::Tabs,
    pub cava: K::Cava,
    pub others: Vec<(PaneType, K::TagBrowser)>,
}

/// A handle on one pane of the registry, for as long as the registry is
/// borrowed.
pub enum Panes<'pane_ref, K: PaneKinds> {
    Queue(&'pane_ref mut K::Queue),
    Directories(&'pane_ref mut K::Directories),
    Artists(&'pane_ref mut K::TagBrowser),
    AlbumArtists(&'pane_ref mut K::TagBrowser),
    Albums(&'pane_ref mut K::Albums),
    Playlists(&'pane_ref mut K::Playlists),
    Search(&'pane_ref mut K::Search),
    AlbumArt(&'pane_ref mut K::AlbumArt),
    Lyrics(&'pane_ref mut K::Lyrics),
    ProgressBar(&'pane_ref mut K::ProgressBar),
    Header(&'pane_ref mut K::Header),
    Tabs(&'pane_ref mut K::Tabs),
    /// The place of the content of the tab; it is no pane of its own.
    TabContent,
    Property(PropertyPane<'pane_ref>),
    Others(&'pane_ref mut K::TagBrowser),
    Cava(&'pane_ref mut K::Cava),
}

impl<K: PaneKinds> PaneContainer<K> {
    /// The keys of the browsers that the registry holds, in order.
    pub open spec fn keys(&self) -> Seq<BrowserKey> {
        other_keys(self.others@)
    }

    /// Every pane under a key is under the key of a browser, and no key occurs
    /// twice.
    pub open spec fn wf(&self) -> bool {
        &&& all_browsers(self.others@)
        &&& self.keys().no_duplicates()
    }

    /// The panes of fixed kind are those of `other`.
    pub open spec fn same_fixed(&self, other: &Self) -> bool {
        &&& self.queue == other.queue
        &&& self.directories == other.directories
        &&& self.albums == other.albums
        &&& self.artists == other.artists
        &&& self.album_artists == other.album_artists
        &&& self.playlists == other.playlists
        &&& self.search == other.search
        &&& self.album_art == other.album_art
        &&& self.lyrics == other.lyrics
        &&& self.progress_bar == other.progress_bar
        &&& self.header == other.header
        &&& self.tabs == other.tabs
        &&& self.cava == other.cava
    }

    /// A browser for every browser pane in the layouts of the configured tabs,
    /// each with the key of its pane, in the order in which they are declared.
    pub fn init_other_panes(context: &AppContext) -> (r: Vec<(PaneType, K::TagBrowser)>)
        ensures
            all_browsers(r@),
            other_keys(r@) == configured_browsers(context.config.tabs@, 0),
            forall|i: int|
                0 <= i < r@.len() ==> made_for::<K>(
                    context,
                    key_of(&(#[trigger] r@[i]).0),
                    r@[i].1,
                ),
    {
        let tabs = &context.config.tabs;
        let mut out: Vec<(PaneType, K::TagBrowser)> = Vec::new();
        let mut t: usize = 0;
        assert(other_keys(out@) == Seq::<BrowserKey>::empty());
        while t < tabs.len()
            invariant
                t <= tabs.len(),
                tabs == &context.config.tabs,
                all_browsers(out@),
                other_keys(out@) + configured_browsers(tabs@, t as int) == configured_browsers(
                    tabs@,
                    0,
                ),
                forall|i: int|
                    0 <= i < out@.len() ==> made_for::<K>(
                        context,
                        key_of(&(#[trigger] out@[i]).0),
                        out@[i].1,
                    ),
            decreases tabs.len() - t,
        {
            let found = tabs[t].panes.panes();
            let ghost before = other_keys(out@);
            let ghost rest = configured_browsers(tabs@, t + 1);
            let mut i: usize = 0;
            assert(before + (browsers(found@, 0) + rest) == before + browsers(found@, 0) + rest);
            while i < found.len()
                invariant
                    i <= found.len(),
                    all_browsers(out@),
                    other_keys(out@) + browsers(found@, i as int) + rest == configured_browsers(
                        tabs@,
                        0,
                    ),
                    forall|i: int|
                        0 <= i < out@.len() ==> made_for::<K>(
                            context,
                            key_of(&(#[trigger] out@[i]).0),
                            out@[i].1,
                        ),
                decreases found.len() - i,
            {
                let pane: &ConfigPane = found[i];
                match &pane.pane {
                    PaneType::Browser { root_tag, separator } => {
                        let ghost shown = other_keys(out@);
                        let key = PaneType::Browser {
                            root_tag: root_tag.clone(),
                            separator: copy_text(separator),
                        };
                        let tag = root_tag.clone();
                        let shown_between = copy_text(separator);
                        let ghost handed = (tag, shown_between);
                        let browser = K::tag_browser(
                            Tag::Custom(tag),
                            &pane.pane,
                            shown_between,
                            context,
                        );
                        assert(call_ensures(
                            K::tag_browser,
                            (Tag::Custom(handed.0), &pane.pane, handed.1, context),
                            browser,
                        ));
                        assert(made_for::<K>(context, key_of(&key), browser));
                        let ghost held = out@;
                        out.push((key, browser));
                        assert(forall|j: int| 0 <= j < held.len() ==> out@[j] == held[j]);
                        assert(other_keys(out@) == shown + seq![key_of(&pane.pane)]);
                        assert(shown + (seq![key_of(&pane.pane)] + browsers(found@, i + 1))
                            == shown + seq![key_of(&pane.pane)] + browsers(found@, i + 1));
                    },
                    _ => {},
                }
                i += 1;
            }
            assert(other_keys(out@) + Seq::<BrowserKey>::empty() == other_keys(out@));
            t += 1;
        }
        assert(other_keys(out@) + Seq::<BrowserKey>::empty() == other_keys(out@));
        out
    }

    /// Keeps of `declared` one pane for every key of a browser: the pane that was
    /// declared last, at the place where the key was declared first. A pane under
    /// any other key is dropped.
    pub fn keyed(declared: Vec<(PaneType, K::TagBrowser)>) -> (r: Vec<(PaneType, K::TagBrowser)>)
        ensures
            all_browsers(r@),
            other_keys(r@) == kept_keys(declared@, declared@.len() as int),
            other_keys(r@).no_duplicates(),
            forall|i: int|
                0 <= i < r@.len() ==> latest_pane(
                    declared@,
                    declared@.len() as int,
                    key_of(&(#[trigger] r@[i]).0),
                ) == Some(r@[i].1),
    {
        let ghost given = declared@;
        let ghost total = declared@.len();
        let mut rest = declared;
        let mut backwards: Vec<(PaneType, K::TagBrowser)> = Vec::new();
        while rest.len() > 0
            invariant
                rest@.len() + backwards@.len() == total,
                given.len() == total,
                forall|i: int| 0 <= i < rest@.len() ==> #[trigger] rest@[i] == given[i],
                forall|i: int|
                    0 <= i < backwards@.len() ==> #[trigger] backwards@[i] == given[total - 1 - i],
            decreases rest.len(),
        {
            match rest.pop() {
                Some(entry) => {
                    backwards.push(entry);
                },
                None => {},
            }
        }
        let mut out: Vec<(PaneType, K::TagBrowser)> = Vec::new();
        let ghost mut done: int = 0;
        assert(other_keys(out@) == kept_keys(given, 0));
        while backwards.len() > 0
            invariant
                0 <= done <= total,
                given.len() == total,
                backwards@.len() == total - done,
                forall|i: int|
                    0 <= i < backwards@.len() ==> #[trigger] backwards@[i] == given[total - 1 - i],
                all_browsers(out@),
                other_keys(out@) == kept_keys(given, done),
                other_keys(out@).no_duplicates(),
                forall|i: int|
                    0 <= i < out@.len() ==> latest_pane(
                        given,
                        done,
                        key_of(&(#[trigger] out@[i]).0),
                    ) == Some(out@[i].1),
            decreases backwards.len(),
        {
            let ghost shown = other_keys(out@);
            match backwards.pop() {
                Some((key, pane)) => {
                    assert((key, pane) == given[done]);
                    let ghost held = out@;
                    match &key {
                        PaneType::Browser { root_tag, separator } => {
                            let at = find_key(&out, root_tag, separator);
                            proof {
                                lemma_pane_position(out@, key_of(&key), 0);
                                lemma_key_position(shown, key_of(&key), 0);
                            }
                            if at < out.len() {
                                out[at] = (key, pane);
                                assert(other_keys(out@) == shown);
                                assert(shown.contains(key_of(&given[done].0)));
                            } else {
                                out.push((key, pane));
                                assert(other_keys(out@) == shown.push(key_of(&given[done].0)));
                                assert(!shown.contains(key_of(&given[done].0)));
                            }
                            assert forall|i: int| 0 <= i < out@.len() implies latest_pane(
                                given,
                                done + 1,
                                key_of(&(#[trigger] out@[i]).0),
                            ) == Some(out@[i].1) by {
                                if i != at {
                                    assert(out@[i] == held[i]);
                                    assert(shown[i] != shown[at as int] || at >= shown.len());
                                    assert(other_keys(out@)[i] == key_of(&out@[i].0));
                                    assert(other_keys(out@)[at as int] == key_of(&out@[at as int].0));
                                }
                            }
                        },
                        _ => {},
                    }
                    proof {
                        done = done + 1;
                    }
                },
                None => {},
            }
        }
        out
    }
}


impl<K: PaneKinds> PaneContainer<K> {
    /// Puts a registry together from its panes. `tabs` is what making the tab bar
    /// gave: where that failed, its error is returned and nothing is built.
    pub fn assemble(
        queue: K::Queue,
        directories: K::Directories,
        albums: K::Albums,
        artists: K::TagBrowser,
        album_artists: K::TagBrowser,
        playlists: K::Playlists,
        search: K::Search,
        album_art: K::AlbumArt,
        lyrics: K::Lyrics,
        progress_bar: K::ProgressBar,
        header: K::Header,
        tabs: Result<K::Tabs, PaneError>,
        cava: K::Cava,
        declared: Vec<(PaneType, K::TagBrowser)>,
    ) -> (r: Result<Self, PaneError>)
        ensures
            match tabs {
                Err(e) => r == Err::<Self, PaneError>(e),
                Ok(t) => r matches Ok(c) && {
                    &&& c.queue == queue
                    &&& c.directories == directories
                    &&& c.albums == albums
                    &&& c.artists == artists
                    &&& c.album_artists == album_artists
                    &&& c.playlists == playlists
                    &&& c.search == search
                    &&& c.album_art == album_art
                    &&& c.lyrics == lyrics
                    &&& c.progress_bar == progress_bar
                    &&& c.header == header
                    &&& c.tabs == t
                    &&& c.cava == cava
                    &&& c.wf()
                    &&& c.keys() == kept_keys(declared@, declared@.len() as int)
                    &&& forall|i: int|
                        0 <= i < c.others@.len() ==> latest_pane(
                            declared@,
                            declared@.len() as int,
                            key_of(&(#[trigger] c.others@[i]).0),
                        ) == Some(c.others@[i].1)
                },
            },
    {
        match tabs {
            Err(e) => Err(e),
            Ok(tabs) => Ok(
                PaneContainer {
                    queue,
                    directories,
                    albums,
                    artists,
                    album_artists,
                    playlists,
                    search,
                    album_art,
                    lyrics,
                    progress_bar,
                    header,
                    tabs,
                    cava,
                    others: Self::keyed(declared),
                },
            ),
        }
    }

    /// Makes every pane of fixed kind, and a browser for every browser pane that
    /// the layouts of the configured tabs declare. Fails where the tab bar cannot
    /// be made, with its error. The registry then holds one browser under every
    /// declared key, the keys in the order in which they were first declared.
    pub fn new(context: &AppContext) -> (r: Result<Self, PaneError>)
        ensures
            r matches Ok(c) ==> c.wf() && c.keys() == without_repeats(
                configured_browsers(context.config.tabs@, 0),
                configured_browsers(context.config.tabs@, 0).len() as int,
            ),
            r matches Ok(c) ==> forall|i: int|
                0 <= i < c.others@.len() ==> made_for::<K>(
                    context,
                    key_of(&(#[trigger] c.others@[i]).0),
                    c.others@[i].1,
                ),
            r matches Ok(c) ==> {
                &&& call_ensures(K::queue, (context,), c.queue)
                &&& call_ensures(K::directories, (context,), c.directories)
                &&& call_ensures(K::albums, (context,), c.albums)
                &&& call_ensures(
                    K::tag_browser,
                    (Tag::Artist, &PaneType::Artists, None, context),
                    c.artists,
                )
                &&& call_ensures(
                    K::tag_browser,
                    (Tag::AlbumArtist, &PaneType::AlbumArtists, None, context),
                    c.album_artists,
                )
                &&& call_ensures(K::playlists, (context,), c.playlists)
                &&& call_ensures(K::search, (context,), c.search)
                &&& call_ensures(K::album_art, (context,), c.album_art)
                &&& call_ensures(K::lyrics, (context,), c.lyrics)
                &&& call_ensures(K::progress_bar, (), c.progress_bar)
                &&& call_ensures(K::header, (), c.header)
                &&& call_ensures(K::tabs, (context,), Ok::<K::Tabs, PaneError>(c.tabs))
                &&& call_ensures(K::cava, (context,), c.cava)
            },
            r matches Err(e) ==> call_ensures(K::tabs, (context,), Err::<K::Tabs, PaneError>(e)),
    {
        let artists = K::tag_browser(Tag::Artist, &PaneType::Artists, None, context);
        let album_artists = K::tag_browser(
            Tag::AlbumArtist,
            &PaneType::AlbumArtists,
            None,
            context,
        );
        let declared = Self::init_other_panes(context);
        let ghost listed = declared@;
        proof {
            lemma_kept_keys(listed, listed.len() as int);
        }
        let made = Self::assemble(
            K::queue(context),
            K::directories(context),
            K::albums(context),
            artists,
            album_artists,
            K::playlists(context),
            K::search(context),
            K::album_art(context),
            K::lyrics(context),
            K::progress_bar(),
            K::header(),
            K::tabs(context),
            K::cava(context),
            declared,
        );
        proof {
            if made is Ok {
                let c = made->Ok_0;
                assert forall|i: int| 0 <= i < c.others@.len() implies made_for::<K>(
                    context,
                    key_of(&(#[trigger] c.others@[i]).0),
                    c.others@[i].1,
                ) by {
                    let key = key_of(&c.others@[i].0);
                    lemma_latest_pane(listed, listed.len() as int, key);
                }
            }
        }
        made
    }

    /// Hands out the pane that `pane` names. For a pane of fixed kind the handle
    /// is on the one pane of that kind which the registry owns: what is done
    /// through the handle is done to that pane, and to nothing else. For a
    /// browser the handle is on the browser held under its key; a browser that
    /// the registry does not hold is an error. A property pane is made anew from
    /// what `pane` holds. The content of a tab is no pane and gets the empty
    /// handle.
    pub fn get_mut<'pane_ref, 'pane_type_ref: 'pane_ref>(
        &'pane_ref mut self,
        pane: &'pane_type_ref PaneType,
        context: &AppContext,
    ) -> (r: Result<Panes<'pane_ref, K>, PaneError>)
        ensures
            match pane {
                PaneType::Queue => r matches Ok(Panes::Queue(h)) && *h == old(self).queue
                    && *final(self) == (PaneContainer { queue: *final(h), ..*old(self) }),
                PaneType::Directories => r matches Ok(Panes::Directories(h)) && *h == old(
                    self,
                ).directories && *final(self) == (PaneContainer {
                    directories: *final(h),
                    ..*old(self)
                }),
                PaneType::Artists => r matches Ok(Panes::Artists(h)) && *h == old(self).artists
                    && *final(self) == (PaneContainer { artists: *final(h), ..*old(self) }),
                PaneType::AlbumArtists => r matches Ok(Panes::AlbumArtists(h)) && *h == old(
                    self,
                ).album_artists && *final(self) == (PaneContainer {
                    album_artists: *final(h),
                    ..*old(self)
                }),
                PaneType::Albums => r matches Ok(Panes::Albums(h)) && *h == old(self).albums
                    && *final(self) == (PaneContainer { albums: *final(h), ..*old(self) }),
                PaneType::Playlists => r matches Ok(Panes::Playlists(h)) && *h == old(
                    self,
                ).playlists && *final(self) == (PaneContainer {
                    playlists: *final(h),
                    ..*old(self)
                }),
                PaneType::Search => r matches Ok(Panes::Search(h)) && *h == old(self).search
                    && *final(self) == (PaneContainer { search: *final(h), ..*old(self) }),
                PaneType::AlbumArt => r matches Ok(Panes::AlbumArt(h)) && *h == old(self).album_art
                    && *final(self) == (PaneContainer { album_art: *final(h), ..*old(self) }),
                PaneType::Lyrics => r matches Ok(Panes::Lyrics(h)) && *h == old(self).lyrics
                    && *final(self) == (PaneContainer { lyrics: *final(h), ..*old(self) }),
                PaneType::ProgressBar => r matches Ok(Panes::ProgressBar(h)) && *h == old(
                    self,
                ).progress_bar && *final(self) == (PaneContainer {
                    progress_bar: *final(h),
                    ..*old(self)
                }),
                PaneType::Header => r matches Ok(Panes::Header(h)) && *h == old(self).header
                    && *final(self) == (PaneContainer { header: *final(h), ..*old(self) }),
                PaneType::Tabs => r matches Ok(Panes::Tabs(h)) && *h == old(self).tabs
                    && *final(self) == (PaneContainer { tabs: *final(h), ..*old(self) }),
                PaneType::Cava => r matches Ok(Panes::Cava(h)) && *h == old(self).cava
                    && *final(self) == (PaneContainer { cava: *final(h), ..*old(self) }),
                PaneType::TabContent => r matches Ok(Panes::TabContent) && *final(self) == *old(
                    self,
                ),
                PaneType::Property { content, align, scroll_speed } => r matches Ok(
                    Panes::Property(p),
                ) && p == (PropertyPane { content, align: *align, scroll_speed: *scroll_speed })
                    && *final(self) == *old(self),
                PaneType::Browser { root_tag, separator } => {
                    let at = pane_position(old(self).others@, key_of(pane), 0);
                    if at < old(self).others@.len() {
                        &&& r matches Ok(Panes::Others(h))
                        &&& *h == old(self).others@[at].1
                        &&& final(self).others@ == old(self).others@.update(
                            at,
                            (old(self).others@[at].0, *final(h)),
                        )
                        &&& final(self).same_fixed(old(self))
                    } else {
                        &&& r matches Err(PaneError::NotDefined { root_tag: tag, separator: sep })
                        &&& tag@ == root_tag@
                        &&& optional_view(sep) == optional_view(*separator)
                        &&& *final(self) == *old(self)
                    }
                },
            },
    {
        match pane {
            PaneType::Queue => Ok(Panes::Queue(&mut self.queue)),
            PaneType::Directories => Ok(Panes::Directories(&mut self.directories)),
            PaneType::Artists => Ok(Panes::Artists(&mut self.artists)),
            PaneType::AlbumArtists => Ok(Panes::AlbumArtists(&mut self.album_artists)),
            PaneType::Albums => Ok(Panes::Albums(&mut self.albums)),
            PaneType::Playlists => Ok(Panes::Playlists(&mut self.playlists)),
            PaneType::Search => Ok(Panes::Search(&mut self.search)),
            PaneType::AlbumArt => Ok(Panes::AlbumArt(&mut self.album_art)),
            PaneType::Lyrics => Ok(Panes::Lyrics(&mut self.lyrics)),
            PaneType::ProgressBar => Ok(Panes::ProgressBar(&mut self.progress_bar)),
            PaneType::Header => Ok(Panes::Header(&mut self.header)),
            PaneType::Tabs => Ok(Panes::Tabs(&mut self.tabs)),
            PaneType::TabContent => Ok(Panes::TabContent),
            PaneType::Property { content, align, scroll_speed } => Ok(
                Panes::Property(PropertyPane::new(content, *align, *scroll_speed, context)),
            ),
            PaneType::Browser { root_tag, separator } => {
                let at = find_key(&self.others, root_tag, separator);
                if at < self.others.len() {
                    Ok(Panes::Others(&mut self.others[at].1))
                } else {
                    Err(
                        PaneError::NotDefined {
                            root_tag: root_tag.clone(),
                            separator: copy_text(separator),
                        },
                    )
                }
            },
            PaneType::Cava => Ok(Panes::Cava(&mut self.cava)),
        }
    }
}


/// Which kind of pane a handle is on.
#[derive(Debug, Clone, Copy, PartialEq, Eq)]
pub enum PanesDiscriminants {
    Queue,
    Directories,
    Artists,
    AlbumArtists,
    Albums,
    Playlists,
    Search,
    AlbumArt,
    Lyrics,
    ProgressBar,
    Header,
    Tabs,
    TabContent,
    Property,
    Others,
    Cava,
}

/// The name of a kind of pane.
pub open spec fn kind_name(kind: PanesDiscriminants) -> Seq<char> {
    match kind {
        PanesDiscriminants::Queue => "Queue"@,
        PanesDiscriminants::Directories => "Directories"@,
        PanesDiscriminants::Artists => "Artists"@,
        PanesDiscriminants::AlbumArtists => "AlbumArtists"@,
        PanesDiscriminants::Albums => "Albums"@,
        PanesDiscriminants::Playlists => "Playlists"@,
        PanesDiscriminants::Search => "Search"@,
        PanesDiscriminants::AlbumArt => "AlbumArt"@,
        PanesDiscriminants::Lyrics => "Lyrics"@,
        PanesDiscriminants::ProgressBar => "ProgressBar"@,
        PanesDiscriminants::Header => "Header"@,
        PanesDiscriminants::Tabs => "Tabs"@,
        PanesDiscriminants::TabContent => "TabContent"@,
        PanesDiscriminants::Property => "Property"@,
        PanesDiscriminants::Others => "Others"@,
        PanesDiscriminants::Cava => "Cava"@,
    }
}

impl PanesDiscriminants {
    /// The name of the kind, as it is written in the configuration.
    pub fn name(&self) -> (r: &'static str)
        ensures
            r@ == kind_name(*self),
    {
        match self {
            PanesDiscriminants::Queue => "Queue",
            PanesDiscriminants::Directories => "Directories",
            PanesDiscriminants::Artists => "Artists",
            PanesDiscriminants::AlbumArtists => "AlbumArtists",
            PanesDiscriminants::Albums => "Albums",
            PanesDiscriminants::Playlists => "Playlists",
            PanesDiscriminants::Search => "Search",
            PanesDiscriminants::AlbumArt => "AlbumArt",
            PanesDiscriminants::Lyrics => "Lyrics",
            PanesDiscriminants::ProgressBar => "ProgressBar",
            PanesDiscriminants::Header => "Header",
            PanesDiscriminants::Tabs => "Tabs",
            PanesDiscriminants::TabContent => "TabContent",
            PanesDiscriminants::Property => "Property",
            PanesDiscriminants::Others => "Others",
            PanesDiscriminants::Cava => "Cava",
        }
    }
}

impl<'pane_ref, K: PaneKinds> Panes<'pane_ref, K> {
    /// The kind of pane that the handle is on.
    pub open spec fn kind(&self) -> PanesDiscriminants {
        match self {
            Panes::Queue(_) => PanesDiscriminants::Queue,
            Panes::Directories(_) => PanesDiscriminants::Directories,
            Panes::Artists(_) => PanesDiscriminants::Artists,
            Panes::AlbumArtists(_) => PanesDiscriminants::AlbumArtists,
            Panes::Albums(_) => PanesDiscriminants::Albums,
            Panes::Playlists(_) => PanesDiscriminants::Playlists,
            Panes::Search(_) => PanesDiscriminants::Search,
            Panes::AlbumArt(_) => PanesDiscriminants::AlbumArt,
            Panes::Lyrics(_) => PanesDiscriminants::Lyrics,
            Panes::ProgressBar(_) => PanesDiscriminants::ProgressBar,
            Panes::Header(_) => PanesDiscriminants::Header,
            Panes::Tabs(_) => PanesDiscriminants::Tabs,
            Panes::Property(_) => PanesDiscriminants::Property,
            Panes::Others(_) => PanesDiscriminants::Others,
            Panes::Cava(_) => PanesDiscriminants::Cava,
            Panes::TabContent => PanesDiscriminants::TabContent,
        }
    }

    /// The kind of pane that the handle is on.
    pub fn discriminant(&self) -> (r: PanesDiscriminants)
        ensures
            r == self.kind(),
    {
        match self {
            Panes::Queue(_) => PanesDiscriminants::Queue,
            Panes::Directories(_) => PanesDiscriminants::Directories,
            Panes::Artists(_) => PanesDiscriminants::Artists,
            Panes::AlbumArtists(_) => PanesDiscriminants::AlbumArtists,
            Panes::Albums(_) => PanesDiscriminants::Albums,
            Panes::Playlists(_) => PanesDiscriminants::Playlists,
            Panes::Search(_) => PanesDiscriminants::Search,
            Panes::AlbumArt(_) => PanesDiscriminants::AlbumArt,
            Panes::Lyrics(_) => PanesDiscriminants::Lyrics,
            Panes::ProgressBar(_) => PanesDiscriminants::ProgressBar,
            Panes::Header(_) => PanesDiscriminants::Header,
            Panes::Tabs(_) => PanesDiscriminants::Tabs,
            Panes::Property(_) => PanesDiscriminants::Property,
            Panes::Others(_) => PanesDiscriminants::Others,
            Panes::Cava(_) => PanesDiscriminants::Cava,
            Panes::TabContent => PanesDiscriminants::TabContent,
        }
    }

    /// The name of the kind of pane that the handle is on.
    pub fn name(&self) -> (r: &'static str)
        ensures
            r@ == kind_name(self.kind()),
    {
        self.discriminant().name()
    }
}

impl<'pane_ref, K: PaneKinds> Panes<'pane_ref, K> {
    /// Draws the pane into `area` of `frame`. The content of a tab draws nothing; a
    /// property pane puts its line on the frame.
    ///
    /// The pane behind the handle does its own `render` on what it is handed
    /// and is left as that leaves it; what that returns is returned.
    pub fn render(&mut self, frame: &mut Frame, area: Rect, context: &AppContext) -> (r: Result<(), PaneError>)
        ensures
            match *old(self) {
                Panes::Queue(before) => exists|pane: &mut K::Queue, frame_handed: &mut Frame|
                    *pane == *before
                        && (*final(self) matches Panes::Queue(after) && *after == *final(pane))
                        && *frame_handed == *old(frame)
                        && *final(frame_handed) == *final(frame)
                        && #[trigger] call_ensures(
                        <K::Queue as Pane>::render,
                        (pane, frame_handed, area, context),
                        r,
                    ),
                Panes::Directories(before) => exists|pane: &mut K::Directories, frame_handed: &mut Frame|
                    *pane == *before
                        && (*final(self) matches Panes::Directories(after) && *after == *final(pane))
                        && *frame_handed == *old(frame)
                        && *final(frame_handed) == *final(frame)
                        && #[trigger] call_ensures(
                        <K::Directories as Pane>::render,
                        (pane, frame_handed, area, context),
                        r,
                    ),
                Panes::Artists(before) => exists|pane: &mut K::TagBrowser, frame_handed: &mut Frame|
                    *pane == *before
                        && (*final(self) matches Panes::Artists(after) && *after == *final(pane))
                        && *frame_handed == *old(frame)
                        && *final(frame_handed) == *final(frame)
                        && #[trigger] call_ensures(
                        <K::TagBrowser as Pane>::render,
                        (pane, frame_handed, area, context),
                        r,
                    ),
                Panes::AlbumArtists(before) => exists|pane: &mut K::TagBrowser, frame_handed: &mut Frame|
                    *pane == *before
                        && (*final(self) matches Panes::AlbumArtists(after) && *after == *final(pane))
                        && *frame_handed == *old(frame)
                        && *final(frame_handed) == *final(frame)
                        && #[trigger] call_ensures(
                        <K::TagBrowser as Pane>::render,
                        (pane, frame_handed, area, context),
                        r,
                    ),
                Panes::Albums(before) => exists|pane: &mut K::Albums, frame_handed: &mut Frame|
                    *pane == *before
                        && (*final(self) matches Panes::Albums(after) && *after == *final(pane))
                        && *frame_handed == *old(frame)
                        && *final(frame_handed) == *final(frame)
                        && #[trigger] call_ensures(
                        <K::Albums as Pane>::render,
                        (pane, frame_handed, area, context),
                        r,
                    ),
                Panes::Playlists(before) => exists|pane: &mut K::Playlists, frame_handed: &mut Frame|
                    *pane == *before
                        && (*final(self) matches Panes::Playlists(after) && *after == *final(pane))
                        && *frame_handed == *old(frame)
                        && *final(frame_handed) == *final(frame)
                        && #[trigger] call_ensures(
                        <K::Playlists as Pane>::render,
                        (pane, frame_handed, area, context),
                        r,
                    ),
                Panes::Search(before) => exists|pane: &mut K::Search, frame_handed: &mut Frame|
                    *pane == *before
                        && (*final(self) matches Panes::Search(after) && *after == *final(pane))
                        && *frame_handed == *old(frame)
                        && *final(frame_handed) == *final(frame)
                        && #[trigger] call_ensures(
                        <K::Search as Pane>::render,
                        (pane, frame_handed, area, context),
                        r,
                    ),
                Panes::AlbumArt(before) => exists|pane: &mut K::AlbumArt, frame_handed: &mut Frame|
                    *pane == *before
                        && (*final(self) matches Panes::AlbumArt(after) && *after == *final(pane))
                        && *frame_handed == *old(frame)
                        && *final(frame_handed) == *final(frame)
                        && #[trigger] call_ensures(
                        <K::AlbumArt as Pane>::render,
                        (pane, frame_handed, area, context),
                        r,
                    ),
                Panes::Lyrics(before) => exists|pane: &mut K::Lyrics, frame_handed: &mut Frame|
                    *pane == *before
                        && (*final(self) matches Panes::Lyrics(after) && *after == *final(pane))
                        && *frame_handed == *old(frame)
                        && *final(frame_handed) == *final(frame)
                        && #[trigger] call_ensures(
                        <K::Lyrics as Pane>::render,
                        (pane, frame_handed, area, context),
                        r,
                    ),
                Panes::ProgressBar(before) => exists|pane: &mut K::ProgressBar, frame_handed: &mut Frame|
                    *pane == *before
                        && (*final(self) matches Panes::ProgressBar(after) && *after == *final(pane))
                        && *frame_handed == *old(frame)
                        && *final(frame_handed) == *final(frame)
                        && #[trigger] call_ensures(
                        <K::ProgressBar as Pane>::render,
                        (pane, frame_handed, area, context),
                        r,
                    ),
                Panes::Header(before) => exists|pane: &mut K::Header, frame_handed: &mut Frame|
                    *pane == *before
                        && (*final(self) matches Panes::Header(after) && *after == *final(pane))
                        && *frame_handed == *old(frame)
                        && *final(frame_handed) == *final(frame)
                        && #[trigger] call_ensures(
                        <K::Header as Pane>::render,
                        (pane, frame_handed, area, context),
                        r,
                    ),
                Panes::Tabs(before) => exists|pane: &mut K::Tabs, frame_handed: &mut Frame|
                    *pane == *before
                        && (*final(self) matches Panes::Tabs(after) && *after == *final(pane))
                        && *frame_handed == *old(frame)
                        && *final(frame_handed) == *final(frame)
                        && #[trigger] call_ensures(
                        <K::Tabs as Pane>::render,
                        (pane, frame_handed, area, context),
                        r,
                    ),
                Panes::Others(before) => exists|pane: &mut K::TagBrowser, frame_handed: &mut Frame|
                    *pane == *before
                        && (*final(self) matches Panes::Others(after) && *after == *final(pane))
                        && *frame_handed == *old(frame)
                        && *final(frame_handed) == *final(frame)
                        && #[trigger] call_ensures(
                        <K::TagBrowser as Pane>::render,
                        (pane, frame_handed, area, context),
                        r,
                    ),
                Panes::Cava(before) => exists|pane: &mut K::Cava, frame_handed: &mut Frame|
                    *pane == *before
                        && (*final(self) matches Panes::Cava(after) && *after == *final(pane))
                        && *frame_handed == *old(frame)
                        && *final(frame_handed) == *final(frame)
                        && #[trigger] call_ensures(
                        <K::Cava as Pane>::render,
                        (pane, frame_handed, area, context),
                        r,
                    ),
                Panes::Property(before) => {
                    &&& r is Ok
                    &&& *final(self) == *old(self)
                    &&& final(frame).area == old(frame).area
                    &&& final(frame).lines@.len() == old(frame).lines@.len() + 1
                    &&& final(frame).lines@.drop_last() == old(frame).lines@
                    &&& final(frame).lines@.last().0 == area
                    &&& final(frame).lines@.last().1 == before.align
                    &&& final(frame).lines@.last().2@ == (LineView {
                        style: plain_style(),
                        spans: content_spans(before.content@, 0, context),
                    })
                },
                Panes::TabContent => r is Ok && *final(self) is TabContent && *final(frame) == *old(frame),
            },
    {
        match self {
            Panes::Queue(s) => {
                let render = <K::Queue as Pane>::render;
                render(&mut **s, &mut *frame, area, context)
            },
            Panes::Directories(s) => {
                let render = <K::Directories as Pane>::render;
                render(&mut **s, &mut *frame, area, context)
            },
            Panes::Artists(s) => {
                let render = <K::TagBrowser as Pane>::render;
                render(&mut **s, &mut *frame, area, context)
            },
            Panes::AlbumArtists(s) => {
                let render = <K::TagBrowser as Pane>::render;
                render(&mut **s, &mut *frame, area, context)
            },
            Panes::Albums(s) => {
                let render = <K::Albums as Pane>::render;
                render(&mut **s, &mut *frame, area, context)
            },
            Panes::Playlists(s) => {
                let render = <K::Playlists as Pane>::render;
                render(&mut **s, &mut *frame, area, context)
            },
            Panes::Search(s) => {
                let render = <K::Search as Pane>::render;
                render(&mut **s, &mut *frame, area, context)
            },
            Panes::AlbumArt(s) => {
                let render = <K::AlbumArt as Pane>::render;
                render(&mut **s, &mut *frame, area, context)
            },
            Panes::Lyrics(s) => {
                let render = <K::Lyrics as Pane>::render;
                render(&mut **s, &mut *frame, area, context)
            },
            Panes::ProgressBar(s) => {
                let render = <K::ProgressBar as Pane>::render;
                render(&mut **s, &mut *frame, area, context)
            },
            Panes::Header(s) => {
                let render = <K::Header as Pane>::render;
                render(&mut **s, &mut *frame, area, context)
            },
            Panes::Tabs(s) => {
                let render = <K::Tabs as Pane>::render;
                render(&mut **s, &mut *frame, area, context)
            },
            Panes::Others(s) => {
                let render = <K::TagBrowser as Pane>::render;
                render(&mut **s, &mut *frame, area, context)
            },
            Panes::Cava(s) => {
                let render = <K::Cava as Pane>::render;
                render(&mut **s, &mut *frame, area, context)
            },
            Panes::Property(s) => s.render(frame, area, context),
            Panes::TabContent => Ok(()),
        }
    }

    /// Prepares the pane before it is drawn for the first time after it was hidden.
    ///
    /// The pane behind the handle does its own `before_show` on what it is handed
    /// and is left as that leaves it; what that returns is returned.
    pub fn before_show(&mut self, context: &AppContext) -> (r: Result<(), PaneError>)
        ensures
            match *old(self) {
                Panes::Queue(before) => exists|pane: &mut K::Queue|
                    *pane == *before
                        && (*final(self) matches Panes::Queue(after) && *after == *final(pane))
                        && #[trigger] call_ensures(
                        <K::Queue as Pane>::before_show,
                        (pane, context),
                        r,
                    ),
                Panes::Directories(before) => exists|pane: &mut K::Directories|
                    *pane == *before
                        && (*final(self) matches Panes::Directories(after) && *after == *final(pane))
                        && #[trigger] call_ensures(
                        <K::Directories as Pane>::before_show,
                        (pane, context),
                        r,
                    ),
                Panes::Artists(before) => exists|pane: &mut K::TagBrowser|
                    *pane == *before
                        && (*final(self) matches Panes::Artists(after) && *after == *final(pane))
                        && #[trigger] call_ensures(
                        <K::TagBrowser as Pane>::before_show,
                        (pane, context),
                        r,
                    ),
                Panes::AlbumArtists(before) => exists|pane: &mut K::TagBrowser|
                    *pane == *before
                        && (*final(self) matches Panes::AlbumArtists(after) && *after == *final(pane))
                        && #[trigger] call_ensures(
                        <K::TagBrowser as Pane>::before_show,
                        (pane, context),
                        r,
                    ),
                Panes::Albums(before) => exists|pane: &mut K::Albums|
                    *pane == *before
                        && (*final(self) matches Panes::Albums(after) && *after == *final(pane))
                        && #[trigger] call_ensures(
                        <K::Albums as Pane>::before_show,
                        (pane, context),
                        r,
                    ),
                Panes::Playlists(before) => exists|pane: &mut K::Playlists|
                    *pane == *before
                        && (*final(self) matches Panes::Playlists(after) && *after == *final(pane))
                        && #[trigger] call_ensures(
                        <K::Playlists as Pane>::before_show,
                        (pane, context),
                        r,
                    ),
                Panes::Search(before) => exists|pane: &mut K::Search|
                    *pane == *before
                        && (*final(self) matches Panes::Search(after) && *after == *final(pane))
                        && #[trigger] call_ensures(
                        <K::Search as Pane>::before_show,
                        (pane, context),
                        r,
                    ),
                Panes::AlbumArt(before) => exists|pane: &mut K::AlbumArt|
                    *pane == *before
                        && (*final(self) matches Panes::AlbumArt(after) && *after == *final(pane))
                        && #[trigger] call_ensures(
                        <K::AlbumArt as Pane>::before_show,
                        (pane, context),
                        r,
                    ),
                Panes::Lyrics(before) => exists|pane: &mut K::Lyrics|
                    *pane == *before
                        && (*final(self) matches Panes::Lyrics(after) && *after == *final(pane))
                        && #[trigger] call_ensures(
                        <K::Lyrics as Pane>::before_show,
                        (pane, context),
                        r,
                    ),
                Panes::ProgressBar(before) => exists|pane: &mut K::ProgressBar|
                    *pane == *before
                        && (*final(self) matches Panes::ProgressBar(after) && *after == *final(pane))
                        && #[trigger] call_ensures(
                        <K::ProgressBar as Pane>::before_show,
                        (pane, context),
                        r,
                    ),
                Panes::Header(before) => exists|pane: &mut K::Header|
                    *pane == *before
                        && (*final(self) matches Panes::Header(after) && *after == *final(pane))
                        && #[trigger] call_ensures(
                        <K::Header as Pane>::before_show,
                        (pane, context),
                        r,
                    ),
                Panes::Tabs(before) => exists|pane: &mut K::Tabs|
                    *pane == *before
                        && (*final(self) matches Panes::Tabs(after) && *after == *final(pane))
                        && #[trigger] call_ensures(
                        <K::Tabs as Pane>::before_show,
                        (pane, context),
                        r,
                    ),
                Panes::Others(before) => exists|pane: &mut K::TagBrowser|
                    *pane == *before
                        && (*final(self) matches Panes::Others(after) && *after == *final(pane))
                        && #[trigger] call_ensures(
                        <K::TagBrowser as Pane>::before_show,
                        (pane, context),
                        r,
                    ),
                Panes::Cava(before) => exists|pane: &mut K::Cava|
                    *pane == *before
                        && (*final(self) matches Panes::Cava(after) && *after == *final(pane))
                        && #[trigger] call_ensures(
                        <K::Cava as Pane>::before_show,
                        (pane, context),
                        r,
                    ),
                Panes::Property(_) => r is Ok && *final(self) == *old(self),
                Panes::TabContent => r is Ok && *final(self) is TabContent,
            },
    {
        match self {
            Panes::Queue(s) => {
                let before_show = <K::Queue as Pane>::before_show;
                before_show(&mut **s, context)
            },
            Panes::Directories(s) => {
                let before_show = <K::Directories as Pane>::before_show;
                before_show(&mut **s, context)
            },
            Panes::Artists(s) => {
                let before_show = <K::TagBrowser as Pane>::before_show;
                before_show(&mut **s, context)
            },
            Panes::AlbumArtists(s) => {
                let before_show = <K::TagBrowser as Pane>::before_show;
                before_show(&mut **s, context)
            },
            Panes::Albums(s) => {
                let before_show = <K::Albums as Pane>::before_show;
                before_show(&mut **s, context)
            },
            Panes::Playlists(s) => {
                let before_show = <K::Playlists as Pane>::before_show;
                before_show(&mut **s, context)
            },
            Panes::Search(s) => {
                let before_show = <K::Search as Pane>::before_show;
                before_show(&mut **s, context)
            },
            Panes::AlbumArt(s) => {
                let before_show = <K::AlbumArt as Pane>::before_show;
                before_show(&mut **s, context)
            },
            Panes::Lyrics(s) => {
                let before_show = <K::Lyrics as Pane>::before_show;
                before_show(&mut **s, context)
            },
            Panes::ProgressBar(s) => {
                let before_show = <K::ProgressBar as Pane>::before_show;
                before_show(&mut **s, context)
            },
            Panes::Header(s) => {
                let before_show = <K::Header as Pane>::before_show;
                before_show(&mut **s, context)
            },
            Panes::Tabs(s) => {
                let before_show = <K::Tabs as Pane>::before_show;
                before_show(&mut **s, context)
            },
            Panes::Others(s) => {
                let before_show = <K::TagBrowser as Pane>::before_show;
                before_show(&mut **s, context)
            },
            Panes::Cava(s) => {
                let before_show = <K::Cava as Pane>::before_show;
                before_show(&mut **s, context)
            },
            Panes::Property(s) => s.before_show(context),
            Panes::TabContent => Ok(()),
        }
    }

    /// Lets the pane clean up when it leaves the screen.
    ///
    /// The pane behind the handle does its own `on_hide` on what it is handed
    /// and is left as that leaves it; what that returns is returned.
    pub fn on_hide(&mut self, context: &AppContext) -> (r: Result<(), PaneError>)
        ensures
            match *old(self) {
                Panes::Queue(before) => exists|pane: &mut K::Queue|
                    *pane == *before
                        && (*final(self) matches Panes::Queue(after) && *after == *final(pane))
                        && #[trigger] call_ensures(
                        <K::Queue as Pane>::on_hide,
                        (pane, context),
                        r,
                    ),
                Panes::Directories(before) => exists|pane: &mut K::Directories|
                    *pane == *before
                        && (*final(self) matches Panes::Directories(after) && *after == *final(pane))
                        && #[trigger] call_ensures(
                        <K::Directories as Pane>::on_hide,
                        (pane, context),
                        r,
                    ),
                Panes::Artists(before) => exists|pane: &mut K::TagBrowser|
                    *pane == *before
                        && (*final(self) matches Panes::Artists(after) && *after == *final(pane))
                        && #[trigger] call_ensures(
                        <K::TagBrowser as Pane>::on_hide,
                        (pane, context),
                        r,
                    ),
                Panes::AlbumArtists(before) => exists|pane: &mut K::TagBrowser|
                    *pane == *before
                        && (*final(self) matches Panes::AlbumArtists(after) && *after == *final(pane))
                        && #[trigger] call_ensures(
                        <K::TagBrowser as Pane>::on_hide,
                        (pane, context),
                        r,
                    ),
                Panes::Albums(before) => exists|pane: &mut K::Albums|
                    *pane == *before
                        && (*final(self) matches Panes::Albums(after) && *after == *final(pane))
                        && #[trigger] call_ensures(
                        <K::Albums as Pane>::on_hide,
                        (pane, context),
                        r,
                    ),
                Panes::Playlists(before) => exists|pane: &mut K::Playlists|
                    *pane == *before
                        && (*final(self) matches Panes::Playlists(after) && *after == *final(pane))
                        && #[trigger] call_ensures(
                        <K::Playlists as Pane>::on_hide,
                        (pane, context),
                        r,
                    ),
                Panes::Search(before) => exists|pane: &mut K::Search|
                    *pane == *before
                        && (*final(self) matches Panes::Search(after) && *after == *final(pane))
                        && #[trigger] call_ensures(
                        <K::Search as Pane>::on_hide,
                        (pane, context),
                        r,
                    ),
                Panes::AlbumArt(before) => exists|pane: &mut K::AlbumArt|
                    *pane == *before
                        && (*final(self) matches Panes::AlbumArt(after) && *after == *final(pane))
                        && #[trigger] call_ensures(
                        <K::AlbumArt as Pane>::on_hide,
                        (pane, context),
                        r,
                    ),
                Panes::Lyrics(before) => exists|pane: &mut K::Lyrics|
                    *pane == *before
                        && (*final(self) matches Panes::Lyrics(after) && *after == *final(pane))
                        && #[trigger] call_ensures(
                        <K::Lyrics as Pane>::on_hide,
                        (pane, context),
                        r,
                    ),
                Panes::ProgressBar(before) => exists|pane: &mut K::ProgressBar|
                    *pane == *before
                        && (*final(self) matches Panes::ProgressBar(after) && *after == *final(pane))
                        && #[trigger] call_ensures(
                        <K::ProgressBar as Pane>::on_hide,
                        (pane, context),
                        r,
                    ),
                Panes::Header(before) => exists|pane: &mut K::Header|
                    *pane == *before
                        && (*final(self) matches Panes::Header(after) && *after == *final(pane))
                        && #[trigger] call_ensures(
                        <K::Header as Pane>::on_hide,
                        (pane, context),
                        r,
                    ),
                Panes::Tabs(before) => exists|pane: &mut K::Tabs|
                    *pane == *before
                        && (*final(self) matches Panes::Tabs(after) && *after == *final(pane))
                        && #[trigger] call_ensures(
                        <K::Tabs as Pane>::on_hide,
                        (pane, context),
                        r,
                    ),
                Panes::Others(before) => exists|pane: &mut K::TagBrowser|
                    *pane == *before
                        && (*final(self) matches Panes::Others(after) && *after == *final(pane))
                        && #[trigger] call_ensures(
                        <K::TagBrowser as Pane>::on_hide,
                        (pane, context),
                        r,
                    ),
                Panes::Cava(before) => exists|pane: &mut K::Cava|
                    *pane == *before
                        && (*final(self) matches Panes::Cava(after) && *after == *final(pane))
                        && #[trigger] call_ensures(
                        <K::Cava as Pane>::on_hide,
                        (pane, context),
                        r,
                    ),
                Panes::Property(_) => r is Ok && *final(self) == *old(self),
                Panes::TabContent => r is Ok && *final(self) is TabContent,
            },
    {
        match self {
            Panes::Queue(s) => {
                let on_hide = <K::Queue as Pane>::on_hide;
                on_hide(&mut **s, context)
            },
            Panes::Directories(s) => {
                let on_hide = <K::Directories as Pane>::on_hide;
                on_hide(&mut **s, context)
            },
            Panes::Artists(s) => {
                let on_hide = <K::TagBrowser as Pane>::on_hide;
                on_hide(&mut **s, context)
            },
            Panes::AlbumArtists(s) => {
                let on_hide = <K::TagBrowser as Pane>::on_hide;
                on_hide(&mut **s, context)
            },
            Panes::Albums(s) => {
                let on_hide = <K::Albums as Pane>::on_hide;
                on_hide(&mut **s, context)
            },
            Panes::Playlists(s) => {
                let on_hide = <K::Playlists as Pane>::on_hide;
                on_hide(&mut **s, context)
            },
            Panes::Search(s) => {
                let on_hide = <K::Search as Pane>::on_hide;
                on_hide(&mut **s, context)
            },
            Panes::AlbumArt(s) => {
                let on_hide = <K::AlbumArt as Pane>::on_hide;
                on_hide(&mut **s, context)
            },
            Panes::Lyrics(s) => {
                let on_hide = <K::Lyrics as Pane>::on_hide;
                on_hide(&mut **s, context)
            },
            Panes::ProgressBar(s) => {
                let on_hide = <K::ProgressBar as Pane>::on_hide;
                on_hide(&mut **s, context)
            },
            Panes::Header(s) => {
                let on_hide = <K::Header as Pane>::on_hide;
                on_hide(&mut **s, context)
            },
            Panes::Tabs(s) => {
                let on_hide = <K::Tabs as Pane>::on_hide;
                on_hide(&mut **s, context)
            },
            Panes::Others(s) => {
                let on_hide = <K::TagBrowser as Pane>::on_hide;
                on_hide(&mut **s, context)
            },
            Panes::Cava(s) => {
                let on_hide = <K::Cava as Pane>::on_hide;
                on_hide(&mut **s, context)
            },
            Panes::Property(s) => s.on_hide(context),
            Panes::TabContent => Ok(()),
        }
    }

    /// Hands the pane an event, whether it is visible or not.
    ///
    /// The pane behind the handle does its own `on_event` on what it is handed
    /// and is left as that leaves it; what that returns is returned.
    pub fn on_event(&mut self, event: &mut UiEvent, is_visible: bool, context: &AppContext) -> (r: Result<(), PaneError>)
        ensures
            match *old(self) {
                Panes::Queue(before) => exists|pane: &mut K::Queue, event_handed: &mut UiEvent|
                    *pane == *before
                        && (*final(self) matches Panes::Queue(after) && *after == *final(pane))
                        && *event_handed == *old(event)
                        && *final(event_handed) == *final(event)
                        && #[trigger] call_ensures(
                        <K::Queue as Pane>::on_event,
                        (pane, event_handed, is_visible, context),
                        r,
                    ),
                Panes::Directories(before) => exists|pane: &mut K::Directories, event_handed: &mut UiEvent|
                    *pane == *before
                        && (*final(self) matches Panes::Directories(after) && *after == *final(pane))
                        && *event_handed == *old(event)
                        && *final(event_handed) == *final(event)
                        && #[trigger] call_ensures(
                        <K::Directories as Pane>::on_event,
                        (pane, event_handed, is_visible, context),
                        r,
                    ),
                Panes::Artists(before) => exists|pane: &mut K::TagBrowser, event_handed: &mut UiEvent|
                    *pane == *before
                        && (*final(self) matches Panes::Artists(after) && *after == *final(pane))
                        && *event_handed == *old(event)
                        && *final(event_handed) == *final(event)
                        && #[trigger] call_ensures(
                        <K::TagBrowser as Pane>::on_event,
                        (pane, event_handed, is_visible, context),
                        r,
                    ),
                Panes::AlbumArtists(before) => exists|pane: &mut K::TagBrowser, event_handed: &mut UiEvent|
                    *pane == *before
                        && (*final(self) matches Panes::AlbumArtists(after) && *after == *final(pane))
                        && *event_handed == *old(event)
                        && *final(event_handed) == *final(event)
                        && #[trigger] call_ensures(
                        <K::TagBrowser as Pane>::on_event,
                        (pane, event_handed, is_visible, context),
                        r,
                    ),
                Panes::Albums(before) => exists|pane: &mut K::Albums, event_handed: &mut UiEvent|
                    *pane == *before
                        && (*final(self) matches Panes::Albums(after) && *after == *final(pane))
                        && *event_handed == *old(event)
                        && *final(event_handed) == *final(event)
                        && #[trigger] call_ensures(
                        <K::Albums as Pane>::on_event,
                        (pane, event_handed, is_visible, context),
                        r,
                    ),
                Panes::Playlists(before) => exists|pane: &mut K::Playlists, event_handed: &mut UiEvent|
                    *pane == *before
                        && (*final(self) matches Panes::Playlists(after) && *after == *final(pane))
                        && *event_handed == *old(event)
                        && *final(event_handed) == *final(event)
                        && #[trigger] call_ensures(
                        <K::Playlists as Pane>::on_event,
                        (pane, event_handed, is_visible, context),
                        r,
                    ),
                Panes::Search(before) => exists|pane: &mut K::Search, event_handed: &mut UiEvent|
                    *pane == *before
                        && (*final(self) matches Panes::Search(after) && *after == *final(pane))
                        && *event_handed == *old(event)
                        && *final(event_handed) == *final(event)
                        && #[trigger] call_ensures(
                        <K::Search as Pane>::on_event,
                        (pane, event_handed, is_visible, context),
                        r,
                    ),
                Panes::AlbumArt(before) => exists|pane: &mut K::AlbumArt, event_handed: &mut UiEvent|
                    *pane == *before
                        && (*final(self) matches Panes::AlbumArt(after) && *after == *final(pane))
                        && *event_handed == *old(event)
                        && *final(event_handed) == *final(event)
                        && #[trigger] call_ensures(
                        <K::AlbumArt as Pane>::on_event,
                        (pane, event_handed, is_visible, context),
                        r,
                    ),
                Panes::Lyrics(before) => exists|pane: &mut K::Lyrics, event_handed: &mut UiEvent|
                    *pane == *before
                        && (*final(self) matches Panes::Lyrics(after) && *after == *final(pane))
                        && *event_handed == *old(event)
                        && *final(event_handed) == *final(event)
                        && #[trigger] call_ensures(
                        <K::Lyrics as Pane>::on_event,
                        (pane, event_handed, is_visible, context),
                        r,
                    ),
                Panes::ProgressBar(before) => exists|pane: &mut K::ProgressBar, event_handed: &mut UiEvent|
                    *pane == *before
                        && (*final(self) matches Panes::ProgressBar(after) && *after == *final(pane))
                        && *event_handed == *old(event)
                        && *final(event_handed) == *final(event)
                        && #[trigger] call_ensures(
                        <K::ProgressBar as Pane>::on_event,
                        (pane, event_handed, is_visible, context),
                        r,
                    ),
                Panes::Header(before) => exists|pane: &mut K::Header, event_handed: &mut UiEvent|
                    *pane == *before
                        && (*final(self) matches Panes::Header(after) && *after == *final(pane))
                        && *event_handed == *old(event)
                        && *final(event_handed) == *final(event)
                        && #[trigger] call_ensures(
                        <K::Header as Pane>::on_event,
                        (pane, event_handed, is_visible, context),
                        r,
                    ),
                Panes::Tabs(before) => exists|pane: &mut K::Tabs, event_handed: &mut UiEvent|
                    *pane == *before
                        && (*final(self) matches Panes::Tabs(after) && *after == *final(pane))
                        && *event_handed == *old(event)
                        && *final(event_handed) == *final(event)
                        && #[trigger] call_ensures(
                        <K::Tabs as Pane>::on_event,
                        (pane, event_handed, is_visible, context),
                        r,
                    ),
                Panes::Others(before) => exists|pane: &mut K::TagBrowser, event_handed: &mut UiEvent|
                    *pane == *before
                        && (*final(self) matches Panes::Others(after) && *after == *final(pane))
                        && *event_handed == *old(event)
                        && *final(event_handed) == *final(event)
                        && #[trigger] call_ensures(
                        <K::TagBrowser as Pane>::on_event,
                        (pane, event_handed, is_visible, context),
                        r,
                    ),
                Panes::Cava(before) => exists|pane: &mut K::Cava, event_handed: &mut UiEvent|
                    *pane == *before
                        && (*final(self) matches Panes::Cava(after) && *after == *final(pane))
                        && *event_handed == *old(event)
                        && *final(event_handed) == *final(event)
                        && #[trigger] call_ensures(
                        <K::Cava as Pane>::on_event,
                        (pane, event_handed, is_visible, context),
                        r,
                    ),
                Panes::Property(_) => r is Ok && *final(self) == *old(self) && *final(event) == *old(event),
                Panes::TabContent => r is Ok && *final(self) is TabContent && *final(event) == *old(event),
            },
    {
        match self {
            Panes::Queue(s) => {
                let on_event = <K::Queue as Pane>::on_event;
                on_event(&mut **s, &mut *event, is_visible, context)
            },
            Panes::Directories(s) => {
                let on_event = <K::Directories as Pane>::on_event;
                on_event(&mut **s, &mut *event, is_visible, context)
            },
            Panes::Artists(s) => {
                let on_event = <K::TagBrowser as Pane>::on_event;
                on_event(&mut **s, &mut *event, is_visible, context)
            },
            Panes::AlbumArtists(s) => {
                let on_event = <K::TagBrowser as Pane>::on_event;
                on_event(&mut **s, &mut *event, is_visible, context)
            },
            Panes::Albums(s) => {
                let on_event = <K::Albums as Pane>::on_event;
                on_event(&mut **s, &mut *event, is_visible, context)
            },
            Panes::Playlists(s) => {
                let on_event = <K::Playlists as Pane>::on_event;
                on_event(&mut **s, &mut *event, is_visible, context)
            },
            Panes::Search(s) => {
                let on_event = <K::Search as Pane>::on_event;
                on_event(&mut **s, &mut *event, is_visible, context)
            },
            Panes::AlbumArt(s) => {
                let on_event = <K::AlbumArt as Pane>::on_event;
                on_event(&mut **s, &mut *event, is_visible, context)
            },
            Panes::Lyrics(s) => {
                let on_event = <K::Lyrics as Pane>::on_event;
                on_event(&mut **s, &mut *event, is_visible, context)
            },
            Panes::ProgressBar(s) => {
                let on_event = <K::ProgressBar as Pane>::on_event;
                on_event(&mut **s, &mut *event, is_visible, context)
            },
            Panes::Header(s) => {
                let on_event = <K::Header as Pane>::on_event;
                on_event(&mut **s, &mut *event, is_visible, context)
            },
            Panes::Tabs(s) => {
                let on_event = <K::Tabs as Pane>::on_event;
                on_event(&mut **s, &mut *event, is_visible, context)
            },
            Panes::Others(s) => {
                let on_event = <K::TagBrowser as Pane>::on_event;
                on_event(&mut **s, &mut *event, is_visible, context)
            },
            Panes::Cava(s) => {
                let on_event = <K::Cava as Pane>::on_event;
                on_event(&mut **s, &mut *event, is_visible, context)
            },
            Panes::Property(s) => s.on_event(event, is_visible, context),
            Panes::TabContent => Ok(()),
        }
    }

    /// Hands the pane a key stroke.
    ///
    /// The pane behind the handle does its own `handle_action` on what it is handed
    /// and is left as that leaves it; what that returns is returned.
    pub fn handle_action(&mut self, event: &mut KeyEvent, context: &mut AppContext) -> (r: Result<(), PaneError>)
        ensures
            match *old(self) {
                Panes::Queue(before) => exists|pane: &mut K::Queue, event_handed: &mut KeyEvent, context_handed: &mut AppContext|
                    *pane == *before
                        && (*final(self) matches Panes::Queue(after) && *after == *final(pane))
                        && *event_handed == *old(event)
                        && *final(event_handed) == *final(event)
                        && *context_handed == *old(context)
                        && *final(context_handed) == *final(context)
                        && #[trigger] call_ensures(
                        <K::Queue as Pane>::handle_action,
                        (pane, event_handed, context_handed),
                        r,
                    ),
                Panes::Directories(before) => exists|pane: &mut K::Directories, event_handed: &mut KeyEvent, context_handed: &mut AppContext|
                    *pane == *before
                        && (*final(self) matches Panes::Directories(after) && *after == *final(pane))
                        && *event_handed == *old(event)
                        && *final(event_handed) == *final(event)
                        && *context_handed == *old(context)
                        && *final(context_handed) == *final(context)
                        && #[trigger] call_ensures(
                        <K::Directories as Pane>::handle_action,
                        (pane, event_handed, context_handed),
                        r,
                    ),
                Panes::Artists(before) => exists|pane: &mut K::TagBrowser, event_handed: &mut KeyEvent, context_handed: &mut AppContext|
                    *pane == *before
                        && (*final(self) matches Panes::Artists(after) && *after == *final(pane))
                        && *event_handed == *old(event)
                        && *final(event_handed) == *final(event)
                        && *context_handed == *old(context)
                        && *final(context_handed) == *final(context)
                        && #[trigger] call_ensures(
                        <K::TagBrowser as Pane>::handle_action,
                        (pane, event_handed, context_handed),
                        r,
                    ),
                Panes::AlbumArtists(before) => exists|pane: &mut K::TagBrowser, event_handed: &mut KeyEvent, context_handed: &mut AppContext|
                    *pane == *before
                        && (*final(self) matches Panes::AlbumArtists(after) && *after == *final(pane))
                        && *event_handed == *old(event)
                        && *final(event_handed) == *final(event)
                        && *context_handed == *old(context)
                        && *final(context_handed) == *final(context)
                        && #[trigger] call_ensures(
                        <K::TagBrowser as Pane>::handle_action,
                        (pane, event_handed, context_handed),
                        r,
                    ),
                Panes::Albums(before) => exists|pane: &mut K::Albums, event_handed: &mut KeyEvent, context_handed: &mut AppContext|
                    *pane == *before
                        && (*final(self) matches Panes::Albums(after) && *after == *final(pane))
                        && *event_handed == *old(event)
                        && *final(event_handed) == *final(event)
                        && *context_handed == *old(context)
                        && *final(context_handed) == *final(context)
                        && #[trigger] call_ensures(
                        <K::Albums as Pane>::handle_action,
                        (pane, event_handed, context_handed),
                        r,
                    ),
                Panes::Playlists(before) => exists|pane: &mut K::Playlists, event_handed: &mut KeyEvent, context_handed: &mut AppContext|
                    *pane == *before
                        && (*final(self) matches Panes::Playlists(after) && *after == *final(pane))
                        && *event_handed == *old(event)
                        && *final(event_handed) == *final(event)
                        && *context_handed == *old(context)
                        && *final(context_handed) == *final(context)
                        && #[trigger] call_ensures(
                        <K::Playlists as Pane>::handle_action,
                        (pane, event_handed, context_handed),
                        r,
                    ),
                Panes::Search(before) => exists|pane: &mut K::Search, event_handed: &mut KeyEvent, context_handed: &mut AppContext|
                    *pane == *before
                        && (*final(self) matches Panes::Search(after) && *after == *final(pane))
                        && *event_handed == *old(event)
                        && *final(event_handed) == *final(event)
                        && *context_handed == *old(context)
                        && *final(context_handed) == *final(context)
                        && #[trigger] call_ensures(
                        <K::Search as Pane>::handle_action,
                        (pane, event_handed, context_handed),
                        r,
                    ),
                Panes::AlbumArt(before) => exists|pane: &mut K::AlbumArt, event_handed: &mut KeyEvent, context_handed: &mut AppContext|
                    *pane == *before
                        && (*final(self) matches Panes::AlbumArt(after) && *after == *final(pane))
                        && *event_handed == *old(event)
                        && *final(event_handed) == *final(event)
                        && *context_handed == *old(context)
                        && *final(context_handed) == *final(context)
                        && #[trigger] call_ensures(
                        <K::AlbumArt as Pane>::handle_action,
                        (pane, event_handed, context_handed),
                        r,
                    ),
                Panes::Lyrics(before) => exists|pane: &mut K::Lyrics, event_handed: &mut KeyEvent, context_handed: &mut AppContext|
                    *pane == *before
                        && (*final(self) matches Panes::Lyrics(after) && *after == *final(pane))
                        && *event_handed == *old(event)
                        && *final(event_handed) == *final(event)
                        && *context_handed == *old(context)
                        && *final(context_handed) == *final(context)
                        && #[trigger] call_ensures(
                        <K::Lyrics as Pane>::handle_action,
                        (pane, event_handed, context_handed),
                        r,
                    ),
                Panes::ProgressBar(before) => exists|pane: &mut K::ProgressBar, event_handed: &mut KeyEvent, context_handed: &mut AppContext|
                    *pane == *before
                        && (*final(self) matches Panes::ProgressBar(after) && *after == *final(pane))
                        && *event_handed == *old(event)
                        && *final(event_handed) == *final(event)
                        && *context_handed == *old(context)
                        && *final(context_handed) == *final(context)
                        && #[trigger] call_ensures(
                        <K::ProgressBar as Pane>::handle_action,
                        (pane, event_handed, context_handed),
                        r,
                    ),
                Panes::Header(before) => exists|pane: &mut K::Header, event_handed: &mut KeyEvent, context_handed: &mut AppContext|
                    *pane == *before
                        && (*final(self) matches Panes::Header(after) && *after == *final(pane))
                        && *event_handed == *old(event)
                        && *final(event_handed) == *final(event)
                        && *context_handed == *old(context)
                        && *final(context_handed) == *final(context)
                        && #[trigger] call_ensures(
                        <K::Header as Pane>::handle_action,
                        (pane, event_handed, context_handed),
                        r,
                    ),
                Panes::Tabs(before) => exists|pane: &mut K::Tabs, event_handed: &mut KeyEvent, context_handed: &mut AppContext|
                    *pane == *before
                        && (*final(self) matches Panes::Tabs(after) && *after == *final(pane))
                        && *event_handed == *old(event)
                        && *final(event_handed) == *final(event)
                        && *context_handed == *old(context)
                        && *final(context_handed) == *final(context)
                        && #[trigger] call_ensures(
                        <K::Tabs as Pane>::handle_action,
                        (pane, event_handed, context_handed),
                        r,
                    ),
                Panes::Others(before) => exists|pane: &mut K::TagBrowser, event_handed: &mut KeyEvent, context_handed: &mut AppContext|
                    *pane == *before
                        && (*final(self) matches Panes::Others(after) && *after == *final(pane))
                        && *event_handed == *old(event)
                        && *final(event_handed) == *final(event)
                        && *context_handed == *old(context)
                        && *final(context_handed) == *final(context)
                        && #[trigger] call_ensures(
                        <K::TagBrowser as Pane>::handle_action,
                        (pane, event_handed, context_handed),
                        r,
                    ),
                Panes::Cava(before) => exists|pane: &mut K::Cava, event_handed: &mut KeyEvent, context_handed: &mut AppContext|
                    *pane == *before
                        && (*final(self) matches Panes::Cava(after) && *after == *final(pane))
                        && *event_handed == *old(event)
                        && *final(event_handed) == *final(event)
                        && *context_handed == *old(context)
                        && *final(context_handed) == *final(context)
                        && #[trigger] call_ensures(
                        <K::Cava as Pane>::handle_action,
                        (pane, event_handed, context_handed),
                        r,
                    ),
                Panes::Property(_) => r is Ok && *final(self) == *old(self) && *final(event) == *old(event) && *final(context) == *old(context),
                Panes::TabContent => r is Ok && *final(self) is TabContent && *final(event) == *old(event) && *final(context) == *old(context),
            },
    {
        match self {
            Panes::Queue(s) => {
                let handle_action = <K::Queue as Pane>::handle_action;
                handle_action(&mut **s, &mut *event, &mut *context)
            },
            Panes::Directories(s) => {
                let handle_action = <K::Directories as Pane>::handle_action;
                handle_action(&mut **s, &mut *event, &mut *context)
            },
            Panes::Artists(s) => {
                let handle_action = <K::TagBrowser as Pane>::handle_action;
                handle_action(&mut **s, &mut *event, &mut *context)
            },
            Panes::AlbumArtists(s) => {
                let handle_action = <K::TagBrowser as Pane>::handle_action;
                handle_action(&mut **s, &mut *event, &mut *context)
            },
            Panes::Albums(s) => {
                let handle_action = <K::Albums as Pane>::handle_action;
                handle_action(&mut **s, &mut *event, &mut *context)
            },
            Panes::Playlists(s) => {
                let handle_action = <K::Playlists as Pane>::handle_action;
                handle_action(&mut **s, &mut *event, &mut *context)
            },
            Panes::Search(s) => {
                let handle_action = <K::Search as Pane>::handle_action;
                handle_action(&mut **s, &mut *event, &mut *context)
            },
            Panes::AlbumArt(s) => {
                let handle_action = <K::AlbumArt as Pane>::handle_action;
                handle_action(&mut **s, &mut *event, &mut *context)
            },
            Panes::Lyrics(s) => {
                let handle_action = <K::Lyrics as Pane>::handle_action;
                handle_action(&mut **s, &mut *event, &mut *context)
            },
            Panes::ProgressBar(s) => {
                let handle_action = <K::ProgressBar as Pane>::handle_action;
                handle_action(&mut **s, &mut *event, &mut *context)
            },
            Panes::Header(s) => {
                let handle_action = <K::Header as Pane>::handle_action;
                handle_action(&mut **s, &mut *event, &mut *context)
            },
            Panes::Tabs(s) => {
                let handle_action = <K::Tabs as Pane>::handle_action;
                handle_action(&mut **s, &mut *event, &mut *context)
            },
            Panes::Others(s) => {
                let handle_action = <K::TagBrowser as Pane>::handle_action;
                handle_action(&mut **s, &mut *event, &mut *context)
            },
            Panes::Cava(s) => {
                let handle_action = <K::Cava as Pane>::handle_action;
                handle_action(&mut **s, &mut *event, &mut *context)
            },
            Panes::Property(s) => s.handle_action(event, context),
            Panes::TabContent => Ok(()),
        }
    }

    /// Hands the pane a mouse event.
    ///
    /// The pane behind the handle does its own `handle_mouse_event` on what it is handed
    /// and is left as that leaves it; what that returns is returned.
    pub fn handle_mouse_event(&mut self, event: MouseEvent, context: &AppContext) -> (r: Result<(), PaneError>)
        ensures
            match *old(self) {
                Panes::Queue(before) => exists|pane: &mut K::Queue|
                    *pane == *before
                        && (*final(self) matches Panes::Queue(after) && *after == *final(pane))
                        && #[trigger] call_ensures(
                        <K::Queue as Pane>::handle_mouse_event,
                        (pane, event, context),
                        r,
                    ),
                Panes::Directories(before) => exists|pane: &mut K::Directories|
                    *pane == *before
                        && (*final(self) matches Panes::Directories(after) && *after == *final(pane))
                        && #[trigger] call_ensures(
                        <K::Directories as Pane>::handle_mouse_event,
                        (pane, event, context),
                        r,
                    ),
                Panes::Artists(before) => exists|pane: &mut K::TagBrowser|
                    *pane == *before
                        && (*final(self) matches Panes::Artists(after) && *after == *final(pane))
                        && #[trigger] call_ensures(
                        <K::TagBrowser as Pane>::handle_mouse_event,
                        (pane, event, context),
                        r,
                    ),
                Panes::AlbumArtists(before) => exists|pane: &mut K::TagBrowser|
                    *pane == *before
                        && (*final(self) matches Panes::AlbumArtists(after) && *after == *final(pane))
                        && #[trigger] call_ensures(
                        <K::TagBrowser as Pane>::handle_mouse_event,
                        (pane, event, context),
                        r,
                    ),
                Panes::Albums(before) => exists|pane: &mut K::Albums|
                    *pane == *before
                        && (*final(self) matches Panes::Albums(after) && *after == *final(pane))
                        && #[trigger] call_ensures(
                        <K::Albums as Pane>::handle_mouse_event,
                        (pane, event, context),
                        r,
                    ),
                Panes::Playlists(before) => exists|pane: &mut K::Playlists|
                    *pane == *before
                        && (*final(self) matches Panes::Playlists(after) && *after == *final(pane))
                        && #[trigger] call_ensures(
                        <K::Playlists as Pane>::handle_mouse_event,
                        (pane, event, context),
                        r,
                    ),
                Panes::Search(before) => exists|pane: &mut K::Search|
                    *pane == *before
                        && (*final(self) matches Panes::Search(after) && *after == *final(pane))
                        && #[trigger] call_ensures(
                        <K::Search as Pane>::handle_mouse_event,
                        (pane, event, context),
                        r,
                    ),
                Panes::AlbumArt(before) => exists|pane: &mut K::AlbumArt|
                    *pane == *before
                        && (*final(self) matches Panes::AlbumArt(after) && *after == *final(pane))
                        && #[trigger] call_ensures(
                        <K::AlbumArt as Pane>::handle_mouse_event,
                        (pane, event, context),
                        r,
                    ),
                Panes::Lyrics(before) => exists|pane: &mut K::Lyrics|
                    *pane == *before
                        && (*final(self) matches Panes::Lyrics(after) && *after == *final(pane))
                        && #[trigger] call_ensures(
                        <K::Lyrics as Pane>::handle_mouse_event,
                        (pane, event, context),
                        r,
                    ),
                Panes::ProgressBar(before) => exists|pane: &mut K::ProgressBar|
                    *pane == *before
                        && (*final(self) matches Panes::ProgressBar(after) && *after == *final(pane))
                        && #[trigger] call_ensures(
                        <K::ProgressBar as Pane>::handle_mouse_event,
                        (pane, event, context),
                        r,
                    ),
                Panes::Header(before) => exists|pane: &mut K::Header|
                    *pane == *before
                        && (*final(self) matches Panes::Header(after) && *after == *final(pane))
                        && #[trigger] call_ensures(
                        <K::Header as Pane>::handle_mouse_event,
                        (pane, event, context),
                        r,
                    ),
                Panes::Tabs(before) => exists|pane: &mut K::Tabs|
                    *pane == *before
                        && (*final(self) matches Panes::Tabs(after) && *after == *final(pane))
                        && #[trigger] call_ensures(
                        <K::Tabs as Pane>::handle_mouse_event,
                        (pane, event, context),
                        r,
                    ),
                Panes::Others(before) => exists|pane: &mut K::TagBrowser|
                    *pane == *before
                        && (*final(self) matches Panes::Others(after) && *after == *final(pane))
                        && #[trigger] call_ensures(
                        <K::TagBrowser as Pane>::handle_mouse_event,
                        (pane, event, context),
                        r,
                    ),
                Panes::Cava(before) => exists|pane: &mut K::Cava|
                    *pane == *before
                        && (*final(self) matches Panes::Cava(after) && *after == *final(pane))
                        && #[trigger] call_ensures(
                        <K::Cava as Pane>::handle_mouse_event,
                        (pane, event, context),
                        r,
                    ),
                Panes::Property(_) => r is Ok && *final(self) == *old(self),
                Panes::TabContent => r is Ok && *final(self) is TabContent,
            },
    {
        match self {
            Panes::Queue(s) => {
                let handle_mouse_event = <K::Queue as Pane>::handle_mouse_event;
                handle_mouse_event(&mut **s, event, context)
            },
            Panes::Directories(s) => {
                let handle_mouse_event = <K::Directories as Pane>::handle_mouse_event;
                handle_mouse_event(&mut **s, event, context)
            },
            Panes::Artists(s) => {
                let handle_mouse_event = <K::TagBrowser as Pane>::handle_mouse_event;
                handle_mouse_event(&mut **s, event, context)
            },
            Panes::AlbumArtists(s) => {
                let handle_mouse_event = <K::TagBrowser as Pane>::handle_mouse_event;
                handle_mouse_event(&mut **s, event, context)
            },
            Panes::Albums(s) => {
                let handle_mouse_event = <K::Albums as Pane>::handle_mouse_event;
                handle_mouse_event(&mut **s, event, context)
            },
            Panes::Playlists(s) => {
                let handle_mouse_event = <K::Playlists as Pane>::handle_mouse_event;
                handle_mouse_event(&mut **s, event, context)
            },
            Panes::Search(s) => {
                let handle_mouse_event = <K::Search as Pane>::handle_mouse_event;
                handle_mouse_event(&mut **s, event, context)
            },
            Panes::AlbumArt(s) => {
                let handle_mouse_event = <K::AlbumArt as Pane>::handle_mouse_event;
                handle_mouse_event(&mut **s, event, context)
            },
            Panes::Lyrics(s) => {
                let handle_mouse_event = <K::Lyrics as Pane>::handle_mouse_event;
                handle_mouse_event(&mut **s, event, context)
            },
            Panes::ProgressBar(s) => {
                let handle_mouse_event = <K::ProgressBar as Pane>::handle_mouse_event;
                handle_mouse_event(&mut **s, event, context)
            },
            Panes::Header(s) => {
                let handle_mouse_event = <K::Header as Pane>::handle_mouse_event;
                handle_mouse_event(&mut **s, event, context)
            },
            Panes::Tabs(s) => {
                let handle_mouse_event = <K::Tabs as Pane>::handle_mouse_event;
                handle_mouse_event(&mut **s, event, context)
            },
            Panes::Others(s) => {
                let handle_mouse_event = <K::TagBrowser as Pane>::handle_mouse_event;
                handle_mouse_event(&mut **s, event, context)
            },
            Panes::Cava(s) => {
                let handle_mouse_event = <K::Cava as Pane>::handle_mouse_event;
                handle_mouse_event(&mut **s, event, context)
            },
            Panes::Property(s) => s.handle_mouse_event(event, context),
            Panes::TabContent => Ok(()),
        }
    }

    /// Hands the pane the result of the query that it had sent under `id`.
    ///
    /// The pane behind the handle does its own `on_query_finished` on what it is handed
    /// and is left as that leaves it; what that returns is returned.
    pub fn on_query_finished(&mut self, id: &'static str, data: MpdQueryResult, is_visible: bool, context: &AppContext) -> (r: Result<(), PaneError>)
        ensures
            match *old(self) {
                Panes::Queue(before) => exists|pane: &mut K::Queue|
                    *pane == *before
                        && (*final(self) matches Panes::Queue(after) && *after == *final(pane))
                        && #[trigger] call_ensures(
                        <K::Queue as Pane>::on_query_finished,
                        (pane, id, data, is_visible, context),
                        r,
                    ),
                Panes::Directories(before) => exists|pane: &mut K::Directories|
                    *pane == *before
                        && (*final(self) matches Panes::Directories(after) && *after == *final(pane))
                        && #[trigger] call_ensures(
                        <K::Directories as Pane>::on_query_finished,
                        (pane, id, data, is_visible, context),
                        r,
                    ),
                Panes::Artists(before) => exists|pane: &mut K::TagBrowser|
                    *pane == *before
                        && (*final(self) matches Panes::Artists(after) && *after == *final(pane))
                        && #[trigger] call_ensures(
                        <K::TagBrowser as Pane>::on_query_finished,
                        (pane, id, data, is_visible, context),
                        r,
                    ),
                Panes::AlbumArtists(before) => exists|pane: &mut K::TagBrowser|
                    *pane == *before
                        && (*final(self) matches Panes::AlbumArtists(after) && *after == *final(pane))
                        && #[trigger] call_ensures(
                        <K::TagBrowser as Pane>::on_query_finished,
                        (pane, id, data, is_visible, context),
                        r,
                    ),
                Panes::Albums(before) => exists|pane: &mut K::Albums|
                    *pane == *before
                        && (*final(self) matches Panes::Albums(after) && *after == *final(pane))
                        && #[trigger] call_ensures(
                        <K::Albums as Pane>::on_query_finished,
                        (pane, id, data, is_visible, context),
                        r,
                    ),
                Panes::Playlists(before) => exists|pane: &mut K::Playlists|
                    *pane == *before
                        && (*final(self) matches Panes::Playlists(after) && *after == *final(pane))
                        && #[trigger] call_ensures(
                        <K::Playlists as Pane>::on_query_finished,
                        (pane, id, data, is_visible, context),
                        r,
                    ),
                Panes::Search(before) => exists|pane: &mut K::Search|
                    *pane == *before
                        && (*final(self) matches Panes::Search(after) && *after == *final(pane))
                        && #[trigger] call_ensures(
                        <K::Search as Pane>::on_query_finished,
                        (pane, id, data, is_visible, context),
                        r,
                    ),
                Panes::AlbumArt(before) => exists|pane: &mut K::AlbumArt|
                    *pane == *before
                        && (*final(self) matches Panes::AlbumArt(after) && *after == *final(pane))
                        && #[trigger] call_ensures(
                        <K::AlbumArt as Pane>::on_query_finished,
                        (pane, id, data, is_visible, context),
                        r,
                    ),
                Panes::Lyrics(before) => exists|pane: &mut K::Lyrics|
                    *pane == *before
                        && (*final(self) matches Panes::Lyrics(after) && *after == *final(pane))
                        && #[trigger] call_ensures(
                        <K::Lyrics as Pane>::on_query_finished,
                        (pane, id, data, is_visible, context),
                        r,
                    ),
                Panes::ProgressBar(before) => exists|pane: &mut K::ProgressBar|
                    *pane == *before
                        && (*final(self) matches Panes::ProgressBar(after) && *after == *final(pane))
                        && #[trigger] call_ensures(
                        <K::ProgressBar as Pane>::on_query_finished,
                        (pane, id, data, is_visible, context),
                        r,
                    ),
                Panes::Header(before) => exists|pane: &mut K::Header|
                    *pane == *before
                        && (*final(self) matches Panes::Header(after) && *after == *final(pane))
                        && #[trigger] call_ensures(
                        <K::Header as Pane>::on_query_finished,
                        (pane, id, data, is_visible, context),
                        r,
                    ),
                Panes::Tabs(before) => exists|pane: &mut K::Tabs|
                    *pane == *before
                        && (*final(self) matches Panes::Tabs(after) && *after == *final(pane))
                        && #[trigger] call_ensures(
                        <K::Tabs as Pane>::on_query_finished,
                        (pane, id, data, is_visible, context),
                        r,
                    ),
                Panes::Others(before) => exists|pane: &mut K::TagBrowser|
                    *pane == *before
                        && (*final(self) matches Panes::Others(after) && *after == *final(pane))
                        && #[trigger] call_ensures(
                        <K::TagBrowser as Pane>::on_query_finished,
                        (pane, id, data, is_visible, context),
                        r,
                    ),
                Panes::Cava(before) => exists|pane: &mut K::Cava|
                    *pane == *before
                        && (*final(self) matches Panes::Cava(after) && *after == *final(pane))
                        && #[trigger] call_ensures(
                        <K::Cava as Pane>::on_query_finished,
                        (pane, id, data, is_visible, context),
                        r,
                    ),
                Panes::Property(_) => r is Ok && *final(self) == *old(self),
                Panes::TabContent => r is Ok && *final(self) is TabContent,
            },
    {
        match self {
            Panes::Queue(s) => {
                let on_query_finished = <K::Queue as Pane>::on_query_finished;
                on_query_finished(&mut **s, id, data, is_visible, context)
            },
            Panes::Directories(s) => {
                let on_query_finished = <K::Directories as Pane>::on_query_finished;
                on_query_finished(&mut **s, id, data, is_visible, context)
            },
            Panes::Artists(s) => {
                let on_query_finished = <K::TagBrowser as Pane>::on_query_finished;
                on_query_finished(&mut **s, id, data, is_visible, context)
            },
            Panes::AlbumArtists(s) => {
                let on_query_finished = <K::TagBrowser as Pane>::on_query_finished;
                on_query_finished(&mut **s, id, data, is_visible, context)
            },
            Panes::Albums(s) => {
                let on_query_finished = <K::Albums as Pane>::on_query_finished;
                on_query_finished(&mut **s, id, data, is_visible, context)
            },
            Panes::Playlists(s) => {
                let on_query_finished = <K::Playlists as Pane>::on_query_finished;
                on_query_finished(&mut **s, id, data, is_visible, context)
            },
            Panes::Search(s) => {
                let on_query_finished = <K::Search as Pane>::on_query_finished;
                on_query_finished(&mut **s, id, data, is_visible, context)
            },
            Panes::AlbumArt(s) => {
                let on_query_finished = <K::AlbumArt as Pane>::on_query_finished;
                on_query_finished(&mut **s, id, data, is_visible, context)
            },
            Panes::Lyrics(s) => {
                let on_query_finished = <K::Lyrics as Pane>::on_query_finished;
                on_query_finished(&mut **s, id, data, is_visible, context)
            },
            Panes::ProgressBar(s) => {
                let on_query_finished = <K::ProgressBar as Pane>::on_query_finished;
                on_query_finished(&mut **s, id, data, is_visible, context)
            },
            Panes::Header(s) => {
                let on_query_finished = <K::Header as Pane>::on_query_finished;
                on_query_finished(&mut **s, id, data, is_visible, context)
            },
            Panes::Tabs(s) => {
                let on_query_finished = <K::Tabs as Pane>::on_query_finished;
                on_query_finished(&mut **s, id, data, is_visible, context)
            },
            Panes::Others(s) => {
                let on_query_finished = <K::TagBrowser as Pane>::on_query_finished;
                on_query_finished(&mut **s, id, data, is_visible, context)
            },
            Panes::Cava(s) => {
                let on_query_finished = <K::Cava as Pane>::on_query_finished;
                on_query_finished(&mut **s, id, data, is_visible, context)
            },
            Panes::Property(s) => s.on_query_finished(id, data, is_visible, context),
            Panes::TabContent => Ok(()),
        }
    }

    /// Lets the pane work out the areas of its parts inside `area`.
    ///
    /// The pane behind the handle does its own `calculate_areas` on what it is handed
    /// and is left as that leaves it; what that returns is returned.
    pub fn calculate_areas(&mut self, area: Rect, context: &AppContext) -> (r: Result<(), PaneError>)
        ensures
            match *old(self) {
                Panes::Queue(before) => exists|pane: &mut K::Queue|
                    *pane == *before
                        && (*final(self) matches Panes::Queue(after) && *after == *final(pane))
                        && #[trigger] call_ensures(
                        <K::Queue as Pane>::calculate_areas,
                        (pane, area, context),
                        r,
                    ),
                Panes::Directories(before) => exists|pane: &mut K::Directories|
                    *pane == *before
                        && (*final(self) matches Panes::Directories(after) && *after == *final(pane))
                        && #[trigger] call_ensures(
                        <K::Directories as Pane>::calculate_areas,
                        (pane, area, context),
                        r,
                    ),
                Panes::Artists(before) => exists|pane: &mut K::TagBrowser|
                    *pane == *before
                        && (*final(self) matches Panes::Artists(after) && *after == *final(pane))
                        && #[trigger] call_ensures(
                        <K::TagBrowser as Pane>::calculate_areas,
                        (pane, area, context),
                        r,
                    ),
                Panes::AlbumArtists(before) => exists|pane: &mut K::TagBrowser|
                    *pane == *before
                        && (*final(self) matches Panes::AlbumArtists(after) && *after == *final(pane))
                        && #[trigger] call_ensures(
                        <K::TagBrowser as Pane>::calculate_areas,
                        (pane, area, context),
                        r,
                    ),
                Panes::Albums(before) => exists|pane: &mut K::Albums|
                    *pane == *before
                        && (*final(self) matches Panes::Albums(after) && *after == *final(pane))
                        && #[trigger] call_ensures(
                        <K::Albums as Pane>::calculate_areas,
                        (pane, area, context),
                        r,
                    ),
                Panes::Playlists(before) => exists|pane: &mut K::Playlists|
                    *pane == *before
                        && (*final(self) matches Panes::Playlists(after) && *after == *final(pane))
                        && #[trigger] call_ensures(
                        <K::Playlists as Pane>::calculate_areas,
                        (pane, area, context),
                        r,
                    ),
                Panes::Search(before) => exists|pane: &mut K::Search|
                    *pane == *before
                        && (*final(self) matches Panes::Search(after) && *after == *final(pane))
                        && #[trigger] call_ensures(
                        <K::Search as Pane>::calculate_areas,
                        (pane, area, context),
                        r,
                    ),
                Panes::AlbumArt(before) => exists|pane: &mut K::AlbumArt|
                    *pane == *before
                        && (*final(self) matches Panes::AlbumArt(after) && *after == *final(pane))
                        && #[trigger] call_ensures(
                        <K::AlbumArt as Pane>::calculate_areas,
                        (pane, area, context),
                        r,
                    ),
                Panes::Lyrics(before) => exists|pane: &mut K::Lyrics|
                    *pane == *before
                        && (*final(self) matches Panes::Lyrics(after) && *after == *final(pane))
                        && #[trigger] call_ensures(
                        <K::Lyrics as Pane>::calculate_areas,
                        (pane, area, context),
                        r,
                    ),
                Panes::ProgressBar(before) => exists|pane: &mut K::ProgressBar|
                    *pane == *before
                        && (*final(self) matches Panes::ProgressBar(after) && *after == *final(pane))
                        && #[trigger] call_ensures(
                        <K::ProgressBar as Pane>::calculate_areas,
                        (pane, area, context),
                        r,
                    ),
                Panes::Header(before) => exists|pane: &mut K::Header|
                    *pane == *before
                        && (*final(self) matches Panes::Header(after) && *after == *final(pane))
                        && #[trigger] call_ensures(
                        <K::Header as Pane>::calculate_areas,
                        (pane, area, context),
                        r,
                    ),
                Panes::Tabs(before) => exists|pane: &mut K::Tabs|
                    *pane == *before
                        && (*final(self) matches Panes::Tabs(after) && *after == *final(pane))
                        && #[trigger] call_ensures(
                        <K::Tabs as Pane>::calculate_areas,
                        (pane, area, context),
                        r,
                    ),
                Panes::Others(before) => exists|pane: &mut K::TagBrowser|
                    *pane == *before
                        && (*final(self) matches Panes::Others(after) && *after == *final(pane))
                        && #[trigger] call_ensures(
                        <K::TagBrowser as Pane>::calculate_areas,
                        (pane, area, context),
                        r,
                    ),
                Panes::Cava(before) => exists|pane: &mut K::Cava|
                    *pane == *before
                        && (*final(self) matches Panes::Cava(after) && *after == *final(pane))
                        && #[trigger] call_ensures(
                        <K::Cava as Pane>::calculate_areas,
                        (pane, area, context),
                        r,
                    ),
                Panes::Property(_) => r is Ok && *final(self) == *old(self),
                Panes::TabContent => r is Ok && *final(self) is TabContent,
            },
    {
        match self {
            Panes::Queue(s) => {
                let calculate_areas = <K::Queue as Pane>::calculate_areas;
                calculate_areas(&mut **s, area, context)
            },
            Panes::Directories(s) => {
                let calculate_areas = <K::Directories as Pane>::calculate_areas;
                calculate_areas(&mut **s, area, context)
            },
            Panes::Artists(s) => {
                let calculate_areas = <K::TagBrowser as Pane>::calculate_areas;
                calculate_areas(&mut **s, area, context)
            },
            Panes::AlbumArtists(s) => {
                let calculate_areas = <K::TagBrowser as Pane>::calculate_areas;
                calculate_areas(&mut **s, area, context)
            },
            Panes::Albums(s) => {
                let calculate_areas = <K::Albums as Pane>::calculate_areas;
                calculate_areas(&mut **s, area, context)
            },
            Panes::Playlists(s) => {
                let calculate_areas = <K::Playlists as Pane>::calculate_areas;
                calculate_areas(&mut **s, area, context)
            },
            Panes::Search(s) => {
                let calculate_areas = <K::Search as Pane>::calculate_areas;
                calculate_areas(&mut **s, area, context)
            },
            Panes::AlbumArt(s) => {
                let calculate_areas = <K::AlbumArt as Pane>::calculate_areas;
                calculate_areas(&mut **s, area, context)
            },
            Panes::Lyrics(s) => {
                let calculate_areas = <K::Lyrics as Pane>::calculate_areas;
                calculate_areas(&mut **s, area, context)
            },
            Panes::ProgressBar(s) => {
                let calculate_areas = <K::ProgressBar as Pane>::calculate_areas;
                calculate_areas(&mut **s, area, context)
            },
            Panes::Header(s) => {
                let calculate_areas = <K::Header as Pane>::calculate_areas;
                calculate_areas(&mut **s, area, context)
            },
            Panes::Tabs(s) => {
                let calculate_areas = <K::Tabs as Pane>::calculate_areas;
                calculate_areas(&mut **s, area, context)
            },
            Panes::Others(s) => {
                let calculate_areas = <K::TagBrowser as Pane>::calculate_areas;
                calculate_areas(&mut **s, area, context)
            },
            Panes::Cava(s) => {
                let calculate_areas = <K::Cava as Pane>::calculate_areas;
                calculate_areas(&mut **s, area, context)
            },
            Panes::Property(s) => s.calculate_areas(area, context),
            Panes::TabContent => Ok(()),
        }
    }

    /// Tells the pane that it now has `area`.
    ///
    /// The pane behind the handle does its own `resize` on what it is handed
    /// and is left as that leaves it; what that returns is returned.
    pub fn resize(&mut self, area: Rect, context: &AppContext) -> (r: Result<(), PaneError>)
        ensures
            match *old(self) {
                Panes::Queue(before) => exists|pane: &mut K::Queue|
                    *pane == *before
                        && (*final(self) matches Panes::Queue(after) && *after == *final(pane))
                        && #[trigger] call_ensures(
                        <K::Queue as Pane>::resize,
                        (pane, area, context),
                        r,
                    ),
                Panes::Directories(before) => exists|pane: &mut K::Directories|
                    *pane == *before
                        && (*final(self) matches Panes::Directories(after) && *after == *final(pane))
                        && #[trigger] call_ensures(
                        <K::Directories as Pane>::resize,
                        (pane, area, context),
                        r,
                    ),
                Panes::Artists(before) => exists|pane: &mut K::TagBrowser|
                    *pane == *before
                        && (*final(self) matches Panes::Artists(after) && *after == *final(pane))
                        && #[trigger] call_ensures(
                        <K::TagBrowser as Pane>::resize,
                        (pane, area, context),
                        r,
                    ),
                Panes::AlbumArtists(before) => exists|pane: &mut K::TagBrowser|
                    *pane == *before
                        && (*final(self) matches Panes::AlbumArtists(after) && *after == *final(pane))
                        && #[trigger] call_ensures(
                        <K::TagBrowser as Pane>::resize,
                        (pane, area, context),
                        r,
                    ),
                Panes::Albums(before) => exists|pane: &mut K::Albums|
                    *pane == *before
                        && (*final(self) matches Panes::Albums(after) && *after == *final(pane))
                        && #[trigger] call_ensures(
                        <K::Albums as Pane>::resize,
                        (pane, area, context),
                        r,
                    ),
                Panes::Playlists(before) => exists|pane: &mut K::Playlists|
                    *pane == *before
                        && (*final(self) matches Panes::Playlists(after) && *after == *final(pane))
                        && #[trigger] call_ensures(
                        <K::Playlists as Pane>::resize,
                        (pane, area, context),
                        r,
                    ),
                Panes::Search(before) => exists|pane: &mut K::Search|
                    *pane == *before
                        && (*final(self) matches Panes::Search(after) && *after == *final(pane))
                        && #[trigger] call_ensures(
                        <K::Search as Pane>::resize,
                        (pane, area, context),
                        r,
                    ),
                Panes::AlbumArt(before) => exists|pane: &mut K::AlbumArt|
                    *pane == *before
                        && (*final(self) matches Panes::AlbumArt(after) && *after == *final(pane))
                        && #[trigger] call_ensures(
                        <K::AlbumArt as Pane>::resize,
                        (pane, area, context),
                        r,
                    ),
                Panes::Lyrics(before) => exists|pane: &mut K::Lyrics|
                    *pane == *before
                        && (*final(self) matches Panes::Lyrics(after) && *after == *final(pane))
                        && #[trigger] call_ensures(
                        <K::Lyrics as Pane>::resize,
                        (pane, area, context),
                        r,
                    ),
                Panes::ProgressBar(before) => exists|pane: &mut K::ProgressBar|
                    *pane == *before
                        && (*final(self) matches Panes::ProgressBar(after) && *after == *final(pane))
                        && #[trigger] call_ensures(
                        <K::ProgressBar as Pane>::resize,
                        (pane, area, context),
                        r,
                    ),
                Panes::Header(before) => exists|pane: &mut K::Header|
                    *pane == *before
                        && (*final(self) matches Panes::Header(after) && *after == *final(pane))
                        && #[trigger] call_ensures(
                        <K::Header as Pane>::resize,
                        (pane, area, context),
                        r,
                    ),
                Panes::Tabs(before) => exists|pane: &mut K::Tabs|
                    *pane == *before
                        && (*final(self) matches Panes::Tabs(after) && *after == *final(pane))
                        && #[trigger] call_ensures(
                        <K::Tabs as Pane>::resize,
                        (pane, area, context),
                        r,
                    ),
                Panes::Others(before) => exists|pane: &mut K::TagBrowser|
                    *pane == *before
                        && (*final(self) matches Panes::Others(after) && *after == *final(pane))
                        && #[trigger] call_ensures(
                        <K::TagBrowser as Pane>::resize,
                        (pane, area, context),
                        r,
                    ),
                Panes::Cava(before) => exists|pane: &mut K::Cava|
                    *pane == *before
                        && (*final(self) matches Panes::Cava(after) && *after == *final(pane))
                        && #[trigger] call_ensures(
                        <K::Cava as Pane>::resize,
                        (pane, area, context),
                        r,
                    ),
                Panes::Property(_) => r is Ok && *final(self) == *old(self),
                Panes::TabContent => r is Ok && *final(self) is TabContent,
            },
    {
        match self {
            Panes::Queue(s) => {
                let resize = <K::Queue as Pane>::resize;
                resize(&mut **s, area, context)
            },
            Panes::Directories(s) => {
                let resize = <K::Directories as Pane>::resize;
                resize(&mut **s, area, context)
            },
            Panes::Artists(s) => {
                let resize = <K::TagBrowser as Pane>::resize;
                resize(&mut **s, area, context)
            },
            Panes::AlbumArtists(s) => {
                let resize = <K::TagBrowser as Pane>::resize;
                resize(&mut **s, area, context)
            },
            Panes::Albums(s) => {
                let resize = <K::Albums as Pane>::resize;
                resize(&mut **s, area, context)
            },
            Panes::Playlists(s) => {
                let resize = <K::Playlists as Pane>::resize;
                resize(&mut **s, area, context)
            },
            Panes::Search(s) => {
                let resize = <K::Search as Pane>::resize;
                resize(&mut **s, area, context)
            },
            Panes::AlbumArt(s) => {
                let resize = <K::AlbumArt as Pane>::resize;
                resize(&mut **s, area, context)
            },
            Panes::Lyrics(s) => {
                let resize = <K::Lyrics as Pane>::resize;
                resize(&mut **s, area, context)
            },
            Panes::ProgressBar(s) => {
                let resize = <K::ProgressBar as Pane>::resize;
                resize(&mut **s, area, context)
            },
            Panes::Header(s) => {
                let resize = <K::Header as Pane>::resize;
                resize(&mut **s, area, context)
            },
            Panes::Tabs(s) => {
                let resize = <K::Tabs as Pane>::resize;
                resize(&mut **s, area, context)
            },
            Panes::Others(s) => {
                let resize = <K::TagBrowser as Pane>::resize;
                resize(&mut **s, area, context)
            },
            Panes::Cava(s) => {
                let resize = <K::Cava as Pane>::resize;
                resize(&mut **s, area, context)
            },
            Panes::Property(s) => s.resize(area, context),
            Panes::TabContent => Ok(()),
        }
    }

}

} // verus!
