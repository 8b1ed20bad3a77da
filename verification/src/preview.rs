//! The preview of a song: what is known of it, line by line.
use crate::numbers::{decimal, to_decimal};
use crate::ordering::{text_before, text_same};
use crate::song::{file_stem_of, MetadataTag, Song};
use crate::style::{line_views, plain_style, Line, LineView, Span, SpanView, Style};
use crate::text::{str_eq, views};
use itertools::Itertools;
use vstd::prelude::*;

verus! {

/// A titled group of lines of a preview.
#[derive(Debug, Clone, PartialEq, Eq)]
pub struct PreviewGroup {
    pub name: Option<String>,
    pub header_style: Option<Style>,
    pub items: Vec<Line>,
}

/// What a [`PreviewGroup`] is to a contract.
pub struct PreviewGroupView {
    pub name: Option<Seq<char>>,
    pub header_style: Option<Style>,
    pub items: Seq<LineView>,
}

impl View for PreviewGroup {
    type V = PreviewGroupView;

    open spec fn view(&self) -> PreviewGroupView {
        PreviewGroupView {
            name: match self.name {
                Some(n) => Some(n@),
                None => None,
            },
            header_style: self.header_style,
            items: line_views(self.items@),
        }
    }
}

/// The line of one field: a space, the label in `key_style`, a colon and a
/// space, and the value.
pub open spec fn field_line(label: Seq<char>, value: Seq<char>, key_style: Style) -> LineView {
    LineView {
        style: plain_style(),
        spans: seq![
            SpanView { content: " "@, style: plain_style() },
            SpanView { content: label, style: key_style },
            SpanView { content: ": "@, style: plain_style() },
            SpanView { content: value, style: plain_style() },
        ],
    }
}

/// One line for each of `values`, all under `label`.
pub open spec fn value_lines(label: Seq<char>, values: Seq<Seq<char>>, key_style: Style) -> Seq<
    LineView,
> {
    Seq::new(values.len(), |i: int| field_line(label, values[i], key_style))
}

/// The lines of a tag that a song may lack: none where it lacks it.
pub open spec fn tag_lines(label: Seq<char>, values: Option<Seq<Seq<char>>>, key_style: Style) -> Seq<
    LineView,
> {
    match values {
        Some(v) => value_lines(label, v, key_style),
        None => Seq::empty(),
    }
}

/// At most one line, for a value that may be absent.
pub open spec fn optional_line(label: Seq<char>, value: Option<Seq<char>>, key_style: Style) -> Seq<
    LineView,
> {
    match value {
        Some(v) => seq![field_line(label, v, key_style)],
        None => Seq::empty(),
    }
}

/// The characters of an optional string.
pub open spec fn optional_text(value: Option<String>) -> Option<Seq<char>> {
    match value {
        Some(v) => Some(v@),
        None => None,
    }
}

/// The duration of a song in whole seconds, as text.
pub open spec fn seconds_text(duration: Option<u64>) -> Option<Seq<char>> {
    match duration {
        Some(d) => Some(decimal((d / 1000) as nat)),
        None => None,
    }
}

/// The lines of the first group of a preview: the file, its name, the title,
/// artist and album with one line for each value, the duration in seconds, and
/// the dates.
pub open spec fn info_lines(song: &Song, key_style: Style) -> Seq<LineView> {
    seq![field_line("File"@, song.file@, key_style)] + optional_line(
        "Filename"@,
        file_stem_of(song.file@),
        key_style,
    ) + tag_lines("Title"@, song.tag("title"@), key_style) + tag_lines(
        "Artist"@,
        song.tag("artist"@),
        key_style,
    ) + tag_lines("Album"@, song.tag("album"@), key_style) + optional_line(
        "Duration"@,
        seconds_text(song.duration),
        key_style,
    ) + seq![field_line("Last Modified"@, song.last_modified@, key_style)] + optional_line(
        "Added"@,
        optional_text(song.added),
        key_style,
    )
}

/// The tag has lines of its own in the first group, or is shown there in another
/// form, and is left out of the second.
pub open spec fn is_reserved(key: Seq<char>) -> bool {
    key == "title"@ || key == "album"@ || key == "artist"@ || key == "duration"@
}

/// `a`, which stands at position `i`, goes before `b`, which stands at position
/// `j`: its text comes first, or the texts have the same place and `i` is the
/// smaller position.
pub open spec fn goes_before(a: Seq<char>, i: int, b: Seq<char>, j: int) -> bool {
    text_before(a, b) || (text_same(a, b) && i < j)
}

/// `p` is one of the positions that `order` lists.
pub open spec fn lists(order: Seq<usize>, p: int) -> bool {
    exists|i: int| 0 <= i < order.len() && #[trigger] order[i] == p
}

/// `order` lists the positions of `keys` in ascending order of the keys, equal
/// keys in the order of their positions: every position once.
pub open spec fn is_key_order(keys: Seq<Seq<char>>, order: Seq<usize>) -> bool {
    &&& order.len() == keys.len()
    &&& forall|i: int| 0 <= i < order.len() ==> (#[trigger] order[i]) < keys.len()
    &&& forall|p: int| 0 <= p < keys.len() ==> #[trigger] lists(order, p)
    &&& forall|i: int, j: int|
        0 <= i < j < order.len() ==> goes_before(
            keys[(#[trigger] order[i]) as int],
            order[i] as int,
            keys[(#[trigger] order[j]) as int],
            order[j] as int,
        )
}

/// Calls `Itertools::sorted_by_key` on the keys with their positions, and hands
/// back the positions. The contract claims what the documentation of the sort
/// promises: every position comes back once, the keys are in ascending order,
/// and equal keys keep their order. Strings are ordered by their characters.
#[verifier::external_body]
fn sorted_positions(keys: &Vec<String>) -> (r: Vec<usize>)
    ensures
        is_key_order(views(keys@), r@),
{
    keys.iter().enumerate().sorted_by_key(|(_, key)| *key).map(|(i, _)| i).collect()
}

/// `picked` lists the positions of the tags of the second group in the order in
/// which they are shown: every tag that is not reserved once, in ascending
/// order of the names.
pub open spec fn is_tag_order(entries: Seq<(String, MetadataTag)>, picked: Seq<int>) -> bool {
    &&& forall|i: int|
        0 <= i < picked.len() ==> 0 <= (#[trigger] picked[i]) < entries.len() && !is_reserved(
            entries[picked[i]].0@,
        )
    &&& forall|p: int|
        0 <= p < entries.len() && !is_reserved((#[trigger] entries[p]).0@) ==> exists|i: int|
            0 <= i < picked.len() && #[trigger] picked[i] == p
    &&& forall|i: int, j: int|
        0 <= i < j < picked.len() ==> goes_before(
            entries[#[trigger] picked[i]].0@,
            picked[i],
            entries[#[trigger] picked[j]].0@,
            picked[j],
        )
}

/// The lines of the tags at the positions `picked` from `from` on: for each tag
/// one line for each of its values, under the name of the tag.
pub open spec fn picked_lines(
    entries: Seq<(String, MetadataTag)>,
    picked: Seq<int>,
    from: int,
    key_style: Style,
) -> Seq<LineView>
    decreases picked.len() - from,
{
    if from < 0 || from >= picked.len() {
        Seq::empty()
    } else {
        value_lines(entries[picked[from]].0@, entries[picked[from]].1.values(), key_style)
            + picked_lines(entries, picked, from + 1, key_style)
    }
}

fn push_field(items: &mut Vec<Line>, label: &str, value: &str, key_style: Style)
    ensures
        line_views(final(items)@) == line_views(old(items)@).push(
            field_line(label@, value@, key_style),
        ),
{
    let mut spans: Vec<Span> = Vec::new();
    spans.push(Span::raw(String::from_str(" ")));
    spans.push(Span::styled(String::from_str(label), key_style));
    spans.push(Span::raw(String::from_str(": ")));
    spans.push(Span::raw(String::from_str(value)));
    let line = Line { style: Style::new(), spans };
    assert(line@.spans == field_line(label@, value@, key_style).spans);
    items.push(line);
    assert(line_views(items@) == line_views(old(items)@).push(
        field_line(label@, value@, key_style),
    ));
}

fn push_values(items: &mut Vec<Line>, label: &str, tag: &MetadataTag, key_style: Style)
    ensures
        line_views(final(items)@) == line_views(old(items)@) + value_lines(
            label@,
            tag.values(),
            key_style,
        ),
{
    let n = tag.len();
    let mut i: usize = 0;
    assert(line_views(items@) + value_lines(label@, tag.values(), key_style).take(0)
        == line_views(items@));
    while i < n
        invariant
            i <= n,
            n == tag.values().len(),
            line_views(items@) == line_views(old(items)@) + value_lines(
                label@,
                tag.values(),
                key_style,
            ).take(i as int),
        decreases n - i,
    {
        push_field(items, label, tag.value_at(i), key_style);
        assert(value_lines(label@, tag.values(), key_style).take(i + 1) == value_lines(
            label@,
            tag.values(),
            key_style,
        ).take(i as int).push(field_line(label@, tag.values()[i as int], key_style)));
        i += 1;
    }
    assert(value_lines(label@, tag.values(), key_style).take(n as int) == value_lines(
        label@,
        tag.values(),
        key_style,
    ));
}

fn push_tag(items: &mut Vec<Line>, label: &str, tag: Option<&MetadataTag>, key_style: Style)
    ensures
        line_views(final(items)@) == line_views(old(items)@) + tag_lines(
            label@,
            match tag {
                Some(t) => Some(t.values()),
                None => None,
            },
            key_style,
        ),
{
    match tag {
        Some(t) => push_values(items, label, t, key_style),
        None => {
            assert(line_views(items@) + Seq::<LineView>::empty() == line_views(items@));
        },
    }
}

fn push_optional(items: &mut Vec<Line>, label: &str, value: Option<&str>, key_style: Style)
    ensures
        line_views(final(items)@) == line_views(old(items)@) + optional_line(
            label@,
            match value {
                Some(v) => Some(v@),
                None => None,
            },
            key_style,
        ),
{
    match value {
        Some(v) => {
            push_field(items, label, v, key_style);
            assert(line_views(old(items)@).push(field_line(label@, v@, key_style)) == line_views(
                old(items)@,
            ) + seq![field_line(label@, v@, key_style)]);
        },
        None => {
            assert(line_views(items@) + Seq::<LineView>::empty() == line_views(items@));
        },
    }
}

fn reserved(key: &str) -> (r: bool)
    ensures
        r == is_reserved(key@),
{
    str_eq(key, "title") || str_eq(key, "album") || str_eq(key, "artist") || str_eq(
        key,
        "duration",
    )
}

impl Song {
    fn info_items(&self, key_style: Style) -> (r: Vec<Line>)
        ensures
            line_views(r@) == info_lines(self, key_style),
    {
        let mut items: Vec<Line> = Vec::new();
        push_field(&mut items, "File", self.file.as_str(), key_style);
        assert(line_views(items@) == seq![field_line("File"@, self.file@, key_style)]);
        match self.file_name() {
            Some(name) => {
                let owned = crate::text::into_string(name);
                push_optional(&mut items, "Filename", Some(owned.as_str()), key_style);
            },
            None => {
                push_optional(&mut items, "Filename", None, key_style);
            },
        }
        push_tag(&mut items, "Title", self.metadata.get("title"), key_style);
        push_tag(&mut items, "Artist", self.metadata.get("artist"), key_style);
        push_tag(&mut items, "Album", self.metadata.get("album"), key_style);
        match self.duration {
            Some(d) => {
                let secs = to_decimal(d / 1000);
                push_optional(&mut items, "Duration", Some(secs.as_str()), key_style);
            },
            None => {
                push_optional(&mut items, "Duration", None, key_style);
            },
        }
        let ghost before_modified = line_views(items@);
        push_field(&mut items, "Last Modified", self.last_modified.as_str(), key_style);
        assert(line_views(items@) == before_modified + seq![
            field_line("Last Modified"@, self.last_modified@, key_style),
        ]);
        match &self.added {
            Some(added) => {
                push_optional(&mut items, "Added", Some(added.as_str()), key_style);
            },
            None => {
                push_optional(&mut items, "Added", None, key_style);
            },
        }
        items
    }

    fn tag_items(&self, key_style: Style) -> (r: Vec<Line>)
        ensures
            exists|picked: Seq<int>|
                is_tag_order(self.metadata.entries(), picked) && line_views(r@) == picked_lines(
                    self.metadata.entries(),
                    picked,
                    0,
                    key_style,
                ),
    {
        let ghost entries = self.metadata.entries();
        let mut kept: Vec<usize> = Vec::new();
        let mut keys: Vec<String> = Vec::new();
        let mut p: usize = 0;
        while p < self.metadata.len()
            invariant
                p <= entries.len(),
                entries == self.metadata.entries(),
                kept.len() == keys.len(),
                forall|m: int|
                    0 <= m < kept.len() ==> (#[trigger] kept[m]) < p && !is_reserved(
                        entries[kept[m] as int].0@,
                    ) && keys[m]@ == entries[kept[m] as int].0@,
                forall|m: int, n: int| 0 <= m < n < kept.len() ==> kept[m] < kept[n],
                forall|q: int|
                    0 <= q < p && !is_reserved((#[trigger] entries[q]).0@) ==> exists|m: int|
                        0 <= m < kept.len() && #[trigger] kept[m] == q,
            decreases entries.len() - p,
        {
            let key = self.metadata.key_at(p);
            if !reserved(key.as_str()) {
                let ghost old_kept = kept@;
                kept.push(p);
                keys.push(key.clone());
                assert forall|q: int|
                    0 <= q < p + 1 && !is_reserved((#[trigger] entries[q]).0@) implies exists|
                    m: int,
                | 0 <= m < kept.len() && #[trigger] kept[m] == q by {
                    if q < p {
                        let m = choose|m: int| 0 <= m < old_kept.len() && #[trigger] old_kept[m] == q;
                        assert(kept[m] == q);
                    } else {
                        assert(kept[kept.len() - 1] == q);
                    }
                }
            }
            p += 1;
        }
        let order = sorted_positions(&keys);
        let ghost picked = Seq::new(order@.len(), |j: int| kept@[order@[j] as int] as int);
        proof {
            assert forall|q: int|
                0 <= q < entries.len() && !is_reserved((#[trigger] entries[q]).0@) implies exists|
                i: int,
            | 0 <= i < picked.len() && #[trigger] picked[i] == q by {
                let m = choose|m: int| 0 <= m < kept.len() && #[trigger] kept[m] == q;
                assert(lists(order@, m));
                let i = choose|i: int| 0 <= i < order@.len() && #[trigger] order@[i] == m;
                assert(picked[i] == q);
            }
            assert forall|i: int, j: int| 0 <= i < j < picked.len() implies goes_before(
                entries[#[trigger] picked[i]].0@,
                picked[i],
                entries[#[trigger] picked[j]].0@,
                picked[j],
            ) by {
                let a = order@[i];
                let b = order@[j];
                assert(goes_before(views(keys@)[a as int], a as int, views(keys@)[b as int], b as int));
                if a < b {
                    assert(kept[a as int] < kept[b as int]);
                }
            }
            assert(is_tag_order(entries, picked));
        }
        let mut items: Vec<Line> = Vec::new();
        let mut j: usize = 0;
        assert(line_views(items@) == Seq::<LineView>::empty());
        while j < order.len()
            invariant
                j <= order.len(),
                entries == self.metadata.entries(),
                picked.len() == order.len(),
                forall|i: int|
                    0 <= i < order.len() ==> (#[trigger] order[i]) < kept.len() && picked[i]
                        == kept[order[i] as int] && kept[order[i] as int] < entries.len(),
                picked_lines(entries, picked, 0, key_style) == line_views(items@) + picked_lines(
                    entries,
                    picked,
                    j as int,
                    key_style,
                ),
            decreases order.len() - j,
        {
            let at = kept[order[j]];
            let ghost before = line_views(items@);
            push_values(
                &mut items,
                self.metadata.key_at(at).as_str(),
                self.metadata.value_at(at),
                key_style,
            );
            assert(before + (value_lines(
                entries[picked[j as int]].0@,
                entries[picked[j as int]].1.values(),
                key_style,
            ) + picked_lines(entries, picked, j + 1, key_style)) == line_views(items@)
                + picked_lines(entries, picked, j + 1, key_style));
            j += 1;
        }
        assert(line_views(items@) + Seq::<LineView>::empty() == line_views(items@));
        items
    }

    /// The preview of the song in two groups. The first, `[Info]`, holds the
    /// lines of [`info_lines`]. The second, `[Tags]`, holds every other tag, the
    /// tags in ascending order of their names, with one line for each value. The
    /// headers are in `group_style`, the labels in `key_style`.
    pub fn to_preview(&self, key_style: Style, group_style: Style) -> (r: Vec<PreviewGroup>)
        ensures
            r@.len() == 2,
            r@[0]@ == (PreviewGroupView {
                name: Some(" --- [Info]"@),
                header_style: Some(group_style),
                items: info_lines(self, key_style),
            }),
            r@[1]@.name == Some(" --- [Tags]"@),
            r@[1]@.header_style == Some(group_style),
            exists|picked: Seq<int>|
                is_tag_order(self.metadata.entries(), picked) && r@[1]@.items == picked_lines(
                    self.metadata.entries(),
                    picked,
                    0,
                    key_style,
                ),
    {
        let info_group = PreviewGroup {
            name: Some(String::from_str(" --- [Info]")),
            header_style: Some(group_style),
            items: self.info_items(key_style),
        };
        let tags_group = PreviewGroup {
            name: Some(String::from_str(" --- [Tags]")),
            header_style: Some(group_style),
            items: self.tag_items(key_style),
        };
        let mut groups: Vec<PreviewGroup> = Vec::new();
        groups.push(info_group);
        groups.push(tags_group);
        groups
    }
}

} // verus!
