//! The order in which songs sort by one of their properties.
use crate::numbers::{integer, natural, parse_i32, parsed_i32};
use crate::property::SongProperty;
use crate::song::{file_extension_of, file_stem_of, text_of, Song};
use crate::text::{joined, lemma_empty_literal};
use std::borrow::Cow;
use std::cmp::Ordering;
use unicase::UniCase;
use vstd::prelude::*;

verus! {

/// The case-folded form of `s` that `unicase` compares by: what
/// `UniCase::new(s).to_folded_case()` returns.
pub uninterp spec fn unicase_folded(s: Seq<char>) -> Seq<char>;

/// The order of `a` and `b` as sequences: by the first position at which they
/// differ, and the shorter first where one is the beginning of the other.
pub open spec fn lexicographic(a: Seq<char>, b: Seq<char>) -> Ordering
    decreases a.len(),
{
    if a.len() == 0 {
        if b.len() == 0 {
            Ordering::Equal
        } else {
            Ordering::Less
        }
    } else if b.len() == 0 {
        Ordering::Greater
    } else if a[0] < b[0] {
        Ordering::Less
    } else if a[0] > b[0] {
        Ordering::Greater
    } else {
        lexicographic(a.skip(1), b.skip(1))
    }
}

/// `a` comes strictly before `b` in the order of texts by their characters.
pub open spec fn text_before(a: Seq<char>, b: Seq<char>) -> bool {
    lexicographic(a, b) == Ordering::Less
}

/// `a` and `b` have the same place in the order of texts by their characters.
pub open spec fn text_same(a: Seq<char>, b: Seq<char>) -> bool {
    lexicographic(a, b) == Ordering::Equal
}

/// The order of two texts when letter case is ignored.
pub open spec fn folded_order(a: Seq<char>, b: Seq<char>) -> Ordering {
    lexicographic(unicase_folded(a), unicase_folded(b))
}

/// The order of two numbers.
pub open spec fn number_order(a: int, b: int) -> Ordering {
    if a < b {
        Ordering::Less
    } else if a == b {
        Ordering::Equal
    } else {
        Ordering::Greater
    }
}

/// The order of two texts that may be numbers: by value where both read as an
/// `i32`, by text with letter case ignored where one of them does not.
pub open spec fn numeric_order(a: Seq<char>, b: Seq<char>) -> Ordering {
    match (parsed_i32(a), parsed_i32(b)) {
        (Some(x), Some(y)) => number_order(integer(x), integer(y)),
        _ => folded_order(a, b),
    }
}

/// How a property is compared.
pub enum Comparison {
    /// As text, letter case ignored.
    Text,
    /// As numbers where both sides are numbers, else as text.
    Numeric,
}

/// The order of two values of which either may be absent: an absent value
/// comes after every present one, and two absent values are equal.
pub open spec fn absent_last(
    a: Option<Seq<char>>,
    b: Option<Seq<char>>,
    how: Comparison,
) -> Ordering {
    match (a, b) {
        (Some(x), Some(y)) => match how {
            Comparison::Text => folded_order(x, y),
            Comparison::Numeric => numeric_order(x, y),
        },
        (None, Some(_)) => Ordering::Greater,
        (Some(_), None) => Ordering::Less,
        (None, None) => Ordering::Equal,
    }
}

/// The order of two durations of which either may be unknown.
pub open spec fn duration_order(a: Option<u64>, b: Option<u64>) -> Ordering {
    match (a, b) {
        (Some(x), Some(y)) => number_order(natural(x), natural(y)),
        (None, Some(_)) => Ordering::Greater,
        (Some(_), None) => Ordering::Less,
        (None, None) => Ordering::Equal,
    }
}

/// Calls the `Ord` of `unicase::UniCase` on the two texts. The contract claims
/// that the result is the order, character by character, of the case-folded
/// forms of the two texts. The crate compares two ASCII texts by their bytes in
/// lower case and any other pair by their folded characters; both are the
/// characters of the folded form, which for an ASCII text is the text in lower
/// case.
#[verifier::external_body]
fn unicase_order(a: &str, b: &str) -> (r: Ordering)
    ensures
        r == lexicographic(unicase_folded(a@), unicase_folded(b@)),
{
    UniCase::new(a).cmp(&UniCase::new(b))
}

fn order_of_numbers(a: i32, b: i32) -> (r: Ordering)
    ensures
        r == number_order(integer(a), integer(b)),
{
    if a < b {
        Ordering::Less
    } else if a == b {
        Ordering::Equal
    } else {
        Ordering::Greater
    }
}

fn order_of_durations(a: Option<u64>, b: Option<u64>) -> (r: Ordering)
    ensures
        r == duration_order(a, b),
{
    match (a, b) {
        (Some(x), Some(y)) => if x < y {
            Ordering::Less
        } else if x == y {
            Ordering::Equal
        } else {
            Ordering::Greater
        },
        (None, Some(_)) => Ordering::Greater,
        (Some(_), None) => Ordering::Less,
        (None, None) => Ordering::Equal,
    }
}

fn order_of_texts(a: Option<Cow<'_, str>>, b: Option<Cow<'_, str>>, numeric: bool) -> (r: Ordering)
    ensures
        r == absent_last(
            text_of(a),
            text_of(b),
            if numeric {
                Comparison::Numeric
            } else {
                Comparison::Text
            },
        ),
{
    match (a, b) {
        (Some(x), Some(y)) => {
            let x_text: &str = borrowed(&x);
            let y_text: &str = borrowed(&y);
            if numeric {
                match (parse_i32(x_text), parse_i32(y_text)) {
                    (Some(m), Some(n)) => order_of_numbers(m, n),
                    _ => unicase_order(x_text, y_text),
                }
            } else {
                unicase_order(x_text, y_text)
            }
        },
        (None, Some(_)) => Ordering::Greater,
        (Some(_), None) => Ordering::Less,
        (None, None) => Ordering::Equal,
    }
}

fn borrowed<'a>(text: &'a Cow<'_, str>) -> (r: &'a str)
    ensures
        r@ == text@,
{
    match text {
        Cow::Borrowed(s) => s,
        Cow::Owned(s) => s.as_str(),
    }
}

/// The values of the tag `name` written one after another, where `song` has the
/// tag.
pub open spec fn joined_tag(song: &Song, name: Seq<char>) -> Option<Seq<char>> {
    match song.tag(name) {
        Some(values) => Some(joined(values, Seq::empty())),
        None => None,
    }
}

fn join_tag<'a>(song: &'a Song, name: &str) -> (r: Option<Cow<'a, str>>)
    ensures
        text_of(r) == joined_tag(song, name@),
{
    proof {
        lemma_empty_literal();
    }
    match song.metadata.get(name) {
        Some(tag) => Some(tag.join("")),
        None => None,
    }
}

/// The value by which `song` sorts under `property`, where that is a text; the
/// duration, a number, has none.
pub open spec fn sort_text(song: &Song, property: SongProperty) -> Option<Seq<char>> {
    match property {
        SongProperty::Filename => file_stem_of(song.file@),
        SongProperty::FileExtension => file_extension_of(song.file@),
        SongProperty::File => Some(song.file@),
        SongProperty::Title => joined_tag(song, "title"@),
        SongProperty::Artist => joined_tag(song, "artist"@),
        SongProperty::Album => joined_tag(song, "album"@),
        SongProperty::Track => joined_tag(song, "track"@),
        SongProperty::Disc => joined_tag(song, "disc"@),
        SongProperty::Other(name) => joined_tag(song, name@),
        SongProperty::Duration => None,
    }
}

/// The property compares as a number where it can.
pub open spec fn is_numeric(property: SongProperty) -> bool {
    property is Track || property is Disc
}

/// How `property` is compared.
pub open spec fn comparison_of(property: SongProperty) -> Comparison {
    if is_numeric(property) {
        Comparison::Numeric
    } else {
        Comparison::Text
    }
}

impl Song {
    /// What [`Song::cmp_by_prop`] returns. The file path is always present and
    /// compares as text. The file name, the extension and the tags compare as
    /// text, a tag with all its values written one after another; the track and
    /// the disc compare as numbers where both are numbers; the duration compares
    /// as a number. A song that lacks the property comes after every song that
    /// has it, and two songs that lack it are equal.
    pub open spec fn compared(&self, other: &Song, property: SongProperty) -> Ordering {
        if property is Duration {
            duration_order(self.duration, other.duration)
        } else {
            absent_last(
                sort_text(self, property),
                sort_text(other, property),
                comparison_of(property),
            )
        }
    }

    /// Compares two songs by `property`, for sorting.
    pub fn cmp_by_prop(&self, other: &Song, property: &SongProperty) -> (r: Ordering)
        ensures
            r == self.compared(other, *property),
    {
        match property {
            SongProperty::Filename => order_of_texts(self.file_name(), other.file_name(), false),
            SongProperty::FileExtension => order_of_texts(
                self.file_ext(),
                other.file_ext(),
                false,
            ),
            SongProperty::File => unicase_order(self.file.as_str(), other.file.as_str()),
            SongProperty::Title => order_of_texts(
                join_tag(self, "title"),
                join_tag(other, "title"),
                false,
            ),
            SongProperty::Artist => order_of_texts(
                join_tag(self, "artist"),
                join_tag(other, "artist"),
                false,
            ),
            SongProperty::Album => order_of_texts(
                join_tag(self, "album"),
                join_tag(other, "album"),
                false,
            ),
            SongProperty::Track => order_of_texts(
                join_tag(self, "track"),
                join_tag(other, "track"),
                true,
            ),
            SongProperty::Disc => order_of_texts(
                join_tag(self, "disc"),
                join_tag(other, "disc"),
                true,
            ),
            SongProperty::Other(name) => order_of_texts(
                join_tag(self, name.as_str()),
                join_tag(other, name.as_str()),
                false,
            ),
            SongProperty::Duration => order_of_durations(self.duration, other.duration),
        }
    }
}

/// The order seen from the other side.
pub open spec fn reversed(order: Ordering) -> Ordering {
    match order {
        Ordering::Less => Ordering::Greater,
        Ordering::Equal => Ordering::Equal,
        Ordering::Greater => Ordering::Less,
    }
}

/// Every sequence is equal to itself.
pub proof fn lemma_lexicographic_reflexive(a: Seq<char>)
    ensures
        lexicographic(a, a) == Ordering::Equal,
    decreases a.len(),
{
    if a.len() > 0 {
        lemma_lexicographic_reflexive(a.skip(1));
    }
}

/// Seen from the other side the order of two sequences is reversed.
pub proof fn lemma_lexicographic_antisymmetric(a: Seq<char>, b: Seq<char>)
    ensures
        lexicographic(b, a) == reversed(lexicographic(a, b)),
    decreases a.len(),
{
    if a.len() > 0 && b.len() > 0 && a[0] == b[0] {
        lemma_lexicographic_antisymmetric(a.skip(1), b.skip(1));
    }
}

/// The order of sequences is transitive, and strict as soon as one step is.
pub proof fn lemma_lexicographic_transitive(a: Seq<char>, b: Seq<char>, c: Seq<char>)
    requires
        lexicographic(a, b) != Ordering::Greater,
        lexicographic(b, c) != Ordering::Greater,
    ensures
        lexicographic(a, c) != Ordering::Greater,
        lexicographic(a, b) == Ordering::Less || lexicographic(b, c) == Ordering::Less
            ==> lexicographic(a, c) == Ordering::Less,
        lexicographic(a, b) == Ordering::Equal && lexicographic(b, c) == Ordering::Equal
            ==> lexicographic(a, c) == Ordering::Equal,
    decreases a.len(),
{
    if a.len() > 0 && b.len() > 0 && c.len() > 0 {
        if a[0] == b[0] && b[0] == c[0] {
            lemma_lexicographic_transitive(a.skip(1), b.skip(1), c.skip(1));
        }
    }
}

/// Two values compare in one way: both as numbers or neither, where both are
/// present.
pub open spec fn same_kind(a: Option<Seq<char>>, b: Option<Seq<char>>) -> bool {
    match (a, b) {
        (Some(x), Some(y)) => parsed_i32(x) is Some <==> parsed_i32(y) is Some,
        _ => true,
    }
}

/// A song that lacks the property comes after every song that has it, and two
/// songs that lack it are equal. For the duration "has" means that it is known,
/// for every other property that [`sort_text`] is present.
pub proof fn lemma_absent_sorts_last(a: &Song, b: &Song, property: SongProperty)
    ensures
        property is Duration ==> {
            &&& a.duration is None && b.duration is Some ==> a.compared(b, property)
                == Ordering::Greater
            &&& a.duration is Some && b.duration is None ==> a.compared(b, property)
                == Ordering::Less
            &&& a.duration is None && b.duration is None ==> a.compared(b, property)
                == Ordering::Equal
        },
        !(property is Duration) ==> {
            &&& sort_text(a, property) is None && sort_text(b, property) is Some ==> a.compared(
                b,
                property,
            ) == Ordering::Greater
            &&& sort_text(a, property) is Some && sort_text(b, property) is None ==> a.compared(
                b,
                property,
            ) == Ordering::Less
            &&& sort_text(a, property) is None && sort_text(b, property) is None ==> a.compared(
                b,
                property,
            ) == Ordering::Equal
        },
{
}

/// A song is equal to itself under every property.
pub proof fn lemma_compared_reflexive(a: &Song, property: SongProperty)
    ensures
        a.compared(a, property) == Ordering::Equal,
{
    match sort_text(a, property) {
        Some(t) => lemma_lexicographic_reflexive(unicase_folded(t)),
        None => {},
    }
}

/// Swapping the two songs reverses the result.
pub proof fn lemma_compared_antisymmetric(a: &Song, b: &Song, property: SongProperty)
    ensures
        b.compared(a, property) == reversed(a.compared(b, property)),
{
    lemma_absent_last_antisymmetric(
        sort_text(a, property),
        sort_text(b, property),
        comparison_of(property),
    );
}

/// Swapping the two values reverses their order.
pub proof fn lemma_absent_last_antisymmetric(
    a: Option<Seq<char>>,
    b: Option<Seq<char>>,
    how: Comparison,
)
    ensures
        absent_last(b, a, how) == reversed(absent_last(a, b, how)),
{
    match (a, b) {
        (Some(x), Some(y)) => lemma_lexicographic_antisymmetric(
            unicase_folded(x),
            unicase_folded(y),
        ),
        _ => {},
    }
}

/// The comparison is transitive. For the track and the disc this holds of three
/// songs whose values compare in one way, all as numbers or all as text: a
/// value that is a number compares by value with another number and by text
/// with anything else, and the two orders do not agree.
pub proof fn lemma_compared_transitive(a: &Song, b: &Song, c: &Song, property: SongProperty)
    requires
        a.compared(b, property) != Ordering::Greater,
        b.compared(c, property) != Ordering::Greater,
        is_numeric(property) ==> {
            &&& same_kind(sort_text(a, property), sort_text(b, property))
            &&& same_kind(sort_text(b, property), sort_text(c, property))
            &&& same_kind(sort_text(a, property), sort_text(c, property))
        },
    ensures
        a.compared(c, property) != Ordering::Greater,
{
    match (sort_text(a, property), sort_text(b, property), sort_text(c, property)) {
        (Some(x), Some(y), Some(z)) => {
            if is_numeric(property) && parsed_i32(x) is Some {
            } else {
                lemma_lexicographic_transitive(
                    unicase_folded(x),
                    unicase_folded(y),
                    unicase_folded(z),
                );
            }
        },
        _ => {},
    }
}

} // verus!
