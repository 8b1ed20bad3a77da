//! Character-level helpers shared by the formatting code.
use std::borrow::Cow;
use vstd::prelude::*;

verus! {

/// The text that [`to_lowercase`] yields for `s`: the Unicode lower-case mapping
/// of the standard library, applied to the whole string.
pub uninterp spec fn lowercase(s: Seq<char>) -> Seq<char>;

/// `needle` occurs in `haystack` as a contiguous run of characters.
pub open spec fn contains_seq(haystack: Seq<char>, needle: Seq<char>) -> bool {
    exists|i: int|
        0 <= i <= haystack.len() - needle.len() && #[trigger] haystack.subrange(
            i,
            i + needle.len(),
        ) == needle
}

/// `text` contains `filter` when letter case is ignored on both sides.
pub open spec fn contains_ignoring_case(text: Seq<char>, filter: Seq<char>) -> bool {
    contains_seq(lowercase(text), lowercase(filter))
}

/// What [`StringExt::ellipsize`] returns: `s` itself when it has at most `max_len`
/// characters, otherwise its first `max_len - marker.len()` characters (none when
/// the marker is longer than that) followed by the marker.
pub open spec fn ellipsized(s: Seq<char>, max_len: nat, marker: Seq<char>) -> Seq<char> {
    if s.len() <= max_len {
        s
    } else if marker.len() >= max_len {
        marker
    } else {
        s.take(max_len - marker.len()) + marker
    }
}

/// The values of `parts` written one after another with `separator` between
/// neighbours.
pub open spec fn joined(parts: Seq<Seq<char>>, separator: Seq<char>) -> Seq<char>
    decreases parts.len(),
{
    if parts.len() == 0 {
        Seq::empty()
    } else if parts.len() == 1 {
        parts[0]
    } else {
        joined(parts.drop_last(), separator) + separator + parts.last()
    }
}

/// The literal without characters is the empty text.
pub proof fn lemma_empty_literal()
    ensures
        ""@ == Seq::<char>::empty(),
{
    reveal_strlit("");
    assert(""@ =~= Seq::<char>::empty());
}

/// The views of the strings of `v`, in order.
pub open spec fn views(v: Seq<String>) -> Seq<Seq<char>> {
    Seq::new(v.len(), |i: int| v[i]@)
}

/// Calls `String::push`, which appends the one character `c` to `s`.
#[verifier::external_body]
pub(crate) fn push_char(s: &mut String, c: char)
    ensures
        final(s)@ == old(s)@.push(c),
{
    s.push(c);
}

/// Calls `str::to_lowercase`. The result is a function of the text alone; the
/// contract gives it the name [`lowercase`] and claims nothing else of it.
#[verifier::external_body]
pub(crate) fn to_lowercase(s: &str) -> (r: String)
    ensures
        r@ == lowercase(s@),
{
    s.to_lowercase()
}

/// Calls `str::contains` with a string pattern, which reports whether the pattern
/// matches some sub-slice of the text. The contract claims the same of the
/// characters: the pattern occurs in the text as a run of characters.
#[verifier::external_body]
pub(crate) fn str_contains(haystack: &str, needle: &str) -> (r: bool)
    ensures
        r == contains_seq(haystack@, needle@),
{
    haystack.contains(needle)
}

/// Calls the equality of `str`, which holds exactly when both slices hold the
/// same text.
#[verifier::external_body]
pub(crate) fn str_eq(a: &str, b: &str) -> (r: bool)
    ensures
        r == (a@ == b@),
{
    a == b
}

/// The owned form of `text`.
pub fn into_string(text: Cow<'_, str>) -> (r: String)
    ensures
        r@ == text@,
{
    match text {
        Cow::Borrowed(s) => String::from_str(s),
        Cow::Owned(s) => s,
    }
}

/// Case-insensitive substring test used by filters.
pub fn contains_lowercased(text: &str, filter: &str) -> (r: bool)
    ensures
        r == contains_ignoring_case(text@, filter@),
{
    let t = to_lowercase(text);
    let f = to_lowercase(filter);
    str_contains(t.as_str(), f.as_str())
}

/// Joins `parts` with `separator`.
pub fn join(parts: &Vec<String>, separator: &str) -> (r: String)
    ensures
        r@ == joined(views(parts@), separator@),
{
    let mut out = String::new();
    let mut i: usize = 0;
    while i < parts.len()
        invariant
            i <= parts.len(),
            out@ == joined(views(parts@).take(i as int), separator@),
        decreases parts.len() - i,
    {
        let ghost before = views(parts@).take(i as int);
        let ghost after = views(parts@).take(i + 1);
        assert(after.drop_last() == before);
        assert(after.last() == parts@[i as int]@);
        if i > 0 {
            out.append(separator);
        }
        out.append(parts[i].as_str());
        assert(out@ == joined(after, separator@)) by {
            if i == 0 {
                assert(before.len() == 0);
                assert(out@ == parts@[0]@);
            }
        }
        i += 1;
    }
    assert(views(parts@).take(parts.len() as int) == views(parts@));
    out
}

/// Symbols that the configuration supplies for rendering.
#[derive(Debug, Clone, PartialEq, Eq)]
pub struct SymbolsConfig {
    pub song: String,
    pub dir: String,
    pub playlist: String,
    pub marker: String,
    pub ellipsis: String,
}

/// Shortening of text to a number of characters.
pub trait StringExt {
    /// The characters of the value.
    spec fn chars_of(&self) -> Seq<char>;

    /// Returns the text unchanged, and borrowed, when it has at most `max_len`
    /// characters. Otherwise returns its first `max_len` characters less the
    /// length of the ellipsis symbol, followed by that symbol.
    fn ellipsize(&self, max_len: usize, symbols: &SymbolsConfig) -> (r: Cow<'_, str>)
        ensures
            r@ == ellipsized(self.chars_of(), max_len as nat, symbols.ellipsis@),
            self.chars_of().len() <= max_len ==> r is Borrowed,
    ;
}

fn ellipsize_str<'a>(s: &'a str, max_len: usize, symbols: &SymbolsConfig) -> (r: Cow<'a, str>)
    ensures
        r@ == ellipsized(s@, max_len as nat, symbols.ellipsis@),
        s@.len() <= max_len ==> r is Borrowed,
{
    if s.unicode_len() > max_len {
        let marker_len = symbols.ellipsis.as_str().unicode_len();
        let keep: usize = if marker_len >= max_len {
            0
        } else {
            max_len - marker_len
        };
        let head = s.substring_char(0, keep);
        let mut out = String::from_str(head);
        out.append(symbols.ellipsis.as_str());
        assert(s@.subrange(0, keep as int) == s@.take(keep as int));
        assert(s@.take(0) + symbols.ellipsis@ == symbols.ellipsis@);
        Cow::Owned(out)
    } else {
        Cow::Borrowed(s)
    }
}

impl StringExt for str {
    open spec fn chars_of(&self) -> Seq<char> {
        self@
    }

    fn ellipsize(&self, max_len: usize, symbols: &SymbolsConfig) -> (r: Cow<'_, str>) {
        ellipsize_str(self, max_len, symbols)
    }
}

impl StringExt for String {
    open spec fn chars_of(&self) -> Seq<char> {
        self@
    }

    fn ellipsize(&self, max_len: usize, symbols: &SymbolsConfig) -> (r: Cow<'_, str>) {
        ellipsize_str(self.as_str(), max_len, symbols)
    }
}

impl StringExt for Cow<'_, str> {
    open spec fn chars_of(&self) -> Seq<char> {
        self@
    }

    fn ellipsize(&self, max_len: usize, symbols: &SymbolsConfig) -> (r: Cow<'_, str>) {
        match self {
            Cow::Borrowed(s) => ellipsize_str(s, max_len, symbols),
            Cow::Owned(s) => ellipsize_str(s.as_str(), max_len, symbols),
        }
    }
}

/// A text that fits is returned as it is; one that does not is cut to exactly
/// `max_len` characters, the last of which are the marker. This holds of a
/// marker that itself fits in `max_len` characters: a longer marker is returned
/// whole.
pub proof fn lemma_ellipsized_length(s: Seq<char>, max_len: nat, marker: Seq<char>)
    requires
        marker.len() <= max_len,
    ensures
        s.len() <= max_len ==> ellipsized(s, max_len, marker) == s,
        s.len() > max_len ==> {
            &&& ellipsized(s, max_len, marker).len() == max_len
            &&& ellipsized(s, max_len, marker).subrange(max_len - marker.len(), max_len as int)
                == marker
        },
{
    if s.len() > max_len {
        let e = ellipsized(s, max_len, marker);
        if marker.len() == max_len {
            assert(e.subrange(0, max_len as int) == marker);
        } else {
            assert(e.subrange(max_len - marker.len(), max_len as int) == marker);
        }
    }
}

} // verus!
