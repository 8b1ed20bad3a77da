//! A small map keyed by text that keeps the order in which keys first came in.
use crate::text::str_eq;
use vstd::prelude::*;

verus! {

/// A map from text keys to values. No key occurs twice, and the entries stay in
/// the order in which their keys were first inserted.
#[derive(Debug, Clone, PartialEq, Eq)]
pub struct TagMap<V> {
    entries: Vec<(String, V)>,
}

/// The position of the first entry of `entries` whose key is `key`, or the
/// length of `entries` when there is none.
pub open spec fn position_of<V>(entries: Seq<(String, V)>, key: Seq<char>) -> int
    decreases entries.len(),
{
    if entries.len() == 0 {
        0
    } else if entries[0].0@ == key {
        0
    } else {
        1 + position_of(entries.drop_first(), key)
    }
}

pub proof fn lemma_position_of<V>(entries: Seq<(String, V)>, key: Seq<char>)
    ensures
        0 <= position_of(entries, key) <= entries.len(),
        position_of(entries, key) < entries.len() ==> entries[position_of(entries, key)].0@ == key,
        forall|i: int| 0 <= i < position_of(entries, key) ==> (#[trigger] entries[i]).0@ != key,
    decreases entries.len(),
{
    if entries.len() > 0 && entries[0].0@ != key {
        let rest = entries.drop_first();
        lemma_position_of(rest, key);
        assert forall|i: int| 0 <= i < position_of(entries, key) implies (#[trigger] entries[i]).0@
            != key by {
            if i > 0 {
                assert(entries[i] == rest[i - 1]);
            }
        }
    }
}

impl<V> TagMap<V> {
    /// The entries, in insertion order of their keys.
    pub closed spec fn entries(&self) -> Seq<(String, V)> {
        self.entries@
    }

    /// No key occurs twice. Every map that this module hands out is well formed.
    pub closed spec fn wf(&self) -> bool {
        forall|i: int, j: int|
            0 <= i < j < self.entries@.len() ==> (#[trigger] self.entries@[i]).0@ != (
            #[trigger] self.entries@[j]).0@
    }

    /// The keys, in insertion order.
    pub open spec fn keys(&self) -> Seq<Seq<char>> {
        Seq::new(self.entries().len(), |i: int| self.entries()[i].0@)
    }

    /// `key` has an entry.
    pub open spec fn has(&self, key: Seq<char>) -> bool {
        position_of(self.entries(), key) < self.entries().len()
    }

    /// The value stored under `key`. Meaningful when `self.has(key)`.
    pub open spec fn value(&self, key: Seq<char>) -> V {
        self.entries()[position_of(self.entries(), key)].1
    }

    /// The value stored under `key`, if any.
    pub open spec fn lookup(&self, key: Seq<char>) -> Option<V> {
        if self.has(key) {
            Some(self.value(key))
        } else {
            None
        }
    }

    /// An empty map.
    pub fn new() -> (r: Self)
        ensures
            r.entries().len() == 0,
            r.wf(),
    {
        TagMap { entries: Vec::new() }
    }

    /// The number of entries.
    pub fn len(&self) -> (r: usize)
        ensures
            r == self.entries().len(),
    {
        self.entries.len()
    }

    /// The key of the entry at position `i`.
    pub fn key_at(&self, i: usize) -> (r: &String)
        requires
            i < self.entries().len(),
        ensures
            *r == self.entries()[i as int].0,
    {
        &self.entries[i].0
    }

    /// The value of the entry at position `i`.
    pub fn value_at(&self, i: usize) -> (r: &V)
        requires
            i < self.entries().len(),
        ensures
            *r == self.entries()[i as int].1,
    {
        &self.entries[i].1
    }

    fn find(&self, key: &str) -> (r: usize)
        ensures
            r == position_of(self.entries(), key@),
    {
        let mut i: usize = 0;
        assert(self.entries@.skip(0) == self.entries@);
        while i < self.entries.len()
            invariant
                i <= self.entries@.len(),
                position_of(self.entries@, key@) == i + position_of(
                    self.entries@.skip(i as int),
                    key@,
                ),
            decreases self.entries.len() - i,
        {
            let ghost rest = self.entries@.skip(i as int);
            assert(rest[0] == self.entries@[i as int]);
            assert(rest.drop_first() == self.entries@.skip(i + 1));
            if str_eq(self.entries[i].0.as_str(), key) {
                return i;
            }
            i += 1;
        }
        assert(self.entries@.skip(i as int).len() == 0);
        i
    }

    /// The value stored under `key`, if any.
    pub fn get(&self, key: &str) -> (r: Option<&V>)
        ensures
            match r {
                Some(v) => self.lookup(key@) == Some(*v),
                None => self.lookup(key@) is None,
            },
    {
        let i = self.find(key);
        if i < self.entries.len() {
            Some(&self.entries[i].1)
        } else {
            None
        }
    }

    /// Whether `key` has an entry.
    pub fn contains_key(&self, key: &str) -> (r: bool)
        ensures
            r == self.has(key@),
    {
        self.find(key) < self.entries.len()
    }

    /// Stores `value` under `key`. An entry that `key` already has keeps its
    /// place and takes the new value; a new key goes to the end.
    pub fn insert(&mut self, key: String, value: V)
        ensures
            final(self).lookup(key@) == Some(value),
            forall|k: Seq<char>| k != key@ ==> final(self).lookup(k) == old(self).lookup(k),
            old(self).has(key@) ==> final(self).keys() == old(self).keys(),
            !old(self).has(key@) ==> final(self).keys() == old(self).keys().push(key@),
            old(self).wf() ==> final(self).wf(),
    {
        let i = self.find(key.as_str());
        let ghost before = self.entries@;
        let ghost key_view = key@;
        proof {
            lemma_position_of(before, key_view);
        }
        if i < self.entries.len() {
            self.entries[i] = (key, value);
        } else {
            self.entries.push((key, value));
        }
        let ghost after = self.entries@;
        proof {
            assert(forall|j: int|
                0 <= j < before.len() ==> (#[trigger] after[j]).0@ == before[j].0@);
            assert(forall|j: int| 0 <= j < before.len() && j != i ==> after[j] == before[j]);
            lemma_position_is(after, key_view, i as int);
            assert forall|k: Seq<char>| k != key_view implies final(self).lookup(k) == old(
                self,
            ).lookup(k) by {
                lemma_position_of(before, k);
                let p = position_of(before, k);
                if p < before.len() {
                    lemma_position_is(after, k, p);
                } else {
                    lemma_position_is(after, k, after.len() as int);
                }
            }
            assert(final(self).keys() =~= if i < before.len() {
                old(self).keys()
            } else {
                old(self).keys().push(key_view)
            });
        }
    }

    /// Builds a map from `pairs`; of two pairs with one key the later one stays.
    pub fn from_pairs(pairs: Vec<(String, V)>) -> (r: Self)
        ensures
            r.wf(),
            forall|k: Seq<char>| r.lookup(k) == latest(pairs@, pairs@.len() as int, k),
    {
        let ghost given = pairs@;
        let ghost total = pairs@.len();
        let mut pairs = pairs;
        let mut backwards: Vec<(String, V)> = Vec::new();
        while pairs.len() > 0
            invariant
                pairs@.len() + backwards@.len() == total,
                given.len() == total,
                forall|i: int| 0 <= i < pairs@.len() ==> #[trigger] pairs@[i] == given[i],
                forall|i: int|
                    0 <= i < backwards@.len() ==> #[trigger] backwards@[i] == given[total - 1 - i],
            decreases pairs.len(),
        {
            match pairs.pop() {
                Some(p) => backwards.push(p),
                None => {},
            }
        }
        let mut out: TagMap<V> = TagMap::new();
        let ghost mut done: int = 0;
        assert forall|k: Seq<char>| out.lookup(k) == latest(given, 0, k) by {
            assert(position_of(out.entries(), k) == 0);
        }
        while backwards.len() > 0
            invariant
                0 <= done <= total,
                given.len() == total,
                backwards@.len() == total - done,
                forall|i: int|
                    0 <= i < backwards@.len() ==> #[trigger] backwards@[i] == given[total - 1 - i],
                out.wf(),
                forall|k: Seq<char>| out.lookup(k) == latest(given, done, k),
            decreases backwards.len(),
        {
            match backwards.pop() {
                Some((k, v)) => {
                    out.insert(k, v);
                    proof {
                        done = done + 1;
                    }
                },
                None => {},
            }
        }
        out
    }
}

/// The value of the last of the first `count` of `pairs` whose key is `key`.
pub open spec fn latest<V>(pairs: Seq<(String, V)>, count: int, key: Seq<char>) -> Option<V>
    decreases count,
{
    if count <= 0 || count > pairs.len() {
        None
    } else if pairs[count - 1].0@ == key {
        Some(pairs[count - 1].1)
    } else {
        latest(pairs, count - 1, key)
    }
}

/// A position before which no entry has the key, and at which either the key or
/// the end stands, is the position of the key.
pub proof fn lemma_position_is<V>(entries: Seq<(String, V)>, key: Seq<char>, p: int)
    requires
        0 <= p <= entries.len(),
        forall|i: int| 0 <= i < p ==> (#[trigger] entries[i]).0@ != key,
        p < entries.len() ==> entries[p].0@ == key,
    ensures
        position_of(entries, key) == p,
    decreases entries.len(),
{
    if entries.len() > 0 && p > 0 {
        let rest = entries.drop_first();
        assert(entries[0].0@ != key);
        assert forall|i: int| 0 <= i < p - 1 implies (#[trigger] rest[i]).0@ != key by {
            assert(rest[i] == entries[i + 1]);
        }
        lemma_position_is(rest, key, p - 1);
    }
}

} // verus!
