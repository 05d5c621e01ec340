//! A map keyed by text, kept as the list of its insertions.

use vstd::prelude::*;
use crate::text::str_eq;

verus! {

/// A map from text to values. A key that is inserted again takes the new
/// value; nothing is ever removed.
#[derive(Debug)]
pub struct TextMap<V> {
    entries: Vec<(String, V)>,
}

/// The map that a list of insertions stands for: each insertion overrides
/// the earlier ones of the same key.
pub open spec fn map_of_pairs<X>(pairs: Seq<(Seq<char>, X)>) -> Map<Seq<char>, X>
    decreases pairs.len(),
{
    if pairs.len() == 0 {
        Map::empty()
    } else {
        map_of_pairs(pairs.drop_last()).insert(pairs.last().0, pairs.last().1)
    }
}

/// The models of a list of insertions, in the same order.
pub open spec fn pairs_of_entries<V: DeepView>(entries: Seq<(String, V)>) -> Seq<
    (Seq<char>, V::V),
> {
    Seq::new(entries.len(), |i: int| (entries[i].0@, entries[i].1.deep_view()))
}

/// One more insertion gives the key its value and leaves the others.
pub proof fn lemma_map_of_pairs_push<X>(pairs: Seq<(Seq<char>, X)>, key: Seq<char>, value: X)
    ensures
        map_of_pairs(pairs.push((key, value))) == map_of_pairs(pairs).insert(key, value),
{
    assert(pairs.push((key, value)).drop_last() =~= pairs);
}

/// A key that no insertion names is not in the map.
pub proof fn lemma_absent_key<X>(pairs: Seq<(Seq<char>, X)>, key: Seq<char>)
    requires
        forall|j: int| 0 <= j < pairs.len() ==> (#[trigger] pairs[j]).0 != key,
    ensures
        !map_of_pairs(pairs).contains_key(key),
    decreases pairs.len(),
{
    if pairs.len() > 0 {
        lemma_absent_key(pairs.drop_last(), key);
    }
}

/// The map holds for a key the value of the last insertion that names it.
pub proof fn lemma_last_insertion<X>(pairs: Seq<(Seq<char>, X)>, key: Seq<char>, i: int)
    requires
        0 <= i < pairs.len(),
        pairs[i].0 == key,
        forall|j: int| i < j < pairs.len() ==> (#[trigger] pairs[j]).0 != key,
    ensures
        map_of_pairs(pairs).contains_key(key),
        map_of_pairs(pairs)[key] == pairs[i].1,
    decreases pairs.len(),
{
    if i < pairs.len() - 1 {
        lemma_last_insertion(pairs.drop_last(), key, i);
    }
}

impl<V: DeepView> View for TextMap<V> {
    type V = Map<Seq<char>, V::V>;

    open spec fn view(&self) -> Map<Seq<char>, V::V> {
        map_of_pairs(pairs_of_entries(self.insertions()))
    }
}

impl<V: DeepView> TextMap<V> {
    /// The insertions, oldest first.
    pub closed spec fn insertions(&self) -> Seq<(String, V)> {
        self.entries@
    }

    /// An empty map.
    pub fn new() -> (r: Self)
        ensures
            r@ == Map::<Seq<char>, V::V>::empty(),
            r.insertions() == Seq::<(String, V)>::empty(),
    {
        TextMap { entries: Vec::new() }
    }

    /// Gives `key` the value `value`, whether or not it had one.
    pub fn insert(&mut self, key: String, value: V)
        ensures
            final(self)@ == old(self)@.insert(key@, value.deep_view()),
            final(self).insertions() == old(self).insertions().push((key, value)),
    {
        let ghost before = self.entries@;
        self.entries.push((key, value));
        proof {
            lemma_map_of_pairs_push(pairs_of_entries(before), key@, value.deep_view());
            assert(pairs_of_entries(self.entries@) =~= pairs_of_entries(before).push(
                (key@, value.deep_view()),
            ));
        }
    }

    /// The value of `key`, if it has one.
    pub fn get(&self, key: &str) -> (r: Option<&V>)
        ensures
            match r {
                Some(v) => self@.contains_key(key@) && v.deep_view() == self@[key@],
                None => !self@.contains_key(key@),
            },
    {
        let mut i: usize = self.entries.len();
        while i > 0
            invariant
                i <= self.entries.len(),
                forall|j: int|
                    i <= j < self.entries.len() ==> (#[trigger] pairs_of_entries(
                        self.entries@,
                    )[j]).0 != key@,
            decreases i,
        {
            i -= 1;
            if str_eq(self.entries[i].0.as_str(), key) {
                proof {
                    lemma_last_insertion(pairs_of_entries(self.entries@), key@, i as int);
                }
                return Some(&self.entries[i].1);
            }
        }
        proof {
            lemma_absent_key(pairs_of_entries(self.entries@), key@);
        }
        None
    }

    /// Whether `key` has a value.
    pub fn contains_key(&self, key: &str) -> (r: bool)
        ensures
            r == self@.contains_key(key@),
    {
        self.get(key).is_some()
    }

    /// The insertions as they were made, oldest first.
    pub fn entries(&self) -> (r: &Vec<(String, V)>)
        ensures
            r@ == self.insertions(),
    {
        &self.entries
    }
}

impl Clone for TextMap<String> {
    fn clone(&self) -> (r: Self)
        ensures
            r@ == self@,
            r.insertions() == self.insertions(),
    {
        let mut entries: Vec<(String, String)> = Vec::new();
        let mut i: usize = 0;
        while i < self.entries.len()
            invariant
                i <= self.entries.len(),
                entries@ == self.entries@.take(i as int),
            decreases self.entries.len() - i,
        {
            entries.push((self.entries[i].0.clone(), self.entries[i].1.clone()));
            assert(self.entries@.take(i + 1) == self.entries@.take(i as int).push(self.entries@[i as int]));
            i += 1;
        }
        assert(self.entries@.take(i as int) == self.entries@);
        TextMap { entries }
    }
}

} // verus!
