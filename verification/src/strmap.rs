//! A small map from names to texts, kept as a list of entries in insertion
//! order; a later entry for a name replaces the earlier ones.
use vstd::prelude::*;

use crate::text::str_eq;

verus! {

/// A map from names to texts.
#[derive(Debug)]
pub struct StrMap {
    entries: Vec<(String, String)>,
}

/// The map that a list of (name, text) entries stands for, later entries
/// taking the place of earlier ones with the same name.
pub open spec fn entries_map(entries: Seq<(String, String)>) -> Map<Seq<char>, Seq<char>>
    decreases entries.len(),
{
    if entries.len() == 0 {
        Map::empty()
    } else {
        entries_map(entries.drop_last()).insert(entries.last().0@, entries.last().1@)
    }
}

/// Entries after position `i` that do not name `key` leave what the map gives
/// for `key` as the first `i` entries have it.
proof fn lemma_entries_map_prefix(entries: Seq<(String, String)>, i: int, key: Seq<char>)
    requires
        0 <= i <= entries.len(),
        forall|j: int| i <= j < entries.len() ==> (#[trigger] entries[j]).0@ != key,
    ensures
        entries_map(entries).contains_key(key) == entries_map(entries.subrange(0, i)).contains_key(
            key,
        ),
        entries_map(entries)[key] == entries_map(entries.subrange(0, i))[key],
    decreases entries.len() - i,
{
    if i == entries.len() {
        assert(entries.subrange(0, i) =~= entries);
    } else {
        let init = entries.drop_last();
        assert forall|j: int| i <= j < init.len() implies (#[trigger] init[j]).0@ != key by {
            assert(init[j] == entries[j]);
        }
        lemma_entries_map_prefix(init, i, key);
        assert(init.subrange(0, i) =~= entries.subrange(0, i));
        assert(entries.last() == entries[entries.len() - 1]);
    }
}

impl View for StrMap {
    type V = Map<Seq<char>, Seq<char>>;

    closed spec fn view(&self) -> Map<Seq<char>, Seq<char>> {
        entries_map(self.entries@)
    }
}

impl StrMap {
    /// An empty map.
    pub fn new() -> (r: StrMap)
        ensures
            r@ == Map::<Seq<char>, Seq<char>>::empty(),
    {
        let r = StrMap { entries: Vec::new() };
        proof {
            reveal_with_fuel(entries_map, 1);
        }
        r
    }

    /// The map of the given entries, in order; a later entry for a name
    /// takes the place of an earlier one.
    pub fn from_entries(entries: Vec<(String, String)>) -> (r: StrMap)
        ensures
            r@ == entries_map(entries@),
    {
        StrMap { entries }
    }

    /// Sets the text for `key`, replacing any earlier one.
    pub fn insert(&mut self, key: String, value: String)
        ensures
            final(self)@ == old(self)@.insert(key@, value@),
    {
        self.entries.push((key, value));
        assert(self.entries@.drop_last() =~= old(self).entries@);
    }

    /// The text for `key`, if the map has one.
    pub fn get(&self, key: &str) -> (r: Option<String>)
        ensures
            match r {
                Some(v) => self@.contains_key(key@) && self@[key@] == v@,
                None => !self@.contains_key(key@),
            },
    {
        let mut i = self.entries.len();
        while i > 0
            invariant
                i <= self.entries@.len(),
                forall|j: int| i <= j < self.entries@.len() ==> (#[trigger] self.entries@[j]).0@
                    != key@,
            decreases i,
        {
            let j = i - 1;
            if str_eq(self.entries[j].0.as_str(), key) {
                proof {
                    lemma_entries_map_prefix(self.entries@, i as int, key@);
                    let pre = self.entries@.subrange(0, i as int);
                    assert(pre.drop_last() =~= self.entries@.subrange(0, j as int));
                    assert(pre.last() == self.entries@[j as int]);
                }
                return Some(self.entries[j].1.clone());
            }
            i = j;
        }
        proof {
            lemma_entries_map_prefix(self.entries@, 0, key@);
            assert(self.entries@.subrange(0, 0) =~= Seq::<(String, String)>::empty());
        }
        None
    }
}

/// Of several entries for one name, the last one is the one the map holds.
pub proof fn law_last_entry_wins(entries: Seq<(String, String)>, key: String, value: String)
    ensures
        entries_map(entries.push((key, value))).contains_key(key@),
        entries_map(entries.push((key, value)))[key@] == value@,
{
    assert(entries.push((key, value)).drop_last() =~= entries);
}

} // verus!
