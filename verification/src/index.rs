//! The in-memory index: from each live key to the offset of its latest
//! `SET` record in the data file.

use vstd::prelude::*;
use vstd::hash_map::StringHashMap;
use crate::codec::texts_view;

verus! {

/// What the index keeps for a key: the offset of its record, and where the
/// key stands in the list of keys.
#[derive(Clone, Copy)]
struct Slot {
    offset: u64,
    pos: usize,
}

/// A map from keys to offsets that can also be walked key by key.
pub struct Index {
    map: StringHashMap<Slot>,
    keys: Vec<String>,
}

/// `keys` without the key at `pos`: the last key takes its place.
pub open spec fn without(keys: Seq<Seq<char>>, pos: int) -> Seq<Seq<char>>
    recommends
        0 <= pos < keys.len(),
{
    keys.update(pos, keys.last()).drop_last()
}

/// The keys that are listed once a `SET` record of `key` is taken in: a new
/// key is listed last.
pub open spec fn listed_after_set(keys: Seq<Seq<char>>, index: Map<Seq<char>, u64>, key: Seq<char>) -> Seq<Seq<char>> {
    if index.contains_key(key) {
        keys
    } else {
        keys.push(key)
    }
}

/// The keys that are listed once a `DELETE` record of `key` at `offset` is
/// taken in: where the key leaves, the key that was listed last takes its place.
pub open spec fn listed_after_delete(
    keys: Seq<Seq<char>>,
    index: Map<Seq<char>, u64>,
    key: Seq<char>,
    offset: u64,
) -> Seq<Seq<char>> {
    if index.contains_key(key) && index[key] <= offset {
        without(keys, keys.index_of(key))
    } else {
        keys
    }
}

/// The offset that a key has once a `SET` record at `offset` is taken in:
/// the index moves forward only, so a later offset that it already holds
/// for the key stays.
pub open spec fn after_set(index: Map<Seq<char>, u64>, key: Seq<char>, offset: u64) -> Map<Seq<char>, u64> {
    if index.contains_key(key) && index[key] > offset {
        index
    } else {
        index.insert(key, offset)
    }
}

/// The index once a `DELETE` record at `offset` is taken in: the key leaves,
/// unless the index already holds a later offset for it.
pub open spec fn after_delete(index: Map<Seq<char>, u64>, key: Seq<char>, offset: u64) -> Map<Seq<char>, u64> {
    if index.contains_key(key) && index[key] > offset {
        index
    } else {
        index.remove(key)
    }
}

impl Index {
    /// The list of keys and the map agree: each key is listed once, at the
    /// position that the map keeps for it.
    pub closed spec fn wf(&self) -> bool {
        &&& forall|i: int|
            0 <= i < self.keys@.len() ==> self.map@.contains_key(#[trigger] self.keys@[i]@)
                && self.map@[self.keys@[i]@].pos == i
        &&& forall|k: Seq<char>| #[trigger]
            self.map@.contains_key(k) ==> self.map@[k].pos < self.keys@.len()
                && self.keys@[self.map@[k].pos as int]@ == k
    }

    /// The offset of each key.
    pub closed spec fn view(&self) -> Map<Seq<char>, u64> {
        Map::new(|k: Seq<char>| self.map@.contains_key(k), |k: Seq<char>| self.map@[k].offset)
    }

    /// The keys, in the order in which the index is walked.
    pub closed spec fn keys(&self) -> Seq<Seq<char>> {
        texts_view(self.keys@)
    }

    /// The keys as they are listed, and the offset of each.
    pub open spec fn listing(&self) -> crate::log::Listing {
        crate::log::Listing { keys: self.keys(), offsets: self@ }
    }

    /// Where a key stands in `keys`.
    closed spec fn pos(&self, key: Seq<char>) -> int {
        self.map@[key].pos as int
    }

    proof fn lemma_pos(&self)
        requires
            self.wf(),
        ensures
            forall|i: int| 0 <= i < self.keys().len() ==> self@.contains_key(#[trigger] self.keys()[i]),
            forall|i: int| 0 <= i < self.keys().len() ==> self.pos(#[trigger] self.keys()[i]) == i,
            forall|k: Seq<char>| #[trigger]
                self@.contains_key(k) ==> 0 <= self.pos(k) < self.keys().len() && self.keys()[self.pos(k)] == k,
    {
    }

    /// The keys that are listed are the keys that have an offset, each once.
    pub proof fn lemma_keys(&self)
        requires
            self.wf(),
        ensures
            crate::log::listed(self.keys(), self@),
            crate::log::covered(self@, self.keys()),
            crate::log::distinct(self.keys()),
    {
        self.lemma_pos();
    }

    /// An index without keys.
    pub fn new() -> (r: Index)
        ensures
            r.wf(),
            r@ == Map::<Seq<char>, u64>::empty(),
            r.keys() == Seq::<Seq<char>>::empty(),
    {
        let r = Index { map: StringHashMap::new(), keys: Vec::new() };
        r
    }

    /// The number of keys.
    pub fn len(&self) -> (r: usize)
        ensures
            r == self.keys().len(),
    {
        self.keys.len()
    }

    /// The key at position `i` of the walk.
    pub fn key_at(&self, i: usize) -> (r: &String)
        requires
            i < self.keys().len(),
        ensures
            r@ == self.keys()[i as int],
    {
        &self.keys[i]
    }

    /// The offset of a key, if it has one.
    pub fn get(&self, key: &str) -> (r: Option<u64>)
        ensures
            match r {
                Some(offset) => self@.contains_key(key@) && self@[key@] == offset,
                None => !self@.contains_key(key@),
            },
    {
        match self.map.get(key) {
            Some(slot) => Some(slot.offset),
            None => None,
        }
    }

    /// Whether a key has an offset.
    pub fn contains_key(&self, key: &str) -> (r: bool)
        ensures
            r == self@.contains_key(key@),
    {
        self.map.contains_key(key)
    }

    /// Gives a key an offset, whatever it had. A new key is listed last.
    pub fn insert(&mut self, key: String, offset: u64)
        requires
            old(self).wf(),
        ensures
            final(self).wf(),
            final(self)@ == old(self)@.insert(key@, offset),
            final(self).keys() == if old(self)@.contains_key(key@) {
                old(self).keys()
            } else {
                old(self).keys().push(key@)
            },
    {
        let known = match self.map.get(key.as_str()) {
            Some(slot) => Some(slot.pos),
            None => None,
        };
        match known {
            Some(pos) => {
                self.map.insert(key, Slot { offset, pos });
            },
            None => {
                let pos: usize = self.keys.len();
                self.keys.push(key.clone());
                self.map.insert(key, Slot { offset, pos });
            },
        }
    }

    /// Takes a key out, if it is there. The key that was listed last takes
    /// its place in the walk.
    pub fn remove(&mut self, key: &str)
        requires
            old(self).wf(),
        ensures
            final(self).wf(),
            final(self)@ == old(self)@.remove(key@),
            final(self).keys() == if old(self)@.contains_key(key@) {
                without(old(self).keys(), old(self).keys().index_of(key@))
            } else {
                old(self).keys()
            },
    {
        let known = match self.map.get(key) {
            Some(slot) => Some(slot.pos),
            None => None,
        };
        match known {
            Some(pos) => {
                let last: usize = self.keys.len() - 1;
                if pos != last {
                    let moved: String = self.keys[last].clone();
                    let slot = match self.map.get(moved.as_str()) {
                        Some(slot) => *slot,
                        None => Slot { offset: 0, pos: 0 },
                    };
                    self.map.insert(moved.clone(), Slot { offset: slot.offset, pos });
                    self.keys.set(pos, moved);
                }
                self.keys.pop();
                self.map.remove(key);
                assert(old(self).keys()[old(self).pos(key@)] == key@);
            },
            None => {},
        }
    }

    /// Takes in a `SET` record for `key` at `offset`: see `after_set`.
    pub fn record_set(&mut self, key: String, offset: u64)
        requires
            old(self).wf(),
        ensures
            final(self).wf(),
            final(self)@ == after_set(old(self)@, key@, offset),
            final(self).keys() == listed_after_set(old(self).keys(), old(self)@, key@),
    {
        let newer = match self.get(key.as_str()) {
            Some(held) => held > offset,
            None => false,
        };
        if !newer {
            self.insert(key, offset);
        }
    }

    /// Takes in a `DELETE` record for `key` at `offset`: see `after_delete`.
    pub fn record_delete(&mut self, key: &str, offset: u64)
        requires
            old(self).wf(),
        ensures
            final(self).wf(),
            final(self)@ == after_delete(old(self)@, key@, offset),
            final(self).keys() == listed_after_delete(old(self).keys(), old(self)@, key@, offset),
    {
        let newer = match self.get(key) {
            Some(held) => held > offset,
            None => false,
        };
        if !newer {
            self.remove(key);
        }
    }
}

} // verus!
