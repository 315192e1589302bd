//! A small map keyed by strings that remembers the order in which its keys
//! were first inserted.

use crate::text::texts;
use vstd::prelude::*;
use vstd::string::*;

verus! {

/// Whether no two positions of `keys` hold the same text.
pub open spec fn distinct(keys: Seq<Seq<char>>) -> bool {
    forall|i: int, j: int| 0 <= i < j < keys.len() ==> keys[i] != keys[j]
}

/// The position of `key` in `keys`, or `keys.len()` where it is absent.
pub open spec fn position_of(keys: Seq<Seq<char>>, key: Seq<char>) -> int
    decreases keys.len(),
{
    if keys.len() == 0 {
        0
    } else if keys[0] == key {
        0
    } else {
        1 + position_of(keys.drop_first(), key)
    }
}

/// `position_of` is the first position that holds `key`.
pub proof fn lemma_position_of(keys: Seq<Seq<char>>, key: Seq<char>)
    ensures
        0 <= position_of(keys, key) <= keys.len(),
        position_of(keys, key) < keys.len() ==> keys[position_of(keys, key)] == key,
        forall|i: int| 0 <= i < position_of(keys, key) ==> keys[i] != key,
        position_of(keys, key) < keys.len() <==> keys.contains(key),
    decreases keys.len(),
{
    if keys.len() > 0 && keys[0] != key {
        let rest = keys.drop_first();
        lemma_position_of(rest, key);
        let p = position_of(rest, key);
        assert forall|i: int| 0 <= i < 1 + p implies keys[i] != key by {
            if i > 0 {
                assert(rest[i - 1] == keys[i]);
            }
        }
        if p < rest.len() {
            assert(rest[p] == keys[p + 1]);
        }
        if keys.contains(key) {
            let w = choose|w: int| 0 <= w < keys.len() && keys[w] == key;
            assert(rest[w - 1] == key);
            assert(rest.contains(key));
        }
    } else if keys.len() > 0 {
        assert(keys[0] == key);
    }
}

/// A map from text to `V`, held as parallel lists of keys and values in the
/// order of first insertion. No key occurs twice.
#[derive(Debug)]
pub struct TextMap<V> {
    keys: Vec<String>,
    values: Vec<V>,
}

impl<V> TextMap<V> {
    /// One value per key, and no key twice. Holds of every map.
    #[verifier::type_invariant]
    pub closed spec fn wf(&self) -> bool {
        &&& self.keys.len() == self.values.len()
        &&& distinct(self.keys())
    }

    /// The keys in the order in which they were first inserted.
    pub closed spec fn keys(&self) -> Seq<Seq<char>> {
        texts(self.keys@)
    }

    /// The values, each at the position of its key.
    pub closed spec fn values(&self) -> Seq<V> {
        self.values@
    }

    /// The map that the entries stand for.
    pub open spec fn view(&self) -> Map<Seq<char>, V> {
        Map::new(
            |k: Seq<char>| self.keys().contains(k),
            |k: Seq<char>| self.values()[position_of(self.keys(), k)],
        )
    }

    /// What well-formedness gives: one value per key, no key twice, and
    /// the view agrees with the two lists position by position.
    pub proof fn lemma_shape(&self)
        requires
            self.wf(),
        ensures
            self.keys().len() == self.values().len(),
            distinct(self.keys()),
            forall|i: int|
                0 <= i < self.keys().len() ==> position_of(self.keys(), #[trigger] self.keys()[i])
                    == i,
            forall|i: int|
                0 <= i < self.keys().len() ==> self@.contains_key(#[trigger] self.keys()[i])
                    && self@[self.keys()[i]] == self.values()[i],
    {
        assert forall|i: int| 0 <= i < self.keys().len() implies position_of(
            self.keys(),
            #[trigger] self.keys()[i],
        ) == i by {
            lemma_position_of(self.keys(), self.keys()[i]);
        }
    }

    /// An empty map.
    pub fn new() -> (out: Self)
        ensures
            out@ == Map::<Seq<char>, V>::empty(),
            out.keys() == Seq::<Seq<char>>::empty(),
            out.values() == Seq::<V>::empty(),
    {
        let out = TextMap { keys: Vec::new(), values: Vec::new() };
        assert(out.keys() =~= Seq::<Seq<char>>::empty());
        assert(out@ =~= Map::<Seq<char>, V>::empty());
        out
    }

    /// The number of keys.
    pub fn len(&self) -> (n: usize)
        ensures
            n == self.keys().len(),
            n == self.values().len(),
    {
        proof {
            use_type_invariant(self);
        }
        self.keys.len()
    }

    /// The position of `key` among the keys, if it is one.
    pub fn position(&self, key: &str) -> (at: Option<usize>)
        ensures
            match at {
                Some(i) => self@.contains_key(key@) && i == position_of(self.keys(), key@) && i
                    < self.keys().len(),
                None => !self@.contains_key(key@),
            },
    {
        proof {
            use_type_invariant(self);
            lemma_position_of(self.keys(), key@);
        }
        let wanted = String::from_str(key);
        let mut i: usize = 0;
        while i < self.keys.len()
            invariant
                i <= self.keys.len(),
                wanted@ == key@,
                forall|j: int| 0 <= j < i ==> self.keys()[j] != key@,
            decreases self.keys.len() - i,
        {
            if self.keys[i] == wanted {
                proof {
                    assert(self.keys()[i as int] == key@);
                    lemma_position_of(self.keys(), key@);
                }
                return Some(i);
            }
            i += 1;
        }
        proof {
            lemma_position_of(self.keys(), key@);
        }
        None
    }

    /// Whether `key` is in the map.
    pub fn contains_key(&self, key: &str) -> (found: bool)
        ensures
            found == self@.contains_key(key@),
    {
        self.position(key).is_some()
    }

    /// The value under `key`.
    pub fn get(&self, key: &str) -> (value: Option<&V>)
        ensures
            match value {
                Some(v) => self@.contains_key(key@) && *v == self@[key@],
                None => !self@.contains_key(key@),
            },
    {
        proof {
            use_type_invariant(self);
        }
        match self.position(key) {
            Some(i) => Some(&self.values[i]),
            None => None,
        }
    }

    /// The key at position `i`.
    pub fn key_at(&self, i: usize) -> (key: &String)
        requires
            i < self.keys().len(),
        ensures
            key@ == self.keys()[i as int],
    {
        &self.keys[i]
    }

    /// The value at position `i`.
    pub fn value_at(&self, i: usize) -> (value: &V)
        requires
            i < self.values().len(),
        ensures
            *value == self.values()[i as int],
    {
        &self.values[i]
    }

    /// Puts `value` under `key`. A key that is already there keeps its
    /// position and gets the new value; a new key goes to the end.
    pub fn insert(&mut self, key: String, value: V)
        ensures
            final(self)@ == old(self)@.insert(key@, value),
            old(self)@.contains_key(key@) ==> final(self).keys() == old(self).keys()
                && final(self).values() == old(self).values().update(
                position_of(old(self).keys(), key@),
                value,
            ),
            !old(self)@.contains_key(key@) ==> final(self).keys() == old(self).keys().push(key@)
                && final(self).values() == old(self).values().push(value),
    {
        proof {
            use_type_invariant(&*self);
            self.lemma_shape();
            lemma_position_of(self.keys(), key@);
        }
        let ghost before = *self;
        let found = self.position(key.as_str());
        let mut taken = TextMap { keys: Vec::new(), values: Vec::new() };
        std::mem::swap(self, &mut taken);
        let mut keys = taken.keys;
        let mut values = taken.values;
        match found {
            Some(i) => {
                values.set(i, value);
            },
            None => {
                keys.push(key);
                values.push(value);
            },
        }
        proof {
            if found is Some {
                assert(texts(keys@) =~= before.keys());
            } else {
                assert(texts(keys@) =~= before.keys().push(key@));
                assert forall|i: int, j: int| 0 <= i < j < texts(keys@).len() implies texts(
                    keys@,
                )[i] != texts(keys@)[j] by {
                    if j == before.keys().len() {
                        assert(before.keys()[i] == texts(keys@)[i]);
                    }
                }
            }
        }
        let after = TextMap { keys, values };
        proof {
            if found is Some {
                assert(after.keys() =~= before.keys());
                assert forall|k: Seq<char>| #[trigger] after@.contains_key(k) implies after@[k]
                    == before@.insert(key@, value)[k] by {
                    lemma_position_of(after.keys(), k);
                }
            } else {
                assert(after.keys() =~= before.keys().push(key@));
                assert forall|k: Seq<char>| #[trigger]
                    before@.insert(key@, value).contains_key(k) implies after@.contains_key(k)
                    && after@[k] == before@.insert(key@, value)[k] by {
                    lemma_position_of(after.keys(), k);
                    lemma_position_of(before.keys(), k);
                    if k == key@ {
                        assert(after.keys()[before.keys().len() as int] == k);
                    } else {
                        let p = position_of(before.keys(), k);
                        assert(after.keys()[p] == k);
                    }
                }
                assert forall|k: Seq<char>| #[trigger] after@.contains_key(k) implies before@.insert(
                    key@,
                    value,
                ).contains_key(k) by {
                    lemma_position_of(after.keys(), k);
                    let p = position_of(after.keys(), k);
                    if p < before.keys().len() {
                        assert(before.keys()[p] == k);
                    }
                }
            }
            assert(after@ =~= before@.insert(key@, value));
        }
        *self = after;
    }
}

} // verus!
