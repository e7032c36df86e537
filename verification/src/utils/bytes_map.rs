//! A map whose keys are byte strings, and a set of byte strings.

use vstd::prelude::*;

verus! {

/// Whether no two pairs have the same key.
pub open spec fn distinct_keys<V>(pairs: Seq<(Vec<u8>, V)>) -> bool {
    forall|i: int, j: int|
        0 <= i < j < pairs.len() ==> (#[trigger] pairs[i]).0@ != (#[trigger] pairs[j]).0@
}

/// Where a key stands among pairs.
pub open spec fn at_key<V>(pairs: Seq<(Vec<u8>, V)>, i: int, key: Seq<u8>) -> bool {
    0 <= i < pairs.len() && pairs[i].0@ == key
}

/// The map that pairs with distinct keys make.
pub open spec fn map_of<V>(pairs: Seq<(Vec<u8>, V)>) -> Map<Seq<u8>, V> {
    Map::new(
        |key: Seq<u8>| exists|i: int| at_key(pairs, i, key),
        |key: Seq<u8>| pairs[choose|i: int| at_key(pairs, i, key)].1,
    )
}

/// A map from byte strings, as a list of pairs with distinct keys.
#[derive(Debug)]
pub struct BytesMap<V> {
    pairs: Vec<(Vec<u8>, V)>,
}

impl<V> View for BytesMap<V> {
    type V = Map<Seq<u8>, V>;

    closed spec fn view(&self) -> Map<Seq<u8>, V> {
        map_of(self.pairs@)
    }
}

/// The value at a position of pairs with distinct keys is the value under its key.
proof fn lemma_map_of_at<V>(pairs: Seq<(Vec<u8>, V)>, i: int)
    requires
        distinct_keys(pairs),
        0 <= i < pairs.len(),
    ensures
        map_of(pairs).contains_key(pairs[i].0@),
        map_of(pairs)[pairs[i].0@] == pairs[i].1,
{
    assert(at_key(pairs, i, pairs[i].0@));
}

/// Such a map is finite, and as large as the list is long.
proof fn lemma_map_of_len<V>(pairs: Seq<(Vec<u8>, V)>)
    requires
        distinct_keys(pairs),
    ensures
        map_of(pairs).dom().finite(),
        map_of(pairs).len() == pairs.len(),
{
    let keys = pairs.map_values(|pair: (Vec<u8>, V)| pair.0@);
    assert(keys.no_duplicates());
    keys.unique_seq_to_set();
    assert(keys.to_set() =~= map_of(pairs).dom()) by {
        assert forall|key: Seq<u8>| map_of(pairs).contains_key(key) implies keys.to_set().contains(
            key,
        ) by {
            let i = choose|i: int| at_key(pairs, i, key);
            assert(keys[i] == key);
        }
        assert forall|key: Seq<u8>| keys.to_set().contains(key) implies map_of(pairs).contains_key(
            key,
        ) by {
            let i = choose|i: int| 0 <= i < keys.len() && keys[i] == key;
            assert(at_key(pairs, i, key));
        }
    }
}

impl<V> BytesMap<V> {
    /// No two pairs have the same key.
    pub closed spec fn inv(&self) -> bool {
        distinct_keys(self.pairs@)
    }

    /// The keys in the order in which they are listed.
    pub closed spec fn key_order(&self) -> Seq<Seq<u8>> {
        self.pairs@.map_values(|pair: (Vec<u8>, V)| pair.0@)
    }

    /// The keys are listed once each.
    pub proof fn lemma_key_order(&self)
        requires
            self.inv(),
        ensures
            self.key_order().no_duplicates(),
            self.key_order().to_set() == self@.dom(),
            self.key_order().len() == self@.len(),
            self@.dom().finite(),
    {
        lemma_map_of_len(self.pairs@);
        let order = self.key_order();
        assert forall|key: Seq<u8>| order.to_set().contains(key) == self@.contains_key(key) by {
            if order.to_set().contains(key) {
                let i = choose|i: int| 0 <= i < order.len() && order[i] == key;
                assert(at_key(self.pairs@, i, key));
            }
            if self@.contains_key(key) {
                let i = choose|i: int| at_key(self.pairs@, i, key);
                assert(order[i] == key);
            }
        }
        assert(order.to_set() =~= self@.dom());
    }

    /// An empty map.
    pub fn new() -> (map: BytesMap<V>)
        ensures
            map.inv(),
            map@ == Map::<Seq<u8>, V>::empty(),
    {
        let map = BytesMap { pairs: Vec::new() };
        assert(map@ =~= Map::<Seq<u8>, V>::empty());
        map
    }

    /// The number of keys.
    pub fn len(&self) -> (len: usize)
        requires
            self.inv(),
        ensures
            len == self@.len(),
            len == self.key_order().len(),
            self@.dom().finite(),
    {
        proof {
            lemma_map_of_len(self.pairs@);
        }
        self.pairs.len()
    }

    /// The pair that is listed at a position.
    pub fn at(&self, i: usize) -> (pair: &(Vec<u8>, V))
        requires
            self.inv(),
            i < self.key_order().len(),
        ensures
            pair.0@ == self.key_order()[i as int],
            self@.contains_pair(pair.0@, pair.1),
    {
        proof {
            lemma_map_of_at(self.pairs@, i as int);
        }
        &self.pairs[i]
    }

    /// Where a key is listed.
    fn position(&self, key: &Vec<u8>) -> (found: Option<usize>)
        requires
            self.inv(),
        ensures
            match found {
                Some(i) => at_key(self.pairs@, i as int, key@),
                None => !self@.contains_key(key@),
            },
    {
        let mut i: usize = 0;
        while i < self.pairs.len()
            invariant
                i <= self.pairs.len(),
                forall|j: int| 0 <= j < i ==> !#[trigger] at_key(self.pairs@, j, key@),
            decreases self.pairs.len() - i,
        {
            let listed = &self.pairs[i].0;
            if *listed == *key {
                assert(listed@ =~= key@);
                return Some(i);
            }
            assert(listed@ != key@);
            i = i + 1;
        }
        None
    }

    /// Whether a key is there.
    pub fn contains_key(&self, key: &Vec<u8>) -> (found: bool)
        requires
            self.inv(),
        ensures
            found == self@.contains_key(key@),
    {
        match self.position(key) {
            Some(i) => {
                assert(at_key(self.pairs@, i as int, key@));
                true
            },
            None => false,
        }
    }

    /// The value under a key.
    pub fn get(&self, key: &Vec<u8>) -> (found: Option<&V>)
        requires
            self.inv(),
        ensures
            match found {
                Some(value) => self@.contains_pair(key@, *value),
                None => !self@.contains_key(key@),
            },
    {
        match self.position(key) {
            Some(i) => {
                proof {
                    lemma_map_of_at(self.pairs@, i as int);
                }
                Some(&self.pairs[i].1)
            },
            None => None,
        }
    }

    /// Puts a value under a key; hands out the one that was there.
    pub fn insert(&mut self, key: Vec<u8>, value: V) -> (replaced: Option<V>)
        requires
            old(self).inv(),
        ensures
            final(self).inv(),
            final(self)@ == old(self)@.insert(key@, value),
            match replaced {
                Some(before) => old(self)@.contains_pair(key@, before),
                None => !old(self)@.contains_key(key@),
            },
    {
        let found = self.position(&key);
        match found {
            Some(i) => {
                proof {
                    lemma_map_of_at(self.pairs@, i as int);
                }
                let mut pair = (key, value);
                let ghost before = self.pairs@;
                std::mem::swap(&mut self.pairs[i], &mut pair);
                proof {
                    lemma_update(before, i as int, self.pairs@[i as int]);
                    assert(self.pairs@ =~= before.update(i as int, self.pairs@[i as int]));
                }
                Some(pair.1)
            },
            None => {
                let ghost before = self.pairs@;
                self.pairs.push((key, value));
                proof {
                    lemma_push(before, self.pairs@.last());
                }
                None
            },
        }
    }

    /// Removes a key; hands out its value.
    pub fn remove(&mut self, key: &Vec<u8>) -> (removed: Option<V>)
        requires
            old(self).inv(),
        ensures
            final(self).inv(),
            final(self)@ == old(self)@.remove(key@),
            match removed {
                Some(value) => old(self)@.contains_pair(key@, value),
                None => !old(self)@.contains_key(key@),
            },
    {
        match self.position(key) {
            Some(i) => {
                proof {
                    lemma_map_of_at(self.pairs@, i as int);
                    lemma_removed(self.pairs@, i as int);
                }
                let pair = self.pairs.remove(i);
                Some(pair.1)
            },
            None => {
                assert(self@ =~= old(self)@.remove(key@));
                None
            },
        }
    }
}

impl<V> BytesMap<V> {
    /// Takes a pair out, whichever is listed last.
    pub fn pop(&mut self) -> (popped: Option<(Vec<u8>, V)>)
        requires
            old(self).inv(),
        ensures
            final(self).inv(),
            match popped {
                Some(pair) => old(self)@.contains_pair(pair.0@, pair.1) && final(self)@ == old(self)@.remove(pair.0@) && final(self).key_order().len() + 1 == old(self).key_order().len(),
                None => old(self)@ == Map::<Seq<u8>, V>::empty() && final(self)@ == old(self)@
                    && final(self).key_order() == old(self).key_order(),
            },
    {
        let ghost before = self.pairs@;
        match self.pairs.pop() {
            Some(pair) => {
                proof {
                    let last = before.len() - 1;
                    lemma_map_of_at(before, last);
                    lemma_removed(before, last);
                    assert(self.pairs@ =~= before.remove(last));
                }
                Some(pair)
            },
            None => {
                assert(self@ =~= Map::<Seq<u8>, V>::empty());
                None
            },
        }
    }
}

impl<V: Clone> Clone for BytesMap<V> {
    fn clone(&self) -> (copy: BytesMap<V>)
        ensures
            self.inv() ==> copy.inv(),
            copy.key_order() == self.key_order(),
            self.inv() ==> copy@.dom() == self@.dom(),
            self.inv() ==> forall|key: Seq<u8>| #[trigger]
                self@.contains_key(key) ==> cloned(self@[key], copy@[key]),
    {
        let mut pairs: Vec<(Vec<u8>, V)> = Vec::new();
        let mut i: usize = 0;
        while i < self.pairs.len()
            invariant
                i <= self.pairs.len(),
                pairs@.len() == i,
                forall|j: int|
                    0 <= j < i ==> (#[trigger] pairs@[j]).0@ == self.pairs@[j].0@ && cloned(
                        self.pairs@[j].1,
                        pairs@[j].1,
                    ),
            decreases self.pairs.len() - i,
        {
            let key = self.pairs[i].0.clone();
            assert(key@ =~= self.pairs@[i as int].0@);
            let value = self.pairs[i].1.clone();
            pairs.push((key, value));
            i = i + 1;
        }
        let copy = BytesMap { pairs };
        proof {
            assert(copy.key_order() =~= self.key_order());
            if self.inv() {
                assert forall|j: int, k: int| 0 <= j < k < pairs@.len() implies (
                #[trigger] pairs@[j]).0@ != (#[trigger] pairs@[k]).0@ by {
                    assert(self.pairs@[j].0@ != self.pairs@[k].0@);
                }
                self.lemma_key_order();
                copy.lemma_key_order();
                assert forall|key: Seq<u8>| #[trigger] self@.contains_key(key) implies cloned(
                    self@[key],
                    copy@[key],
                ) by {
                    let j = choose|j: int| at_key(self.pairs@, j, key);
                    lemma_map_of_at(self.pairs@, j);
                    lemma_map_of_at(pairs@, j);
                }
            }
        }
        copy
    }
}

/// Replacing a pair by one with the same key replaces the value under the key.
proof fn lemma_update<V>(pairs: Seq<(Vec<u8>, V)>, i: int, pair: (Vec<u8>, V))
    requires
        distinct_keys(pairs),
        0 <= i < pairs.len(),
        pairs[i].0@ == pair.0@,
    ensures
        distinct_keys(pairs.update(i, pair)),
        map_of(pairs.update(i, pair)) == map_of(pairs).insert(pair.0@, pair.1),
{
    let after = pairs.update(i, pair);
    assert(distinct_keys(after));
    assert forall|key: Seq<u8>| #[trigger]
        map_of(after).contains_key(key) == map_of(pairs).insert(pair.0@, pair.1).contains_key(
            key,
        ) by {
        if map_of(after).contains_key(key) {
            let j = choose|j: int| at_key(after, j, key);
            assert(at_key(pairs, j, key));
        }
        if map_of(pairs).contains_key(key) {
            let j = choose|j: int| at_key(pairs, j, key);
            assert(at_key(after, j, key));
        }
        assert(at_key(after, i, pair.0@));
    }
    assert forall|key: Seq<u8>| map_of(after).contains_key(key) implies #[trigger] map_of(after)[key]
        == map_of(pairs).insert(pair.0@, pair.1)[key] by {
        let j = choose|j: int| at_key(after, j, key);
        lemma_map_of_at(after, j);
        lemma_map_of_at(pairs, j);
        lemma_map_of_at(after, i);
    }
    assert(map_of(after) =~= map_of(pairs).insert(pair.0@, pair.1));
}

/// Listing a pair with a new key adds the key.
proof fn lemma_push<V>(pairs: Seq<(Vec<u8>, V)>, pair: (Vec<u8>, V))
    requires
        distinct_keys(pairs),
        !map_of(pairs).contains_key(pair.0@),
    ensures
        distinct_keys(pairs.push(pair)),
        map_of(pairs.push(pair)) == map_of(pairs).insert(pair.0@, pair.1),
{
    let after = pairs.push(pair);
    assert forall|i: int, j: int| 0 <= i < j < after.len() implies (#[trigger] after[i]).0@
        != (#[trigger] after[j]).0@ by {
        if j == pairs.len() {
            assert(!at_key(pairs, i, pair.0@));
        }
    }
    assert forall|key: Seq<u8>| #[trigger]
        map_of(after).contains_key(key) == map_of(pairs).insert(pair.0@, pair.1).contains_key(
            key,
        ) by {
        if map_of(after).contains_key(key) {
            let j = choose|j: int| at_key(after, j, key);
            if j < pairs.len() {
                assert(at_key(pairs, j, key));
            }
        }
        if map_of(pairs).contains_key(key) {
            let j = choose|j: int| at_key(pairs, j, key);
            assert(at_key(after, j, key));
        }
        assert(at_key(after, pairs.len() as int, pair.0@));
    }
    assert forall|key: Seq<u8>| map_of(after).contains_key(key) implies #[trigger] map_of(after)[key]
        == map_of(pairs).insert(pair.0@, pair.1)[key] by {
        let j = choose|j: int| at_key(after, j, key);
        lemma_map_of_at(after, j);
        if j < pairs.len() {
            lemma_map_of_at(pairs, j);
        }
    }
    assert(map_of(after) =~= map_of(pairs).insert(pair.0@, pair.1));
}

/// Striking a pair out removes its key.
proof fn lemma_removed<V>(pairs: Seq<(Vec<u8>, V)>, i: int)
    requires
        distinct_keys(pairs),
        0 <= i < pairs.len(),
    ensures
        distinct_keys(pairs.remove(i)),
        map_of(pairs.remove(i)) == map_of(pairs).remove(pairs[i].0@),
{
    let after = pairs.remove(i);
    assert forall|j: int| 0 <= j < after.len() implies #[trigger] after[j] == pairs[if j < i {
        j
    } else {
        j + 1
    }] by {}
    assert(distinct_keys(after));
    assert forall|key: Seq<u8>| #[trigger]
        map_of(after).contains_key(key) == map_of(pairs).remove(pairs[i].0@).contains_key(key) by {
        if map_of(after).contains_key(key) {
            let j = choose|j: int| at_key(after, j, key);
            let k = if j < i {
                j
            } else {
                j + 1
            };
            assert(at_key(pairs, k, key));
        }
        if map_of(pairs).remove(pairs[i].0@).contains_key(key) {
            let k = choose|k: int| at_key(pairs, k, key);
            let j = if k < i {
                k
            } else {
                k - 1
            };
            assert(at_key(after, j, key));
        }
    }
    assert forall|key: Seq<u8>| map_of(after).contains_key(key) implies #[trigger] map_of(after)[key]
        == map_of(pairs).remove(pairs[i].0@)[key] by {
        let j = choose|j: int| at_key(after, j, key);
        lemma_map_of_at(after, j);
        let k = if j < i {
            j
        } else {
            j + 1
        };
        lemma_map_of_at(pairs, k);
    }
    assert(map_of(after) =~= map_of(pairs).remove(pairs[i].0@));
}

} // verus!
