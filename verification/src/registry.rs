//! A table from text keys to values that can be walked in a definite order.
//!
//! The values stand in a vector in the order in which their keys were first added. A `DashMap`
//! gives each key's place in that vector.

use dashmap::DashMap;
use vstd::prelude::*;

verus! {

/// `dashmap::DashMap`, the concurrent hash map.
#[verifier::external_type_specification]
#[verifier::external_body]
#[verifier::reject_recursive_types(K)]
#[verifier::reject_recursive_types(V)]
#[verifier::reject_recursive_types(S)]
pub struct ExDashMap<K, V, S>(DashMap<K, V, S>);

/// What an index holds: the place of each key.
pub uninterp spec fn places(index: DashMap<String, usize>) -> Map<Seq<char>, usize>;

/// `DashMap::new`: an empty map.
#[verifier::external_body]
fn index_new() -> (r: DashMap<String, usize>)
    ensures
        forall|key: Seq<char>| !places(r).contains_key(key),
{
    DashMap::new()
}

/// `DashMap::insert`: sets the value of one key, and changes nothing else.
#[verifier::external_body]
fn index_insert(index: &mut DashMap<String, usize>, key: String, place: usize)
    ensures
        places(*final(index)) == places(*old(index)).insert(key@, place),
{
    index.insert(key, place);
}

/// `DashMap::get`: the value of a key, where the map has the key.
#[verifier::external_body]
fn index_get(index: &DashMap<String, usize>, key: &str) -> (r: Option<usize>)
    ensures
        r is Some == places(*index).contains_key(key@),
        r is Some ==> r->0 == places(*index)[key@],
{
    index.get(key).map(|entry| *entry.value())
}

/// `DashMap::remove`: removes one key, and changes nothing else.
#[verifier::external_body]
fn index_remove(index: &mut DashMap<String, usize>, key: &str)
    ensures
        places(*final(index)) == places(*old(index)).remove(key@),
{
    index.remove(key);
}

/// The keys other than `key`, in their order.
pub open spec fn keys_without(keys: Seq<Seq<char>>, key: Seq<char>) -> Seq<Seq<char>> {
    keys.filter(|k: Seq<char>| k != key)
}

/// Filtering out a key that occurs once removes it from its place.
proof fn lemma_filter_once(keys: Seq<Seq<char>>, place: int, key: Seq<char>)
    requires
        keys.no_duplicates(),
        0 <= place < keys.len(),
        keys[place] == key,
    ensures
        keys_without(keys, key) == keys.remove(place),
    decreases keys.len(),
{
    reveal(Seq::filter);
    let shorter = keys.drop_last();
    if place == keys.len() - 1 {
        lemma_filter_none(shorter, key);
        assert(keys.remove(place) =~= shorter);
    } else {
        assert(shorter.no_duplicates());
        lemma_filter_once(shorter, place, key);
        assert(keys.last() != key);
        assert(keys.remove(place) =~= shorter.remove(place).push(keys.last()));
    }
}

/// Filtering out a key that does not occur changes nothing.
proof fn lemma_filter_none(keys: Seq<Seq<char>>, key: Seq<char>)
    requires
        forall|i: int| 0 <= i < keys.len() ==> keys[i] != key,
    ensures
        keys_without(keys, key) == keys,
    decreases keys.len(),
{
    reveal(Seq::filter);
    if keys.len() > 0 {
        lemma_filter_none(keys.drop_last(), key);
        assert(keys.drop_last().push(keys.last()) =~= keys);
    }
}

/// Leaving a key out leaves the others in place, each as often as it was.
pub proof fn lemma_keys_without(keys: Seq<Seq<char>>, key: Seq<char>)
    requires
        keys.no_duplicates(),
    ensures
        keys_without(keys, key).no_duplicates(),
        forall|k: Seq<char>| #[trigger]
            keys_without(keys, key).contains(k) <==> keys.contains(k) && k != key,
    decreases keys.len(),
{
    reveal(Seq::filter);
    let left = keys_without(keys, key);
    if keys.len() > 0 {
        let shorter = keys.drop_last();
        let rest = keys_without(shorter, key);
        lemma_keys_without(shorter, key);
        assert forall|k: Seq<char>| #[trigger] shorter.contains(k) implies keys.contains(k) && k != keys.last() by {
            let i = shorter.index_of(k);
            assert(keys[i] == k);
        }
        assert forall|k: Seq<char>| #[trigger] keys.contains(k) implies shorter.contains(k) || k == keys.last() by {
            let i = keys.index_of(k);
            if i < shorter.len() {
                assert(shorter[i] == k);
            }
        }
        if keys.last() != key {
            assert(left == rest.push(keys.last()));
            assert(!rest.contains(keys.last()));
            assert forall|k: Seq<char>| #[trigger] left.contains(k) <==> rest.contains(k) || k == keys.last() by {
                if rest.contains(k) {
                    let i = rest.index_of(k);
                    assert(left[i] == k);
                }
                if k == keys.last() {
                    assert(left[rest.len() as int] == k);
                }
            }
            assert forall|i: int, j: int| 0 <= i < left.len() && 0 <= j < left.len() && i != j implies left[i]
                != left[j] by {
                if i == rest.len() {
                    assert(rest.contains(rest[j]));
                } else if j == rest.len() {
                    assert(rest.contains(rest[i]));
                }
            }
        }
    }
}

/// A table from text keys to values.
pub struct Registry<V> {
    index: DashMap<String, usize>,
    entries: Vec<(String, V)>,
}

impl<V> View for Registry<V> {
    type V = Map<Seq<char>, V>;

    closed spec fn view(&self) -> Map<Seq<char>, V> {
        Map::new(
            |key: Seq<char>| places(self.index).contains_key(key),
            |key: Seq<char>| self.entries@[places(self.index)[key] as int].1,
        )
    }
}

impl<V> Registry<V> {
    /// The keys in the order in which they were added.
    pub closed spec fn order(&self) -> Seq<Seq<char>> {
        self.entries@.map_values(|e: (String, V)| e.0@)
    }

    /// Every entry is found under its key, and every key of the index is that of an entry.
    pub closed spec fn wf(&self) -> bool {
        &&& forall|i: int|
            0 <= i < self.entries.len() ==> places(self.index).contains_key(
                (#[trigger] self.entries@[i]).0@,
            ) && places(self.index)[self.entries@[i].0@] == i
        &&& forall|key: Seq<char>| #[trigger]
            places(self.index).contains_key(key) ==> places(self.index)[key] < self.entries.len()
                && self.entries@[places(self.index)[key] as int].0@ == key
    }

    /// The order lists each key of the table once.
    pub proof fn lemma_order(&self)
        requires
            self.wf(),
        ensures
            self.order().no_duplicates(),
            forall|key: Seq<char>| #[trigger] self.order().contains(key) <==> self@.contains_key(key),
            self@.dom() =~= self.order().to_set(),
    {
        let order = self.order();
        assert forall|i: int, j: int| 0 <= i < order.len() && 0 <= j < order.len() && i != j implies order[i]
            != order[j] by {
            assert(order[i] == self.entries@[i].0@);
            assert(order[j] == self.entries@[j].0@);
        }
        assert forall|key: Seq<char>| #[trigger] order.contains(key) <==> self@.contains_key(key) by {
            if self@.contains_key(key) {
                let i = places(self.index)[key] as int;
                assert(order[i] == key);
            }
            if order.contains(key) {
                let i = order.index_of(key);
                assert(order[i] == self.entries@[i].0@);
            }
        }
    }

    /// What the removal of the entry at `place` leaves.
    proof fn lemma_removed(&self, before: Self, place: int, key: Seq<char>)
        requires
            before.wf(),
            0 <= place < before.entries.len(),
            before.entries@[place].0@ == key,
            self.entries@ == before.entries@.remove(place),
            places(self.index).dom() =~= places(before.index).dom().remove(key),
            forall|j: int|
                0 <= j < self.entries.len() ==> places(self.index)[(#[trigger] self.entries@[j]).0@] == j,
        ensures
            self.wf(),
            self@ == before@.remove(key),
            self.order() == keys_without(before.order(), key),
    {
        let all = before.entries@;
        assert forall|j: int| 0 <= j < self.entries.len() implies places(self.index).contains_key(
            (#[trigger] self.entries@[j]).0@,
        ) by {
            let p = if j < place { j } else { j + 1 };
            assert(self.entries@[j] == all[p]);
            assert(places(before.index)[all[p].0@] == p);
            assert(places(before.index)[all[place].0@] == place);
        }
        assert forall|k: Seq<char>| #[trigger] places(self.index).contains_key(k) implies places(self.index)[k]
            < self.entries.len() && self.entries@[places(self.index)[k] as int].0@ == k
            && self.entries@[places(self.index)[k] as int] == all[places(before.index)[k] as int] by {
            assert(places(before.index).contains_key(k));
            let p = places(before.index)[k] as int;
            let j = if p < place { p } else { p - 1 };
            assert(p != place);
            assert(self.entries@[j] == all[p]);
        }
        assert(self@ =~= before@.remove(key));
        before.lemma_order();
        assert(before.order() =~= before.order().take(place).push(key) + before.order().skip(place + 1));
        lemma_filter_once(before.order(), place, key);
        assert(self.order() =~= before.order().remove(place));
    }

    /// An empty table.
    pub fn new() -> (r: Self)
        ensures
            r.wf(),
            r@ == Map::<Seq<char>, V>::empty(),
            r.order() == Seq::<Seq<char>>::empty(),
    {
        let r = Registry { index: index_new(), entries: Vec::new() };
        assert(r@ =~= Map::<Seq<char>, V>::empty());
        assert(r.order() =~= Seq::<Seq<char>>::empty());
        r
    }

    /// The number of keys.
    pub fn len(&self) -> (r: usize)
        requires
            self.wf(),
        ensures
            r == self.order().len(),
    {
        self.entries.len()
    }

    /// Whether the table has this key.
    pub fn contains_key(&self, key: &str) -> (r: bool)
        requires
            self.wf(),
        ensures
            r == self@.contains_key(key@),
    {
        index_get(&self.index, key).is_some()
    }

    /// The value of a key.
    pub fn get(&self, key: &str) -> (r: Option<&V>)
        requires
            self.wf(),
        ensures
            r is Some == self@.contains_key(key@),
            r is Some ==> *r->0 == self@[key@],
    {
        match index_get(&self.index, key) {
            Some(place) => Some(&self.entries[place].1),
            None => None,
        }
    }

    /// The key at a place in the order.
    pub fn key_at(&self, place: usize) -> (r: &String)
        requires
            self.wf(),
            place < self.order().len(),
        ensures
            r@ == self.order()[place as int],
    {
        &self.entries[place].0
    }

    /// The value at a place in the order.
    pub fn value_at(&self, place: usize) -> (r: &V)
        requires
            self.wf(),
            place < self.order().len(),
        ensures
            *r == self@[self.order()[place as int]],
    {
        &self.entries[place].1
    }

    /// Sets the value of a key. A new key comes last in the order.
    pub fn insert(&mut self, key: String, value: V)
        requires
            old(self).wf(),
        ensures
            final(self).wf(),
            final(self)@ == old(self)@.insert(key@, value),
            final(self).order() == (if old(self)@.contains_key(key@) {
                old(self).order()
            } else {
                old(self).order().push(key@)
            }),
    {
        match index_get(&self.index, key.as_str()) {
            Some(place) => {
                let ghost before = self.entries@;
                self.entries[place].1 = value;
                assert(self.entries@ =~= before.update(place as int, (before[place as int].0, value)));
                assert(self.order() =~= old(self).order());
            },
            None => {
                let place: usize = self.entries.len();
                index_insert(&mut self.index, key.clone(), place);
                self.entries.push((key, value));
                assert(self.order() =~= old(self).order().push(key@));
            },
        }
        assert(self@ =~= old(self)@.insert(key@, value));
    }

    /// The value of a key, to be changed in place.
    pub fn get_mut(&mut self, key: &str) -> (r: Option<&mut V>)
        requires
            old(self).wf(),
        ensures
            r is Some == old(self)@.contains_key(key@),
            match r {
                Some(value) => {
                    &&& *value == old(self)@[key@]
                    &&& final(self).wf()
                    &&& final(self)@ == old(self)@.insert(key@, *final(value))
                    &&& final(self).order() == old(self).order()
                },
                None => *final(self) == *old(self),
            },
    {
        match index_get(&self.index, key) {
            Some(place) => Some(&mut self.entries[place].1),
            None => None,
        }
    }

    /// Removes a key and gives its value back. The other keys keep their order.
    pub fn remove(&mut self, key: &str) -> (r: Option<V>)
        requires
            old(self).wf(),
        ensures
            final(self).wf(),
            r is Some == old(self)@.contains_key(key@),
            r is Some ==> r->0 == old(self)@[key@],
            final(self)@ == old(self)@.remove(key@),
            final(self).order() == keys_without(old(self).order(), key@),
    {
        match index_get(&self.index, key) {
            Some(place) => {
                let ghost all = self.entries@;
                let (_, value) = self.entries.remove(place);
                index_remove(&mut self.index, key);
                let mut i: usize = place;
                while i < self.entries.len()
                    invariant
                        old(self).wf(),
                        all == old(self).entries@,
                        place < all.len(),
                        all[place as int].0@ == key@,
                        self.entries@ == all.remove(place as int),
                        place <= i <= self.entries.len(),
                        places(self.index).dom() =~= places(old(self).index).dom().remove(key@),
                        forall|j: int|
                            0 <= j < self.entries.len() ==> places(self.index)[(
                            #[trigger] self.entries@[j]).0@] == (if j < i {
                                j
                            } else {
                                j + 1
                            }),
                    decreases self.entries.len() - i,
                {
                    let moved = self.entries[i].0.clone();
                    let ghost before = places(self.index);
                    index_insert(&mut self.index, moved, i);
                    proof {
                        assert(moved@ == all[i + 1].0@);
                        assert(places(old(self).index)[all[i + 1].0@] == i + 1);
                        assert forall|j: int| 0 <= j < self.entries.len() && j != i implies (
                        #[trigger] self.entries@[j]).0@ != moved@ by {
                            let old_place = if j < place { j } else { j + 1 };
                            assert(self.entries@[j] == all[old_place]);
                            assert(places(old(self).index)[all[old_place].0@] == old_place);
                        }
                    }
                    i = i + 1;
                }
                proof {
                    self.lemma_removed(*old(self), place as int, key@);
                }
                Some(value)
            },
            None => {
                proof {
                    self.lemma_order();
                    assert forall|i: int| 0 <= i < self.order().len() implies self.order()[i] != key@ by {
                        assert(self.order().contains(self.order()[i]));
                    }
                    lemma_filter_none(self.order(), key@);
                    assert(self@ =~= self@.remove(key@));
                }
                None
            },
        }
    }
}

/// The models of the values of a table.
pub open spec fn viewed<V: View>(table: Map<Seq<char>, V>) -> Map<Seq<char>, V::V> {
    Map::new(|key: Seq<char>| table.contains_key(key), |key: Seq<char>| table[key]@)
}

pub broadcast proof fn lemma_viewed_contains<V: View>(table: Map<Seq<char>, V>, key: Seq<char>)
    ensures
        #[trigger] viewed(table).contains_key(key) == table.contains_key(key),
{
}

pub broadcast proof fn lemma_viewed_index<V: View>(table: Map<Seq<char>, V>, key: Seq<char>)
    requires
        table.contains_key(key),
    ensures
        #[trigger] viewed(table)[key] == table[key]@,
{
}

pub broadcast proof fn lemma_viewed_insert<V: View>(table: Map<Seq<char>, V>, key: Seq<char>, value: V)
    ensures
        #[trigger] viewed(table.insert(key, value)) == viewed(table).insert(key, value@),
{
    assert(viewed(table.insert(key, value)) =~= viewed(table).insert(key, value@));
}

pub broadcast proof fn lemma_viewed_remove<V: View>(table: Map<Seq<char>, V>, key: Seq<char>)
    ensures
        #[trigger] viewed(table.remove(key)) == viewed(table).remove(key),
{
    assert(viewed(table.remove(key)) =~= viewed(table).remove(key));
}

pub broadcast proof fn lemma_viewed_empty<V: View>()
    ensures
        #[trigger] viewed(Map::<Seq<char>, V>::empty()) == Map::<Seq<char>, V::V>::empty(),
{
    assert(viewed(Map::<Seq<char>, V>::empty()) =~= Map::<Seq<char>, V::V>::empty());
}

pub broadcast group group_viewed {
    lemma_viewed_contains,
    lemma_viewed_index,
    lemma_viewed_insert,
    lemma_viewed_remove,
    lemma_viewed_empty,
}

} // verus!
