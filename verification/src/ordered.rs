//! A small map kept in the order of its keys.

use vstd::prelude::*;

verus! {

/// A key with a total order, given by the integer it is ranked at.
pub trait OrderedKey: Copy + Sized {
    /// The place of the key in the order of all keys of its type.
    spec fn rank(self) -> int;

    /// No two keys share a rank.
    proof fn rank_is_injective(a: Self, b: Self)
        requires
            a.rank() == b.rank(),
        ensures
            a == b,
    ;

    /// Whether `self` comes strictly before `other`.
    fn precedes(&self, other: &Self) -> (before: bool)
        ensures
            before == (self.rank() < other.rank()),
    ;
}

/// The keys stand in strictly ascending order.
pub open spec fn ascending<K: OrderedKey>(keys: Seq<K>) -> bool {
    forall|i: int, j: int| 0 <= i < j < keys.len() ==> #[trigger] keys[i].rank() < #[trigger] keys[j].rank()
}

/// The members of a finite set of keys, in ascending order.
pub open spec fn ordered_keys<K: OrderedKey>(keys: Set<K>) -> Seq<K> {
    choose|order: Seq<K>| ascending(order) && #[trigger] order.to_set() == keys
}

/// `key` comes before every other member of `keys`.
pub open spec fn is_first<K: OrderedKey>(keys: Set<K>, key: K) -> bool {
    &&& keys.contains(key)
    &&& forall|other: K| #[trigger] keys.contains(other) ==> key.rank() <= other.rank()
}

/// The member of `keys` that comes before every other one.
pub open spec fn first_of<K: OrderedKey>(keys: Set<K>) -> K {
    choose|key: K| is_first(keys, key)
}

/// `key` comes after every other member of `keys`.
pub open spec fn is_last<K: OrderedKey>(keys: Set<K>, key: K) -> bool {
    &&& keys.contains(key)
    &&& forall|other: K| #[trigger] keys.contains(other) ==> other.rank() <= key.rank()
}

/// The member of `keys` that comes after every other one.
pub open spec fn last_of<K: OrderedKey>(keys: Set<K>) -> K {
    choose|key: K| is_last(keys, key)
}

/// `first_of` is the only first member.
pub proof fn lemma_first_of<K: OrderedKey>(keys: Set<K>, key: K)
    requires
        is_first(keys, key),
    ensures
        first_of(keys) == key,
{
    let other = first_of(keys);
    assert(is_first(keys, other));
    K::rank_is_injective(key, other);
}

/// Among some keys there is a first one.
pub proof fn lemma_first_exists<K: OrderedKey>(keys: Set<K>)
    requires
        keys.finite(),
        keys.len() > 0,
    ensures
        is_first(keys, first_of(keys)),
    decreases keys.len(),
{
    let key = keys.choose();
    let rest = keys.remove(key);
    if rest.len() == 0 {
        assert forall|other: K| #[trigger] keys.contains(other) implies key.rank() <= other.rank() by {
            if other != key {
                assert(rest.contains(other));
            }
        }
        assert(is_first(keys, key));
    } else {
        lemma_first_exists(rest);
        let first = if key.rank() <= first_of(rest).rank() {
            key
        } else {
            first_of(rest)
        };
        assert forall|other: K| #[trigger] keys.contains(other) implies first.rank() <= other.rank() by {
            if other != key {
                assert(rest.contains(other));
            }
        }
        assert(is_first(keys, first));
    }
}

/// `last_of` is the only last member.
pub proof fn lemma_last_of<K: OrderedKey>(keys: Set<K>, key: K)
    requires
        is_last(keys, key),
    ensures
        last_of(keys) == key,
{
    let other = last_of(keys);
    assert(is_last(keys, other));
    K::rank_is_injective(key, other);
}

/// No entry of `map` measures less than the one of `key`; of two that measure the same it is the one
/// whose key comes first.
pub open spec fn is_least<K: OrderedKey, V>(map: Map<K, V>, measure: spec_fn(V) -> u64, key: K) -> bool {
    &&& map.contains_key(key)
    &&& forall|other: K| #[trigger] map.contains_key(other) ==> {
        ||| measure(map[key]) < measure(map[other])
        ||| measure(map[key]) == measure(map[other]) && key.rank() <= other.rank()
    }
}

/// The key of the entry that measures least.
pub open spec fn least_of<K: OrderedKey, V>(map: Map<K, V>, measure: spec_fn(V) -> u64) -> K {
    choose|key: K| is_least(map, measure, key)
}

/// Two entries cannot both be the least.
pub proof fn lemma_least_of<K: OrderedKey, V>(map: Map<K, V>, measure: spec_fn(V) -> u64, key: K)
    requires
        is_least(map, measure, key),
    ensures
        least_of(map, measure) == key,
{
    let other = least_of(map, measure);
    assert(is_least(map, measure, other));
    K::rank_is_injective(key, other);
}

/// Among some entries there is a least one.
pub proof fn lemma_least_exists<K: OrderedKey, V>(map: Map<K, V>, measure: spec_fn(V) -> u64)
    requires
        map.dom().finite(),
        map.dom().len() > 0,
    ensures
        is_least(map, measure, least_of(map, measure)),
    decreases map.dom().len(),
{
    let key = map.dom().choose();
    assert(map.contains_key(key));
    let rest = map.remove(key);
    if rest.dom().len() == 0 {
        assert forall|other: K| #[trigger] map.contains_key(other) implies other == key by {
            if other != key {
                assert(rest.dom().contains(other));
            }
        }
        assert(is_least(map, measure, key));
    } else {
        lemma_least_exists(rest, measure);
        let found = least_of(rest, measure);
        let least = if measure(map[key]) < measure(map[found]) || (measure(map[key]) == measure(map[found])
            && key.rank() <= found.rank()) {
            key
        } else {
            found
        };
        assert forall|other: K| #[trigger] map.contains_key(other) implies {
            ||| measure(map[least]) < measure(map[other])
            ||| measure(map[least]) == measure(map[other]) && least.rank() <= other.rank()
        } by {
            if other != key {
                assert(rest.contains_key(other));
            }
        }
        assert(is_least(map, measure, least));
    }
}

/// Two ascending sequences with the same members are the same sequence.
pub proof fn lemma_ascending_unique<K: OrderedKey>(a: Seq<K>, b: Seq<K>)
    requires
        ascending(a),
        ascending(b),
        a.to_set() == b.to_set(),
    ensures
        a == b,
    decreases a.len(),
{
    if a.len() == 0 {
        if b.len() > 0 {
            assert(b.to_set().contains(b[0]));
            assert(a.to_set().contains(b[0]));
        }
        assert(a =~= b);
    } else {
        assert(a.to_set().contains(a.last()));
        assert(b.contains(a.last()));
        assert(b.to_set().contains(b.last()));
        assert(a.contains(b.last()));
        let i = choose|i: int| 0 <= i < b.len() && b[i] == a.last();
        let j = choose|j: int| 0 <= j < a.len() && a[j] == b.last();
        assert(a[j].rank() <= a.last().rank());
        assert(b[i].rank() <= b.last().rank());
        K::rank_is_injective(a.last(), b.last());
        let a0 = a.drop_last();
        let b0 = b.drop_last();
        assert forall|k: K| a0.to_set().contains(k) implies b0.to_set().contains(k) by {
            let n = choose|n: int| 0 <= n < a0.len() && a0[n] == k;
            assert(a[n] == k);
            assert(a.to_set().contains(k));
            assert(b.to_set().contains(k));
            let m = choose|m: int| 0 <= m < b.len() && b[m] == k;
            assert(a[n].rank() < a.last().rank());
            assert(m < b.len() - 1);
            assert(b0[m] == k);
        }
        assert forall|k: K| b0.to_set().contains(k) implies a0.to_set().contains(k) by {
            let n = choose|n: int| 0 <= n < b0.len() && b0[n] == k;
            assert(b[n] == k);
            assert(b.to_set().contains(k));
            assert(a.to_set().contains(k));
            let m = choose|m: int| 0 <= m < a.len() && a[m] == k;
            assert(b[n].rank() < b.last().rank());
            assert(m < a.len() - 1);
            assert(a0[m] == k);
        }
        assert(a0.to_set() =~= b0.to_set());
        lemma_ascending_unique(a0, b0);
        assert(a =~= a0.push(a.last()));
        assert(b =~= b0.push(b.last()));
    }
}

/// The sum of a weight over the values of a finite map.
pub open spec fn total<K, V>(map: Map<K, V>, weight: spec_fn(V) -> nat) -> nat
    decreases map.dom().len(),
    when map.dom().finite()
{
    if map.dom().len() == 0 {
        0
    } else {
        let key = map.dom().choose();
        weight(map[key]) + total(map.remove(key), weight)
    }
}

/// The sum over a map is the weight of any one value plus the sum over the others.
pub proof fn lemma_total_remove<K, V>(map: Map<K, V>, key: K, weight: spec_fn(V) -> nat)
    requires
        map.dom().finite(),
        map.contains_key(key),
    ensures
        total(map, weight) == weight(map[key]) + total(map.remove(key), weight),
    decreases map.dom().len(),
{
    let first = map.dom().choose();
    assert(map.dom().contains(key));
    if first != key {
        lemma_total_remove(map.remove(first), key, weight);
        lemma_total_remove(map.remove(key), first, weight);
        assert(map.remove(first).remove(key) =~= map.remove(key).remove(first));
    }
}

/// How the sum changes when a value is written.
pub proof fn lemma_total_insert<K, V>(map: Map<K, V>, key: K, value: V, weight: spec_fn(V) -> nat)
    requires
        map.dom().finite(),
    ensures
        total(map.insert(key, value), weight) == weight(value) + total(map.remove(key), weight),
        !map.contains_key(key) ==> total(map.insert(key, value), weight) == weight(value) + total(map, weight),
{
    lemma_total_remove(map.insert(key, value), key, weight);
    assert(map.insert(key, value).remove(key) =~= map.remove(key));
    if !map.contains_key(key) {
        assert(map.remove(key) =~= map);
    }
}

/// The sum over a part of a map, with no weight higher, is no higher than the sum over the map.
pub proof fn lemma_total_monotone<K, V>(part: Map<K, V>, map: Map<K, V>, weight: spec_fn(V) -> nat)
    requires
        map.dom().finite(),
        part.dom().subset_of(map.dom()),
        forall|key: K| #[trigger] part.contains_key(key) ==> weight(part[key]) <= weight(map[key]),
    ensures
        part.dom().finite(),
        total(part, weight) <= total(map, weight),
    decreases map.dom().len(),
{
    vstd::set_lib::lemma_len_subset(part.dom(), map.dom());
    if part.dom().len() > 0 {
        let key = part.dom().choose();
        assert(part.contains_key(key));
        lemma_total_remove(map, key, weight);
        lemma_total_monotone(part.remove(key), map.remove(key), weight);
    }
}

/// A sum of nothings is nothing.
pub proof fn lemma_total_zero<K, V>(map: Map<K, V>, weight: spec_fn(V) -> nat)
    requires
        map.dom().finite(),
        forall|key: K| #[trigger] map.contains_key(key) ==> weight(map[key]) == 0,
    ensures
        total(map, weight) == 0,
    decreases map.dom().len(),
{
    if map.dom().len() > 0 {
        let key = map.dom().choose();
        assert(map.contains_key(key));
        lemma_total_zero(map.remove(key), weight);
    }
}

/// The sum of a weight over the values under some keys.
pub open spec fn total_along<K, V>(map: Map<K, V>, keys: Seq<K>, weight: spec_fn(V) -> nat) -> nat
    decreases keys.len(),
{
    if keys.len() == 0 {
        0
    } else {
        total_along(map, keys.drop_last(), weight) + weight(map[keys.last()])
    }
}

proof fn lemma_total_along_same<K, V>(a: Map<K, V>, b: Map<K, V>, keys: Seq<K>, weight: spec_fn(V) -> nat)
    requires
        forall|i: int| 0 <= i < keys.len() ==> a[#[trigger] keys[i]] == b[keys[i]],
    ensures
        total_along(a, keys, weight) == total_along(b, keys, weight),
    decreases keys.len(),
{
    if keys.len() > 0 {
        lemma_total_along_same(a, b, keys.drop_last(), weight);
    }
}

/// Adding up along all keys of a map, each once, gives the sum over the map.
pub proof fn lemma_total_along<K, V>(map: Map<K, V>, keys: Seq<K>, weight: spec_fn(V) -> nat)
    requires
        keys.no_duplicates(),
        keys.to_set() == map.dom(),
    ensures
        map.dom().finite(),
        total(map, weight) == total_along(map, keys, weight),
    decreases keys.len(),
{
    vstd::seq_lib::seq_to_set_is_finite(keys);
    keys.unique_seq_to_set();
    if keys.len() > 0 {
        let last = keys.last();
        let rest = keys.drop_last();
        assert(keys.to_set().contains(last));
        assert forall|key: K| rest.to_set().contains(key) <==> map.remove(last).dom().contains(key) by {
            if rest.to_set().contains(key) {
                let i = choose|i: int| 0 <= i < rest.len() && rest[i] == key;
                assert(keys[i] == key);
                assert(keys.to_set().contains(key));
            }
            if map.remove(last).dom().contains(key) {
                assert(keys.to_set().contains(key));
                let i = choose|i: int| 0 <= i < keys.len() && keys[i] == key;
                assert(rest[i] == key);
            }
        }
        assert(rest.to_set() =~= map.remove(last).dom());
        lemma_total_along(map.remove(last), rest, weight);
        lemma_total_remove(map, last, weight);
        lemma_total_along_same(map, map.remove(last), rest, weight);
    }
}

/// A map whose entries are stored in ascending order of their keys.
pub struct OrderedMap<K: OrderedKey, V> {
    entries: Vec<(K, V)>,
}

impl<K: OrderedKey, V> View for OrderedMap<K, V> {
    type V = Map<K, V>;

    closed spec fn view(&self) -> Map<K, V> {
        Map::new(
            |key: K| exists|i: int| 0 <= i < self.entries@.len() && #[trigger] self.entries@[i].0 == key,
            |key: K| self.entries@[choose|i: int| 0 <= i < self.entries@.len() && #[trigger] self.entries@[i].0 == key].1,
        )
    }
}

impl<K: OrderedKey, V> OrderedMap<K, V> {
    /// The keys in the order in which the entries are stored.
    pub closed spec fn keys(&self) -> Seq<K> {
        Seq::new(self.entries@.len(), |i: int| self.entries@[i].0)
    }

    /// The entries stand in strictly ascending order of their keys.
    pub closed spec fn wf(&self) -> bool {
        forall|i: int, j: int| 0 <= i < j < self.entries@.len()
            ==> #[trigger] self.entries@[i].0.rank() < #[trigger] self.entries@[j].0.rank()
    }

    proof fn lemma_entry(&self, i: int)
        requires
            self.wf(),
            0 <= i < self.entries@.len(),
        ensures
            self@.contains_key(self.entries@[i].0),
            self@[self.entries@[i].0] == self.entries@[i].1,
    {
        let key = self.entries@[i].0;
        let j = choose|j: int| 0 <= j < self.entries@.len() && #[trigger] self.entries@[j].0 == key;
        assert(self.entries@[i].0 == key);
        assert(0 <= j < self.entries@.len() && self.entries@[j].0 == key);
        if i < j {
            assert(self.entries@[i].0.rank() < self.entries@[j].0.rank());
        }
        if j < i {
            assert(self.entries@[j].0.rank() < self.entries@[i].0.rank());
        }
    }

    /// The stored keys are exactly the domain, each once, in ascending order.
    pub proof fn lemma_keys(&self)
        requires
            self.wf(),
        ensures
            ascending(self.keys()),
            self.keys().to_set() == self@.dom(),
            self.keys() == ordered_keys(self@.dom()),
            self.keys().no_duplicates(),
            self@.dom().finite(),
            self@.dom().len() == self.keys().len(),
            self.keys().len() <= usize::MAX,
            forall|i: int| 0 <= i < self.keys().len() ==> self@.contains_key(#[trigger] self.keys()[i]),
    {
        let keys = self.keys();
        assert(keys.len() == self.entries.len());
        assert(ascending(keys));
        assert forall|key: K| keys.to_set().contains(key) <==> self@.dom().contains(key) by {
            if keys.to_set().contains(key) {
                let i = choose|i: int| 0 <= i < keys.len() && keys[i] == key;
                assert(self.entries@[i].0 == key);
            }
            if self@.dom().contains(key) {
                let i = choose|i: int| 0 <= i < self.entries@.len() && #[trigger] self.entries@[i].0 == key;
                assert(keys[i] == key);
            }
        }
        assert(keys.to_set() =~= self@.dom());
        lemma_ascending_unique(keys, ordered_keys(self@.dom()));
        assert forall|i: int, j: int| 0 <= i < keys.len() && 0 <= j < keys.len() && i != j implies keys[i] != keys[j] by {
            if i < j {
                assert(keys[i].rank() < keys[j].rank());
            } else {
                assert(keys[j].rank() < keys[i].rank());
            }
        }
        keys.unique_seq_to_set();
        vstd::seq_lib::seq_to_set_is_finite(keys);
        assert forall|i: int| 0 <= i < keys.len() implies self@.contains_key(#[trigger] keys[i]) by {
            self.lemma_entry(i);
        }
    }

    /// An empty map.
    pub fn new() -> (map: Self)
        ensures
            map.wf(),
            map@ == Map::<K, V>::empty(),
    {
        let map = OrderedMap { entries: Vec::new() };
        assert(map@ =~= Map::<K, V>::empty());
        map
    }

    /// How many entries the map holds.
    pub fn len(&self) -> (len: usize)
        requires
            self.wf(),
        ensures
            len == self@.dom().len(),
            len == self.keys().len(),
    {
        proof {
            self.lemma_keys();
        }
        self.entries.len()
    }

    /// The number of entries whose key comes before `key`.
    fn position(&self, key: &K) -> (index: usize)
        requires
            self.wf(),
        ensures
            index <= self.entries@.len(),
            forall|i: int| 0 <= i < index ==> #[trigger] self.entries@[i].0.rank() < key.rank(),
            forall|i: int| index <= i < self.entries@.len() ==> #[trigger] self.entries@[i].0.rank() >= key.rank(),
    {
        let mut index: usize = 0;
        while index < self.entries.len() && self.entries[index].0.precedes(key)
            invariant
                self.wf(),
                index <= self.entries@.len(),
                forall|i: int| 0 <= i < index ==> #[trigger] self.entries@[i].0.rank() < key.rank(),
            decreases self.entries@.len() - index,
        {
            index += 1;
        }
        index
    }

    /// Where `key` is stored, if it is.
    fn find(&self, key: &K) -> (found: Option<usize>)
        requires
            self.wf(),
        ensures
            match found {
                Some(i) => i < self.entries@.len() && self.entries@[i as int].0 == *key && self@.contains_key(*key)
                    && self@[*key] == self.entries@[i as int].1,
                None => !self@.contains_key(*key),
            },
    {
        let index: usize = self.position(key);
        if index < self.entries.len() && !key.precedes(&self.entries[index].0) {
            proof {
                K::rank_is_injective(*key, self.entries@[index as int].0);
                self.lemma_entry(index as int);
            }
            Some(index)
        } else {
            proof {
                if self@.contains_key(*key) {
                    let i = choose|i: int| 0 <= i < self.entries@.len() && #[trigger] self.entries@[i].0 == *key;
                    assert(self.entries@[i].0.rank() == key.rank());
                    assert(index <= i);
                    if index < i {
                        assert(self.entries@[index as int].0.rank() < self.entries@[i].0.rank());
                    }
                }
            }
            None
        }
    }

    /// Whether the map holds `key`.
    pub fn contains_key(&self, key: &K) -> (found: bool)
        requires
            self.wf(),
        ensures
            found == self@.contains_key(*key),
    {
        self.find(key).is_some()
    }

    /// The value stored under `key`.
    pub fn get(&self, key: &K) -> (value: Option<&V>)
        requires
            self.wf(),
        ensures
            match value {
                Some(value) => self@.contains_key(*key) && *value == self@[*key],
                None => !self@.contains_key(*key),
            },
    {
        match self.find(key) {
            Some(index) => Some(&self.entries[index].1),
            None => None,
        }
    }

    /// The key at a place in the order.
    pub fn key_at(&self, index: usize) -> (key: K)
        requires
            self.wf(),
            index < self.keys().len(),
        ensures
            key == self.keys()[index as int],
            self@.contains_key(key),
    {
        proof {
            self.lemma_entry(index as int);
        }
        self.entries[index].0
    }

    /// The value at a place in the order.
    pub fn value_at(&self, index: usize) -> (value: &V)
        requires
            self.wf(),
            index < self.keys().len(),
        ensures
            self@.contains_key(self.keys()[index as int]),
            *value == self@[self.keys()[index as int]],
    {
        proof {
            self.lemma_entry(index as int);
        }
        &self.entries[index].1
    }

    proof fn lemma_value_replaced(before: Self, after: Self, index: int, value: V)
        requires
            before.wf(),
            0 <= index < before.entries@.len(),
            after.entries@ == before.entries@.update(index, (before.entries@[index].0, value)),
        ensures
            after.wf(),
            after.keys() == before.keys(),
            after@ == before@.insert(before.entries@[index].0, value),
    {
        assert(forall|i: int| 0 <= i < after.entries@.len() ==> #[trigger] after.entries@[i].0 == before.entries@[i].0);
        assert(after.keys() =~= before.keys());
        before.lemma_entry(index);
        after.lemma_entry(index);
        let written = before@.insert(before.entries@[index].0, value);
        assert forall|key: K| after@.contains_key(key) <==> written.contains_key(key) by {
            if after@.contains_key(key) {
                let i = choose|i: int| 0 <= i < after.entries@.len() && #[trigger] after.entries@[i].0 == key;
                before.lemma_entry(i);
            }
            if before@.contains_key(key) {
                let i = choose|i: int| 0 <= i < before.entries@.len() && #[trigger] before.entries@[i].0 == key;
                after.lemma_entry(i);
            }
        }
        assert forall|key: K| after@.contains_key(key) implies after@[key] == written[key] by {
            let i = choose|i: int| 0 <= i < after.entries@.len() && #[trigger] after.entries@[i].0 == key;
            before.lemma_entry(i);
            after.lemma_entry(i);
            if i != index {
                if i < index {
                    assert(before.entries@[i].0.rank() < before.entries@[index].0.rank());
                } else {
                    assert(before.entries@[index].0.rank() < before.entries@[i].0.rank());
                }
            }
        }
        assert(after@ =~= written);
    }

    /// Writes the value at a place in the order.
    pub fn set_at(&mut self, index: usize, value: V)
        requires
            old(self).wf(),
            index < old(self).keys().len(),
        ensures
            final(self).wf(),
            final(self).keys() == old(self).keys(),
            final(self)@ == old(self)@.insert(old(self).keys()[index as int], value),
    {
        let key = self.entries[index].0;
        let ghost before = *self;
        self.entries.set(index, (key, value));
        proof {
            Self::lemma_value_replaced(before, *self, index as int, value);
        }
    }

    /// Access to the value at a place in the order.
    pub fn value_at_mut(&mut self, index: usize) -> (value: &mut V)
        requires
            old(self).wf(),
            index < old(self).keys().len(),
        ensures
            old(self)@.contains_key(old(self).keys()[index as int]),
            *value == old(self)@[old(self).keys()[index as int]],
            final(self).wf(),
            final(self).keys() == old(self).keys(),
            final(self)@ == old(self)@.insert(old(self).keys()[index as int], *final(value)),
    {
        proof {
            self.lemma_entry(index as int);
            assert forall|after: Self, value: V| after.entries@ == #[trigger] self.entries@.update(
                index as int,
                (self.entries@[index as int].0, value),
            ) implies #[trigger] after.wf() && after.keys() == self.keys() && after@ == self@.insert(
                self.entries@[index as int].0,
                value,
            ) by {
                Self::lemma_value_replaced(*self, after, index as int, value);
            }
        }
        &mut self.entries[index].1
    }

    /// Access to the value stored under `key`.
    pub fn get_mut(&mut self, key: &K) -> (value: Option<&mut V>)
        requires
            old(self).wf(),
        ensures
            final(self).wf(),
            final(self).keys() == old(self).keys(),
            match value {
                Some(value) => {
                    &&& old(self)@.contains_key(*key)
                    &&& *value == old(self)@[*key]
                    &&& final(self)@ == old(self)@.insert(*key, *final(value))
                },
                None => !old(self)@.contains_key(*key) && final(self)@ == old(self)@,
            },
    {
        match self.find(key) {
            Some(index) => Some(self.value_at_mut(index)),
            None => None,
        }
    }

    proof fn lemma_entry_added(before: Self, after: Self, index: int, key: K, value: V)
        requires
            before.wf(),
            0 <= index <= before.entries@.len(),
            !before@.contains_key(key),
            forall|i: int| 0 <= i < index ==> #[trigger] before.entries@[i].0.rank() < key.rank(),
            forall|i: int| index <= i < before.entries@.len() ==> #[trigger] before.entries@[i].0.rank() >= key.rank(),
            after.entries@ == before.entries@.insert(index, (key, value)),
        ensures
            after.wf(),
            after@ == before@.insert(key, value),
    {
        assert forall|i: int| index <= i < before.entries@.len() implies #[trigger] before.entries@[i].0.rank()
            > key.rank() by {
            if before.entries@[i].0.rank() == key.rank() {
                K::rank_is_injective(before.entries@[i].0, key);
                before.lemma_entry(i);
            }
        }
        assert forall|i: int, j: int| 0 <= i < j < after.entries@.len() implies #[trigger] after.entries@[i].0.rank()
            < #[trigger] after.entries@[j].0.rank() by {
            let a = if i < index { i } else { i - 1 };
            let b = if j < index { j } else { j - 1 };
            if i != index && j != index {
                assert(before.entries@[a].0.rank() < before.entries@[b].0.rank());
            } else if i == index {
                assert(before.entries@[b].0.rank() > key.rank());
            } else {
                assert(before.entries@[a].0.rank() < key.rank());
            }
        }
        let written = before@.insert(key, value);
        assert forall|k: K| after@.contains_key(k) <==> written.contains_key(k) by {
            if after@.contains_key(k) {
                let i = choose|i: int| 0 <= i < after.entries@.len() && #[trigger] after.entries@[i].0 == k;
                if i < index {
                    before.lemma_entry(i);
                } else if i > index {
                    before.lemma_entry(i - 1);
                }
            }
            if before@.contains_key(k) {
                let i = choose|i: int| 0 <= i < before.entries@.len() && #[trigger] before.entries@[i].0 == k;
                if i < index {
                    after.lemma_entry(i);
                } else {
                    after.lemma_entry(i + 1);
                }
            }
            after.lemma_entry(index);
        }
        assert forall|k: K| after@.contains_key(k) implies after@[k] == written[k] by {
            let i = choose|i: int| 0 <= i < after.entries@.len() && #[trigger] after.entries@[i].0 == k;
            after.lemma_entry(i);
            if i < index {
                before.lemma_entry(i);
            } else if i > index {
                before.lemma_entry(i - 1);
            }
        }
        assert(after@ =~= written);
    }

    /// Stores `value` under `key`, in place of what was there.
    pub fn insert(&mut self, key: K, value: V)
        requires
            old(self).wf(),
        ensures
            final(self).wf(),
            final(self)@ == old(self)@.insert(key, value),
    {
        match self.find(&key) {
            Some(index) => {
                self.set_at(index, value);
            },
            None => {
                let index: usize = self.position(&key);
                let ghost before = *self;
                self.entries.insert(index, (key, value));
                proof {
                    Self::lemma_entry_added(before, *self, index as int, key, value);
                }
            },
        }
    }

    proof fn lemma_entry_removed(before: Self, after: Self, index: int)
        requires
            before.wf(),
            0 <= index < before.entries@.len(),
            after.entries@ == before.entries@.remove(index),
        ensures
            after.wf(),
            after@ == before@.remove(before.entries@[index].0),
    {
        let key = before.entries@[index].0;
        assert forall|i: int, j: int| 0 <= i < j < after.entries@.len() implies #[trigger] after.entries@[i].0.rank()
            < #[trigger] after.entries@[j].0.rank() by {
            let a = if i < index { i } else { i + 1 };
            let b = if j < index { j } else { j + 1 };
            assert(before.entries@[a].0.rank() < before.entries@[b].0.rank());
        }
        let left = before@.remove(key);
        assert forall|k: K| after@.contains_key(k) <==> left.contains_key(k) by {
            if after@.contains_key(k) {
                let i = choose|i: int| 0 <= i < after.entries@.len() && #[trigger] after.entries@[i].0 == k;
                let a = if i < index { i } else { i + 1 };
                before.lemma_entry(a);
                if a < index {
                    assert(before.entries@[a].0.rank() < before.entries@[index].0.rank());
                } else {
                    assert(before.entries@[index].0.rank() < before.entries@[a].0.rank());
                }
            }
            if left.contains_key(k) {
                let i = choose|i: int| 0 <= i < before.entries@.len() && #[trigger] before.entries@[i].0 == k;
                if i < index {
                    after.lemma_entry(i);
                } else {
                    after.lemma_entry(i - 1);
                }
            }
        }
        assert forall|k: K| after@.contains_key(k) implies after@[k] == left[k] by {
            let i = choose|i: int| 0 <= i < after.entries@.len() && #[trigger] after.entries@[i].0 == k;
            after.lemma_entry(i);
            before.lemma_entry(if i < index { i } else { i + 1 });
        }
        assert(after@ =~= left);
    }

    /// Takes out the entry of `key` and hands back its value.
    pub fn remove(&mut self, key: &K) -> (value: Option<V>)
        requires
            old(self).wf(),
        ensures
            final(self).wf(),
            final(self)@ == old(self)@.remove(*key),
            match value {
                Some(value) => old(self)@.contains_key(*key) && value == old(self)@[*key],
                None => !old(self)@.contains_key(*key),
            },
    {
        match self.find(key) {
            Some(index) => {
                let ghost before = *self;
                let entry = self.entries.remove(index);
                proof {
                    Self::lemma_entry_removed(before, *self, index as int);
                }
                Some(entry.1)
            },
            None => {
                assert(self@.remove(*key) =~= self@);
                None
            },
        }
    }

    /// Takes out the entry at a place in the order and hands it back.
    pub fn remove_at(&mut self, index: usize) -> (entry: (K, V))
        requires
            old(self).wf(),
            index < old(self).keys().len(),
        ensures
            final(self).wf(),
            final(self).keys() == old(self).keys().remove(index as int),
            final(self)@ == old(self)@.remove(entry.0),
            entry.0 == old(self).keys()[index as int],
            old(self)@.contains_key(entry.0),
            entry.1 == old(self)@[entry.0],
    {
        let ghost before = *self;
        let entry = self.entries.remove(index);
        proof {
            before.lemma_entry(index as int);
            Self::lemma_entry_removed(before, *self, index as int);
            assert(self.keys() =~= before.keys().remove(index as int));
        }
        entry
    }

    /// Takes out every entry.
    pub fn clear(&mut self)
        ensures
            final(self).wf(),
            final(self)@ == Map::<K, V>::empty(),
    {
        self.entries.clear();
        assert(self@ =~= Map::<K, V>::empty());
    }

    /// Keeps the entries for which `keep` holds.
    pub fn retain<F: Fn(&K, &V) -> bool>(&mut self, keep: F, Ghost(kept): Ghost<spec_fn(K, V) -> bool>)
        requires
            old(self).wf(),
            forall|key: K, value: V| #[trigger] keep.requires((&key, &value)),
            forall|key: K, value: V, answer: bool| #[trigger] keep.ensures((&key, &value), answer) ==> answer == kept(key, value),
        ensures
            final(self).wf(),
            final(self)@ == kept_entries(old(self)@, kept),
    {
        let mut index: usize = 0;
        proof {
            self.lemma_keys();
        }
        while index < self.entries.len()
            invariant
                self.wf(),
                index <= self.entries@.len(),
                forall|key: K, value: V| #[trigger] keep.requires((&key, &value)),
                forall|key: K, value: V, answer: bool| #[trigger] keep.ensures((&key, &value), answer)
                    ==> answer == kept(key, value),
                kept_entries(self@, kept) == kept_entries(old(self)@, kept),
                forall|i: int| 0 <= i < index ==> kept((#[trigger] self.entries@[i]).0, self.entries@[i].1),
            decreases self.entries@.len() - index,
        {
            proof {
                self.lemma_entry(index as int);
            }
            let entry = &self.entries[index];
            if keep(&entry.0, &entry.1) {
                index += 1;
            } else {
                let ghost before = *self;
                let _removed = self.entries.remove(index);
                proof {
                    Self::lemma_entry_removed(before, *self, index as int);
                    assert(kept_entries(self@, kept) =~= kept_entries(before@, kept));
                }
            }
        }
        proof {
            assert forall|key: K| self@.contains_key(key) implies kept(key, self@[key]) by {
                let i = choose|i: int| 0 <= i < self.entries@.len() && #[trigger] self.entries@[i].0 == key;
                self.lemma_entry(i);
                assert(kept(self.entries@[i].0, self.entries@[i].1));
            }
            assert(kept_entries(self@, kept) =~= self@);
        }
    }

    /// The first key in the order.
    pub fn first_key(&self) -> (key: Option<K>)
        requires
            self.wf(),
        ensures
            match key {
                Some(key) => is_first(self@.dom(), key) && key == first_of(self@.dom()),
                None => self@.dom() == Set::<K>::empty(),
            },
    {
        proof {
            self.lemma_keys();
        }
        if self.entries.len() == 0 {
            assert(self@.dom() =~= Set::<K>::empty());
            None
        } else {
            let key = self.entries[0].0;
            proof {
                self.lemma_entry(0);
                assert forall|other: K| #[trigger] self@.dom().contains(other) implies key.rank() <= other.rank() by {
                    let i = choose|i: int| 0 <= i < self.entries@.len() && #[trigger] self.entries@[i].0 == other;
                    assert(i == 0 || self.entries@[0].0.rank() < self.entries@[i].0.rank());
                }
                lemma_first_of(self@.dom(), key);
            }
            Some(key)
        }
    }

    /// The key of the entry for which `measure` gives the least.
    pub fn least_key<F: Fn(&V) -> u64>(&self, measure: F, Ghost(measured): Ghost<spec_fn(V) -> u64>) -> (key: Option<K>)
        requires
            self.wf(),
            forall|value: V| #[trigger] measure.requires((&value,)),
            forall|value: V, answer: u64| #[trigger] measure.ensures((&value,), answer) ==> answer == measured(value),
        ensures
            match key {
                Some(key) => is_least(self@, measured, key),
                None => self@.dom() == Set::<K>::empty(),
            },
    {
        proof {
            self.lemma_keys();
        }
        if self.entries.len() == 0 {
            assert(self@.dom() =~= Set::<K>::empty());
            return None;
        }
        let mut least: usize = 0;
        let mut index: usize = 1;
        while index < self.entries.len()
            invariant
                self.wf(),
                least < index <= self.entries@.len(),
                forall|value: V| #[trigger] measure.requires((&value,)),
                forall|value: V, answer: u64| #[trigger] measure.ensures((&value,), answer) ==> answer == measured(value),
                forall|i: int| 0 <= i < index ==> {
                    ||| measured(self.entries@[least as int].1) < measured((#[trigger] self.entries@[i]).1)
                    ||| measured(self.entries@[least as int].1) == measured(self.entries@[i].1) && least <= i
                },
            decreases self.entries@.len() - index,
        {
            if measure(&self.entries[index].1) < measure(&self.entries[least].1) {
                least = index;
            }
            index += 1;
        }
        let key = self.entries[least].0;
        proof {
            self.lemma_entry(least as int);
            assert forall|other: K| #[trigger] self@.contains_key(other) implies {
                ||| measured(self@[key]) < measured(self@[other])
                ||| measured(self@[key]) == measured(self@[other]) && key.rank() <= other.rank()
            } by {
                let i = choose|i: int| 0 <= i < self.entries@.len() && #[trigger] self.entries@[i].0 == other;
                self.lemma_entry(i);
                if least < i {
                    assert(self.entries@[least as int].0.rank() < self.entries@[i].0.rank());
                }
            }
        }
        Some(key)
    }
}

/// The entries of `map` for which `kept` holds.
pub open spec fn kept_entries<K, V>(map: Map<K, V>, kept: spec_fn(K, V) -> bool) -> Map<K, V> {
    Map::new(|key: K| map.contains_key(key) && kept(key, map[key]), |key: K| map[key])
}

} // verus!
