//! A keyed store for one class of cached resources.
//!
//! The store keeps its entries in the order in which their keys first came
//! in. Contracts speak of it as a map from keys to values, and of the order
//! of its keys where an operation walks the entries.

use vstd::prelude::*;

verus! {

/// A key of a `ResourceClassCache`: a plain value that can be compared.
pub trait CacheKey: Sized + Copy {
    /// Whether two keys are the same value.
    fn same(&self, other: &Self) -> (r: bool)
        ensures
            r == (*self == *other),
    ;
}

impl CacheKey for u32 {
    fn same(&self, other: &Self) -> (r: bool) {
        *self == *other
    }
}

impl CacheKey for u64 {
    fn same(&self, other: &Self) -> (r: bool) {
        *self == *other
    }
}

/// `index_of` finds a key that a sequence holds, and where no key occurs
/// twice it finds the one position of the key.
pub proof fn lemma_index_of<K>(s: Seq<K>, k: K)
    ensures
        s.contains(k) ==> 0 <= s.index_of(k) < s.len() && s[s.index_of(k)] == k,
        s.no_duplicates() ==> forall|i: int| 0 <= i < s.len() && s[i] == k ==> s.index_of(k) == i,
{
    if s.contains(k) {
        let i = choose|i: int| 0 <= i < s.len() && s[i] == k;
        assert(0 <= i < s.len() && s[i] == k);
    }
}

/// The keys of a sequence whose position is marked.
pub open spec fn marked_keys<K>(order: Seq<K>, keep: Seq<bool>) -> Set<K> {
    Set::new(|k: K| order.contains(k) && keep[order.index_of(k)])
}

/// Whether a list of keys holds a key.
pub fn list_contains<K: CacheKey>(keys: &[K], key: &K) -> (found: bool)
    ensures
        found == keys@.contains(*key),
{
    let mut i: usize = 0;
    while i < keys.len()
        invariant
            i <= keys@.len(),
            forall|j: int| 0 <= j < i ==> keys@[j] != *key,
        decreases keys@.len() - i,
    {
        if keys[i].same(key) {
            return true;
        }
        i = i + 1;
    }
    false
}

/// The cached resources of one class, by key, with a datum for the class as
/// a whole.
pub struct ResourceClassCache<K: CacheKey, V, U> {
    keys: Vec<K>,
    values: Vec<V>,
    pub user_data: U,
}

impl<K: CacheKey, V, U> ResourceClassCache<K, V, U> {
    /// Every key has its value and occurs once.
    pub closed spec fn wf(&self) -> bool {
        &&& self.keys@.len() == self.values@.len()
        &&& self.keys@.no_duplicates()
    }

    /// The keys, oldest first.
    pub closed spec fn order(&self) -> Seq<K> {
        self.keys@
    }

    /// The value that stands at a position of `order`.
    pub closed spec fn value_at_spec(&self, i: int) -> V {
        self.values@[i]
    }

    /// The datum of the class.
    pub closed spec fn user_data_spec(&self) -> U {
        self.user_data
    }

    /// The store as a map from its keys to their values.
    pub open spec fn view(&self) -> Map<K, V> {
        Map::new(
            |k: K| self.order().contains(k),
            |k: K| self.value_at_spec(self.order().index_of(k)),
        )
    }

    /// In a well-formed store every position of `order` holds another key,
    /// and the map has at each key the value of its position.
    pub proof fn lemma_positions(&self)
        requires
            self.wf(),
        ensures
            self.order().no_duplicates(),
            forall|i: int|
                0 <= i < self.order().len() ==> self@.contains_key(#[trigger] self.order()[i])
                    && self@[self.order()[i]] == self.value_at_spec(i),
            forall|k: K| self@.contains_key(k) <==> self.order().contains(k),
    {
        assert forall|i: int| 0 <= i < self.order().len() implies self@.contains_key(
            #[trigger] self.order()[i],
        ) && self@[self.order()[i]] == self.value_at_spec(i) by {
            let k = self.order()[i];
            assert(self.order().contains(k));
            lemma_index_of(self.order(), k);
        }
    }

    pub fn new() -> (cache: Self) where U: Default
        ensures
            cache.wf(),
            cache@ == Map::<K, V>::empty(),
            cache.order() == Seq::<K>::empty(),
    {
        let cache = ResourceClassCache { keys: Vec::new(), values: Vec::new(), user_data: U::default() };
        assert(cache@ =~= Map::<K, V>::empty());
        cache
    }

    /// The position of a key in `order`, if the store has the key.
    fn find(&self, key: &K) -> (r: Option<usize>)
        requires
            self.wf(),
        ensures
            match r {
                Some(i) => i < self.order().len() && self.order()[i as int] == *key
                    && self.order().index_of(*key) == i,
                None => !self.order().contains(*key),
            },
            r.is_some() == self@.contains_key(*key),
    {
        let mut i: usize = 0;
        while i < self.keys.len()
            invariant
                self.wf(),
                i <= self.keys@.len(),
                forall|j: int| 0 <= j < i ==> self.keys@[j] != *key,
            decreases self.keys@.len() - i,
        {
            if self.keys[i].same(key) {
                proof {
                    lemma_index_of(self.keys@, *key);
                }
                return Some(i);
            }
            i = i + 1;
        }
        None
    }

    /// The number of entries.
    pub fn len(&self) -> (n: usize)
        requires
            self.wf(),
        ensures
            n == self.order().len(),
    {
        self.keys.len()
    }

    /// The key at a position of `order`.
    pub fn key_at(&self, i: usize) -> (key: K)
        requires
            self.wf(),
            i < self.order().len(),
        ensures
            key == self.order()[i as int],
            self@.contains_key(key),
    {
        proof {
            self.lemma_positions();
        }
        self.keys[i]
    }

    /// The value at a position of `order`.
    pub fn value_at(&self, i: usize) -> (value: &V)
        requires
            self.wf(),
            i < self.order().len(),
        ensures
            *value == self@[self.order()[i as int]],
    {
        proof {
            self.lemma_positions();
        }
        &self.values[i]
    }

    /// The value at a position of `order`, to be changed in place.
    pub fn value_at_mut(&mut self, i: usize) -> (value: &mut V)
        requires
            old(self).wf(),
            i < old(self).order().len(),
        ensures
            *value == old(self)@[old(self).order()[i as int]],
            final(self).wf(),
            final(self).order() == old(self).order(),
            final(self)@ == old(self)@.insert(old(self).order()[i as int], *final(value)),
            final(self).user_data_spec() == old(self).user_data_spec(),
    {
        proof {
            self.lemma_positions();
        }
        &mut self.values[i]
    }

    /// The value of a key that the store has.
    pub fn get(&self, key: &K) -> (value: &V)
        requires
            self.wf(),
            self@.contains_key(*key),
        ensures
            *value == self@[*key],
    {
        let found = self.find(key);
        &self.values[found.unwrap()]
    }

    pub fn try_get(&self, key: &K) -> (value: Option<&V>)
        requires
            self.wf(),
        ensures
            match value {
                Some(v) => self@.contains_key(*key) && *v == self@[*key],
                None => !self@.contains_key(*key),
            },
    {
        match self.find(key) {
            Some(i) => Some(&self.values[i]),
            None => None,
        }
    }

    /// Whether the store has the key.
    pub fn contains_key(&self, key: &K) -> (found: bool)
        requires
            self.wf(),
        ensures
            found == self@.contains_key(*key),
    {
        self.find(key).is_some()
    }

    /// Puts a value under a key. A key that is new goes to the end of
    /// `order`; a key that the store has keeps its position.
    pub fn insert(&mut self, key: K, value: V)
        requires
            old(self).wf(),
        ensures
            final(self).wf(),
            final(self)@ == old(self)@.insert(key, value),
            final(self).order() == (if old(self)@.contains_key(key) {
                old(self).order()
            } else {
                old(self).order().push(key)
            }),
            final(self).user_data_spec() == old(self).user_data_spec(),
    {
        match self.find(&key) {
            Some(i) => {
                self.values[i] = value;
                assert(self@ =~= old(self)@.insert(key, value));
            },
            None => {
                self.keys.push(key);
                self.values.push(value);
                proof {
                    let old_keys = old(self).keys@;
                    assert forall|k: K| old_keys.contains(k) implies #[trigger] self.keys@.index_of(k)
                        == old_keys.index_of(k) by {
                        lemma_index_of(old_keys, k);
                        let j = old_keys.index_of(k);
                        assert(self.keys@[j] == k);
                        lemma_index_of(self.keys@, k);
                    }
                    assert(self.keys@[old_keys.len() as int] == key);
                    lemma_index_of(self.keys@, key);
                    assert forall|k: K| self.keys@.contains(k) <==> (old_keys.contains(k) || k == key) by {
                        if self.keys@.contains(k) {
                            let j = self.keys@.index_of(k);
                            lemma_index_of(self.keys@, k);
                            if j < old_keys.len() {
                                assert(old_keys[j] == k);
                            }
                        }
                        if old_keys.contains(k) {
                            lemma_index_of(old_keys, k);
                            assert(self.keys@[old_keys.index_of(k)] == k);
                        }
                    }
                    assert(self@ =~= old(self)@.insert(key, value));
                }
            },
        }
    }

    /// Takes a key and its value out. The other keys keep their order.
    pub fn remove(&mut self, key: &K) -> (removed: Option<V>)
        requires
            old(self).wf(),
        ensures
            final(self).wf(),
            final(self)@ == old(self)@.remove(*key),
            final(self).order() == old(self).order().remove_value(*key),
            match removed {
                Some(v) => old(self)@.contains_key(*key) && v == old(self)@[*key],
                None => !old(self)@.contains_key(*key),
            },
            final(self).user_data_spec() == old(self).user_data_spec(),
    {
        match self.find(key) {
            Some(i) => {
                proof {
                    old(self).lemma_positions();
                }
                let _ = self.keys.remove(i);
                let value = self.values.remove(i);
                proof {
                    let old_keys = old(self).keys@;
                    let new_keys = self.keys@;
                    lemma_index_of(old_keys, *key);
                    old_keys.index_of_first_ensures(*key);
                    assert(new_keys == old_keys.remove(i as int));
                    assert(new_keys =~= old_keys.remove_value(*key));
                    assert forall|a: int, b: int|
                        0 <= a < new_keys.len() && 0 <= b < new_keys.len() && a != b implies new_keys[a]
                        != new_keys[b] by {
                        let oa = if a < i { a } else { a + 1 };
                        let ob = if b < i { b } else { b + 1 };
                        assert(new_keys[a] == old_keys[oa]);
                        assert(new_keys[b] == old_keys[ob]);
                    }
                    assert forall|k: K| new_keys.contains(k) <==> (old_keys.contains(k) && k != *key) by {
                        if new_keys.contains(k) {
                            lemma_index_of(new_keys, k);
                            let a = new_keys.index_of(k);
                            let oa = if a < i { a } else { a + 1 };
                            assert(old_keys[oa] == k);
                        }
                        if old_keys.contains(k) && k != *key {
                            lemma_index_of(old_keys, k);
                            let oa = old_keys.index_of(k);
                            let a = if oa < i { oa } else { oa - 1 };
                            assert(new_keys[a] == k);
                        }
                    }
                    assert forall|k: K| new_keys.contains(k) implies self.value_at_spec(
                        #[trigger] new_keys.index_of(k),
                    ) == old(self).value_at_spec(old_keys.index_of(k)) by {
                        lemma_index_of(new_keys, k);
                        let a = new_keys.index_of(k);
                        let oa = if a < i { a } else { a + 1 };
                        assert(old_keys[oa] == k);
                        lemma_index_of(old_keys, k);
                    }
                    assert(self@ =~= old(self)@.remove(*key));
                }
                Some(value)
            },
            None => {
                proof {
                    assert(self.keys@ =~= self.keys@.remove_value(*key)) by {
                        self.keys@.index_of_first_ensures(*key);
                    }
                    assert(self@ =~= old(self)@.remove(*key));
                }
                None
            },
        }
    }

    /// The value of a key that the store has, to be changed in place.
    pub fn get_mut(&mut self, key: &K) -> (value: &mut V)
        requires
            old(self).wf(),
            old(self)@.contains_key(*key),
        ensures
            *value == old(self)@[*key],
            final(self).wf(),
            final(self).order() == old(self).order(),
            final(self)@ == old(self)@.insert(*key, *final(value)),
            final(self).user_data_spec() == old(self).user_data_spec(),
    {
        let found = self.find(key);
        &mut self.values[found.unwrap()]
    }

    pub fn try_get_mut(&mut self, key: &K) -> (value: Option<&mut V>)
        requires
            old(self).wf(),
        ensures
            final(self).wf(),
            final(self).order() == old(self).order(),
            final(self).user_data_spec() == old(self).user_data_spec(),
            match value {
                Some(v) => old(self)@.contains_key(*key) && *v == old(self)@[*key] && final(self)@ == old(
                    self,
                )@.insert(*key, *final(v)),
                None => !old(self)@.contains_key(*key) && final(self)@ == old(self)@,
            },
    {
        match self.find(key) {
            Some(i) => Some(&mut self.values[i]),
            None => None,
        }
    }

    pub fn is_empty(&self) -> (empty: bool)
        requires
            self.wf(),
        ensures
            empty == (self.order().len() == 0),
            empty == (self@ == Map::<K, V>::empty()),
    {
        proof {
            self.lemma_positions();
            if self.order().len() == 0 {
                assert(self@ =~= Map::<K, V>::empty());
            } else {
                assert(self@.contains_key(self.order()[0]));
            }
        }
        self.keys.len() == 0
    }

    /// Keeps the entries whose position in `order` is marked in `keep`, in
    /// their order, and hands out the values of the others, in their order.
    pub fn retain_marked(&mut self, keep: &Vec<bool>) -> (removed: Vec<V>)
        requires
            old(self).wf(),
            keep@.len() == old(self).order().len(),
        ensures
            final(self).wf(),
            final(self)@ == old(self)@.restrict(marked_keys(old(self).order(), keep@)),
            forall|k: K| final(self).order().contains(k) <==> marked_keys(old(self).order(), keep@).contains(k),
            forall|v: V|
                removed@.contains(v) <==> exists|i: int|
                    0 <= i < keep@.len() && !keep@[i] && #[trigger] old(self)@[old(self).order()[i]] == v,
            final(self).user_data_spec() == old(self).user_data_spec(),
    {
        proof {
            old(self).lemma_positions();
        }
        let mut keys: Vec<K> = Vec::new();
        let mut values: Vec<V> = Vec::new();
        std::mem::swap(&mut keys, &mut self.keys);
        std::mem::swap(&mut values, &mut self.values);
        let ghost old_keys = keys@;
        let ghost old_values = values@;
        proof {
            vstd::std_specs::vec::axiom_spec_len(&values);
        }
        let mut removed: Vec<V> = Vec::new();
        // For every entry that is kept, the position that it had.
        let ghost mut kept_from: Seq<int> = Seq::empty();
        let ghost mut removed_from: Seq<int> = Seq::empty();
        let mut i: usize = 0;
        for value in it: values
            invariant
                it.seq() == old_values,
                i == it.index(),
                old_values.len() <= usize::MAX,
                keys@ == old_keys,
                old_keys.len() == old_values.len(),
                old_keys.len() == keep@.len(),
                old_keys.no_duplicates(),
                self.user_data == old(self).user_data,
                self.keys@.len() == self.values@.len(),
                self.keys@.len() == kept_from.len(),
                removed@.len() == removed_from.len(),
                forall|j: int|
                    0 <= j < kept_from.len() ==> 0 <= #[trigger] kept_from[j] < i && keep@[kept_from[j]]
                        && self.keys@[j] == old_keys[kept_from[j]] && self.values@[j] == old_values[kept_from[j]],
                forall|a: int, b: int| 0 <= a < b < kept_from.len() ==> kept_from[a] < kept_from[b],
                forall|p: int| 0 <= p < i && keep@[p] ==> exists|j: int| 0 <= j < kept_from.len() && #[trigger] kept_from[j] == p,
                forall|j: int|
                    0 <= j < removed_from.len() ==> 0 <= #[trigger] removed_from[j] < i && !keep@[removed_from[j]]
                        && removed@[j] == old_values[removed_from[j]],
                forall|p: int|
                    0 <= p < i && !keep@[p] ==> exists|j: int| 0 <= j < removed_from.len() && #[trigger] removed_from[j] == p,
        {
            let ghost kept_before = kept_from;
            let ghost removed_before = removed_from;
            if keep[i] {
                self.keys.push(keys[i]);
                self.values.push(value);
                proof {
                    kept_from = kept_before.push(i as int);
                    assert forall|p: int| 0 <= p < i + 1 && keep@[p] implies exists|j: int|
                        0 <= j < kept_from.len() && #[trigger] kept_from[j] == p by {
                        if p < i {
                            let j = choose|j: int| 0 <= j < kept_before.len() && #[trigger] kept_before[j] == p;
                            assert(kept_from[j] == p);
                        } else {
                            assert(kept_from[kept_before.len() as int] == p);
                        }
                    }
                }
            } else {
                removed.push(value);
                proof {
                    removed_from = removed_before.push(i as int);
                    assert forall|p: int| 0 <= p < i + 1 && !keep@[p] implies exists|j: int|
                        0 <= j < removed_from.len() && #[trigger] removed_from[j] == p by {
                        if p < i {
                            let j = choose|j: int| 0 <= j < removed_before.len() && #[trigger] removed_before[j] == p;
                            assert(removed_from[j] == p);
                        } else {
                            assert(removed_from[removed_before.len() as int] == p);
                        }
                    }
                }
            }
            i = i + 1;
        }
        proof {
            let marked = marked_keys(old_keys, keep@);
            assert forall|a: int, b: int| 0 <= a < self.keys@.len() && 0 <= b < self.keys@.len() && a != b
                implies self.keys@[a] != self.keys@[b] by {
                assert(kept_from[a] != kept_from[b]) by {
                    if a < b {
                        assert(kept_from[a] < kept_from[b]);
                    } else {
                        assert(kept_from[b] < kept_from[a]);
                    }
                }
            }
            assert forall|k: K| self.keys@.contains(k) <==> marked.contains(k) by {
                if self.keys@.contains(k) {
                    let j = choose|j: int| 0 <= j < self.keys@.len() && self.keys@[j] == k;
                    let p = kept_from[j];
                    assert(old_keys[p] == k);
                    lemma_index_of(old_keys, k);
                }
                if marked.contains(k) {
                    lemma_index_of(old_keys, k);
                    let p = old_keys.index_of(k);
                    let j = choose|j: int| 0 <= j < kept_from.len() && #[trigger] kept_from[j] == p;
                    assert(self.keys@[j] == k);
                }
            }
            assert forall|k: K| self.keys@.contains(k) implies self.value_at_spec(self.keys@.index_of(k)) == old(
                self,
            ).value_at_spec(old_keys.index_of(k)) by {
                lemma_index_of(self.keys@, k);
                let j = self.keys@.index_of(k);
                let p = kept_from[j];
                assert(old_keys[p] == k);
                lemma_index_of(old_keys, k);
            }
            assert(old(self).order() == old_keys);
            assert forall|k: K| self@.contains_key(k) implies old(self)@.contains_key(k) && marked.contains(k)
                && self@[k] == old(self)@[k] by {
                assert(self.keys@.contains(k));
                assert(marked.contains(k));
            }
            assert forall|k: K| old(self)@.contains_key(k) && marked.contains(k) implies self@.contains_key(k) by {
                assert(self.keys@.contains(k));
            }
            let a = self@;
            let b = old(self)@.restrict(marked);
            assert forall|k: K| a.dom().contains(k) <==> b.dom().contains(k) by {
                if a.dom().contains(k) {
                    assert(self.keys@.contains(k));
                    assert(marked.contains(k));
                    assert(old_keys.contains(k));
                    assert(old(self)@.dom().contains(k));
                }
                if b.dom().contains(k) {
                    assert(marked.contains(k));
                    assert(self.keys@.contains(k));
                }
            }
            assert forall|k: K| a.dom().contains(k) implies a[k] == b[k] by {
                assert(self@.contains_key(k));
            }
            assert(a =~= b);
            assert forall|v: V| removed@.contains(v) <==> exists|p: int|
                0 <= p < keep@.len() && !keep@[p] && #[trigger] old(self)@[old_keys[p]] == v by {
                if removed@.contains(v) {
                    let j = choose|j: int| 0 <= j < removed@.len() && removed@[j] == v;
                    let p = removed_from[j];
                    assert(old(self)@[old_keys[p]] == v);
                }
                if exists|p: int| 0 <= p < keep@.len() && !keep@[p] && #[trigger] old(self)@[old_keys[p]] == v {
                    let p = choose|p: int| 0 <= p < keep@.len() && !keep@[p] && #[trigger] old(self)@[old_keys[p]] == v;
                    let j = choose|j: int| 0 <= j < removed_from.len() && #[trigger] removed_from[j] == p;
                    assert(removed@[j] == v);
                }
            }
        }
        removed
    }

    /// Where the marks say for every position whether its key is in a set,
    /// keeping the marked entries is restricting the store to the set.
    pub proof fn lemma_marked_is_restrict(&self, keep: Seq<bool>, keys: Set<K>)
        requires
            self.wf(),
            keep.len() == self.order().len(),
            forall|i: int| 0 <= i < keep.len() ==> keep[i] == keys.contains(#[trigger] self.order()[i]),
        ensures
            self@.restrict(marked_keys(self.order(), keep)) == self@.restrict(keys),
    {
        self.lemma_positions();
        let a = self@.restrict(marked_keys(self.order(), keep));
        let b = self@.restrict(keys);
        assert forall|k: K| a.dom().contains(k) <==> b.dom().contains(k) by {
            if self@.dom().contains(k) {
                lemma_index_of(self.order(), k);
                assert(self.order().contains(k));
                let i = self.order().index_of(k);
                assert(self.order()[i] == k);
            }
        }
        assert(a =~= b);
    }

    /// Drops every entry.
    pub fn clear(&mut self)
        ensures
            final(self).wf(),
            final(self)@ == Map::<K, V>::empty(),
            final(self).order() == Seq::<K>::empty(),
            final(self).user_data_spec() == old(self).user_data_spec(),
    {
        self.keys.clear();
        self.values.clear();
        assert(self@ =~= Map::<K, V>::empty());
    }
}

} // verus!
