//! Maps and sets that keep their entries in a vector, in the order in which
//! the keys were first inserted.
use vstd::prelude::*;

verus! {

/// A value that can be copied: the copy has the same view.
pub trait Duplicate: View + Sized {
    fn duplicate(&self) -> (copy: Self)
        ensures
            copy@ == self@,
    ;
}

/// A key of the ledger's maps. Keys are compared through their views: two
/// keys with the same view are the same key.
pub trait MapKey: Duplicate {
    fn key_eq(&self, other: &Self) -> (same: bool)
        ensures
            same == (self@ == other@),
    ;
}

impl Duplicate for String {
    fn duplicate(&self) -> (copy: Self) {
        self.clone()
    }
}

impl MapKey for String {
    fn key_eq(&self, other: &Self) -> (same: bool) {
        *self == *other
    }
}

impl Duplicate for u64 {
    fn duplicate(&self) -> (copy: Self) {
        *self
    }
}

impl MapKey for u64 {
    fn key_eq(&self, other: &Self) -> (same: bool) {
        *self == *other
    }
}

impl Duplicate for u32 {
    fn duplicate(&self) -> (copy: Self) {
        *self
    }
}

impl Duplicate for u128 {
    fn duplicate(&self) -> (copy: Self) {
        *self
    }
}

impl Duplicate for () {
    fn duplicate(&self) -> (copy: Self) {
        ()
    }
}

/// A finite map whose entries lie in a vector, each key once.
pub struct AssocMap<K: MapKey, V: View> {
    entries: Vec<(K, V)>,
}

impl<K: MapKey, V: View> View for AssocMap<K, V> {
    type V = Map<K::V, V::V>;

    closed spec fn view(&self) -> Map<K::V, V::V> {
        Map::new(
            |k: K::V| self.spec_keys().contains(k),
            |k: K::V| self.entries@[self.spec_keys().index_of(k)].1@,
        )
    }
}

impl<K: MapKey, V: View> AssocMap<K, V> {
    #[verifier::type_invariant]
    spec fn well_formed(&self) -> bool {
        self.spec_keys().no_duplicates()
    }

    /// The keys of the map, by their views, in the order of the entries.
    pub closed spec fn spec_keys(&self) -> Seq<K::V> {
        self.entries@.map_values(|e: (K, V)| e.0@)
    }

    /// The value that lies under `key`, as it lies there.
    pub closed spec fn spec_value(&self, key: K::V) -> V {
        self.entries@[self.spec_keys().index_of(key)].1
    }

    /// An empty map.
    pub fn new() -> (map: Self)
        ensures
            map@ == Map::<K::V, V::V>::empty(),
            map.spec_keys() == Seq::<K::V>::empty(),
    {
        let map = AssocMap { entries: Vec::new() };
        assert(map@ =~= Map::<K::V, V::V>::empty());
        assert(map.spec_keys() =~= Seq::<K::V>::empty());
        map
    }

    /// What the keys in their order have to do with the map: each key of the
    /// map stands once among them, and nothing else does.
    pub fn keys_are_domain(&self)
        ensures
            self.spec_keys().no_duplicates(),
            self.spec_keys().to_set() == self@.dom(),
            self@.dom().finite(),
            self@.len() == self.spec_keys().len(),
    {
        proof {
            use_type_invariant(self);
            assert(self.spec_keys().to_set() =~= self@.dom());
            self.spec_keys().unique_seq_to_set();
            vstd::seq_lib::seq_to_set_is_finite(self.spec_keys());
        }
    }

    /// The number of entries.
    pub fn len(&self) -> (n: usize)
        ensures
            n == self@.len(),
            n == self.spec_keys().len(),
            self@.dom().finite(),
    {
        self.keys_are_domain();
        self.entries.len()
    }

    /// Whether the map has no entry.
    pub fn is_empty(&self) -> (empty: bool)
        ensures
            empty == (self@ == Map::<K::V, V::V>::empty()),
            empty == (self@.len() == 0),
            self@.dom().finite(),
    {
        self.keys_are_domain();
        let empty = self.entries.len() == 0;
        proof {
            if empty {
                assert(self@ =~= Map::<K::V, V::V>::empty());
            } else {
                assert(self.spec_keys().contains(self.spec_keys()[0]));
                assert(self@.dom().contains(self.spec_keys()[0]));
            }
        }
        empty
    }

    /// The place of `key` among the entries.
    fn find(&self, key: &K) -> (place: Option<usize>)
        ensures
            match place {
                Some(i) => i < self.spec_keys().len() && self.spec_keys()[i as int] == key@,
                None => !self.spec_keys().contains(key@),
            },
    {
        let mut i: usize = 0;
        while i < self.entries.len()
            invariant
                i <= self.entries@.len(),
                forall|j: int| 0 <= j < i ==> self.spec_keys()[j] != key@,
            decreases self.entries@.len() - i,
        {
            if self.entries[i].0.key_eq(key) {
                return Some(i);
            }
            i += 1;
        }
        None
    }

    /// Whether `key` has an entry.
    pub fn contains_key(&self, key: &K) -> (found: bool)
        ensures
            found == self@.contains_key(key@),
    {
        self.find(key).is_some()
    }

    /// The value under `key`, if there is one.
    pub fn get(&self, key: &K) -> (value: Option<&V>)
        ensures
            match value {
                Some(v) => self@.contains_key(key@) && v@ == self@[key@] && *v == self.spec_value(
                    key@,
                ),
                None => !self@.contains_key(key@),
            },
    {
        proof {
            use_type_invariant(self);
        }
        match self.find(key) {
            Some(i) => {
                assert(self.spec_keys().index_of(key@) == i);
                Some(&self.entries[i].1)
            },
            None => None,
        }
    }

    /// The key of the entry at `index`.
    pub fn key_at(&self, index: usize) -> (key: &K)
        requires
            index < self.spec_keys().len(),
        ensures
            key@ == self.spec_keys()[index as int],
            self@.contains_key(key@),
    {
        assert(self.spec_keys().contains(self.spec_keys()[index as int]));
        &self.entries[index].0
    }

    /// The value of the entry at `index`.
    pub fn value_at(&self, index: usize) -> (value: &V)
        requires
            index < self.spec_keys().len(),
        ensures
            self@.contains_key(self.spec_keys()[index as int]),
            value@ == self@[self.spec_keys()[index as int]],
    {
        proof {
            use_type_invariant(self);
            assert(self.spec_keys().contains(self.spec_keys()[index as int]));
            assert(self.spec_keys().index_of(self.spec_keys()[index as int]) == index);
        }
        &self.entries[index].1
    }

    /// Puts `value` under `key` and hands back what was there before. A new
    /// key goes to the end; a key that is there keeps its place.
    pub fn insert(&mut self, key: K, value: V) -> (previous: Option<V>)
        ensures
            final(self)@ == old(self)@.insert(key@, value@),
            match previous {
                Some(v) => old(self)@.contains_key(key@) && v@ == old(self)@[key@],
                None => !old(self)@.contains_key(key@),
            },
            old(self)@.contains_key(key@) ==> final(self).spec_keys() == old(self).spec_keys(),
            !old(self)@.contains_key(key@) ==> final(self).spec_keys() == old(self).spec_keys().push(
                key@,
            ),
    {
        proof {
            use_type_invariant(&*self);
        }
        let place = self.find(&key);
        let ghost before = *self;
        let ghost keys = self.spec_keys();
        let mut entries: Vec<(K, V)> = Vec::new();
        std::mem::swap(&mut entries, &mut self.entries);
        let previous = match place {
            Some(i) => {
                assert(keys.index_of(key@) == i);
                let (old_key, old_value) = entries.remove(i);
                entries.insert(i, (old_key, value));
                Some(old_value)
            },
            None => {
                entries.push((key, value));
                None
            },
        };
        proof {
            let after = entries@.map_values(|e: (K, V)| e.0@);
            if place is Some {
                assert(after =~= keys);
            } else {
                assert(after =~= keys.push(key@));
            }
            assert(after.no_duplicates());
        }
        self.entries = entries;
        proof {
            assert forall|k: K::V| #[trigger] self@.contains_key(k) implies self@[k] == before@.insert(
                key@,
                value@,
            )[k] by {
                let i = self.spec_keys().index_of(k);
                if k != key@ {
                    assert(keys.contains(k));
                    assert(keys.index_of(k) == i);
                }
            }
            assert forall|k: K::V| before@.insert(key@, value@).contains_key(k) implies #[trigger] self@.contains_key(k) by {
                if k != key@ {
                    let i = keys.index_of(k);
                    assert(self.spec_keys()[i] == k);
                } else if place is None {
                    assert(self.spec_keys()[keys.len() as int] == k);
                } else {
                    assert(self.spec_keys()[place.unwrap() as int] == k);
                }
            }
            assert(self@ =~= before@.insert(key@, value@));
        }
        previous
    }
}

impl<K: MapKey, V: View> AssocMap<K, V> {
    /// Takes the entry of `key` out and hands back its value. The entries
    /// that stay keep their order.
    pub fn remove(&mut self, key: &K) -> (previous: Option<V>)
        ensures
            final(self)@ == old(self)@.remove(key@),
            match previous {
                Some(v) => old(self)@.contains_key(key@) && v@ == old(self)@[key@],
                None => !old(self)@.contains_key(key@),
            },
            old(self)@.contains_key(key@) ==> final(self).spec_keys() == old(
                self,
            ).spec_keys().remove(old(self).spec_keys().index_of(key@)),
            !old(self)@.contains_key(key@) ==> final(self).spec_keys() == old(self).spec_keys(),
    {
        proof {
            use_type_invariant(&*self);
        }
        let ghost before = *self;
        let ghost keys = self.spec_keys();
        match self.find(key) {
            Some(i) => {
                assert(keys.index_of(key@) == i);
                let mut entries: Vec<(K, V)> = Vec::new();
                std::mem::swap(&mut entries, &mut self.entries);
                let (_, value) = entries.remove(i);
                proof {
                    let after = entries@.map_values(|e: (K, V)| e.0@);
                    assert(after =~= keys.remove(i as int));
                    assert(after.no_duplicates());
                }
                self.entries = entries;
                proof {
                    assert forall|k: K::V| #[trigger] self@.contains_key(k) implies before@.remove(
                        key@,
                    ).contains_key(k) && self@[k] == before@.remove(key@)[k] by {
                        let j = self.spec_keys().index_of(k);
                        let j0 = if j < i {
                            j
                        } else {
                            j + 1
                        };
                        assert(keys[j0] == k);
                        assert(keys.index_of(k) == j0);
                    }
                    assert forall|k: K::V| before@.remove(key@).contains_key(k) implies #[trigger] self@.contains_key(k) by {
                        let j0 = keys.index_of(k);
                        let j = if j0 < i {
                            j0
                        } else {
                            j0 - 1
                        };
                        assert(self.spec_keys()[j] == k);
                    }
                    assert(self@ =~= before@.remove(key@));
                }
                Some(value)
            },
            None => {
                assert(self@ =~= before@.remove(key@));
                None
            },
        }
    }

    /// Takes every entry out.
    pub fn clear(&mut self)
        ensures
            final(self)@ == Map::<K::V, V::V>::empty(),
            final(self).spec_keys() == Seq::<K::V>::empty(),
    {
        self.entries = Vec::new();
        assert(self@ =~= Map::<K::V, V::V>::empty());
        assert(self.spec_keys() =~= Seq::<K::V>::empty());
    }
}

impl<K: MapKey, V: Duplicate> Duplicate for AssocMap<K, V> {
    fn duplicate(&self) -> (copy: Self)
        ensures
            copy.spec_keys() == self.spec_keys(),
    {
        proof {
            use_type_invariant(self);
        }
        let mut entries: Vec<(K, V)> = Vec::new();
        let mut i: usize = 0;
        while i < self.entries.len()
            invariant
                i <= self.entries@.len(),
                entries@.len() == i,
                forall|j: int| 0 <= j < i ==> (#[trigger] entries@[j]).0@ == self.entries@[j].0@,
                forall|j: int| 0 <= j < i ==> (#[trigger] entries@[j]).1@ == self.entries@[j].1@,
            decreases self.entries@.len() - i,
        {
            let key = self.entries[i].0.duplicate();
            let value = self.entries[i].1.duplicate();
            entries.push((key, value));
            i += 1;
        }
        proof {
            assert(entries@.map_values(|e: (K, V)| e.0@) =~= self.spec_keys());
        }
        let copy = AssocMap { entries };
        proof {
            assert forall|k: K::V| #[trigger] copy@.contains_key(k) implies copy@[k] == self@[k] by {
                let i = self.spec_keys().index_of(k);
            }
            assert(copy@ =~= self@);
        }
        copy
    }
}

/// A finite set whose items lie in a vector, each once.
pub struct AssocSet<K: MapKey> {
    items: AssocMap<K, ()>,
}

impl<K: MapKey> View for AssocSet<K> {
    type V = Set<K::V>;

    closed spec fn view(&self) -> Set<K::V> {
        self.items@.dom()
    }
}

impl<K: MapKey> AssocSet<K> {
    /// The items of the set, by their views, in the order in which they lie.
    pub closed spec fn spec_items(&self) -> Seq<K::V> {
        self.items.spec_keys()
    }

    /// An empty set.
    pub fn new() -> (set: Self)
        ensures
            set@ == Set::<K::V>::empty(),
    {
        let set = AssocSet { items: AssocMap::new() };
        assert(set@ =~= Set::<K::V>::empty());
        set
    }

    /// What the items in their order have to do with the set: each item of
    /// the set stands once among them, and nothing else does.
    pub fn items_are_members(&self)
        ensures
            self.spec_items().no_duplicates(),
            self.spec_items().to_set() == self@,
            self@.finite(),
            self@.len() == self.spec_items().len(),
    {
        self.items.keys_are_domain();
    }

    /// The number of items.
    pub fn len(&self) -> (n: usize)
        ensures
            n == self@.len(),
            n == self.spec_items().len(),
            self@.finite(),
    {
        self.items.len()
    }

    /// Whether the set has no item.
    pub fn is_empty(&self) -> (empty: bool)
        ensures
            empty == (self@ == Set::<K::V>::empty()),
            empty == (self@.len() == 0),
            self@.finite(),
    {
        let empty = self.items.is_empty();
        proof {
            if self@ == Set::<K::V>::empty() {
                assert(self.items@ =~= Map::<K::V, ()>::empty());
            }
        }
        empty
    }

    /// Whether `item` is in the set.
    pub fn contains(&self, item: &K) -> (found: bool)
        ensures
            found == self@.contains(item@),
    {
        self.items.contains_key(item)
    }

    /// The item at `index`.
    pub fn item_at(&self, index: usize) -> (item: &K)
        requires
            index < self.spec_items().len(),
        ensures
            item@ == self.spec_items()[index as int],
            self@.contains(item@),
    {
        self.items.key_at(index)
    }

    /// Puts `item` into the set; says whether it was new. A new item goes
    /// to the end.
    pub fn insert(&mut self, item: K) -> (added: bool)
        ensures
            final(self)@ == old(self)@.insert(item@),
            added == !old(self)@.contains(item@),
            final(self).spec_items() == (if added {
                old(self).spec_items().push(item@)
            } else {
                old(self).spec_items()
            }),
    {
        let previous = self.items.insert(item, ());
        assert(self@ =~= old(self)@.insert(item@));
        previous.is_none()
    }

    /// Takes `item` out of the set; says whether it was there. The items
    /// that stay keep their order.
    pub fn remove(&mut self, item: &K) -> (removed: bool)
        ensures
            final(self)@ == old(self)@.remove(item@),
            removed == old(self)@.contains(item@),
            final(self).spec_items() == (if removed {
                old(self).spec_items().remove(old(self).spec_items().index_of(item@))
            } else {
                old(self).spec_items()
            }),
    {
        let previous = self.items.remove(item);
        assert(self@ =~= old(self)@.remove(item@));
        previous.is_some()
    }
}

impl<K: MapKey> Duplicate for AssocSet<K> {
    fn duplicate(&self) -> (copy: Self) {
        AssocSet { items: self.items.duplicate() }
    }
}

} // verus!
