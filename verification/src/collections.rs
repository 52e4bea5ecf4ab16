//! Maps and sets whose keys have no hash.

use vstd::prelude::*;

verus! {

/// A key that can be told apart from others of its type.
pub trait MapKey: View {
    /// Tells whether two keys are the same.
    fn same_key(&self, other: &Self) -> (result: bool)
        ensures
            result == (self@ == other@),
    ;
}

/// What a list of entries maps a key to.
pub open spec fn entries_map<K: View, V>(entries: Seq<(K, V)>) -> Map<K::V, V>
    decreases entries.len(),
{
    if entries.len() == 0 {
        Map::empty()
    } else {
        entries_map(entries.drop_last()).insert(entries.last().0@, entries.last().1)
    }
}

/// No key occurs twice.
pub open spec fn keys_distinct<K: View, V>(entries: Seq<(K, V)>) -> bool {
    forall|i: int, j: int|
        0 <= i < j < entries.len() ==> #[trigger] entries[i].0@ != #[trigger] entries[j].0@
}

/// A map from keys to values, kept as a list of entries.
#[derive(Debug)]
pub struct VecMap<K: MapKey, V> {
    entries: Vec<(K, V)>,
}

impl<K: MapKey, V> View for VecMap<K, V> {
    type V = Map<K::V, V>;

    closed spec fn view(&self) -> Map<K::V, V> {
        entries_map(self.entries@)
    }
}

proof fn lemma_entries_map<K: View, V>(entries: Seq<(K, V)>)
    requires
        keys_distinct(entries),
    ensures
        forall|i: int|
            0 <= i < entries.len() ==> entries_map(entries).contains_key(#[trigger] entries[i].0@)
                && entries_map(entries)[entries[i].0@] == entries[i].1,
        forall|k: K::V| #[trigger]
            entries_map(entries).contains_key(k) ==> exists|i: int|
                0 <= i < entries.len() && #[trigger] entries[i].0@ == k,
    decreases entries.len(),
{
    if entries.len() > 0 {
        let front = entries.drop_last();
        assert(keys_distinct(front)) by {
            assert forall|i: int, j: int| 0 <= i < j < front.len() implies #[trigger] front[i].0@
                != #[trigger] front[j].0@ by {
                assert(entries[i].0@ != entries[j].0@);
            }
        }
        lemma_entries_map(front);
        assert forall|i: int| 0 <= i < entries.len() implies entries_map(entries).contains_key(
            #[trigger] entries[i].0@,
        ) && entries_map(entries)[entries[i].0@] == entries[i].1 by {
            if i < front.len() {
                assert(front[i].0@ == entries[i].0@);
                assert(entries[i].0@ != entries[entries.len() - 1].0@);
            }
        }
        assert forall|k: K::V| #[trigger] entries_map(entries).contains_key(k) implies exists|
            i: int,
        |
            0 <= i < entries.len() && #[trigger] entries[i].0@ == k by {
            if k == entries.last().0@ {
                assert(entries[entries.len() - 1].0@ == k);
            } else {
                assert(entries_map(front).contains_key(k));
                let i = choose|i: int| 0 <= i < front.len() && #[trigger] front[i].0@ == k;
                assert(entries[i].0@ == k);
            }
        }
    }
}

impl<K: MapKey, V> VecMap<K, V> {
    #[verifier::type_invariant]
    closed spec fn well_formed(self) -> bool {
        keys_distinct(self.entries@)
    }

    /// An empty map.
    pub fn new() -> (map: Self)
        ensures
            map@ == Map::<K::V, V>::empty(),
    {
        VecMap { entries: Vec::new() }
    }

    fn find(&self, key: &K) -> (index: Option<usize>)
        ensures
            match index {
                Some(i) => i < self.entries@.len() && self.entries@[i as int].0@ == key@
                    && self@.contains_key(key@) && self@[key@] == self.entries@[i as int].1,
                None => !self@.contains_key(key@),
            },
    {
        proof {
            use_type_invariant(self);
            lemma_entries_map(self.entries@);
        }
        let mut i: usize = 0;
        while i < self.entries.len()
            invariant
                i <= self.entries@.len(),
                forall|j: int| 0 <= j < i ==> #[trigger] self.entries@[j].0@ != key@,
            decreases self.entries@.len() - i,
        {
            if self.entries[i].0.same_key(key) {
                proof {
                    use_type_invariant(self);
                    lemma_entries_map(self.entries@);
                }
                return Some(i);
            }
            i = i + 1;
        }
        None
    }

    /// Tells whether a key is mapped.
    pub fn contains_key(&self, key: &K) -> (result: bool)
        ensures
            result == self@.contains_key(key@),
    {
        self.find(key).is_some()
    }

    /// What a key is mapped to.
    pub fn get(&self, key: &K) -> (value: Option<&V>)
        ensures
            match value {
                Some(value) => self@.contains_key(key@) && *value == self@[key@],
                None => !self@.contains_key(key@),
            },
    {
        match self.find(key) {
            Some(i) => Some(&self.entries[i].1),
            None => None,
        }
    }

    /// Unmaps a key, and returns what it was mapped to.
    pub fn remove(&mut self, key: &K) -> (removed: Option<V>)
        ensures
            final(self)@ == old(self)@.remove(key@),
            removed == if old(self)@.contains_key(key@) {
                Some(old(self)@[key@])
            } else {
                None
            },
    {
        match self.find(key) {
            None => {
                assert(self@.remove(key@) =~= self@);
                None
            },
            Some(i) => {
                proof {
                    use_type_invariant(&*self);
                }
                let mut entries: Vec<(K, V)> = Vec::new();
                std::mem::swap(&mut entries, &mut self.entries);
                let ghost before = entries@;
                let (_, value) = entries.remove(i);
                proof {
                    let after = entries@;
                    assert forall|a: int, b: int| 0 <= a < b < after.len() implies #[trigger]
                    after[a].0@ != #[trigger] after[b].0@ by {
                        let x = if a < i {
                            a
                        } else {
                            a + 1
                        };
                        let y = if b < i {
                            b
                        } else {
                            b + 1
                        };
                        assert(before[x].0@ != before[y].0@);
                    }
                    lemma_entries_map(before);
                    lemma_entries_map(after);
                    let left = entries_map(after);
                    let right = entries_map(before).remove(key@);
                    assert forall|k: K::V| left.contains_key(k) == #[trigger] right.contains_key(k)
                        && (left.contains_key(k) ==> left[k] == right[k]) by {
                        if left.contains_key(k) {
                            let a = choose|a: int| 0 <= a < after.len() && #[trigger] after[a].0@ == k;
                            let x = if a < i {
                                a
                            } else {
                                a + 1
                            };
                            assert(after[a] == before[x]);
                            assert(before[x].0@ == k);
                            if x < i {
                                assert(before[x].0@ != before[i as int].0@);
                            } else {
                                assert(before[i as int].0@ != before[x].0@);
                            }
                        }
                        if right.contains_key(k) {
                            assert(entries_map(before).contains_key(k));
                            let x = choose|x: int|
                                0 <= x < before.len() && #[trigger] before[x].0@ == k;
                            let a = if x < i {
                                x
                            } else {
                                x - 1
                            };
                            assert(after[a] == before[x]);
                            assert(after[a].0@ == k);
                        }
                    }
                    assert(left =~= right);
                }
                self.entries = entries;
                Some(value)
            },
        }
    }

    /// Maps a key to a value, and returns what it was mapped to before.
    pub fn insert(&mut self, key: K, value: V) -> (replaced: Option<V>)
        ensures
            final(self)@ == old(self)@.insert(key@, value),
            replaced == if old(self)@.contains_key(key@) {
                Some(old(self)@[key@])
            } else {
                None
            },
    {
        let replaced = self.remove(&key);
        proof {
            use_type_invariant(&*self);
            lemma_entries_map(self.entries@);
        }
        let mut entries: Vec<(K, V)> = Vec::new();
        std::mem::swap(&mut entries, &mut self.entries);
        let ghost before = entries@;
        entries.push((key, value));
        proof {
            assert(entries@.drop_last() =~= before);
            assert forall|i: int, j: int| 0 <= i < j < entries@.len() implies #[trigger]
            entries@[i].0@ != #[trigger] entries@[j].0@ by {
                if j == before.len() {
                    assert(entries_map(before).contains_key(before[i].0@));
                } else {
                    assert(before[i].0@ != before[j].0@);
                }
            }
            assert(old(self)@.remove(key@).insert(key@, value) =~= old(self)@.insert(key@, value));
        }
        self.entries = entries;
        replaced
    }

    /// Unmaps every key.
    pub fn clear(&mut self)
        ensures
            final(self)@ == Map::<K::V, V>::empty(),
    {
        self.entries = Vec::new();
    }
}

impl<K: MapKey + Copy, V: Copy> VecMap<K, V> {
    /// A copy of a map.
    pub fn copied(&self) -> (copy: Self)
        ensures
            copy@ == self@,
    {
        proof {
            use_type_invariant(self);
        }
        let mut entries: Vec<(K, V)> = Vec::new();
        let mut i: usize = 0;
        while i < self.entries.len()
            invariant
                i <= self.entries@.len(),
                entries@ == self.entries@.take(i as int),
            decreases self.entries@.len() - i,
        {
            entries.push(self.entries[i]);
            i = i + 1;
            assert(self.entries@.take(i as int) =~= self.entries@.take(i - 1).push(
                self.entries@[i - 1],
            ));
        }
        assert(entries@ =~= self.entries@);
        VecMap { entries }
    }
}

/// A set of keys, kept as a list.
#[derive(Debug)]
pub struct VecSet<K: MapKey> {
    items: VecMap<K, ()>,
}

impl<K: MapKey> View for VecSet<K> {
    type V = Set<K::V>;

    closed spec fn view(&self) -> Set<K::V> {
        self.items@.dom()
    }
}

impl<K: MapKey> VecSet<K> {
    /// An empty set.
    pub fn new() -> (set: Self)
        ensures
            set@ == Set::<K::V>::empty(),
    {
        let set = VecSet { items: VecMap::new() };
        assert(set@ =~= Set::<K::V>::empty());
        set
    }

    /// Tells whether a key is in the set.
    pub fn contains(&self, key: &K) -> (result: bool)
        ensures
            result == self@.contains(key@),
    {
        self.items.contains_key(key)
    }

    /// Adds a key, and returns whether it is new.
    pub fn insert(&mut self, key: K) -> (inserted: bool)
        ensures
            final(self)@ == old(self)@.insert(key@),
            inserted == !old(self)@.contains(key@),
    {
        let replaced = self.items.insert(key, ());
        assert(self@ =~= old(self)@.insert(key@));
        replaced.is_none()
    }

    /// Takes a key out, and returns whether it was in the set.
    pub fn remove(&mut self, key: &K) -> (removed: bool)
        ensures
            final(self)@ == old(self)@.remove(key@),
            removed == old(self)@.contains(key@),
    {
        let removed = self.items.remove(key);
        assert(self@ =~= old(self)@.remove(key@));
        removed.is_some()
    }

    /// Takes every key out.
    pub fn clear(&mut self)
        ensures
            final(self)@ == Set::<K::V>::empty(),
    {
        self.items.clear();
        assert(self@ =~= Set::<K::V>::empty());
    }
}

impl<K: MapKey + Copy> VecSet<K> {
    /// A copy of a set.
    pub fn copied(&self) -> (copy: Self)
        ensures
            copy@ == self@,
    {
        VecSet { items: self.items.copied() }
    }
}

} // verus!
