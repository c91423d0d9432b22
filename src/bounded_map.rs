//! A map with a fixed capacity, keyed by small integers, that keeps insertion order.
//!
//! The capacity is a const generic parameter, so that a node's bounds on its publishers and
//! requesters can be type parameters; the map's contents are described by a spec function of
//! the map that is generic over that capacity.
use vstd::prelude::*;

verus! {

/// The map is full
#[derive(Debug, Clone, Copy, PartialEq, Eq, Structural)]
pub struct CapacityError;

/// A map from port IDs to values, holding at most `N` entries
#[derive(Debug)]
pub struct BoundedMap<V, const N: usize> {
    pub(crate) entries: Vec<(u16, V)>,
}

/// The map that a list of entries with distinct keys describes
pub open spec fn entries_map<V>(entries: Seq<(u16, V)>) -> Map<u16, V>
    decreases entries.len(),
{
    if entries.len() == 0 {
        Map::empty()
    } else {
        entries_map(entries.drop_last()).insert(entries.last().0, entries.last().1)
    }
}

/// True if no key appears twice in a list of entries
pub open spec fn keys_distinct<V>(entries: Seq<(u16, V)>) -> bool {
    forall|i: int, j: int|
        0 <= i < entries.len() && 0 <= j < entries.len() && i != j ==> (#[trigger] entries[i]).0
            != (#[trigger] entries[j]).0
}

/// The keys of a list of entries
proof fn lemma_entries_map_keys<V>(entries: Seq<(u16, V)>)
    requires
        keys_distinct(entries),
    ensures
        forall|k: u16|
            #[trigger] entries_map(entries).contains_key(k) <==> exists|i: int|
                0 <= i < entries.len() && (#[trigger] entries[i]).0 == k,
        forall|i: int|
            0 <= i < entries.len() ==> #[trigger] entries_map(entries)[entries[i].0]
                == entries[i].1,
        entries_map(entries).dom().finite(),
        entries_map(entries).len() == entries.len(),
    decreases entries.len(),
{
    if entries.len() > 0 {
        let init = entries.drop_last();
        assert(keys_distinct(init)) by {
            assert forall|i: int, j: int|
                0 <= i < init.len() && 0 <= j < init.len() && i != j implies (
                #[trigger] init[i]).0 != (#[trigger] init[j]).0 by {
                assert(init[i] == entries[i]);
                assert(init[j] == entries[j]);
            }
        }
        lemma_entries_map_keys(init);
        let last = entries.last();
        assert(!entries_map(init).contains_key(last.0)) by {
            if entries_map(init).contains_key(last.0) {
                let i = choose|i: int| 0 <= i < init.len() && (#[trigger] init[i]).0 == last.0;
                assert(entries[i] == init[i]);
                assert(entries[entries.len() - 1] == last);
            }
        }
        assert forall|k: u16| #[trigger] entries_map(entries).contains_key(k) <==> exists|i: int|
            0 <= i < entries.len() && (#[trigger] entries[i]).0 == k by {
            if entries_map(entries).contains_key(k) && k != last.0 {
                let i = choose|i: int| 0 <= i < init.len() && (#[trigger] init[i]).0 == k;
                assert(entries[i] == init[i]);
            }
            if exists|i: int| 0 <= i < entries.len() && (#[trigger] entries[i]).0 == k {
                let i = choose|i: int| 0 <= i < entries.len() && (#[trigger] entries[i]).0 == k;
                if i < init.len() {
                    assert(init[i] == entries[i]);
                }
            }
        }
        assert(entries_map(entries).dom() == entries_map(init).dom().insert(last.0));
        assert forall|i: int| 0 <= i < entries.len() implies #[trigger] entries_map(
            entries,
        )[entries[i].0] == entries[i].1 by {
            if i < init.len() {
                assert(init[i] == entries[i]);
            }
        }
    }
}

impl<V, const N: usize> BoundedMap<V, N> {
    /// The contents of the map
    pub open(crate) spec fn contents(&self) -> Map<u16, V> {
        entries_map(self.entries@)
    }

    /// Well-formed: distinct keys, at most `N` of them
    pub open(crate) spec fn wf(&self) -> bool {
        &&& keys_distinct(self.entries@)
        &&& self.entries@.len() <= N
    }

    /// A well-formed map holds at most `N` entries.
    pub proof fn lemma_capacity(&self)
        requires
            self.wf(),
        ensures
            self.contents().len() <= N,
            self.contents().dom().finite(),
    {
        lemma_entries_map_keys(self.entries@);
    }

    /// Creates an empty map
    pub fn new() -> (r: Self)
        ensures
            r.wf(),
            r.contents() == Map::<u16, V>::empty(),
    {
        BoundedMap { entries: Vec::with_capacity(N) }
    }

    /// Returns the number of entries
    pub fn len(&self) -> (r: usize)
        requires
            self.wf(),
        ensures
            r == self.contents().len(),
            r <= N,
    {
        proof {
            lemma_entries_map_keys(self.entries@);
        }
        self.entries.len()
    }

    /// Returns the position of a key in the entries
    fn position(&self, key: u16) -> (r: Option<usize>)
        ensures
            r matches Some(i) ==> i < self.entries@.len() && self.entries@[i as int].0 == key,
            r is None ==> forall|i: int|
                0 <= i < self.entries@.len() ==> (#[trigger] self.entries@[i]).0 != key,
    {
        let mut i: usize = 0;
        while i < self.entries.len()
            invariant
                i <= self.entries@.len(),
                forall|j: int| 0 <= j < i ==> (#[trigger] self.entries@[j]).0 != key,
            decreases self.entries@.len() - i,
        {
            if self.entries[i].0 == key {
                return Some(i);
            }
            i = i + 1;
        }
        None
    }

    /// Returns true if the map has an entry for a key
    pub fn contains_key(&self, key: u16) -> (r: bool)
        requires
            self.wf(),
        ensures
            r == self.contents().contains_key(key),
    {
        proof {
            lemma_entries_map_keys(self.entries@);
        }
        self.position(key).is_some()
    }

    /// Inserts an entry for a new key
    ///
    /// A key that is already in the map is refused, and so is any key when the map holds `N`
    /// entries; the map is then unchanged.
    pub fn insert(&mut self, key: u16, value: V) -> (r: Result<(), CapacityError>)
        requires
            old(self).wf(),
        ensures
            final(self).wf(),
            r is Ok <==> !old(self).contents().contains_key(key) && old(self).contents().len() < N,
            r is Ok ==> final(self).contents() == old(self).contents().insert(key, value),
            r is Err ==> final(self).contents() == old(self).contents(),
    {
        proof {
            lemma_entries_map_keys(self.entries@);
        }
        if self.position(key).is_some() || self.entries.len() >= N {
            return Err(CapacityError);
        }
        let ghost before = self.entries@;
        self.entries.push((key, value));
        proof {
            assert(self.entries@.drop_last() == before);
            assert forall|i: int, j: int|
                0 <= i < self.entries@.len() && 0 <= j < self.entries@.len() && i != j implies (
                #[trigger] self.entries@[i]).0 != (#[trigger] self.entries@[j]).0 by {
                if i < before.len() && j < before.len() {
                    assert(self.entries@[i] == before[i]);
                    assert(self.entries@[j] == before[j]);
                } else if i < before.len() {
                    assert(self.entries@[i] == before[i]);
                } else {
                    assert(self.entries@[j] == before[j]);
                }
            }
        }
        Ok(())
    }

    /// Removes the entry for a key, if there is one
    pub fn remove(&mut self, key: u16)
        requires
            old(self).wf(),
        ensures
            final(self).wf(),
            final(self).contents() == old(self).contents().remove(key),
    {
        proof {
            lemma_entries_map_keys(self.entries@);
        }
        match self.position(key) {
            None => {
                assert(self.contents() =~= self.contents().remove(key));
            },
            Some(i) => {
                let ghost before = self.entries@;
                let _removed = self.entries.remove(i);
                let ghost after = self.entries@;
                assert(after == before.remove(i as int));
                assert forall|a: int, b: int|
                    0 <= a < after.len() && 0 <= b < after.len() && a != b implies (
                    #[trigger] after[a]).0 != (#[trigger] after[b]).0 by {
                    let a2 = if a < i {
                        a
                    } else {
                        a + 1
                    };
                    let b2 = if b < i {
                        b
                    } else {
                        b + 1
                    };
                    assert(after[a] == before[a2]);
                    assert(after[b] == before[b2]);
                }
                proof {
                    lemma_entries_map_keys(after);
                }
                assert forall|k: u16| #[trigger] entries_map(after).contains_key(k) <==> entries_map(
                    before,
                ).remove(key).contains_key(k) by {
                    if entries_map(after).contains_key(k) {
                        let j = choose|j: int| 0 <= j < after.len() && (#[trigger] after[j]).0 == k;
                        if j < i {
                            assert(after[j] == before[j]);
                        } else {
                            assert(after[j] == before[j + 1]);
                        }
                    }
                    if entries_map(before).remove(key).contains_key(k) {
                        let j = choose|j: int| 0 <= j < before.len() && (#[trigger] before[j]).0 == k;
                        assert(j != i);
                        if j < i {
                            assert(after[j] == before[j]);
                        } else {
                            assert(after[j - 1] == before[j]);
                        }
                    }
                }
                assert forall|k: u16| #[trigger] entries_map(after).contains_key(k) implies entries_map(
                    after,
                )[k] == entries_map(before).remove(key)[k] by {
                    let j = choose|j: int| 0 <= j < after.len() && (#[trigger] after[j]).0 == k;
                    if j < i {
                        assert(after[j] == before[j]);
                    } else {
                        assert(after[j] == before[j + 1]);
                    }
                }
                assert(entries_map(after) =~= entries_map(before).remove(key));
            },
        }
    }

    /// Returns a reference to the value for a key
    pub fn get(&self, key: u16) -> (r: Option<&V>)
        requires
            self.wf(),
        ensures
            r is Some <==> self.contents().contains_key(key),
            r matches Some(v) ==> *v == self.contents()[key],
    {
        proof {
            lemma_entries_map_keys(self.entries@);
        }
        match self.position(key) {
            Some(i) => Some(&self.entries[i].1),
            None => None,
        }
    }

    /// Replaces the value for a key that is in the map
    pub fn set(&mut self, key: u16, value: V)
        requires
            old(self).wf(),
            old(self).contents().contains_key(key),
        ensures
            final(self).wf(),
            final(self).contents() == old(self).contents().insert(key, value),
    {
        proof {
            lemma_entries_map_keys(self.entries@);
        }
        match self.position(key) {
            Some(i) => {
                let ghost before = self.entries@;
                self.entries.set(i, (key, value));
                let ghost after = self.entries@;
                assert forall|a: int, b: int|
                    0 <= a < after.len() && 0 <= b < after.len() && a != b implies (
                    #[trigger] after[a]).0 != (#[trigger] after[b]).0 by {
                    assert(after[a].0 == before[a].0);
                    assert(after[b].0 == before[b].0);
                }
                proof {
                    lemma_entries_map_keys(after);
                }
                assert forall|k: u16| #[trigger] entries_map(after).contains_key(k) <==> entries_map(
                    before,
                ).insert(key, value).contains_key(k) by {
                    if entries_map(after).contains_key(k) {
                        let j = choose|j: int| 0 <= j < after.len() && (#[trigger] after[j]).0 == k;
                        assert(after[j].0 == before[j].0);
                    }
                    if entries_map(before).contains_key(k) {
                        let j = choose|j: int| 0 <= j < before.len() && (#[trigger] before[j]).0 == k;
                        assert(after[j].0 == before[j].0);
                    }
                }
                assert forall|k: u16| #[trigger] entries_map(after).contains_key(k) implies entries_map(
                    after,
                )[k] == entries_map(before).insert(key, value)[k] by {
                    let j = choose|j: int| 0 <= j < after.len() && (#[trigger] after[j]).0 == k;
                    assert(after[j].0 == before[j].0);
                }
                assert(entries_map(after) =~= entries_map(before).insert(key, value));
            },
            None => {},
        }
    }
}

} // verus!
