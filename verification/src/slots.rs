//! Maps from ids or names to values: the values in a list, found through an index.
use crate::dash::{
    dash_clear, dash_get, dash_insert, dash_new, dash_remove, held, places_get, places_held,
    places_insert, places_new, places_remove,
};
use crate::named::{lists_names, names_in_order, TextMap};
use crate::ordered::{listing_of, IdSet};
use dashmap::DashMap;
use vstd::prelude::*;

verus! {

/// The index tells where the entry of each id stands.
spec fn indexed<V>(slots: Seq<(u32, V)>, index: Map<u64, u64>) -> bool {
    &&& forall|i: int|
        0 <= i < slots.len() ==> index.contains_key((#[trigger] slots[i]).0 as u64)
            && index[slots[i].0 as u64] == i
    &&& forall|k: u64| #[trigger]
        index.contains_key(k) ==> index[k] < slots.len() && slots[index[k] as int].0 as u64 == k
}

spec fn spelled<V>(slots: Seq<(u32, V)>, index: Map<u64, u64>) -> Map<u32, V> {
    Map::new(|id: u32| index.contains_key(id as u64), |id: u32| slots[index[id as u64] as int].1)
}

/// A map from ids to values.
pub struct SlotMap<V> {
    slots: Vec<(u32, V)>,
    index: DashMap<u64, u64>,
}

impl<V> View for SlotMap<V> {
    type V = Map<u32, V>;

    closed spec fn view(&self) -> Map<u32, V> {
        spelled(self.slots@, held(self.index))
    }
}

impl<V> SlotMap<V> {
    pub closed spec fn wf(&self) -> bool {
        indexed(self.slots@, held(self.index))
    }

    pub fn new() -> (map: Self)
        ensures
            map.wf(),
            map@ == Map::<u32, V>::empty(),
    {
        let map = SlotMap { slots: Vec::new(), index: dash_new() };
        assert(map@ =~= Map::<u32, V>::empty());
        map
    }

    /// Take everything out.
    pub fn clear(&mut self)
        ensures
            final(self).wf(),
            final(self)@ == Map::<u32, V>::empty(),
    {
        self.slots = Vec::new();
        dash_clear(&mut self.index);
        assert(self@ =~= Map::<u32, V>::empty());
    }

    pub fn contains(&self, id: u32) -> (yes: bool)
        requires
            self.wf(),
        ensures
            yes == self@.contains_key(id),
    {
        dash_get(&self.index, id as u64).is_some()
    }

    pub fn get(&self, id: u32) -> (value: Option<&V>)
        requires
            self.wf(),
        ensures
            match value {
                Some(v) => self@.contains_key(id) && self@[id] == *v,
                None => !self@.contains_key(id),
            },
    {
        let n: usize = self.slots.len();
        match dash_get(&self.index, id as u64) {
            Some(at) => Some(&self.slots[at as usize].1),
            None => None,
        }
    }

    /// Set the value of an id; returns the value it had.
    pub fn insert(&mut self, id: u32, value: V) -> (previous: Option<V>)
        requires
            old(self).wf(),
        ensures
            final(self).wf(),
            final(self)@ == old(self)@.insert(id, value),
            match previous {
                Some(v) => old(self)@.contains_key(id) && old(self)@[id] == v,
                None => !old(self)@.contains_key(id),
            },
    {
        let previous = self.remove(id);
        let ghost before = self.slots@;
        let ghost index = held(self.index);
        let ghost rest = self@;
        assert(!rest.contains_key(id));
        assert(!index.contains_key(id as u64));
        let at: usize = self.slots.len();
        self.slots.push((id, value));
        dash_insert(&mut self.index, id as u64, at as u64);
        proof {
            let after = held(self.index);
            assert forall|i: int| 0 <= i < self.slots@.len() implies after.contains_key(
                (#[trigger] self.slots@[i]).0 as u64,
            ) && after[self.slots@[i].0 as u64] == i by {
                if i < at {
                    assert(self.slots@[i] == before[i]);
                    assert(before[i].0 != id);
                }
            }
            assert forall|k: u64| #[trigger] after.contains_key(k) implies after[k]
                < self.slots@.len() && self.slots@[after[k] as int].0 as u64 == k by {
                if k != id as u64 {
                    assert(index.contains_key(k));
                }
            }
            assert forall|k: u32| #[trigger] self@.contains_key(k) implies self@[k] == old(
                self,
            )@.insert(id, value)[k] by {
                if k != id {
                    assert(index.contains_key(k as u64));
                    assert(rest.contains_key(k));
                    assert(rest[k] == before[index[k as u64] as int].1);
                }
            }
            assert forall|k: u32| self@.contains_key(k) == #[trigger] old(self)@.insert(
                id,
                value,
            ).contains_key(k) by {
                assert(rest.contains_key(k) == index.contains_key(k as u64));
            }
            assert(self@ =~= old(self)@.insert(id, value));
        }
        previous
    }

    /// Take an id out; returns the value it had.
    pub fn remove(&mut self, id: u32) -> (removed: Option<V>)
        requires
            old(self).wf(),
        ensures
            final(self).wf(),
            final(self)@ == old(self)@.remove(id),
            match removed {
                Some(v) => old(self)@.contains_key(id) && old(self)@[id] == v,
                None => !old(self)@.contains_key(id),
            },
    {
        let ghost before = self.slots@;
        let ghost index = held(self.index);
        match dash_remove(&mut self.index, id as u64) {
            None => {
                assert(index.remove(id as u64) =~= index);
                assert(self@ =~= old(self)@.remove(id));
                None
            },
            Some(at) => {
                let at: usize = at as usize;
                let n: usize = self.slots.len();
                let entry = self.slots.swap_remove(at);
                if at < n - 1 {
                    let moved: u32 = self.slots[at].0;
                    dash_insert(&mut self.index, moved as u64, at as u64);
                }
                proof {
                    let after = held(self.index);
                    let last = before[n - 1];
                    assert(self.slots@ =~= before.drop_last().update(at as int, last)
                        || at == n - 1 && self.slots@ =~= before.drop_last());
                    assert forall|i: int| 0 <= i < self.slots@.len() implies after.contains_key(
                        (#[trigger] self.slots@[i]).0 as u64,
                    ) && after[self.slots@[i].0 as u64] == i by {
                        if i == at {
                            assert(self.slots@[i] == last);
                        } else {
                            assert(self.slots@[i] == before[i]);
                            assert(index[before[i].0 as u64] == i);
                            assert(index[last.0 as u64] == n - 1);
                        }
                    }
                    assert forall|k: u64| #[trigger] after.contains_key(k) implies after[k]
                        < self.slots@.len() && self.slots@[after[k] as int].0 as u64 == k by {
                        assert(index.contains_key(k));
                        if k != last.0 as u64 {
                            assert(before[index[k] as int].0 as u64 == k);
                            assert(index[k] != n - 1);
                        }
                    }
                    assert forall|k: u32| #[trigger] self@.contains_key(k) implies self@[k] == old(
                        self,
                    )@.remove(id)[k] by {
                        assert(index.contains_key(k as u64));
                        if k != last.0 {
                            assert(index[k as u64] != n - 1);
                            assert(index[k as u64] != at);
                        }
                    }
                    assert forall|k: u32| #[trigger] self@.contains_key(k) == old(self)@.remove(
                        id,
                    ).contains_key(k) by {}
                    assert(self@ =~= old(self)@.remove(id));
                }
                Some(entry.1)
            },
        }
    }

    pub fn len(&self) -> (n: usize)
        requires
            self.wf(),
        ensures
            n == self@.len(),
    {
        proof {
            let s = self.slots@.map_values(|entry: (u32, V)| entry.0);
            assert forall|i: int, j: int| 0 <= i < j < s.len() implies s[i] != s[j] by {
                assert(self.slots@[i].0 == s[i]);
                assert(self.slots@[j].0 == s[j]);
            }
            assert(s.to_set() =~= self@.dom()) by {
                assert forall|k: u32| s.to_set().contains(k) == #[trigger] self@.dom().contains(
                    k,
                ) by {
                    if self@.dom().contains(k) {
                        assert(s[held(self.index)[k as u64] as int] == k);
                    }
                    if s.to_set().contains(k) {
                        let i = choose|i: int| 0 <= i < s.len() && s[i] == k;
                        assert(self.slots@[i].0 == k);
                    }
                }
            }
            s.unique_seq_to_set();
        }
        self.slots.len()
    }

    /// The ids, ascending.
    pub fn ids(&self) -> (ids: Vec<u32>)
        requires
            self.wf(),
        ensures
            ids@ == listing_of(self@.dom()),
            crate::ordered::lists(ids@, self@.dom()),
    {
        let mut set = IdSet::new();
        let mut i: usize = 0;
        while i < self.slots.len()
            invariant
                i <= self.slots@.len(),
                set.wf(),
                forall|id: u32| #[trigger]
                    set@.contains(id) <==> exists|j: int|
                        0 <= j < i && (#[trigger] self.slots@[j]).0 == id,
            decreases self.slots@.len() - i,
        {
            let id: u32 = self.slots[i].0;
            let ghost before = set@;
            set.insert(id);
            i = i + 1;
            proof {
                assert forall|k: u32| #[trigger] set@.contains(k) <==> exists|j: int|
                    0 <= j < i && (#[trigger] self.slots@[j]).0 == k by {
                    if set@.contains(k) {
                        if k == id {
                            assert(self.slots@[i - 1].0 == k);
                        } else {
                            assert(before.contains(k));
                        }
                    }
                }
            }
        }
        proof {
            assert(set@ =~= self@.dom()) by {
                assert forall|k: u32| set@.contains(k) == #[trigger] self@.dom().contains(k) by {
                    if self@.dom().contains(k) {
                        let j = held(self.index)[k as u64] as int;
                        assert(self.slots@[j].0 == k);
                    }
                }
            }
        }
        let ids = set.items();
        proof {
            crate::ordered::lemma_is_listing(ids@, self@.dom());
        }
        ids
    }
}

/// The index tells where the entry of each name stands.
spec fn placed<V>(slots: Seq<(String, V)>, index: Map<Seq<char>, u64>) -> bool {
    &&& forall|i: int|
        0 <= i < slots.len() ==> index.contains_key((#[trigger] slots[i]).0@)
            && index[slots[i].0@] == i
    &&& forall|k: Seq<char>| #[trigger]
        index.contains_key(k) ==> index[k] < slots.len() && slots[index[k] as int].0@ == k
}

spec fn spelled_out<V>(slots: Seq<(String, V)>, index: Map<Seq<char>, u64>) -> Map<Seq<char>, V> {
    index.map_values(|at: u64| slots[at as int].1)
}

/// A map from names to values.
#[derive(Debug)]
pub struct NamedSlots<V> {
    slots: Vec<(String, V)>,
    index: DashMap<String, u64>,
}

impl<V> View for NamedSlots<V> {
    type V = Map<Seq<char>, V>;

    closed spec fn view(&self) -> Map<Seq<char>, V> {
        spelled_out(self.slots@, places_held(self.index))
    }
}

impl<V> NamedSlots<V> {
    pub closed spec fn wf(&self) -> bool {
        placed(self.slots@, places_held(self.index))
    }

    pub fn new() -> (map: Self)
        ensures
            map.wf(),
            map@ == Map::<Seq<char>, V>::empty(),
    {
        let map = NamedSlots { slots: Vec::new(), index: places_new() };
        assert(map@ =~= Map::<Seq<char>, V>::empty());
        map
    }

    /// There are finitely many names.
    pub proof fn lemma_finite(&self)
        requires
            self.wf(),
        ensures
            self@.dom().finite(),
    {
        let s = self.slots@.map_values(|entry: (String, V)| entry.0@);
        assert(self@.dom() =~= s.to_set()) by {
            assert forall|k: Seq<char>| s.to_set().contains(k) == #[trigger] self@.dom().contains(
                k,
            ) by {
                if self@.dom().contains(k) {
                    assert(s[places_held(self.index)[k] as int] == k);
                }
                if s.to_set().contains(k) {
                    let i = choose|i: int| 0 <= i < s.len() && s[i] == k;
                    assert(self.slots@[i].0@ == k);
                }
            }
        }
        vstd::seq_lib::seq_to_set_is_finite(s);
    }

    pub fn get(&self, name: &str) -> (value: Option<&V>)
        requires
            self.wf(),
        ensures
            match value {
                Some(v) => self@.contains_key(name@) && self@[name@] == *v,
                None => !self@.contains_key(name@),
            },
    {
        let n: usize = self.slots.len();
        match places_get(&self.index, name) {
            Some(at) => Some(&self.slots[at as usize].1),
            None => None,
        }
    }

    /// Set the value of a name; returns the value it had.
    pub fn insert(&mut self, name: String, value: V) -> (previous: Option<V>)
        requires
            old(self).wf(),
        ensures
            final(self).wf(),
            final(self)@ == old(self)@.insert(name@, value),
            match previous {
                Some(v) => old(self)@.contains_key(name@) && old(self)@[name@] == v,
                None => !old(self)@.contains_key(name@),
            },
    {
        let previous = self.remove(name.as_str());
        let ghost before = self.slots@;
        let ghost index = places_held(self.index);
        let ghost rest = self@;
        let ghost key = name@;
        assert(!rest.contains_key(key));
        assert(!index.contains_key(key));
        let at: usize = self.slots.len();
        let place = name.clone();
        self.slots.push((name, value));
        places_insert(&mut self.index, place, at as u64);
        proof {
            let after = places_held(self.index);
            assert forall|i: int| 0 <= i < self.slots@.len() implies after.contains_key(
                (#[trigger] self.slots@[i]).0@,
            ) && after[self.slots@[i].0@] == i by {
                if i < at {
                    assert(self.slots@[i] == before[i]);
                    assert(index.contains_key(before[i].0@));
                }
            }
            assert forall|k: Seq<char>| #[trigger] after.contains_key(k) implies after[k]
                < self.slots@.len() && self.slots@[after[k] as int].0@ == k by {
                if k != key {
                    assert(index.contains_key(k));
                }
            }
            assert forall|k: Seq<char>| #[trigger] self@.contains_key(k) implies self@[k] == old(
                self,
            )@.insert(key, value)[k] by {
                if k != key {
                    assert(index.contains_key(k));
                    assert(rest.contains_key(k));
                    assert(rest[k] == before[index[k] as int].1);
                }
            }
            assert forall|k: Seq<char>| self@.contains_key(k) == #[trigger] old(self)@.insert(
                key,
                value,
            ).contains_key(k) by {
                assert(rest.contains_key(k) == index.contains_key(k));
            }
            assert(self@ =~= old(self)@.insert(key, value));
        }
        previous
    }

    /// Take a name out; returns the value it had.
    pub fn remove(&mut self, name: &str) -> (removed: Option<V>)
        requires
            old(self).wf(),
        ensures
            final(self).wf(),
            final(self)@ == old(self)@.remove(name@),
            match removed {
                Some(v) => old(self)@.contains_key(name@) && old(self)@[name@] == v,
                None => !old(self)@.contains_key(name@),
            },
    {
        let ghost before = self.slots@;
        let ghost index = places_held(self.index);
        match places_remove(&mut self.index, name) {
            None => {
                assert(index.remove(name@) =~= index);
                assert(self@ =~= old(self)@.remove(name@));
                None
            },
            Some(at) => {
                let at: usize = at as usize;
                let n: usize = self.slots.len();
                let entry = self.slots.swap_remove(at);
                if at < n - 1 {
                    let moved = self.slots[at].0.clone();
                    places_insert(&mut self.index, moved, at as u64);
                }
                proof {
                    let after = places_held(self.index);
                    let last = before[n - 1];
                    assert(self.slots@ =~= before.drop_last().update(at as int, last)
                        || at == n - 1 && self.slots@ =~= before.drop_last());
                    assert forall|i: int| 0 <= i < self.slots@.len() implies after.contains_key(
                        (#[trigger] self.slots@[i]).0@,
                    ) && after[self.slots@[i].0@] == i by {
                        if i == at {
                            assert(self.slots@[i] == last);
                        } else {
                            assert(self.slots@[i] == before[i]);
                            assert(index[before[i].0@] == i);
                            assert(index[last.0@] == n - 1);
                        }
                    }
                    assert forall|k: Seq<char>| #[trigger] after.contains_key(k) implies after[k]
                        < self.slots@.len() && self.slots@[after[k] as int].0@ == k by {
                        assert(index.contains_key(k));
                        if k != last.0@ {
                            assert(before[index[k] as int].0@ == k);
                            assert(index[k] != n - 1);
                        }
                    }
                    assert forall|k: Seq<char>| #[trigger] self@.contains_key(k) implies self@[k]
                        == old(self)@.remove(name@)[k] by {
                        assert(index.contains_key(k));
                        if k != last.0@ {
                            assert(index[k] != n - 1);
                            assert(index[k] != at);
                        }
                    }
                    assert forall|k: Seq<char>| #[trigger] self@.contains_key(k) == old(
                        self,
                    )@.remove(name@).contains_key(k) by {}
                    assert(self@ =~= old(self)@.remove(name@));
                }
                Some(entry.1)
            },
        }
    }

    /// The names, ascending.
    pub fn names(&self) -> (names: Vec<String>)
        requires
            self.wf(),
        ensures
            names@.map_values(|s: String| s@) == names_in_order(self@.dom()),
            lists_names(names_in_order(self@.dom()), self@.dom()),
    {
        let mut sorted: TextMap<()> = TextMap::new();
        let mut i: usize = 0;
        while i < self.slots.len()
            invariant
                i <= self.slots@.len(),
                sorted.wf(),
                forall|k: Seq<char>| #[trigger]
                    sorted@.contains_key(k) <==> exists|j: int|
                        0 <= j < i && (#[trigger] self.slots@[j]).0@ == k,
            decreases self.slots@.len() - i,
        {
            let name = self.slots[i].0.clone();
            let ghost key = name@;
            let ghost before = sorted@;
            sorted.insert(name, ());
            i = i + 1;
            proof {
                assert forall|k: Seq<char>| #[trigger] sorted@.contains_key(k) <==> exists|j: int|
                    0 <= j < i && (#[trigger] self.slots@[j]).0@ == k by {
                    if sorted@.contains_key(k) {
                        if k == key {
                            assert(self.slots@[i - 1].0@ == k);
                        } else {
                            assert(before.contains_key(k));
                        }
                    }
                }
            }
        }
        proof {
            assert(sorted@.dom() =~= self@.dom()) by {
                assert forall|k: Seq<char>| sorted@.contains_key(k)
                    == #[trigger] self@.dom().contains(k) by {
                    if self@.dom().contains(k) {
                        let j = places_held(self.index)[k] as int;
                        assert(self.slots@[j].0@ == k);
                    }
                }
            }
        }
        sorted.names()
    }
}

} // verus!
