//! Sets and maps of 32-bit ids, kept in ascending order of id.
use vstd::prelude::*;

verus! {

/// Strictly ascending.
pub open spec fn ascending(s: Seq<u32>) -> bool {
    forall|i: int, j: int| 0 <= i < j < s.len() ==> s[i] < s[j]
}

/// `s` lists exactly the members of `set`, in ascending order.
pub open spec fn lists(s: Seq<u32>, set: Set<u32>) -> bool {
    &&& ascending(s)
    &&& forall|x: u32| #[trigger] s.contains(x) <==> set.contains(x)
}

/// The ascending listing of a finite set.
pub open spec fn listing_of(set: Set<u32>) -> Seq<u32> {
    choose|s: Seq<u32>| lists(s, set)
}

/// A listing of a set is the listing of that set.
pub proof fn lemma_is_listing(s: Seq<u32>, set: Set<u32>)
    requires
        lists(s, set),
    ensures
        s == listing_of(set),
        lists(listing_of(set), set),
{
    listing_is_unique(s, listing_of(set), set);
}

/// A set has one ascending listing.
pub proof fn listing_is_unique(a: Seq<u32>, b: Seq<u32>, set: Set<u32>)
    requires
        lists(a, set),
        lists(b, set),
    ensures
        a == b,
    decreases a.len(),
{
    if a.len() == 0 {
        if b.len() > 0 {
            assert(b.contains(b[0]));
            assert(set.contains(b[0]));
            assert(a.contains(b[0]));
        }
        assert(a =~= b);
    } else {
        assert(a.contains(a.last()));
        assert(set.contains(a.last()));
        assert(b.contains(a.last()));
        assert(b.contains(b.last()));
        assert(set.contains(b.last()));
        assert(a.contains(b.last()));
        assert(a.last() == b.last());
        let a1 = a.drop_last();
        let b1 = b.drop_last();
        let set1 = set.remove(a.last());
        lemma_lists_drop_last(a, set);
        lemma_lists_drop_last(b, set);
        listing_is_unique(a1, b1, set1);
        assert(a =~= a1.push(a.last()));
        assert(b =~= b1.push(b.last()));
    }
}

/// Every finite set has an ascending listing.
pub proof fn finite_set_has_a_listing(set: Set<u32>)
    requires
        set.finite(),
    ensures
        lists(listing_of(set), set),
    decreases set.len(),
{
    if set.len() == 0 {
        assert(lists(Seq::<u32>::empty(), set));
    } else {
        let top = largest(set, set.choose());
        let rest = set.remove(top);
        finite_set_has_a_listing(rest);
        let s = listing_of(rest).push(top);
        assert forall|x: u32| #[trigger] s.contains(x) <==> set.contains(x) by {
            if s.contains(x) {
                let i = choose|i: int| 0 <= i < s.len() && s[i] == x;
                if i < s.len() - 1 {
                    assert(listing_of(rest).contains(x));
                }
            }
            if set.contains(x) {
                if x == top {
                    assert(s[s.len() - 1] == x);
                } else {
                    assert(listing_of(rest).contains(x));
                    let i = choose|i: int|
                        0 <= i < listing_of(rest).len() && listing_of(rest)[i] == x;
                    assert(s[i] == x);
                }
            }
        }
        assert forall|i: int, j: int| 0 <= i < j < s.len() implies s[i] < s[j] by {
            if j == s.len() - 1 {
                assert(listing_of(rest).contains(s[i]));
            }
        }
        assert(lists(s, set));
    }
}

/// The largest member of a finite set.
proof fn largest(set: Set<u32>, some: u32) -> (top: u32)
    requires
        set.finite(),
        set.contains(some),
    ensures
        set.contains(top),
        forall|x: u32| set.contains(x) ==> x <= top,
    decreases u32::MAX - some,
{
    if exists|x: u32| set.contains(x) && x > some {
        let next = choose|x: u32| set.contains(x) && x > some;
        largest(set, next)
    } else {
        some
    }
}

proof fn lemma_lists_drop_last(a: Seq<u32>, set: Set<u32>)
    requires
        lists(a, set),
        a.len() > 0,
    ensures
        lists(a.drop_last(), set.remove(a.last())),
{
    let a1 = a.drop_last();
    let set1 = set.remove(a.last());
    assert forall|x: u32| #[trigger] a1.contains(x) <==> set1.contains(x) by {
        if a1.contains(x) {
            let i = choose|i: int| 0 <= i < a1.len() && a1[i] == x;
            assert(a[i] == x);
            assert(a.contains(x));
        }
        if set1.contains(x) {
            assert(a.contains(x));
            let i = choose|i: int| 0 <= i < a.len() && a[i] == x;
            assert(i < a.len() - 1);
            assert(a1[i] == x);
        }
    }
}

/// `key` occurs among the keys of `entries`.
pub open spec fn has_key<V>(entries: Seq<(u32, V)>, key: u32) -> bool {
    exists|i: int| 0 <= i < entries.len() && (#[trigger] entries[i]).0 == key
}

/// Where `key` occurs among the keys of `entries`.
pub open spec fn key_index<V>(entries: Seq<(u32, V)>, key: u32) -> int {
    choose|i: int| 0 <= i < entries.len() && (#[trigger] entries[i]).0 == key
}

/// The keys of `entries` in their order.
pub open spec fn keys_of<V>(entries: Seq<(u32, V)>) -> Seq<u32> {
    entries.map_values(|e: (u32, V)| e.0)
}

/// The map that `entries` spell out.
pub open spec fn map_of<V>(entries: Seq<(u32, V)>) -> Map<u32, V> {
    Map::new(|k: u32| has_key(entries, k), |k: u32| entries[key_index(entries, k)].1)
}

/// A map from ids to values that keeps its entries in ascending order of id.
#[derive(Debug)]
pub struct IdMap<V> {
    entries: Vec<(u32, V)>,
}

impl<V> View for IdMap<V> {
    type V = Map<u32, V>;

    closed spec fn view(&self) -> Map<u32, V> {
        map_of(self.entries@)
    }
}

impl<V> IdMap<V> {
    /// The entries stand in strictly ascending order of id.
    pub closed spec fn wf(&self) -> bool {
        ascending(keys_of(self.entries@))
    }

    /// The entries in their order.
    pub closed spec fn listing(&self) -> Seq<(u32, V)> {
        self.entries@
    }

    /// What the listing says of the map.
    pub proof fn lemma_listing(&self)
        requires
            self.wf(),
        ensures
            lists(keys_of(self.listing()), self@.dom()),
            self@.dom().finite(),
            self@.len() == self.listing().len(),
            forall|i: int| #![trigger self.listing()[i]]
                0 <= i < self.listing().len() ==> self@.contains_key(self.listing()[i].0)
                    && self@[self.listing()[i].0] == self.listing()[i].1,
            forall|k: u32| #[trigger] self@.contains_key(k) ==> exists|i: int|
                0 <= i < self.listing().len() && (#[trigger] self.listing()[i]).0 == k
                    && self.listing()[i].1 == self@[k],
    {
        let s = keys_of(self.entries@);
        assert forall|x: u32| #[trigger] s.contains(x) <==> self@.dom().contains(x) by {
            if s.contains(x) {
                let i = choose|i: int| 0 <= i < s.len() && s[i] == x;
                assert(self.entries@[i].0 == x);
            }
            if self@.dom().contains(x) {
                let i = key_index(self.entries@, x);
                assert(s[i] == x);
            }
        }
        assert forall|i: int| 0 <= i < self.listing().len() implies #[trigger] self@.contains_key(
            self.listing()[i].0,
        ) && self@[self.listing()[i].0] == self.listing()[i].1 by {
            self.lemma_at(i);
        }
        assert forall|k: u32| #[trigger] self@.contains_key(k) implies exists|i: int|
            0 <= i < self.listing().len() && (#[trigger] self.listing()[i]).0 == k
                && self.listing()[i].1 == self@[k] by {
            let i = key_index(self.entries@, k);
            assert(self.listing()[i].0 == k);
        }
        assert(s.no_duplicates());
        assert(s.to_set() =~= self@.dom());
        s.unique_seq_to_set();
        vstd::seq_lib::seq_to_set_is_finite(s);
    }

    proof fn lemma_at(&self, i: int)
        requires
            self.wf(),
            0 <= i < self.entries@.len(),
        ensures
            has_key(self.entries@, self.entries@[i].0),
            key_index(self.entries@, self.entries@[i].0) == i,
    {
        let j = key_index(self.entries@, self.entries@[i].0);
        let s = keys_of(self.entries@);
        assert(s[i] == s[j]);
    }

    pub fn new() -> (map: Self)
        ensures
            map.wf(),
            map@ == Map::<u32, V>::empty(),
    {
        let map = Self { entries: Vec::new() };
        assert(map@ =~= Map::<u32, V>::empty());
        map
    }

    pub fn len(&self) -> (n: usize)
        requires
            self.wf(),
        ensures
            n == self@.len(),
            n == self.listing().len(),
    {
        proof {
            self.lemma_listing();
        }
        self.entries.len()
    }

    /// The entry at position `i` of the ascending order.
    pub fn entry_at(&self, i: usize) -> (entry: (u32, &V))
        requires
            self.wf(),
            i < self.listing().len(),
        ensures
            entry.0 == self.listing()[i as int].0,
            *entry.1 == self.listing()[i as int].1,
            self@.contains_key(entry.0),
            self@[entry.0] == *entry.1,
    {
        proof {
            self.lemma_at(i as int);
        }
        let e = &self.entries[i];
        (e.0, &e.1)
    }

    /// The first position whose id is not below `key`.
    fn position(&self, key: u32) -> (at: usize)
        requires
            self.wf(),
        ensures
            at <= self.entries@.len(),
            forall|i: int| 0 <= i < at ==> (#[trigger] self.entries@[i]).0 < key,
            forall|i: int| at <= i < self.entries@.len() ==> (#[trigger] self.entries@[i]).0 >= key,
            has_key(self.entries@, key) <==> at < self.entries@.len() && self.entries@[at as int].0
                == key,
    {
        let mut lo: usize = 0;
        let mut hi: usize = self.entries.len();
        let ghost s = keys_of(self.entries@);
        while lo < hi
            invariant
                lo <= hi <= self.entries@.len(),
                s == keys_of(self.entries@),
                ascending(s),
                forall|i: int| 0 <= i < lo ==> (#[trigger] self.entries@[i]).0 < key,
                forall|i: int| hi <= i < self.entries@.len() ==> (#[trigger] self.entries@[i]).0
                    >= key,
            decreases hi - lo,
        {
            let mid: usize = lo + (hi - lo) / 2;
            if self.entries[mid].0 < key {
                assert forall|i: int| 0 <= i <= mid implies (#[trigger] self.entries@[i]).0 < key by {
                    assert(s[i] <= s[mid as int]);
                }
                lo = mid + 1;
            } else {
                assert forall|i: int| mid <= i < self.entries@.len() implies (
                #[trigger] self.entries@[i]).0 >= key by {
                    assert(s[mid as int] <= s[i]);
                }
                hi = mid;
            }
        }
        proof {
            if has_key(self.entries@, key) {
                let i = key_index(self.entries@, key);
                assert(s[lo as int] <= s[i]);
            }
        }
        lo
    }

    pub fn contains(&self, key: u32) -> (yes: bool)
        requires
            self.wf(),
        ensures
            yes == self@.contains_key(key),
    {
        let at = self.position(key);
        at < self.entries.len() && self.entries[at].0 == key
    }

    pub fn get(&self, key: u32) -> (value: Option<&V>)
        requires
            self.wf(),
        ensures
            match value {
                Some(v) => self@.contains_key(key) && self@[key] == *v,
                None => !self@.contains_key(key),
            },
    {
        let at = self.position(key);
        if at < self.entries.len() && self.entries[at].0 == key {
            proof {
                self.lemma_at(at as int);
            }
            Some(&self.entries[at].1)
        } else {
            None
        }
    }

    /// Set the value of `key`; returns the value it had.
    pub fn insert(&mut self, key: u32, value: V) -> (previous: Option<V>)
        requires
            old(self).wf(),
        ensures
            final(self).wf(),
            final(self)@ == old(self)@.insert(key, value),
            match previous {
                Some(v) => old(self)@.contains_key(key) && old(self)@[key] == v,
                None => !old(self)@.contains_key(key),
            },
    {
        let at = self.position(key);
        let ghost before = self.entries@;
        let ghost map = *old(self);
        if at < self.entries.len() && self.entries[at].0 == key {
            proof {
                self.lemma_at(at as int);
            }
            let previous = self.entries.remove(at);
            self.entries.insert(at, (key, value));
            proof {
                assert(self.entries@ =~= before.update(at as int, (key, value)));
                lemma_replaced(before, at as int, key, value);
            }
            Some(previous.1)
        } else {
            self.entries.insert(at, (key, value));
            proof {
                let s = keys_of(before);
                let t = keys_of(self.entries@);
                assert forall|i: int, j: int| 0 <= i < j < t.len() implies t[i] < t[j] by {
                    if i < at && j > at {
                        assert(s[i] < s[j - 1]);
                    } else if j < at {
                        assert(s[i] < s[j]);
                    } else if i > at {
                        assert(s[i - 1] < s[j - 1]);
                    }
                }
                assert forall|k: u32| k != key implies #[trigger] has_key(self.entries@, k)
                    == has_key(before, k) by {
                    if has_key(self.entries@, k) {
                        let i = key_index(self.entries@, k);
                        if i < at {
                            assert(before[i].0 == k);
                        } else {
                            assert(before[i - 1].0 == k);
                        }
                    }
                    if has_key(before, k) {
                        let i = key_index(before, k);
                        if i < at {
                            assert(self.entries@[i].0 == k);
                        } else {
                            assert(self.entries@[i + 1].0 == k);
                        }
                    }
                }
                self.lemma_at(at as int);
                assert(self.entries@[at as int] == (key, value));
                assert forall|k: u32| k != key && #[trigger] has_key(before, k) implies
                    self.entries@[key_index(self.entries@, k)].1 == before[key_index(before, k)].1 by {
                    let i = key_index(before, k);
                    if i < at {
                        self.lemma_at(i);
                    } else {
                        self.lemma_at(i + 1);
                    }
                }
                assert forall|k: u32| #[trigger] old(self)@.insert(key, value).contains_key(k)
                    == self@.contains_key(k) by {
                    assert(k != key ==> has_key(self.entries@, k) == has_key(before, k));
                }
                assert forall|k: u32| #[trigger] self@.contains_key(k) implies self@[k] == old(
                    self,
                )@.insert(key, value)[k] by {
                    assert(k != key ==> has_key(self.entries@, k) == has_key(before, k));
                }
                assert(self@ =~= old(self)@.insert(key, value));
            }
            None
        }
    }

    /// Remove `key`; returns the value it had.
    pub fn remove(&mut self, key: u32) -> (removed: Option<V>)
        requires
            old(self).wf(),
        ensures
            final(self).wf(),
            final(self)@ == old(self)@.remove(key),
            match removed {
                Some(v) => old(self)@.contains_key(key) && old(self)@[key] == v,
                None => !old(self)@.contains_key(key),
            },
    {
        let at = self.position(key);
        let ghost before = self.entries@;
        if at < self.entries.len() && self.entries[at].0 == key {
            proof {
                self.lemma_at(at as int);
            }
            let removed = self.entries.remove(at);
            proof {
                let s = keys_of(before);
                let t = keys_of(self.entries@);
                assert forall|i: int, j: int| 0 <= i < j < t.len() implies t[i] < t[j] by {
                    let i0 = if i < at {
                        i
                    } else {
                        i + 1
                    };
                    let j0 = if j < at {
                        j
                    } else {
                        j + 1
                    };
                    assert(s[i0] < s[j0]);
                }
                assert forall|k: u32| has_key(self.entries@, k) == (k != key && has_key(before, k)) by {
                    if has_key(self.entries@, k) {
                        let i = key_index(self.entries@, k);
                        if i < at {
                            assert(before[i].0 == k);
                            assert(s[i] < s[at as int]);
                        } else {
                            assert(before[i + 1].0 == k);
                            assert(s[at as int] < s[i + 1]);
                        }
                    }
                    if k != key && has_key(before, k) {
                        let i = key_index(before, k);
                        if i < at {
                            assert(self.entries@[i].0 == k);
                        } else {
                            assert(self.entries@[i - 1].0 == k);
                        }
                    }
                }
                assert forall|k: u32| k != key && has_key(before, k) implies
                    self.entries@[key_index(self.entries@, k)].1 == before[key_index(before, k)].1 by {
                    let i = key_index(before, k);
                    if i < at {
                        self.lemma_at(i);
                    } else {
                        self.lemma_at(i - 1);
                    }
                }
                assert(self@ =~= old(self)@.remove(key));
            }
            Some(removed.1)
        } else {
            assert(self@ =~= old(self)@.remove(key));
            None
        }
    }

    /// The value of `key`, to be changed in place.
    pub fn get_mut(&mut self, key: u32) -> (value: Option<&mut V>)
        requires
            old(self).wf(),
        ensures
            final(self).wf(),
            match value {
                Some(v) => old(self)@.contains_key(key) && *v == old(self)@[key] && final(self)@
                    == old(self)@.insert(key, *final(v)),
                None => !old(self)@.contains_key(key) && final(self)@ == old(self)@,
            },
    {
        let at = self.position(key);
        if at < self.entries.len() && self.entries[at].0 == key {
            proof {
                self.lemma_at(at as int);
                let before = self.entries@;
                assert forall|value: V| ascending(
                    keys_of(#[trigger] before.update(at as int, (key, value))),
                ) && map_of(before.update(at as int, (key, value))) == map_of(before).insert(
                    key,
                    value,
                ) by {
                    lemma_replaced(before, at as int, key, value);
                }
            }
            Some(&mut self.entries[at].1)
        } else {
            None
        }
    }

    /// The ids, ascending.
    pub fn keys(&self) -> (keys: Vec<u32>)
        requires
            self.wf(),
        ensures
            keys@ == keys_of(self.listing()),
            lists(keys@, self@.dom()),
    {
        let mut keys: Vec<u32> = Vec::new();
        let mut i: usize = 0;
        while i < self.entries.len()
            invariant
                i <= self.entries@.len(),
                keys@ == keys_of(self.entries@).take(i as int),
            decreases self.entries@.len() - i,
        {
            keys.push(self.entries[i].0);
            i = i + 1;
            assert(keys@ =~= keys_of(self.entries@).take(i as int));
        }
        proof {
            self.lemma_listing();
            assert(keys@ =~= keys_of(self.listing()));
        }
        keys
    }
}

proof fn lemma_at_index<V>(entries: Seq<(u32, V)>, i: int)
    requires
        ascending(keys_of(entries)),
        0 <= i < entries.len(),
    ensures
        has_key(entries, entries[i].0),
        key_index(entries, entries[i].0) == i,
{
    let j = key_index(entries, entries[i].0);
    let s = keys_of(entries);
    assert(s[i] == s[j]);
}

/// Replacing the value of an entry replaces the value of its key.
proof fn lemma_replaced<V>(before: Seq<(u32, V)>, at: int, key: u32, value: V)
    requires
        ascending(keys_of(before)),
        0 <= at < before.len(),
        before[at].0 == key,
    ensures
        ascending(keys_of(before.update(at, (key, value)))),
        map_of(before.update(at, (key, value))) == map_of(before).insert(key, value),
{
    let entries = before.update(at, (key, value));
    assert(keys_of(entries) =~= keys_of(before));
    lemma_at_index(entries, at);
    assert forall|k: u32| k != key implies has_key(entries, k) == has_key(before, k) by {
        if has_key(entries, k) {
            let i = key_index(entries, k);
            assert(before[i].0 == k);
        }
        if has_key(before, k) {
            let i = key_index(before, k);
            assert(entries[i].0 == k);
        }
    }
    assert forall|k: u32| k != key && has_key(before, k) implies entries[key_index(entries, k)].1
        == before[key_index(before, k)].1 by {
        let i = key_index(before, k);
        assert(i != at);
        assert(entries[i] == before[i]);
        lemma_at_index(entries, i);
    }
    assert(map_of(entries) =~= map_of(before).insert(key, value));
}

/// A set of ids that keeps its members in ascending order.
#[derive(Debug)]
pub struct IdSet {
    items: Vec<u32>,
}

impl View for IdSet {
    type V = Set<u32>;

    closed spec fn view(&self) -> Set<u32> {
        Set::new(|x: u32| self.items@.contains(x))
    }
}

impl IdSet {
    /// The members stand in strictly ascending order.
    pub closed spec fn wf(&self) -> bool {
        ascending(self.items@)
    }

    pub fn new() -> (set: Self)
        ensures
            set.wf(),
            set@ == Set::<u32>::empty(),
    {
        let set = Self { items: Vec::new() };
        assert(set@ =~= Set::<u32>::empty());
        set
    }

    fn position(&self, x: u32) -> (at: usize)
        requires
            self.wf(),
        ensures
            at <= self.items@.len(),
            forall|i: int| 0 <= i < at ==> #[trigger] self.items@[i] < x,
            forall|i: int| at <= i < self.items@.len() ==> #[trigger] self.items@[i] >= x,
            self.items@.contains(x) <==> at < self.items@.len() && self.items@[at as int] == x,
    {
        let mut lo: usize = 0;
        let mut hi: usize = self.items.len();
        while lo < hi
            invariant
                lo <= hi <= self.items@.len(),
                ascending(self.items@),
                forall|i: int| 0 <= i < lo ==> #[trigger] self.items@[i] < x,
                forall|i: int| hi <= i < self.items@.len() ==> #[trigger] self.items@[i] >= x,
            decreases hi - lo,
        {
            let mid: usize = lo + (hi - lo) / 2;
            if self.items[mid] < x {
                assert forall|i: int| 0 <= i <= mid implies #[trigger] self.items@[i] < x by {
                    if i < mid {
                        assert(self.items@[i] < self.items@[mid as int]);
                    }
                }
                lo = mid + 1;
            } else {
                assert forall|i: int| mid <= i < self.items@.len() implies #[trigger] self.items@[i]
                    >= x by {
                    if mid < i {
                        assert(self.items@[mid as int] < self.items@[i]);
                    }
                }
                hi = mid;
            }
        }
        lo
    }

    pub fn contains(&self, x: u32) -> (yes: bool)
        requires
            self.wf(),
        ensures
            yes == self@.contains(x),
    {
        let at = self.position(x);
        at < self.items.len() && self.items[at] == x
    }

    pub fn is_empty(&self) -> (yes: bool)
        ensures
            yes == (self@ == Set::<u32>::empty()),
    {
        if self.items.len() == 0 {
            assert(self@ =~= Set::<u32>::empty());
            true
        } else {
            assert(self.items@.contains(self.items@[0]));
            assert(self@.contains(self.items@[0]));
            false
        }
    }

    /// Add `x`; returns whether it was new.
    pub fn insert(&mut self, x: u32) -> (added: bool)
        requires
            old(self).wf(),
        ensures
            final(self).wf(),
            final(self)@ == old(self)@.insert(x),
            added == !old(self)@.contains(x),
    {
        let at = self.position(x);
        let ghost before = self.items@;
        if at < self.items.len() && self.items[at] == x {
            assert(self@ =~= old(self)@.insert(x));
            false
        } else {
            self.items.insert(at, x);
            proof {
                let t = self.items@;
                assert(t =~= before.insert(at as int, x));
                assert forall|y: u32| t.contains(y) <==> (y == x || before.contains(y)) by {
                    if t.contains(y) {
                        let i = choose|i: int| 0 <= i < t.len() && t[i] == y;
                        if i < at {
                            assert(before[i] == y);
                        } else if i > at {
                            assert(before[i - 1] == y);
                        }
                    }
                    assert(t[at as int] == x);
                    if before.contains(y) {
                        let i = choose|i: int| 0 <= i < before.len() && before[i] == y;
                        if i < at {
                            assert(t[i] == y);
                        } else {
                            assert(t[i + 1] == y);
                        }
                    }
                }
                assert(self@ =~= old(self)@.insert(x));
            }
            true
        }
    }

    /// Remove `x`; returns whether it was there.
    pub fn remove(&mut self, x: u32) -> (removed: bool)
        requires
            old(self).wf(),
        ensures
            final(self).wf(),
            final(self)@ == old(self)@.remove(x),
            removed == old(self)@.contains(x),
    {
        let at = self.position(x);
        let ghost before = self.items@;
        if at < self.items.len() && self.items[at] == x {
            self.items.remove(at);
            proof {
                let t = self.items@;
                assert(t =~= before.remove(at as int));
                assert forall|y: u32| t.contains(y) <==> (y != x && before.contains(y)) by {
                    if t.contains(y) {
                        let i = choose|i: int| 0 <= i < t.len() && t[i] == y;
                        if i < at {
                            assert(before[i] == y);
                        } else {
                            assert(before[i + 1] == y);
                        }
                    }
                    if y != x && before.contains(y) {
                        let i = choose|i: int| 0 <= i < before.len() && before[i] == y;
                        if i < at {
                            assert(t[i] == y);
                        } else {
                            assert(t[i - 1] == y);
                        }
                    }
                }
                assert(self@ =~= old(self)@.remove(x));
            }
            true
        } else {
            assert(self@ =~= old(self)@.remove(x));
            false
        }
    }

    /// The members, ascending.
    pub fn items(&self) -> (items: Vec<u32>)
        requires
            self.wf(),
        ensures
            lists(items@, self@),
    {
        let mut items: Vec<u32> = Vec::new();
        let mut i: usize = 0;
        while i < self.items.len()
            invariant
                i <= self.items@.len(),
                items@ == self.items@.take(i as int),
            decreases self.items@.len() - i,
        {
            items.push(self.items[i]);
            i = i + 1;
            assert(items@ =~= self.items@.take(i as int));
        }
        assert(items@ =~= self.items@);
        items
    }
}

} // verus!
