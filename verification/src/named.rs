//! Maps from names to values, kept in ascending order of name.
use crate::text::{chars_of, same};
use vstd::prelude::*;

verus! {

/// `a` comes before `b` in the order of their characters.
pub open spec fn precedes(a: Seq<char>, b: Seq<char>) -> bool
    decreases a.len(),
{
    if b.len() == 0 {
        false
    } else if a.len() == 0 {
        true
    } else if a[0] != b[0] {
        a[0] < b[0]
    } else {
        precedes(a.skip(1), b.skip(1))
    }
}

/// The order is a strict total order.
pub proof fn precedes_is_total(a: Seq<char>, b: Seq<char>)
    ensures
        !(precedes(a, b) && precedes(b, a)),
        precedes(a, b) || precedes(b, a) || a == b,
        a == b ==> !precedes(a, b),
    decreases a.len(),
{
    if a.len() == 0 || b.len() == 0 {
        if a.len() == 0 && b.len() == 0 {
            assert(a =~= b);
        }
    } else if a[0] == b[0] {
        precedes_is_total(a.skip(1), b.skip(1));
        if a.skip(1) == b.skip(1) {
            assert(a =~= seq![a[0]] + a.skip(1));
            assert(b =~= seq![b[0]] + b.skip(1));
        }
    }
}

pub proof fn precedes_is_transitive(a: Seq<char>, b: Seq<char>, c: Seq<char>)
    requires
        precedes(a, b),
        precedes(b, c),
    ensures
        precedes(a, c),
    decreases a.len(),
{
    if a.len() > 0 && a[0] == b[0] && b[0] == c[0] {
        precedes_is_transitive(a.skip(1), b.skip(1), c.skip(1));
    }
}

/// Whether `a` comes before `b`.
pub(crate) fn comes_before(a: &str, b: &str) -> (yes: bool)
    ensures
        yes == precedes(a@, b@),
{
    let left = chars_of(a);
    let right = chars_of(b);
    let mut i: usize = 0;
    assert(left@.skip(0) =~= left@);
    assert(right@.skip(0) =~= right@);
    while i < left.len() && i < right.len()
        invariant
            left@ == a@,
            right@ == b@,
            i <= left@.len(),
            i <= right@.len(),
            precedes(left@, right@) == precedes(left@.skip(i as int), right@.skip(i as int)),
        decreases left@.len() - i,
    {
        assert(left@.skip(i as int).skip(1) =~= left@.skip(i + 1));
        assert(right@.skip(i as int).skip(1) =~= right@.skip(i + 1));
        if left[i] != right[i] {
            return left[i] < right[i];
        }
        i = i + 1;
    }
    i < right.len()
}

/// Strictly ascending.
pub open spec fn in_order(s: Seq<Seq<char>>) -> bool {
    forall|i: int, j: int| 0 <= i < j < s.len() ==> #[trigger] precedes(s[i], s[j])
}

/// `s` lists exactly the members of `set`, in ascending order.
pub open spec fn lists_names(s: Seq<Seq<char>>, set: Set<Seq<char>>) -> bool {
    &&& in_order(s)
    &&& forall|x: Seq<char>| #[trigger] s.contains(x) <==> set.contains(x)
}

/// A set of names has one ascending listing.
pub proof fn name_listing_is_unique(a: Seq<Seq<char>>, b: Seq<Seq<char>>, set: Set<Seq<char>>)
    requires
        lists_names(a, set),
        lists_names(b, set),
    ensures
        a == b,
    decreases a.len(),
{
    if a.len() == 0 {
        if b.len() > 0 {
            assert(b.contains(b[0]));
            assert(set.contains(b[0]));
            assert(a.contains(b[0]));
        }
        assert(a =~= b);
    } else {
        assert(a.contains(a.last()));
        assert(b.contains(a.last()));
        assert(b.contains(b.last()));
        assert(a.contains(b.last()));
        let i = choose|i: int| 0 <= i < a.len() && a[i] == b.last();
        let j = choose|j: int| 0 <= j < b.len() && b[j] == a.last();
        if i < a.len() - 1 {
            assert(precedes(a[i], a[a.len() - 1]));
            precedes_is_total(a.last(), b.last());
            if j < b.len() - 1 {
                assert(precedes(b[j], b[b.len() - 1]));
            }
        }
        assert(a.last() == b.last());
        lemma_names_drop_last(a, set);
        lemma_names_drop_last(b, set);
        name_listing_is_unique(a.drop_last(), b.drop_last(), set.remove(a.last()));
        assert(a =~= a.drop_last().push(a.last()));
        assert(b =~= b.drop_last().push(b.last()));
    }
}

proof fn lemma_names_drop_last(a: Seq<Seq<char>>, set: Set<Seq<char>>)
    requires
        lists_names(a, set),
        a.len() > 0,
    ensures
        lists_names(a.drop_last(), set.remove(a.last())),
{
    let a1 = a.drop_last();
    let set1 = set.remove(a.last());
    assert forall|i: int, j: int| 0 <= i < j < a1.len() implies #[trigger] precedes(a1[i], a1[j]) by {
        assert(precedes(a[i], a[j]));
    }
    assert forall|x: Seq<char>| #[trigger] a1.contains(x) <==> set1.contains(x) by {
        if a1.contains(x) {
            let i = choose|i: int| 0 <= i < a1.len() && a1[i] == x;
            assert(a[i] == x);
            assert(a.contains(x));
            assert(precedes(a[i], a[a.len() - 1]));
            precedes_is_total(x, a.last());
        }
        if set1.contains(x) {
            assert(a.contains(x));
            let i = choose|i: int| 0 <= i < a.len() && a[i] == x;
            assert(i < a.len() - 1);
            assert(a1[i] == x);
        }
    }
}

/// The ascending listing of a finite set of names.
pub open spec fn names_in_order(set: Set<Seq<char>>) -> Seq<Seq<char>> {
    choose|s: Seq<Seq<char>>| lists_names(s, set)
}

pub proof fn lemma_names_in_order(s: Seq<Seq<char>>, set: Set<Seq<char>>)
    requires
        lists_names(s, set),
    ensures
        s == names_in_order(set),
{
    name_listing_is_unique(s, names_in_order(set), set);
}

/// Every finite set of names has an ascending listing.
pub proof fn finite_names_have_a_listing(set: Set<Seq<char>>)
    requires
        set.finite(),
    ensures
        lists_names(names_in_order(set), set),
    decreases set.len(),
{
    if set.len() == 0 {
        assert(lists_names(Seq::<Seq<char>>::empty(), set));
    } else {
        let last = last_name(set);
        let rest = set.remove(last);
        finite_names_have_a_listing(rest);
        let before = names_in_order(rest);
        let s = before.push(last);
        assert forall|x: Seq<char>| #[trigger] s.contains(x) <==> set.contains(x) by {
            if s.contains(x) {
                let i = choose|i: int| 0 <= i < s.len() && s[i] == x;
                if i < s.len() - 1 {
                    assert(before.contains(x));
                }
            }
            if set.contains(x) {
                if x == last {
                    assert(s[s.len() - 1] == x);
                } else {
                    assert(before.contains(x));
                    let i = choose|i: int| 0 <= i < before.len() && before[i] == x;
                    assert(s[i] == x);
                }
            }
        }
        assert forall|i: int, j: int| 0 <= i < j < s.len() implies #[trigger] precedes(
            s[i],
            s[j],
        ) by {
            if j == s.len() - 1 {
                assert(before.contains(s[i]));
            } else {
                assert(precedes(before[i], before[j]));
            }
        }
        assert(lists_names(s, set));
    }
}

/// The last name of a finite set.
proof fn last_name(set: Set<Seq<char>>) -> (last: Seq<char>)
    requires
        set.finite(),
        set.len() > 0,
    ensures
        set.contains(last),
        forall|x: Seq<char>| set.contains(x) && x != last ==> precedes(x, last),
    decreases set.len(),
{
    let some = set.choose();
    let rest = set.remove(some);
    if rest.len() == 0 {
        some
    } else {
        let other = last_name(rest);
        precedes_is_total(some, other);
        let last = if precedes(some, other) {
            other
        } else {
            some
        };
        assert forall|x: Seq<char>| set.contains(x) && x != last implies precedes(x, last) by {
            if x != some && x != other {
                assert(precedes(x, other));
                if last == some {
                    precedes_is_transitive(x, other, some);
                }
            }
        }
        last
    }
}

/// The names of `entries` in their order.
pub open spec fn names_of<V>(entries: Seq<(String, V)>) -> Seq<Seq<char>> {
    entries.map_values(|e: (String, V)| e.0@)
}

/// `name` occurs among the names of `entries`.
pub open spec fn has_name<V>(entries: Seq<(String, V)>, name: Seq<char>) -> bool {
    exists|i: int| 0 <= i < entries.len() && (#[trigger] entries[i]).0@ == name
}

/// Where `name` occurs among the names of `entries`.
pub open spec fn name_index<V>(entries: Seq<(String, V)>, name: Seq<char>) -> int {
    choose|i: int| 0 <= i < entries.len() && (#[trigger] entries[i]).0@ == name
}

/// The map that `entries` spell out.
pub open spec fn named<V>(entries: Seq<(String, V)>) -> Map<Seq<char>, V> {
    Map::new(|k: Seq<char>| has_name(entries, k), |k: Seq<char>| entries[name_index(entries, k)].1)
}

proof fn lemma_at_name<V>(entries: Seq<(String, V)>, i: int)
    requires
        in_order(names_of(entries)),
        0 <= i < entries.len(),
    ensures
        has_name(entries, entries[i].0@),
        name_index(entries, entries[i].0@) == i,
        named(entries).contains_key(entries[i].0@),
        named(entries)[entries[i].0@] == entries[i].1,
{
    assert(has_name(entries, entries[i].0@));
    let j = name_index(entries, entries[i].0@);
    let s = names_of(entries);
    assert(s[i] == s[j]);
    precedes_is_total(s[i], s[j]);
    if i < j {
        assert(precedes(s[i], s[j]));
    } else if j < i {
        assert(precedes(s[j], s[i]));
    }
}

/// Two entry lists hold the same map where every entry of either stands in the other.
proof fn lemma_same_map<V>(a: Seq<(String, V)>, m: Map<Seq<char>, V>)
    requires
        in_order(names_of(a)),
        forall|i: int| 0 <= i < a.len() ==> m.contains_key((#[trigger] a[i]).0@) && m[a[i].0@]
            == a[i].1,
        forall|k: Seq<char>| #[trigger] m.contains_key(k) ==> has_name(a, k),
    ensures
        named(a) == m,
{
    assert forall|k: Seq<char>| #[trigger] named(a).contains_key(k) implies m.contains_key(k)
        && m[k] == named(a)[k] by {
        let i = name_index(a, k);
        assert(a[i].0@ == k);
    }
    assert(named(a) =~= m);
}

/// Replacing the value of an entry replaces the value of its name.
proof fn lemma_renamed<V>(before: Seq<(String, V)>, at: int, entry: (String, V))
    requires
        in_order(names_of(before)),
        0 <= at < before.len(),
        before[at].0@ == entry.0@,
    ensures
        in_order(names_of(before.update(at, entry))),
        named(before.update(at, entry)) == named(before).insert(entry.0@, entry.1),
{
    let entries = before.update(at, entry);
    assert(names_of(entries) =~= names_of(before));
    lemma_at_name(before, at);
    assert forall|i: int| 0 <= i < entries.len() implies named(before).insert(
        entry.0@,
        entry.1,
    ).contains_key((#[trigger] entries[i]).0@) && named(before).insert(
        entry.0@,
        entry.1,
    )[entries[i].0@] == entries[i].1 by {
        lemma_at_name(before, i);
    }
    assert forall|k: Seq<char>| #[trigger]
        named(before).insert(entry.0@, entry.1).contains_key(k) implies has_name(entries, k) by {
        if k == entry.0@ {
            assert(entries[at].0@ == k);
        } else {
            let i = name_index(before, k);
            assert(entries[i].0@ == k);
        }
    }
    lemma_same_map(entries, named(before).insert(entry.0@, entry.1));
}

/// A map from names to values that keeps its entries in ascending order of name.
#[derive(Debug)]
pub struct TextMap<V> {
    entries: Vec<(String, V)>,
}

impl<V> View for TextMap<V> {
    type V = Map<Seq<char>, V>;

    closed spec fn view(&self) -> Map<Seq<char>, V> {
        named(self.entries@)
    }
}

impl<V> TextMap<V> {
    /// The entries stand in strictly ascending order of name.
    pub closed spec fn wf(&self) -> bool {
        in_order(names_of(self.entries@))
    }

    /// The entries in their order.
    pub closed spec fn listing(&self) -> Seq<(String, V)> {
        self.entries@
    }

    /// What the listing says of the map.
    pub proof fn lemma_listing(&self)
        requires
            self.wf(),
        ensures
            lists_names(names_of(self.listing()), self@.dom()),
            self@.dom().finite(),
            self@.len() == self.listing().len(),
            forall|i: int|
                #![trigger self.listing()[i]]
                0 <= i < self.listing().len() ==> self@.contains_key(self.listing()[i].0@)
                    && self@[self.listing()[i].0@] == self.listing()[i].1,
            forall|k: Seq<char>| #[trigger]
                self@.contains_key(k) ==> exists|i: int|
                    0 <= i < self.listing().len() && (#[trigger] self.listing()[i]).0@ == k
                        && self.listing()[i].1 == self@[k],
    {
        let s = names_of(self.entries@);
        assert forall|x: Seq<char>| #[trigger] s.contains(x) <==> self@.dom().contains(x) by {
            if s.contains(x) {
                let i = choose|i: int| 0 <= i < s.len() && s[i] == x;
                assert(self.entries@[i].0@ == x);
            }
            if self@.dom().contains(x) {
                let i = name_index(self.entries@, x);
                assert(s[i] == x);
            }
        }
        assert forall|i: int| 0 <= i < self.listing().len() implies #[trigger] self@.contains_key(
            self.listing()[i].0@,
        ) && self@[self.listing()[i].0@] == self.listing()[i].1 by {
            lemma_at_name(self.entries@, i);
        }
        assert forall|k: Seq<char>| #[trigger] self@.contains_key(k) implies exists|i: int|
            0 <= i < self.listing().len() && (#[trigger] self.listing()[i]).0@ == k
                && self.listing()[i].1 == self@[k] by {
            let i = name_index(self.entries@, k);
            assert(self.listing()[i].0@ == k);
        }
        assert(s.no_duplicates()) by {
            assert forall|i: int, j: int| 0 <= i < j < s.len() implies s[i] != s[j] by {
                assert(precedes(s[i], s[j]));
                precedes_is_total(s[i], s[j]);
            }
        }
        assert(s.to_set() =~= self@.dom());
        s.unique_seq_to_set();
        vstd::seq_lib::seq_to_set_is_finite(s);
    }

    pub fn new() -> (map: Self)
        ensures
            map.wf(),
            map@ == Map::<Seq<char>, V>::empty(),
    {
        let map = Self { entries: Vec::new() };
        assert(map@ =~= Map::<Seq<char>, V>::empty());
        map
    }

    pub fn len(&self) -> (n: usize)
        requires
            self.wf(),
        ensures
            n == self@.len(),
            n == self.listing().len(),
    {
        proof {
            self.lemma_listing();
        }
        self.entries.len()
    }

    /// The entry at position `i` of the ascending order.
    pub fn entry_at(&self, i: usize) -> (entry: (&String, &V))
        requires
            self.wf(),
            i < self.listing().len(),
        ensures
            *entry.0 == self.listing()[i as int].0,
            *entry.1 == self.listing()[i as int].1,
            self@.contains_key(entry.0@),
            self@[entry.0@] == *entry.1,
    {
        proof {
            lemma_at_name(self.entries@, i as int);
        }
        let e = &self.entries[i];
        (&e.0, &e.1)
    }

    /// The first position whose name does not come before `name`, and whether that is
    /// the name there.
    fn position(&self, name: &str) -> (at: (usize, bool))
        requires
            self.wf(),
        ensures
            at.0 <= self.entries@.len(),
            forall|i: int| 0 <= i < at.0 ==> precedes((#[trigger] self.entries@[i]).0@, name@),
            forall|i: int|
                at.0 <= i < self.entries@.len() ==> !precedes(
                    (#[trigger] self.entries@[i]).0@,
                    name@,
                ),
            at.1 == has_name(self.entries@, name@),
            at.1 ==> at.0 < self.entries@.len() && self.entries@[at.0 as int].0@ == name@,
    {
        let mut lo: usize = 0;
        let mut hi: usize = self.entries.len();
        let ghost s = names_of(self.entries@);
        while lo < hi
            invariant
                lo <= hi <= self.entries@.len(),
                s == names_of(self.entries@),
                in_order(s),
                forall|i: int| 0 <= i < lo ==> precedes((#[trigger] self.entries@[i]).0@, name@),
                forall|i: int|
                    hi <= i < self.entries@.len() ==> !precedes(
                        (#[trigger] self.entries@[i]).0@,
                        name@,
                    ),
            decreases hi - lo,
        {
            let mid: usize = lo + (hi - lo) / 2;
            if comes_before(self.entries[mid].0.as_str(), name) {
                assert forall|i: int| 0 <= i <= mid implies precedes(
                    (#[trigger] self.entries@[i]).0@,
                    name@,
                ) by {
                    if i < mid {
                        assert(precedes(s[i], s[mid as int]));
                        precedes_is_transitive(s[i], s[mid as int], name@);
                    }
                }
                lo = mid + 1;
            } else {
                assert forall|i: int| mid <= i < self.entries@.len() implies !precedes(
                    (#[trigger] self.entries@[i]).0@,
                    name@,
                ) by {
                    if mid < i && precedes(s[i], name@) {
                        assert(precedes(s[mid as int], s[i]));
                        precedes_is_transitive(s[mid as int], s[i], name@);
                    }
                }
                hi = mid;
            }
        }
        let found = lo < self.entries.len() && same(self.entries[lo].0.as_str(), name);
        proof {
            if has_name(self.entries@, name@) {
                let i = name_index(self.entries@, name@);
                precedes_is_total(s[i], name@);
                if i > lo {
                    assert(precedes(s[lo as int], s[i]));
                }
                assert(i == lo);
            }
        }
        (lo, found)
    }

    pub fn contains(&self, name: &str) -> (yes: bool)
        requires
            self.wf(),
        ensures
            yes == self@.contains_key(name@),
    {
        self.position(name).1
    }

    pub fn get(&self, name: &str) -> (value: Option<&V>)
        requires
            self.wf(),
        ensures
            match value {
                Some(v) => self@.contains_key(name@) && self@[name@] == *v,
                None => !self@.contains_key(name@),
            },
    {
        let (at, found) = self.position(name);
        if found {
            proof {
                lemma_at_name(self.entries@, at as int);
            }
            Some(&self.entries[at].1)
        } else {
            None
        }
    }

    /// Set the value of `name`; returns the value it had.
    pub fn insert(&mut self, name: String, value: V) -> (previous: Option<V>)
        requires
            old(self).wf(),
        ensures
            final(self).wf(),
            final(self)@ == old(self)@.insert(name@, value),
            match previous {
                Some(v) => old(self)@.contains_key(name@) && old(self)@[name@] == v,
                None => !old(self)@.contains_key(name@),
            },
    {
        let (at, found) = self.position(name.as_str());
        let ghost before = self.entries@;
        let ghost entry = (name, value);
        if found {
            proof {
                lemma_at_name(before, at as int);
                lemma_renamed(before, at as int, entry);
            }
            let previous = self.entries.remove(at);
            self.entries.insert(at, (name, value));
            assert(self.entries@ =~= before.update(at as int, entry));
            Some(previous.1)
        } else {
            self.entries.insert(at, (name, value));
            proof {
                let s = names_of(before);
                let t = names_of(self.entries@);
                assert forall|i: int, j: int| 0 <= i < j < t.len() implies #[trigger] precedes(
                    t[i],
                    t[j],
                ) by {
                    if i < at && j > at {
                        assert(precedes(s[i], s[j - 1]));
                    } else if j < at {
                        assert(precedes(s[i], s[j]));
                    } else if i > at {
                        assert(precedes(s[i - 1], s[j - 1]));
                    } else if i == at {
                        let next = before[j - 1].0@;
                        precedes_is_total(next, entry.0@);
                        assert(has_name(before, next));
                    } else {
                        assert(precedes(before[i].0@, entry.0@));
                    }
                }
                let m = old(self)@.insert(entry.0@, entry.1);
                assert forall|i: int| 0 <= i < self.entries@.len() implies m.contains_key(
                    (#[trigger] self.entries@[i]).0@,
                ) && m[self.entries@[i].0@] == self.entries@[i].1 by {
                    if i < at {
                        lemma_at_name(before, i);
                        assert(self.entries@[i] == before[i]);
                    } else if i > at {
                        lemma_at_name(before, i - 1);
                        assert(self.entries@[i] == before[i - 1]);
                    }
                }
                assert forall|k: Seq<char>| #[trigger] m.contains_key(k) implies has_name(
                    self.entries@,
                    k,
                ) by {
                    if k == entry.0@ {
                        assert(self.entries@[at as int].0@ == k);
                    } else {
                        let i = name_index(before, k);
                        if i < at {
                            assert(self.entries@[i].0@ == k);
                        } else {
                            assert(self.entries@[i + 1].0@ == k);
                        }
                    }
                }
                lemma_same_map(self.entries@, m);
            }
            None
        }
    }

    /// Remove `name`; returns the value it had.
    pub fn remove(&mut self, name: &str) -> (removed: Option<V>)
        requires
            old(self).wf(),
        ensures
            final(self).wf(),
            final(self)@ == old(self)@.remove(name@),
            match removed {
                Some(v) => old(self)@.contains_key(name@) && old(self)@[name@] == v,
                None => !old(self)@.contains_key(name@),
            },
    {
        let (at, found) = self.position(name);
        let ghost before = self.entries@;
        if found {
            proof {
                lemma_at_name(before, at as int);
            }
            let removed = self.entries.remove(at);
            proof {
                let s = names_of(before);
                let t = names_of(self.entries@);
                let m = old(self)@.remove(name@);
                assert forall|i: int, j: int| 0 <= i < j < t.len() implies #[trigger] precedes(
                    t[i],
                    t[j],
                ) by {
                    let i0 = if i < at {
                        i
                    } else {
                        i + 1
                    };
                    let j0 = if j < at {
                        j
                    } else {
                        j + 1
                    };
                    assert(precedes(s[i0], s[j0]));
                }
                assert forall|i: int| 0 <= i < self.entries@.len() implies m.contains_key(
                    (#[trigger] self.entries@[i]).0@,
                ) && m[self.entries@[i].0@] == self.entries@[i].1 by {
                    let i0 = if i < at {
                        i
                    } else {
                        i + 1
                    };
                    assert(self.entries@[i] == before[i0]);
                    lemma_at_name(before, i0);
                }
                assert forall|k: Seq<char>| #[trigger] m.contains_key(k) implies has_name(
                    self.entries@,
                    k,
                ) by {
                    let i = name_index(before, k);
                    if i < at {
                        assert(self.entries@[i].0@ == k);
                    } else {
                        assert(self.entries@[i - 1].0@ == k);
                    }
                }
                lemma_same_map(self.entries@, m);
            }
            Some(removed.1)
        } else {
            assert(self@ =~= old(self)@.remove(name@));
            None
        }
    }

    /// The value of `name`, to be changed in place.
    pub fn get_mut(&mut self, name: &str) -> (value: Option<&mut V>)
        requires
            old(self).wf(),
        ensures
            final(self).wf(),
            match value {
                Some(v) => old(self)@.contains_key(name@) && *v == old(self)@[name@] && final(self)@
                    == old(self)@.insert(name@, *final(v)),
                None => !old(self)@.contains_key(name@) && final(self)@ == old(self)@,
            },
    {
        let (at, found) = self.position(name);
        if found {
            proof {
                lemma_at_name(self.entries@, at as int);
                let before = self.entries@;
                let key = before[at as int].0;
                assert forall|value: V|
                    in_order(names_of(#[trigger] before.update(at as int, (key, value)))) && named(
                        before.update(at as int, (key, value)),
                    ) == named(before).insert(name@, value) by {
                    lemma_renamed(before, at as int, (key, value));
                }
            }
            Some(&mut self.entries[at].1)
        } else {
            None
        }
    }

    /// The names, ascending.
    pub fn names(&self) -> (names: Vec<String>)
        requires
            self.wf(),
        ensures
            names@.map_values(|s: String| s@) == names_in_order(self@.dom()),
            names@.map_values(|s: String| s@) == names_of(self.listing()),
            lists_names(names_in_order(self@.dom()), self@.dom()),
    {
        let mut names: Vec<String> = Vec::new();
        let mut i: usize = 0;
        while i < self.entries.len()
            invariant
                i <= self.entries@.len(),
                names@.len() == i,
                forall|j: int| 0 <= j < i ==> (#[trigger] names@[j])@ == self.entries@[j].0@,
            decreases self.entries@.len() - i,
        {
            names.push(self.entries[i].0.clone());
            i = i + 1;
        }
        proof {
            self.lemma_listing();
            assert(names@.map_values(|s: String| s@) =~= names_of(self.listing()));
            lemma_names_in_order(names_of(self.listing()), self@.dom());
        }
        names
    }
}

} // verus!
