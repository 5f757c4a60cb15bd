//! Persistent per-resource key/value storage.
//!
//! Scripts treat `SetResourceKvp` as durable: it is where character data, settings and
//! progression live between restarts.
//!
//! ## Synchronous and deferred writes
//!
//! A plain `SetResourceKvp` writes through. The `_NO_SYNC` variants only mark the store
//! dirty, which is what makes a bulk write of ten thousand keys fast, and
//! `FlushResourceKvp` forces the pending state out. What has to be written is handed to
//! the caller as a text; a write that failed is reported back, and the store stays
//! dirty so that the next flush retries.
//!
//! ## On-disk shape
//!
//! One JSON object per resource, so the file stays readable and a resource's data can
//! be inspected or removed by hand.
use crate::dash::{
    no_texts, texts_get, texts_held, texts_insert, texts_keys, texts_new, texts_remove,
};
use crate::named::{in_order, lists_names, names_in_order, names_of, TextMap};
use crate::text::{
    chars_of, find_char, has_prefix, joined3, lemma_position, position_of, starts_with,
    string_between,
};
use dashmap::DashMap;
use vstd::prelude::*;

verus! {

/// One resource's keys and values.
pub struct KvpGroup {
    pub resource: String,
    pub pairs: Vec<(String, String)>,
}

/// What a [`KvpGroup`] holds.
#[verifier::ext_equal]
pub struct GroupModel {
    pub resource: Seq<char>,
    pub pairs: Seq<(Seq<char>, Seq<char>)>,
}

impl View for KvpGroup {
    type V = GroupModel;

    open spec fn view(&self) -> GroupModel {
        GroupModel {
            resource: self.resource@,
            pairs: self.pairs@.map_values(|p: (String, String)| (p.0@, p.1@)),
        }
    }
}

pub open spec fn group_models(groups: Seq<KvpGroup>) -> Seq<GroupModel> {
    groups.map_values(|g: KvpGroup| g@)
}

/// Resources and keys stand in ascending order.
pub open spec fn groups_in_order(groups: Seq<GroupModel>) -> bool {
    &&& in_order(groups.map_values(|g: GroupModel| g.resource))
    &&& forall|i: int|
        0 <= i < groups.len() ==> in_order(
            (#[trigger] groups[i]).pairs.map_values(|p: (Seq<char>, Seq<char>)| p.0),
        )
}

/// The text that `serde_json` writes for a store.
pub uninterp spec fn kvp_text(groups: Seq<GroupModel>) -> Seq<char>;

/// What `serde_json` reads from the text of a store; nothing where the text is not one.
pub uninterp spec fn kvp_groups(text: Seq<char>) -> Option<Seq<GroupModel>>;

/// `serde_json::to_string_pretty` of a map of maps of strings, which reading gives back.
#[verifier::external_body]
fn print_groups(groups: &Vec<KvpGroup>) -> (text: String)
    requires
        groups_in_order(group_models(groups@)),
    ensures
        text@ == kvp_text(group_models(groups@)),
        kvp_groups(text@) == Some(group_models(groups@)),
{
    let pairs = |g: &KvpGroup| g.pairs.iter().cloned().collect();
    let by_resource: std::collections::BTreeMap<
        String,
        std::collections::BTreeMap<String, String>,
    > = groups.iter().map(|g| (g.resource.clone(), pairs(g))).collect();
    serde_json::to_string_pretty(&by_resource).unwrap_or_default()
}

/// `serde_json::from_str` into a map of maps of strings, whose entries come in order.
#[verifier::external_body]
fn parse_groups(text: &str) -> (groups: Option<Vec<KvpGroup>>)
    ensures
        match groups {
            Some(g) => kvp_groups(text@) == Some(group_models(g@)),
            None => kvp_groups(text@) is None,
        },
{
    let by_resource: std::collections::BTreeMap<
        String,
        std::collections::BTreeMap<String, String>,
    > = serde_json::from_str(text).ok()?;
    let group = |(resource, pairs): (String, std::collections::BTreeMap<String, String>)| KvpGroup {
        resource,
        pairs: pairs.into_iter().collect(),
    };
    Some(by_resource.into_iter().map(group).collect())
}

/// A resource name and a key as one. A resource name cannot contain a NUL, so the pair
/// can never be ambiguous.
pub open spec fn flat(resource: Seq<char>, key: Seq<char>) -> Seq<char> {
    resource + seq!['\0'] + key
}

/// Whether a name could be a resource's.
pub open spec fn plain(resource: Seq<char>) -> bool {
    forall|i: int| 0 <= i < resource.len() ==> #[trigger] resource[i] != '\0'
}

/// The resource of a flat key.
pub open spec fn resource_part(flat: Seq<char>) -> Seq<char> {
    flat.take(position_of(flat, '\0', 0))
}

/// The key of a flat key.
pub open spec fn key_part(flat: Seq<char>) -> Seq<char> {
    flat.skip(position_of(flat, '\0', 0) + 1)
}

/// A flat key has a resource and a key.
pub open spec fn splits(flat: Seq<char>) -> bool {
    position_of(flat, '\0', 0) < flat.len()
}

/// The entries with a resource's pairs added.
pub open spec fn with_pairs(
    entries: Map<Seq<char>, Seq<char>>,
    resource: Seq<char>,
    pairs: Seq<(Seq<char>, Seq<char>)>,
) -> Map<Seq<char>, Seq<char>>
    decreases pairs.len(),
{
    if pairs.len() == 0 {
        entries
    } else {
        with_pairs(entries, resource, pairs.drop_last()).insert(
            flat(resource, pairs.last().0),
            pairs.last().1,
        )
    }
}

/// The entries that groups spell out.
pub open spec fn ungrouped(groups: Seq<GroupModel>) -> Map<Seq<char>, Seq<char>>
    decreases groups.len(),
{
    if groups.len() == 0 {
        Map::empty()
    } else {
        with_pairs(ungrouped(groups.drop_last()), groups.last().resource, groups.last().pairs)
    }
}

/// What a text holds: nothing where it cannot be read.
pub open spec fn stored(text: Seq<char>) -> Map<Seq<char>, Seq<char>> {
    match kvp_groups(text) {
        Some(groups) => ungrouped(groups),
        None => Map::empty(),
    }
}

/// A store's content.
#[verifier::ext_equal]
pub struct KvpModel {
    /// The values by flat key.
    pub entries: Map<Seq<char>, Seq<char>>,
    /// Whether the store is kept anywhere but in memory.
    pub persistent: bool,
    /// Whether anything was changed since it was last written.
    pub dirty: bool,
}

/// The keys of a resource that start with a prefix.
pub open spec fn keys_under(
    entries: Map<Seq<char>, Seq<char>>,
    resource: Seq<char>,
    prefix: Seq<char>,
) -> Set<Seq<char>> {
    Set::new(
        |key: Seq<char>|
            exists|f: Seq<char>| #[trigger]
                entries.contains_key(f) && starts_with(f, flat(resource, prefix)) && key_part(f)
                    == key,
    )
}

/// Per-resource key/value store, shared by every resource runtime.
pub struct KvpStore {
    entries: DashMap<String, String>,
    persistent: bool,
    dirty: bool,
}

impl View for KvpStore {
    type V = KvpModel;

    closed spec fn view(&self) -> KvpModel {
        KvpModel {
            entries: texts_held(self.entries),
            persistent: self.persistent,
            dirty: self.dirty,
        }
    }
}

proof fn lemma_flat(resource: Seq<char>, key: Seq<char>)
    ensures
        splits(flat(resource, key)),
        plain(resource) ==> resource_part(flat(resource, key)) == resource && key_part(
            flat(resource, key),
        ) == key,
{
    let f = flat(resource, key);
    lemma_position(f, '\0', 0);
    assert(f[resource.len() as int] == '\0');
    if plain(resource) {
        let n = position_of(f, '\0', 0);
        if n < resource.len() {
            assert(f[n] == resource[n]);
        }
        assert(n == resource.len());
        assert(f.take(n) =~= resource);
        assert(f.skip(n + 1) =~= key);
    }
}

proof fn lemma_parts(f: Seq<char>)
    requires
        splits(f),
    ensures
        flat(resource_part(f), key_part(f)) == f,
        plain(resource_part(f)),
{
    lemma_position(f, '\0', 0);
    assert(flat(resource_part(f), key_part(f)) =~= f);
}

/// Two resources never share an entry.
pub proof fn values_are_scoped(r: Seq<char>, k: Seq<char>, other: Seq<char>, l: Seq<char>)
    requires
        plain(r),
        plain(other),
        flat(r, k) == flat(other, l),
    ensures
        r == other,
        k == l,
{
    lemma_flat(r, k);
    lemma_flat(other, l);
}

/// A search by prefix finds the keys of its own resource, and those only.
pub proof fn search_is_scoped(
    entries: Map<Seq<char>, Seq<char>>,
    resource: Seq<char>,
    prefix: Seq<char>,
    key: Seq<char>,
)
    requires
        plain(resource),
    ensures
        keys_under(entries, resource, prefix).contains(key) <==> entries.contains_key(
            flat(resource, key),
        ) && starts_with(key, prefix),
{
    let scope = flat(resource, prefix);
    lemma_flat(resource, key);
    if keys_under(entries, resource, prefix).contains(key) {
        let f = choose|f: Seq<char>| #[trigger]
            entries.contains_key(f) && starts_with(f, scope) && key_part(f) == key;
        lemma_position(f, '\0', 0);
        let n = resource.len() as int;
        assert(f.take(scope.len() as int) == scope);
        assert(f[n] == f.take(scope.len() as int)[n]);
        assert forall|i: int| 0 <= i < n implies f[i] == resource[i] by {
            assert(f[i] == f.take(scope.len() as int)[i]);
        }
        if position_of(f, '\0', 0) < n {
            assert(f[position_of(f, '\0', 0)] == resource[position_of(f, '\0', 0)]);
        }
        assert(position_of(f, '\0', 0) == n);
        assert(flat(resource, key) =~= f);
        assert(key.take(prefix.len() as int) =~= prefix) by {
            assert forall|i: int| 0 <= i < prefix.len() implies key[i] == prefix[i] by {
                assert(key[i] == f[n + 1 + i]);
                assert(f[n + 1 + i] == f.take(scope.len() as int)[n + 1 + i]);
            }
        }
    }
    if entries.contains_key(flat(resource, key)) && starts_with(key, prefix) {
        let f = flat(resource, key);
        assert(f.take(scope.len() as int) =~= scope) by {
            assert forall|i: int| 0 <= i < prefix.len() implies key[i] == prefix[i] by {
                assert(key[i] == key.take(prefix.len() as int)[i]);
            }
        }
    }
}

fn flat_key(resource: &str, key: &str) -> (f: String)
    ensures
        f@ == flat(resource@, key@),
{
    proof {
        reveal_strlit("\0");
        assert("\0"@ =~= seq!['\0']);
    }
    joined3(resource, "\0", key)
}

/// A flat key's resource and key.
fn parts_of(f: &str) -> (parts: Option<(String, String)>)
    ensures
        match parts {
            Some((resource, key)) => splits(f@) && resource@ == resource_part(f@) && key@
                == key_part(f@),
            None => !splits(f@),
        },
{
    let chars = chars_of(f);
    let n: usize = find_char(&chars, '\0', 0);
    if n < chars.len() {
        let resource = string_between(&chars, 0, n);
        let key = string_between(&chars, n + 1, chars.len());
        assert(resource@ =~= resource_part(f@));
        assert(key@ =~= key_part(f@));
        Some((resource, key))
    } else {
        None
    }
}

impl KvpStore {
    /// Every entry belongs to a resource.
    pub closed spec fn wf(&self) -> bool {
        forall|f: Seq<char>| #[trigger] texts_held(self.entries).contains_key(f) ==> splits(f)
    }

    /// A store that is only kept in memory.
    pub fn in_memory() -> (store: Self)
        ensures
            store.wf(),
            store@ == (KvpModel { entries: Map::empty(), persistent: false, dirty: false }),
    {
        KvpStore { entries: texts_new(), persistent: false, dirty: false }
    }

    /// Open a store that is kept as a text, with what is already there.
    ///
    /// No text is an empty store. An unreadable one is treated as empty: refusing to
    /// boot over it would take the whole server down for data that scripts are expected
    /// to tolerate losing.
    pub fn open(text: Option<&str>) -> (store: Self)
        ensures
            store.wf(),
            store@ == (KvpModel {
                entries: match text {
                    Some(t) => stored(t@),
                    None => Map::empty(),
                },
                persistent: true,
                dirty: false,
            }),
    {
        let mut store = KvpStore { entries: texts_new(), persistent: true, dirty: false };
        if let Some(t) = text {
            if let Some(groups) = parse_groups(t) {
                store.load(&groups);
            }
        }
        store
    }

    fn load(&mut self, groups: &Vec<KvpGroup>)
        requires
            old(self)@.entries == no_texts(),
        ensures
            final(self).wf(),
            final(self)@ == (KvpModel {
                entries: ungrouped(group_models(groups@)),
                ..old(self)@
            }),
    {
        let ghost all = group_models(groups@);
        let mut i: usize = 0;
        assert(all.take(0) =~= Seq::empty());
        while i < groups.len()
            invariant
                i <= groups@.len(),
                all == group_models(groups@),
                self.wf(),
                self@ == (KvpModel { entries: ungrouped(all.take(i as int)), ..old(self)@ }),
            decreases groups@.len() - i,
        {
            let group = &groups[i];
            let ghost pairs = group@.pairs;
            let ghost before = self@.entries;
            let mut j: usize = 0;
            assert(pairs.take(0) =~= Seq::empty());
            while j < group.pairs.len()
                invariant
                    j <= group.pairs@.len() == pairs.len(),
                    pairs == group@.pairs,
                    self.wf(),
                    self@ == (KvpModel {
                        entries: with_pairs(before, group.resource@, pairs.take(j as int)),
                        ..old(self)@
                    }),
                decreases group.pairs@.len() - j,
            {
                let key = flat_key(group.resource.as_str(), group.pairs[j].0.as_str());
                let value = group.pairs[j].1.clone();
                proof {
                    assert(pairs.take(j + 1).drop_last() =~= pairs.take(j as int));
                    assert(pairs.take(j + 1).last() == pairs[j as int]);
                    lemma_flat(group.resource@, group.pairs@[j as int].0@);
                }
                texts_insert(&mut self.entries, key, value);
                j = j + 1;
            }
            proof {
                assert(pairs.take(j as int) =~= pairs);
                assert(all.take(i + 1).drop_last() =~= all.take(i as int));
                assert(all.take(i + 1).last() == group@);
            }
            i = i + 1;
        }
        assert(all.take(i as int) =~= all);
    }

    pub fn get(&self, resource: &str, key: &str) -> (value: Option<String>)
        ensures
            match value {
                Some(v) => self@.entries.contains_key(flat(resource@, key@))
                    && self@.entries[flat(resource@, key@)] == v@,
                None => !self@.entries.contains_key(flat(resource@, key@)),
            },
    {
        let f = flat_key(resource, key);
        texts_get(&self.entries, f.as_str())
    }

    /// Store a value. `sync` writes through: the text to write is returned.
    pub fn set(&mut self, resource: &str, key: &str, value: String, sync: bool) -> (out: Option<
        String,
    >)
        requires
            old(self).wf(),
        ensures
            final(self).wf(),
            written(
                KvpModel {
                    entries: old(self)@.entries.insert(flat(resource@, key@), value@),
                    dirty: true,
                    ..old(self)@
                },
                sync,
                final(self)@,
                crate::state_bag::optional(out),
            ),
    {
        let f = flat_key(resource, key);
        proof {
            lemma_flat(resource@, key@);
        }
        texts_insert(&mut self.entries, f, value);
        self.mark_dirty(sync)
    }

    /// Remove a value. `sync` writes through: the text to write is returned.
    pub fn remove(&mut self, resource: &str, key: &str, sync: bool) -> (out: Option<String>)
        requires
            old(self).wf(),
        ensures
            final(self).wf(),
            written(
                KvpModel {
                    entries: old(self)@.entries.remove(flat(resource@, key@)),
                    dirty: true,
                    ..old(self)@
                },
                sync,
                final(self)@,
                crate::state_bag::optional(out),
            ),
    {
        let f = flat_key(resource, key);
        texts_remove(&mut self.entries, f.as_str());
        self.mark_dirty(sync)
    }

    /// Keys of `resource` starting with `prefix`, sorted so `FindKvp` walks a stable
    /// sequence.
    pub fn keys_with_prefix(&self, resource: &str, prefix: &str) -> (keys: Vec<String>)
        ensures
            keys@.map_values(|s: String| s@) == names_in_order(
                keys_under(self@.entries, resource@, prefix@),
            ),
            lists_names(
                keys@.map_values(|s: String| s@),
                keys_under(self@.entries, resource@, prefix@),
            ),
    {
        let scope = flat_key(resource, prefix);
        let all = texts_keys(&self.entries);
        let mut found: TextMap<()> = TextMap::new();
        let mut i: usize = 0;
        proof {
            lemma_flat(resource@, prefix@);
        }
        while i < all.len()
            invariant
                i <= all@.len(),
                found.wf(),
                scope@ == flat(resource@, prefix@),
                splits(scope@),
                forall|key: Seq<char>| #[trigger]
                    found@.contains_key(key) <==> exists|j: int|
                        0 <= j < i && starts_with((#[trigger] all@[j])@, scope@) && key_part(
                            all@[j]@,
                        ) == key,
            decreases all@.len() - i,
        {
            let f = all[i].as_str();
            let ghost before = found@;
            if has_prefix(f, scope.as_str()) {
                proof {
                    lemma_prefix_splits(f@, scope@);
                }
                if let Some((_resource, key)) = parts_of(f) {
                    found.insert(key, ());
                }
            }
            i = i + 1;
            proof {
                assert forall|key: Seq<char>| #[trigger] found@.contains_key(key) <==> exists|
                    j: int,
                |
                    0 <= j < i && starts_with((#[trigger] all@[j])@, scope@) && key_part(all@[j]@)
                        == key by {
                    if found@.contains_key(key) && !before.contains_key(key) {
                        assert(key_part(all@[i - 1]@) == key);
                    }
                    if before.contains_key(key) {
                        let j = choose|j: int|
                            0 <= j < i - 1 && starts_with((#[trigger] all@[j])@, scope@)
                                && key_part(all@[j]@) == key;
                        assert(key_part(all@[j]@) == key);
                    }
                    if exists|j: int|
                        0 <= j < i && starts_with((#[trigger] all@[j])@, scope@) && key_part(
                            all@[j]@,
                        ) == key {
                        let j = choose|j: int|
                            0 <= j < i && starts_with((#[trigger] all@[j])@, scope@) && key_part(
                                all@[j]@,
                            ) == key;
                        if j < i - 1 {
                            assert(before.contains_key(key));
                        }
                    }
                }
            }
        }
        proof {
            let set = keys_under(self@.entries, resource@, prefix@);
            assert(found@.dom() =~= set) by {
                assert forall|key: Seq<char>| found@.dom().contains(key) == #[trigger] set.contains(
                    key,
                ) by {
                    if set.contains(key) {
                        let f = choose|f: Seq<char>| #[trigger]
                            self@.entries.contains_key(f) && starts_with(f, scope@) && key_part(f)
                                == key;
                        let j = choose|j: int| 0 <= j < all@.len() && (#[trigger] all@[j])@ == f;
                        assert(starts_with(all@[j]@, scope@));
                        assert(found@.contains_key(key));
                    }
                    if found@.contains_key(key) {
                        let j = choose|j: int|
                            0 <= j < all@.len() && starts_with((#[trigger] all@[j])@, scope@)
                                && key_part(all@[j]@) == key;
                        assert(self@.entries.contains_key(all@[j]@));
                    }
                }
            }
        }
        found.names()
    }

    pub fn len(&self) -> (n: usize)
        ensures
            n == self@.entries.len(),
    {
        let keys = texts_keys(&self.entries);
        proof {
            let s = keys@.map_values(|k: String| k@);
            assert(s.no_duplicates()) by {
                assert forall|i: int, j: int| 0 <= i < j < s.len() implies s[i] != s[j] by {
                    assert(keys@[i]@ != keys@[j]@);
                }
            }
            assert(s.to_set() =~= self@.entries.dom()) by {
                assert forall|k: Seq<char>| s.to_set().contains(k)
                    == #[trigger] self@.entries.dom().contains(k) by {
                    if self@.entries.dom().contains(k) {
                        assert(texts_held(self.entries).contains_key(k));
                        let i = choose|i: int| 0 <= i < keys@.len() && (#[trigger] keys@[i])@ == k;
                        assert(s[i] == k);
                    }
                    if s.to_set().contains(k) {
                        let i = choose|i: int| 0 <= i < s.len() && s[i] == k;
                        assert(keys@[i]@ == k);
                    }
                }
            }
            s.unique_seq_to_set();
        }
        keys.len()
    }

    pub fn is_empty(&self) -> (yes: bool)
        ensures
            yes == (self@.entries.len() == 0),
    {
        self.len() == 0
    }

    pub fn is_dirty(&self) -> (yes: bool)
        ensures
            yes == self@.dirty,
    {
        self.dirty
    }

    fn mark_dirty(&mut self, sync: bool) -> (out: Option<String>)
        requires
            old(self).wf(),
        ensures
            final(self).wf(),
            written(
                KvpModel { dirty: true, ..old(self)@ },
                sync,
                final(self)@,
                crate::state_bag::optional(out),
            ),
    {
        self.dirty = true;
        if sync {
            self.flush()
        } else {
            None
        }
    }

    /// The entries grouped by resource, everything in order.
    fn snapshot(&self) -> (groups: Vec<KvpGroup>)
        requires
            self.wf(),
        ensures
            groups_in_order(group_models(groups@)),
            ungrouped(group_models(groups@)) == self@.entries,
    {
        let tree = self.tree();
        let mut groups: Vec<KvpGroup> = Vec::new();
        let mut i: usize = 0;
        while i < tree.len()
            invariant
                tree.wf(),
                trees_wf(tree@),
                i <= tree.listing().len(),
                groups@.len() == i,
                forall|a: int| 0 <= a < i ==> #[trigger] grouped_as(groups@[a], tree.listing()[a]),
            decreases tree.listing().len() - i,
        {
            let (resource, values) = tree.entry_at(i);
            let mut pairs: Vec<(String, String)> = Vec::new();
            let mut j: usize = 0;
            while j < values.len()
                invariant
                    values.wf(),
                    j <= values.listing().len(),
                    pairs@.len() == j,
                    forall|b: int|
                        0 <= b < j ==> (#[trigger] pairs@[b]).0@ == values.listing()[b].0@
                            && pairs@[b].1@ == values.listing()[b].1@,
                decreases values.listing().len() - j,
            {
                let (key, value) = values.entry_at(j);
                pairs.push((key.clone(), value.clone()));
                j = j + 1;
            }
            let group = KvpGroup { resource: resource.clone(), pairs };
            assert(grouped_as(group, tree.listing()[i as int]));
            groups.push(group);
            i = i + 1;
        }
        proof {
            lemma_grouped(tree, groups@, self@.entries);
        }
        groups
    }

    /// The entries as a map of maps.
    fn tree(&self) -> (tree: TextMap<TextMap<String>>)
        requires
            self.wf(),
        ensures
            tree.wf(),
            trees_wf(tree@),
            spells(tree@, self@.entries),
    {
        let all = texts_keys(&self.entries);
        let ghost entries = self@.entries;
        let mut tree: TextMap<TextMap<String>> = TextMap::new();
        let mut i: usize = 0;
        while i < all.len()
            invariant
                i <= all@.len(),
                self.wf(),
                entries == self@.entries,
                tree.wf(),
                trees_wf(tree@),
                forall|j: int| 0 <= j < all@.len() ==> entries.contains_key((#[trigger] all@[j])@),
                forall|r: Seq<char>| #[trigger] tree@.contains_key(r) ==> plain(r),
                forall|r: Seq<char>, k: Seq<char>| #[trigger]
                    has_leaf(tree@, r, k) ==> entries.contains_key(flat(r, k)) && leaf(tree@, r, k)
                        == entries[flat(r, k)],
                forall|j: int|
                    0 <= j < i ==> has_leaf(
                        tree@,
                        resource_part((#[trigger] all@[j])@),
                        key_part(all@[j]@),
                    ),
            decreases all@.len() - i,
        {
            let f = all[i].as_str();
            let ghost before = tree@;
            assert(entries.contains_key(all@[i as int]@));
            if let Some((resource, key)) = parts_of(f) {
                if let Some(value) = texts_get(&self.entries, f) {
                    proof {
                        lemma_parts(f@);
                    }
                    let ghost r = resource@;
                    let ghost k = key@;
                    let ghost v = value@;
                    let mut values: TextMap<String> = match tree.remove(resource.as_str()) {
                        Some(values) => values,
                        None => TextMap::new(),
                    };
                    let ghost inner = values@;
                    values.insert(key, value);
                    tree.insert(resource, values);
                    proof {
                        assert forall|a: Seq<char>, b: Seq<char>| #[trigger]
                            has_leaf(tree@, a, b) implies entries.contains_key(flat(a, b)) && leaf(
                            tree@,
                            a,
                            b,
                        ) == entries[flat(a, b)] by {
                            if a != r || b != k {
                                assert(has_leaf(before, a, b));
                            }
                        }
                        assert forall|j: int| 0 <= j < i + 1 implies has_leaf(
                            tree@,
                            resource_part((#[trigger] all@[j])@),
                            key_part(all@[j]@),
                        ) by {
                            if j < i {
                                assert(has_leaf(
                                    before,
                                    resource_part(all@[j]@),
                                    key_part(all@[j]@),
                                ));
                            }
                        }
                    }
                }
            }
            i = i + 1;
        }
        proof {
            assert forall|r: Seq<char>, k: Seq<char>|
                plain(r) && #[trigger] entries.contains_key(flat(r, k)) implies has_leaf(
                tree@,
                r,
                k,
            ) by {
                let j = choose|j: int| 0 <= j < all@.len() && (#[trigger] all@[j])@ == flat(r, k);
                lemma_flat(r, k);
                assert(has_leaf(tree@, resource_part(all@[j]@), key_part(all@[j]@)));
            }
            assert forall|f: Seq<char>| #[trigger] entries.contains_key(f) implies splits(f) by {
                assert(texts_held(self.entries).contains_key(f));
            }
        }
        tree
    }

    /// What has to be written, if anything is pending. The store counts as written from
    /// here on; [`Self::flush_failed`] takes that back.
    pub fn flush(&mut self) -> (out: Option<String>)
        requires
            old(self).wf(),
        ensures
            final(self).wf(),
            written(old(self)@, true, final(self)@, crate::state_bag::optional(out)),
    {
        if !self.persistent {
            self.dirty = false;
            return None;
        }
        if !self.dirty {
            return None;
        }
        self.dirty = false;
        let groups = self.snapshot();
        Some(print_groups(&groups))
    }

    /// A write did not go through: a full disk must not silently turn durable writes
    /// into volatile ones.
    pub fn flush_failed(&mut self)
        requires
            old(self).wf(),
        ensures
            final(self).wf(),
            final(self)@ == (KvpModel { dirty: true, ..old(self)@ }),
    {
        self.dirty = true;
    }
}

/// A flush of `m`, where one is asked for: what is left, and the text that comes out.
pub open spec fn written(
    m: KvpModel,
    flush: bool,
    after: KvpModel,
    text: Option<Seq<char>>,
) -> bool {
    if !flush {
        after == m && text is None
    } else {
        &&& after == (KvpModel { dirty: false, ..m })
        &&& if m.persistent && m.dirty {
            text matches Some(t) && stored(t) == m.entries
        } else {
            text is None
        }
    }
}

proof fn lemma_prefix_splits(f: Seq<char>, scope: Seq<char>)
    requires
        starts_with(f, scope),
        splits(scope),
    ensures
        splits(f),
{
    lemma_position(scope, '\0', 0);
    lemma_position(f, '\0', 0);
    let n = position_of(scope, '\0', 0);
    assert(f.take(scope.len() as int)[n] == f[n]);
}

spec fn trees_wf(tree: Map<Seq<char>, TextMap<String>>) -> bool {
    forall|r: Seq<char>| #[trigger] tree.contains_key(r) ==> tree[r].wf()
}

spec fn has_leaf(tree: Map<Seq<char>, TextMap<String>>, r: Seq<char>, k: Seq<char>) -> bool {
    tree.contains_key(r) && tree[r]@.contains_key(k)
}

spec fn leaf(tree: Map<Seq<char>, TextMap<String>>, r: Seq<char>, k: Seq<char>) -> Seq<char> {
    tree[r]@[k]@
}

/// The tree holds the entries.
spec fn spells(
    tree: Map<Seq<char>, TextMap<String>>,
    entries: Map<Seq<char>, Seq<char>>,
) -> bool {
    &&& forall|r: Seq<char>| #[trigger] tree.contains_key(r) ==> plain(r)
    &&& forall|r: Seq<char>, k: Seq<char>| #[trigger]
        has_leaf(tree, r, k) ==> entries.contains_key(flat(r, k)) && leaf(tree, r, k)
            == entries[flat(r, k)]
    &&& forall|r: Seq<char>, k: Seq<char>|
        plain(r) && #[trigger] entries.contains_key(flat(r, k)) ==> has_leaf(tree, r, k)
    &&& forall|f: Seq<char>| #[trigger] entries.contains_key(f) ==> splits(f)
}

spec fn grouped_as(group: KvpGroup, entry: (String, TextMap<String>)) -> bool {
    &&& group.resource@ == entry.0@
    &&& group.pairs@.len() == entry.1.listing().len()
    &&& forall|b: int|
        0 <= b < group.pairs@.len() ==> (#[trigger] group.pairs@[b]).0@ == entry.1.listing()[b].0@
            && group.pairs@[b].1@ == entry.1.listing()[b].1@
}

/// Pair `b` of group `a` is of the flat key `f`.
spec fn stands(groups: Seq<GroupModel>, a: int, b: int, f: Seq<char>) -> bool {
    0 <= a < groups.len() && 0 <= b < groups[a].pairs.len() && f == flat(
        groups[a].resource,
        groups[a].pairs[b].0,
    )
}

proof fn lemma_with_pairs(
    entries: Map<Seq<char>, Seq<char>>,
    resource: Seq<char>,
    pairs: Seq<(Seq<char>, Seq<char>)>,
)
    requires
        in_order(pairs.map_values(|p: (Seq<char>, Seq<char>)| p.0)),
    ensures
        forall|f: Seq<char>| #[trigger]
            with_pairs(entries, resource, pairs).contains_key(f) ==> entries.contains_key(f)
                || exists|b: int|
                0 <= b < pairs.len() && f == flat(resource, (#[trigger] pairs[b]).0),
        forall|f: Seq<char>|
            entries.contains_key(f) ==> #[trigger] with_pairs(
                entries,
                resource,
                pairs,
            ).contains_key(f),
        forall|f: Seq<char>|
            entries.contains_key(f) && (forall|b: int|
                0 <= b < pairs.len() ==> f != flat(resource, (#[trigger] pairs[b]).0))
                ==> #[trigger] with_pairs(entries, resource, pairs)[f] == entries[f],
        forall|b: int|
            0 <= b < pairs.len() ==> with_pairs(entries, resource, pairs).contains_key(
                flat(resource, (#[trigger] pairs[b]).0),
            ) && with_pairs(entries, resource, pairs)[flat(resource, pairs[b].0)] == pairs[b].1,
    decreases pairs.len(),
{
    if pairs.len() > 0 {
        let shorter = pairs.drop_last();
        let names = pairs.map_values(|p: (Seq<char>, Seq<char>)| p.0);
        assert(shorter.map_values(|p: (Seq<char>, Seq<char>)| p.0) =~= names.drop_last());
        assert(in_order(names.drop_last())) by {
            assert forall|i: int, j: int|
                0 <= i < j < names.drop_last().len() implies #[trigger] crate::named::precedes(
                names.drop_last()[i],
                names.drop_last()[j],
            ) by {
                assert(crate::named::precedes(names[i], names[j]));
            }
        }
        lemma_with_pairs(entries, resource, shorter);
        let before = with_pairs(entries, resource, shorter);
        let after = with_pairs(entries, resource, pairs);
        let last = pairs.last();
        assert forall|b: int| 0 <= b < pairs.len() implies after.contains_key(
            flat(resource, (#[trigger] pairs[b]).0),
        ) && after[flat(resource, pairs[b].0)] == pairs[b].1 by {
            if b < pairs.len() - 1 {
                assert(shorter[b] == pairs[b]);
                assert(crate::named::precedes(names[b], names[pairs.len() - 1]));
                crate::named::precedes_is_total(names[b], names[pairs.len() - 1]);
                lemma_flat_keys(resource, pairs[b].0, last.0);
            }
        }
        assert forall|f: Seq<char>| #[trigger] after.contains_key(f) implies entries.contains_key(f)
            || exists|b: int| 0 <= b < pairs.len() && f == flat(resource, (#[trigger] pairs[b]).0) by {
            if f == flat(resource, last.0) {
                assert(f == flat(resource, pairs[pairs.len() - 1].0));
            } else {
                assert(before.contains_key(f));
                if !entries.contains_key(f) {
                    let b = choose|b: int|
                        0 <= b < shorter.len() && f == flat(resource, (#[trigger] shorter[b]).0);
                    assert(f == flat(resource, pairs[b].0));
                }
            }
        }
        assert forall|f: Seq<char>|
            entries.contains_key(f) && (forall|b: int|
                0 <= b < pairs.len() ==> f != flat(
                    resource,
                    (#[trigger] pairs[b]).0,
                )) implies #[trigger] after[f] == entries[f] by {
            assert(f != flat(resource, pairs[pairs.len() - 1].0));
            assert forall|b: int| 0 <= b < shorter.len() implies f != flat(
                resource,
                (#[trigger] shorter[b]).0,
            ) by {
                assert(f != flat(resource, pairs[b].0));
            }
            assert(before.contains_key(f));
            assert(before[f] == entries[f]);
        }
    }
}

proof fn lemma_flat_keys(resource: Seq<char>, a: Seq<char>, b: Seq<char>)
    requires
        a != b,
    ensures
        flat(resource, a) != flat(resource, b),
{
    if flat(resource, a) == flat(resource, b) {
        let n = resource.len() as int + 1;
        assert(flat(resource, a).skip(n) =~= a);
        assert(flat(resource, b).skip(n) =~= b);
    }
}

proof fn lemma_ungrouped(groups: Seq<GroupModel>)
    requires
        groups_in_order(groups),
        forall|a: int| 0 <= a < groups.len() ==> plain((#[trigger] groups[a]).resource),
    ensures
        forall|f: Seq<char>| #[trigger]
            ungrouped(groups).contains_key(f) ==> exists|a: int, b: int| stands(groups, a, b, f),
        forall|a: int, b: int, f: Seq<char>| #[trigger]
            stands(groups, a, b, f) ==> ungrouped(groups).contains_key(f) && ungrouped(groups)[f]
                == groups[a].pairs[b].1,
    decreases groups.len(),
{
    if groups.len() > 0 {
        let shorter = groups.drop_last();
        let names = groups.map_values(|g: GroupModel| g.resource);
        let last = groups.last();
        let n = groups.len() - 1;
        assert(shorter.map_values(|g: GroupModel| g.resource) =~= names.drop_last());
        assert(groups_in_order(shorter)) by {
            assert forall|i: int, j: int|
                0 <= i < j < names.drop_last().len() implies #[trigger] crate::named::precedes(
                names.drop_last()[i],
                names.drop_last()[j],
            ) by {
                assert(crate::named::precedes(names[i], names[j]));
            }
            assert forall|i: int| 0 <= i < shorter.len() implies in_order(
                (#[trigger] shorter[i]).pairs.map_values(|p: (Seq<char>, Seq<char>)| p.0),
            ) by {
                assert(shorter[i] == groups[i]);
            }
        }
        assert forall|a: int| 0 <= a < shorter.len() implies plain(
            (#[trigger] shorter[a]).resource,
        ) by {
            assert(shorter[a] == groups[a]);
        }
        lemma_ungrouped(shorter);
        assert(groups[n] == last);
        let before = ungrouped(shorter);
        lemma_with_pairs(before, last.resource, last.pairs);
        assert forall|f: Seq<char>| #[trigger] ungrouped(groups).contains_key(f) implies exists|
            a: int,
            b: int,
        | stands(groups, a, b, f) by {
            if before.contains_key(f) {
                let (a, b) = choose|a: int, b: int| stands(shorter, a, b, f);
                assert(stands(groups, a, b, f));
            } else {
                let b = choose|b: int|
                    0 <= b < last.pairs.len() && f == flat(
                        last.resource,
                        (#[trigger] last.pairs[b]).0,
                    );
                assert(stands(groups, n, b, f));
            }
        }
        assert forall|a: int, b: int, f: Seq<char>| #[trigger] stands(
            groups,
            a,
            b,
            f,
        ) implies ungrouped(groups).contains_key(f) && ungrouped(groups)[f]
            == groups[a].pairs[b].1 by {
            if a < n {
                assert(stands(shorter, a, b, f));
                assert(crate::named::precedes(names[a], names[n]));
                crate::named::precedes_is_total(names[a], names[n]);
                assert forall|c: int| 0 <= c < last.pairs.len() implies f != flat(
                    last.resource,
                    (#[trigger] last.pairs[c]).0,
                ) by {
                    if f == flat(last.resource, last.pairs[c].0) {
                        assert(plain(groups[a].resource));
                        values_are_scoped(
                            groups[a].resource,
                            groups[a].pairs[b].0,
                            last.resource,
                            last.pairs[c].0,
                        );
                    }
                }
                assert(before.contains_key(f));
                assert(ungrouped(groups)[f] == before[f]);
            } else {
                assert(last.pairs[b] == groups[a].pairs[b]);
            }
        }
    }
}

proof fn lemma_grouped(
    tree: TextMap<TextMap<String>>,
    groups: Seq<KvpGroup>,
    entries: Map<Seq<char>, Seq<char>>,
)
    requires
        tree.wf(),
        trees_wf(tree@),
        spells(tree@, entries),
        groups.len() == tree.listing().len(),
        forall|a: int| 0 <= a < groups.len() ==> #[trigger] grouped_as(groups[a], tree.listing()[a]),
    ensures
        groups_in_order(group_models(groups)),
        ungrouped(group_models(groups)) == entries,
{
    let models = group_models(groups);
    tree.lemma_listing();
    let names = models.map_values(|g: GroupModel| g.resource);
    assert(names =~= names_of(tree.listing())) by {
        assert forall|a: int| 0 <= a < names.len() implies names[a] == names_of(
            tree.listing(),
        )[a] by {
            assert(grouped_as(groups[a], tree.listing()[a]));
        }
    }
    assert forall|a: int| 0 <= a < models.len() implies in_order(
        (#[trigger] models[a]).pairs.map_values(|p: (Seq<char>, Seq<char>)| p.0),
    ) by {
        assert(grouped_as(groups[a], tree.listing()[a]));
        let inner = tree.listing()[a].1;
        assert(tree@.contains_key(tree.listing()[a].0@));
        inner.lemma_listing();
        assert(models[a].pairs.map_values(|p: (Seq<char>, Seq<char>)| p.0) =~= names_of(
            inner.listing(),
        ));
    }
    assert forall|a: int| 0 <= a < models.len() implies plain((#[trigger] models[a]).resource) by {
        assert(grouped_as(groups[a], tree.listing()[a]));
        assert(tree@.contains_key(tree.listing()[a].0@));
    }
    lemma_ungrouped(models);
    let all = ungrouped(models);
    assert forall|f: Seq<char>| #[trigger] all.contains_key(f) implies entries.contains_key(f)
        && all[f] == entries[f] by {
        let (a, b) = choose|a: int, b: int| stands(models, a, b, f);
        assert(grouped_as(groups[a], tree.listing()[a]));
        let inner = tree.listing()[a].1;
        let r = tree.listing()[a].0@;
        assert(tree@.contains_key(r));
        inner.lemma_listing();
        let k = inner.listing()[b].0@;
        assert(groups[a].pairs@[b].0@ == k);
        assert(inner@.contains_key(k));
        assert(has_leaf(tree@, r, k));
    }
    assert forall|f: Seq<char>| #[trigger] entries.contains_key(f) implies all.contains_key(f) by {
        lemma_parts(f);
        let r = resource_part(f);
        let k = key_part(f);
        assert(entries.contains_key(flat(r, k)));
        assert(has_leaf(tree@, r, k));
        let a = choose|a: int|
            0 <= a < tree.listing().len() && (#[trigger] tree.listing()[a]).0@ == r
                && tree.listing()[a].1 == tree@[r];
        assert(grouped_as(groups[a], tree.listing()[a]));
        let inner = tree.listing()[a].1;
        inner.lemma_listing();
        let b = choose|b: int|
            0 <= b < inner.listing().len() && (#[trigger] inner.listing()[b]).0@ == k
                && inner.listing()[b].1 == inner@[k];
        assert(groups[a].pairs@[b].0@ == k);
        assert(stands(models, a, b, f));
    }
    assert(all =~= entries);
}

} // verus!
