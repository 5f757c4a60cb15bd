//! The concurrent hash maps of the `dashmap` crate, stated over what they hold.
use dashmap::DashMap;
use vstd::prelude::*;

verus! {

#[verifier::external_type_specification]
#[verifier::external_body]
#[verifier::reject_recursive_types(K)]
#[verifier::reject_recursive_types(V)]
#[verifier::reject_recursive_types(S)]
pub struct ExDashMap<K, V, S>(DashMap<K, V, S>);

/// What a map of numbers holds.
pub uninterp spec fn held(map: DashMap<u64, u64>) -> Map<u64, u64>;

/// The empty map of numbers.
pub open spec fn nothing() -> Map<u64, u64> {
    Map::empty()
}

/// `DashMap::new` makes an empty map.
#[verifier::external_body]
pub(crate) fn dash_new() -> (map: DashMap<u64, u64>)
    ensures
        held(map) == nothing(),
{
    DashMap::new()
}

/// `DashMap::get` finds the value of a key.
#[verifier::external_body]
pub(crate) fn dash_get(map: &DashMap<u64, u64>, key: u64) -> (value: Option<u64>)
    ensures
        value == if held(*map).contains_key(key) {
            Some(held(*map)[key])
        } else {
            None
        },
{
    map.get(&key).map(|entry| *entry)
}

/// `DashMap::insert` sets the value of a key and returns the one it had.
#[verifier::external_body]
pub(crate) fn dash_insert(map: &mut DashMap<u64, u64>, key: u64, value: u64) -> (previous: Option<
    u64,
>)
    ensures
        held(*final(map)) == held(*old(map)).insert(key, value),
        previous == if held(*old(map)).contains_key(key) {
            Some(held(*old(map))[key])
        } else {
            None
        },
{
    map.insert(key, value)
}

/// `DashMap::remove` takes a key out and returns the value it had.
#[verifier::external_body]
pub(crate) fn dash_remove(map: &mut DashMap<u64, u64>, key: u64) -> (removed: Option<u64>)
    ensures
        held(*final(map)) == held(*old(map)).remove(key),
        removed == if held(*old(map)).contains_key(key) {
            Some(held(*old(map))[key])
        } else {
            None
        },
{
    map.remove(&key).map(|entry| entry.1)
}

/// `DashMap::clear` takes everything out.
#[verifier::external_body]
pub(crate) fn dash_clear(map: &mut DashMap<u64, u64>)
    ensures
        held(*final(map)) == nothing(),
{
    map.clear()
}

/// A map of numbers whose values are ids.
pub open spec fn small(map: Map<u64, u64>) -> bool {
    forall|k: u64| #[trigger] map.contains_key(k) ==> map[k] <= u32::MAX
}

/// The ids that a map of numbers holds under ids.
pub open spec fn ids_held(map: Map<u64, u64>) -> Map<u32, u32> {
    Map::new(|id: u32| map.contains_key(id as u64), |id: u32| map[id as u64] as u32)
}

/// What a map of texts holds.
pub uninterp spec fn texts_held(map: DashMap<String, String>) -> Map<Seq<char>, Seq<char>>;

/// The empty map of texts.
pub open spec fn no_texts() -> Map<Seq<char>, Seq<char>> {
    Map::empty()
}

/// `DashMap::new` makes an empty map.
#[verifier::external_body]
pub(crate) fn texts_new() -> (map: DashMap<String, String>)
    ensures
        texts_held(map) == no_texts(),
{
    DashMap::new()
}

/// `DashMap::get` finds the value of a key.
#[verifier::external_body]
pub(crate) fn texts_get(map: &DashMap<String, String>, key: &str) -> (value: Option<String>)
    ensures
        match value {
            Some(text) => texts_held(*map).contains_key(key@) && text@ == texts_held(*map)[key@],
            None => !texts_held(*map).contains_key(key@),
        },
{
    map.get(key).map(|entry| entry.clone())
}

/// `DashMap::insert` sets the value of a key.
#[verifier::external_body]
pub(crate) fn texts_insert(map: &mut DashMap<String, String>, key: String, value: String)
    ensures
        texts_held(*final(map)) == texts_held(*old(map)).insert(key@, value@),
{
    map.insert(key, value);
}

/// `DashMap::remove` takes a key out.
#[verifier::external_body]
pub(crate) fn texts_remove(map: &mut DashMap<String, String>, key: &str)
    ensures
        texts_held(*final(map)) == texts_held(*old(map)).remove(key@),
{
    map.remove(key);
}

/// `DashMap::iter` visits every key once, in an order that is left open.
#[verifier::external_body]
pub(crate) fn texts_keys(map: &DashMap<String, String>) -> (keys: Vec<String>)
    ensures
        forall|i: int, j: int| #![trigger keys@[i], keys@[j]]
            0 <= i < j < keys@.len() ==> keys@[i]@ != keys@[j]@,
        forall|i: int| 0 <= i < keys@.len() ==> texts_held(*map).contains_key(
            (#[trigger] keys@[i])@,
        ),
        forall|k: Seq<char>| #[trigger] texts_held(*map).contains_key(k) ==> exists|i: int|
            0 <= i < keys@.len() && (#[trigger] keys@[i])@ == k,
{
    map.iter().map(|entry| entry.key().clone()).collect()
}

/// What a map from texts to numbers holds.
pub uninterp spec fn places_held(map: DashMap<String, u64>) -> Map<Seq<char>, u64>;

/// The empty map from texts to numbers.
pub open spec fn no_places() -> Map<Seq<char>, u64> {
    Map::empty()
}

/// `DashMap::new` makes an empty map.
#[verifier::external_body]
pub(crate) fn places_new() -> (map: DashMap<String, u64>)
    ensures
        places_held(map) == no_places(),
{
    DashMap::new()
}

/// `DashMap::get` finds the value of a key.
#[verifier::external_body]
pub(crate) fn places_get(map: &DashMap<String, u64>, key: &str) -> (value: Option<u64>)
    ensures
        value == if places_held(*map).contains_key(key@) {
            Some(places_held(*map)[key@])
        } else {
            None
        },
{
    map.get(key).map(|entry| *entry)
}

/// `DashMap::insert` sets the value of a key.
#[verifier::external_body]
pub(crate) fn places_insert(map: &mut DashMap<String, u64>, key: String, value: u64)
    ensures
        places_held(*final(map)) == places_held(*old(map)).insert(key@, value),
{
    map.insert(key, value);
}

/// `DashMap::remove` takes a key out and returns the value it had.
#[verifier::external_body]
pub(crate) fn places_remove(map: &mut DashMap<String, u64>, key: &str) -> (removed: Option<u64>)
    ensures
        places_held(*final(map)) == places_held(*old(map)).remove(key@),
        removed == if places_held(*old(map)).contains_key(key@) {
            Some(places_held(*old(map))[key@])
        } else {
            None
        },
{
    map.remove(key).map(|entry| entry.1)
}

} // verus!
