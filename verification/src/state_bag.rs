//! State bags: named key/value stores that scripts share, with change handlers and a
//! queue of the changes that go out to the network.
use crate::json::{array_of, json_text, models, quote, Json, JsonModel};
use crate::observability::{optional_number, optional_text};
use crate::named::{lists_names, names_in_order, TextMap};
use crate::ordered::{keys_of, lemma_is_listing, listing_of, IdMap};
use crate::tally::{count_one, one_more};
use crate::text::{
    after_prefix, decimal, decimal_reads_back, joined, parse_unsigned, parsed_unsigned,
    print_decimal, same, starts_with,
};
use vstd::prelude::*;
use vstd::string::StringExecFns;

verus! {

/// Bounds protect the host when a resource produces changes faster than callbacks or
/// the network can consume them.
pub const MAX_PENDING_DELIVERIES_PER_RESOURCE: usize = 4_096;

pub const MAX_REPLICATED_CHANGES: usize = 16_384;

/// What an optional text holds.
pub open spec fn optional(text: Option<String>) -> Option<Seq<char>> {
    match text {
        Some(s) => Some(s@),
        None => None,
    }
}

pub(crate) fn copy_optional(text: &Option<String>) -> (copy: Option<String>)
    ensures
        optional(copy) == optional(*text),
{
    match text {
        Some(s) => Some(s.clone()),
        None => None,
    }
}

/// Metadata attached to a state-bag mutation.
#[derive(Debug, Clone, PartialEq, Eq)]
pub struct StateBagSource {
    /// Resource that initiated the write, when it originated from scripting.
    pub resource: Option<String>,
    /// Network player that initiated the write, when known.
    pub player: Option<u32>,
}

#[verifier::ext_equal]
pub struct SourceModel {
    pub resource: Option<Seq<char>>,
    pub player: Option<u32>,
}

impl View for StateBagSource {
    type V = SourceModel;

    open spec fn view(&self) -> SourceModel {
        SourceModel { resource: optional(self.resource), player: self.player }
    }
}

impl StateBagSource {
    pub fn resource(name: &str) -> (source: Self)
        ensures
            source@ == (SourceModel { resource: Some(name@), player: None }),
    {
        StateBagSource { resource: Some(name.to_owned()), player: None }
    }

    fn copy(&self) -> (source: Self)
        ensures
            source@ == self@,
    {
        StateBagSource { resource: copy_optional(&self.resource), player: self.player }
    }
}

/// One versioned state-bag mutation.
#[derive(Debug, Clone, PartialEq, Eq)]
pub struct StateBagChange {
    pub bag: String,
    pub key: String,
    pub value: Json,
    pub version: u64,
    pub replicated: bool,
    pub source: StateBagSource,
}

#[verifier::ext_equal]
pub struct ChangeModel {
    pub bag: Seq<char>,
    pub key: Seq<char>,
    pub value: JsonModel,
    pub version: u64,
    pub replicated: bool,
    pub source: SourceModel,
}

impl View for StateBagChange {
    type V = ChangeModel;

    open spec fn view(&self) -> ChangeModel {
        ChangeModel {
            bag: self.bag@,
            key: self.key@,
            value: self.value@,
            version: self.version,
            replicated: self.replicated,
            source: self.source@,
        }
    }
}

impl StateBagChange {
    fn copy(&self) -> (change: Self)
        ensures
            change@ == self@,
    {
        StateBagChange {
            bag: self.bag.clone(),
            key: self.key.clone(),
            value: self.value.copy(),
            version: self.version,
            replicated: self.replicated,
            source: self.source.copy(),
        }
    }
}

/// A callback delivery. The callback itself remains in the script runtime.
#[derive(Debug, Clone, PartialEq, Eq)]
pub struct StateBagDelivery {
    pub callback_id: u32,
    pub change: StateBagChange,
}

#[verifier::ext_equal]
pub struct DeliveryModel {
    pub callback_id: u32,
    pub change: ChangeModel,
}

impl View for StateBagDelivery {
    type V = DeliveryModel;

    open spec fn view(&self) -> DeliveryModel {
        DeliveryModel { callback_id: self.callback_id, change: self.change@ }
    }
}

#[derive(Debug)]
struct Handler {
    resource: String,
    callback_id: u32,
    key_filter: Option<String>,
    bag_filter: Option<String>,
}

/// A registered change handler.
#[verifier::ext_equal]
pub struct HandlerModel {
    pub resource: Seq<char>,
    pub callback_id: u32,
    pub key_filter: Option<Seq<char>>,
    pub bag_filter: Option<Seq<char>>,
}

impl Handler {
    spec fn model(&self) -> HandlerModel {
        HandlerModel {
            resource: self.resource@,
            callback_id: self.callback_id,
            key_filter: optional(self.key_filter),
            bag_filter: optional(self.bag_filter),
        }
    }
}

/// The content of a store.
#[verifier::ext_equal]
pub struct StateBagModel {
    /// Every bag, with the value and the version of each of its keys.
    pub bags: Map<Seq<char>, Map<Seq<char>, (JsonModel, u64)>>,
    /// The handlers by their cookies.
    pub handlers: Map<u32, HandlerModel>,
    /// What each resource has still to be told, oldest first.
    pub pending: Map<Seq<char>, Seq<DeliveryModel>>,
    /// What has still to go out to the network, oldest first.
    pub replicated: Seq<ChangeModel>,
    /// The version of the latest mutation.
    pub version: u64,
    /// The cookie of the latest handler.
    pub cookie: u32,
    /// How many deliveries were dropped.
    pub lost_deliveries: u64,
    /// How many changes were dropped before they went out to the network.
    pub lost_changes: u64,
}

/// A handler hears of a change where neither of its filters rules it out.
pub open spec fn hears(handler: HandlerModel, change: ChangeModel) -> bool {
    &&& handler.key_filter matches Some(filter) ==> filter == change.key
    &&& handler.bag_filter matches Some(filter) ==> filter == change.bag
}

/// A bounded queue with one more item: a full one loses its oldest item first.
pub open spec fn queued<T>(queue: Seq<T>, item: T, bound: int) -> Seq<T> {
    (if queue.len() >= bound {
        queue.skip(1)
    } else {
        queue
    }).push(item)
}

/// What is queued for a resource.
pub open spec fn queue_of(
    pending: Map<Seq<char>, Seq<DeliveryModel>>,
    resource: Seq<char>,
) -> Seq<DeliveryModel> {
    if pending.contains_key(resource) {
        pending[resource]
    } else {
        Seq::empty()
    }
}

/// The queues after each of `handlers` in turn was told of a change.
pub open spec fn told(
    pending: Map<Seq<char>, Seq<DeliveryModel>>,
    handlers: Seq<HandlerModel>,
    change: ChangeModel,
) -> Map<Seq<char>, Seq<DeliveryModel>>
    decreases handlers.len(),
{
    if handlers.len() == 0 {
        pending
    } else {
        let before = told(pending, handlers.drop_last(), change);
        let handler = handlers.last();
        if hears(handler, change) {
            before.insert(
                handler.resource,
                queued(
                    queue_of(before, handler.resource),
                    DeliveryModel { callback_id: handler.callback_id, change },
                    MAX_PENDING_DELIVERIES_PER_RESOURCE as int,
                ),
            )
        } else {
            before
        }
    }
}

/// How many deliveries were dropped after each of `handlers` in turn was told of a
/// change: one for each that found the queue of its resource full.
pub open spec fn lost_telling(
    lost: u64,
    pending: Map<Seq<char>, Seq<DeliveryModel>>,
    handlers: Seq<HandlerModel>,
    change: ChangeModel,
) -> u64
    decreases handlers.len(),
{
    if handlers.len() == 0 {
        lost
    } else {
        let before = lost_telling(lost, pending, handlers.drop_last(), change);
        let queues = told(pending, handlers.drop_last(), change);
        let handler = handlers.last();
        if hears(handler, change) && queue_of(queues, handler.resource).len()
            >= MAX_PENDING_DELIVERIES_PER_RESOURCE {
            one_more(before)
        } else {
            before
        }
    }
}

/// The handlers in ascending order of cookie.
pub open spec fn in_cookie_order(handlers: Map<u32, HandlerModel>) -> Seq<HandlerModel> {
    listing_of(handlers.dom()).map_values(|cookie: u32| handlers[cookie])
}

pub open spec fn same_slot(a: ChangeModel, b: ChangeModel) -> bool {
    a.bag == b.bag && a.key == b.key
}

/// Where the latest queued change of the same key stands.
pub open spec fn slot_of(queue: Seq<ChangeModel>, change: ChangeModel) -> Option<int>
    decreases queue.len(),
{
    if queue.len() == 0 {
        None
    } else if same_slot(queue.last(), change) {
        Some(queue.len() - 1)
    } else {
        slot_of(queue.drop_last(), change)
    }
}

/// The network queue with one more change. State replication is last-write-wins: an
/// unsent change of the same key is replaced, which keeps the newest version while
/// preventing a hot key from consuming the whole queue.
pub open spec fn coalesced(queue: Seq<ChangeModel>, change: ChangeModel) -> Seq<ChangeModel> {
    match slot_of(queue, change) {
        Some(i) => queue.remove(i).push(change),
        None => queued(queue, change, MAX_REPLICATED_CHANGES as int),
    }
}

/// How many changes were dropped after one more was queued for the network: a full queue
/// drops its oldest, unless an unsent change of the same key made room.
pub open spec fn lost_coalescing(lost: u64, queue: Seq<ChangeModel>, change: ChangeModel) -> u64 {
    if slot_of(queue, change) is None && queue.len() >= MAX_REPLICATED_CHANGES {
        one_more(lost)
    } else {
        lost
    }
}

/// The version that follows `version`.
pub open spec fn next_version(version: u64) -> u64 {
    if version == u64::MAX {
        0
    } else {
        (version + 1) as u64
    }
}

/// The cookie that follows `cookie`; zero is never one.
pub open spec fn next_cookie(cookie: u32) -> u32 {
    if cookie == u32::MAX {
        1
    } else {
        (cookie + 1) as u32
    }
}

/// The bag as it stands, empty where there is none.
pub open spec fn bag_of(m: StateBagModel, bag: Seq<char>) -> Map<Seq<char>, (JsonModel, u64)> {
    if m.bags.contains_key(bag) {
        m.bags[bag]
    } else {
        Map::empty()
    }
}

/// The value of a key.
pub open spec fn value_of(m: StateBagModel, bag: Seq<char>, key: Seq<char>) -> Option<JsonModel> {
    if bag_of(m, bag).contains_key(key) {
        Some(bag_of(m, bag)[key].0)
    } else {
        None
    }
}

/// The mutation that a write makes.
pub open spec fn change_of(
    m: StateBagModel,
    bag: Seq<char>,
    key: Seq<char>,
    value: JsonModel,
    replicated: bool,
    source: SourceModel,
) -> ChangeModel {
    ChangeModel { bag, key, value, version: next_version(m.version), replicated, source }
}

/// A store after a mutation.
pub open spec fn after_change(m: StateBagModel, change: ChangeModel) -> StateBagModel {
    StateBagModel {
        bags: m.bags.insert(
            change.bag,
            bag_of(m, change.bag).insert(change.key, (change.value, change.version)),
        ),
        pending: told(m.pending, in_cookie_order(m.handlers), change),
        replicated: if change.replicated {
            coalesced(m.replicated, change)
        } else {
            m.replicated
        },
        version: change.version,
        lost_deliveries: lost_telling(
            m.lost_deliveries,
            m.pending,
            in_cookie_order(m.handlers),
            change,
        ),
        lost_changes: if change.replicated {
            lost_coalescing(m.lost_changes, m.replicated, change)
        } else {
            m.lost_changes
        },
        ..m
    }
}

/// A filter that is empty filters nothing.
pub open spec fn normalized(filter: Option<Seq<char>>) -> Option<Seq<char>> {
    match filter {
        Some(s) => if s.len() == 0 {
            None
        } else {
            Some(s)
        },
        None => None,
    }
}

/// How many deliveries the given queues hold.
pub open spec fn total(lengths: Seq<nat>) -> nat
    decreases lengths.len(),
{
    if lengths.len() == 0 {
        0
    } else {
        total(lengths.drop_last()) + lengths.last()
    }
}

/// How many deliveries are pending.
pub open spec fn total_pending(pending: Map<Seq<char>, Seq<DeliveryModel>>) -> nat {
    total(names_in_order(pending.dom()).map_values(|name: Seq<char>| pending[name].len()))
}

/// The state-bag store that every resource runtime shares.
#[derive(Debug)]
pub struct StateBagStore {
    bags: TextMap<TextMap<(Json, u64)>>,
    handlers: IdMap<Handler>,
    pending: TextMap<Vec<StateBagDelivery>>,
    replicated: Vec<StateBagChange>,
    version: u64,
    cookie: u32,
    lost_deliveries: u64,
    lost_changes: u64,
}

spec fn bag_models(bags: Map<Seq<char>, TextMap<(Json, u64)>>) -> Map<
    Seq<char>,
    Map<Seq<char>, (JsonModel, u64)>,
> {
    bags.map_values(|bag: TextMap<(Json, u64)>| value_models(bag@))
}

spec fn value_models(values: Map<Seq<char>, (Json, u64)>) -> Map<Seq<char>, (JsonModel, u64)> {
    values.map_values(|value: (Json, u64)| (value.0@, value.1))
}

spec fn handler_models(handlers: Map<u32, Handler>) -> Map<u32, HandlerModel> {
    handlers.map_values(|handler: Handler| handler.model())
}

spec fn delivery_models(queue: Seq<StateBagDelivery>) -> Seq<DeliveryModel> {
    queue.map_values(|delivery: StateBagDelivery| delivery@)
}

spec fn queue_models(pending: Map<Seq<char>, Vec<StateBagDelivery>>) -> Map<
    Seq<char>,
    Seq<DeliveryModel>,
> {
    pending.map_values(|queue: Vec<StateBagDelivery>| delivery_models(queue@))
}

/// The models of a list of changes.
pub open spec fn change_models(queue: Seq<StateBagChange>) -> Seq<ChangeModel> {
    queue.map_values(|change: StateBagChange| change@)
}

/// What holds of every store: the queues keep their bounds, no two unsent changes are
/// of the same key, and only replicated ones are queued for the network.
pub open spec fn bags_wf(m: StateBagModel) -> bool {
    &&& forall|r: Seq<char>| #[trigger]
        m.pending.contains_key(r) ==> 0 < m.pending[r].len() <= MAX_PENDING_DELIVERIES_PER_RESOURCE
    &&& m.replicated.len() <= MAX_REPLICATED_CHANGES
    &&& forall|i: int, j: int|
        0 <= i < j < m.replicated.len() ==> !same_slot(
            #[trigger] m.replicated[i],
            #[trigger] m.replicated[j],
        )
    &&& forall|i: int| 0 <= i < m.replicated.len() ==> (#[trigger] m.replicated[i]).replicated
    &&& m.handlers.dom().finite()
    &&& !m.handlers.contains_key(0)
}

impl View for StateBagStore {
    type V = StateBagModel;

    closed spec fn view(&self) -> StateBagModel {
        StateBagModel {
            bags: bag_models(self.bags@),
            handlers: handler_models(self.handlers@),
            pending: queue_models(self.pending@),
            replicated: change_models(self.replicated@),
            version: self.version,
            cookie: self.cookie,
            lost_deliveries: self.lost_deliveries,
            lost_changes: self.lost_changes,
        }
    }
}

/// A store that holds nothing.
pub open spec fn no_bags() -> StateBagModel {
    StateBagModel {
        bags: Map::empty(),
        handlers: Map::empty(),
        pending: Map::empty(),
        replicated: Seq::empty(),
        version: 0,
        cookie: 0,
        lost_deliveries: 0,
        lost_changes: 0,
    }
}

impl Default for StateBagStore {
    fn default() -> (store: Self)
        ensures
            store.wf(),
            store@ == no_bags(),
    {
        StateBagStore::new()
    }
}

impl StateBagStore {
    pub closed spec fn wf(&self) -> bool {
        &&& self.bags.wf()
        &&& forall|name: Seq<char>| #[trigger]
            self.bags@.contains_key(name) ==> self.bags@[name].wf()
        &&& self.handlers.wf()
        &&& self.pending.wf()
        &&& bags_wf(self@)
    }

    /// A well-formed store keeps its invariant.
    pub proof fn lemma_wf(&self)
        requires
            self.wf(),
        ensures
            bags_wf(self@),
    {
    }

    /// There are finitely many keys in a bag, and finitely many resources with changes
    /// to tell.
    pub proof fn lemma_finite(&self, bag: Seq<char>)
        requires
            self.wf(),
        ensures
            bag_of(self@, bag).dom().finite(),
            self@.pending.dom().finite(),
    {
        self.pending.lemma_listing();
        assert(self@.pending.dom() =~= self.pending@.dom());
        if self.bags@.contains_key(bag) {
            self.bags@[bag].lemma_listing();
            assert(bag_of(self@, bag).dom() =~= self.bags@[bag]@.dom());
        } else {
            assert(bag_of(self@, bag).dom() =~= Set::empty());
        }
    }

    pub fn new() -> (store: Self)
        ensures
            store.wf(),
            store@ == no_bags(),
    {
        let store = StateBagStore {
            bags: TextMap::new(),
            handlers: IdMap::new(),
            pending: TextMap::new(),
            replicated: Vec::new(),
            version: 0,
            cookie: 0,
            lost_deliveries: 0,
            lost_changes: 0,
        };
        proof {
            assert(store@.bags =~= Map::empty());
            assert(store@.handlers =~= Map::empty());
            assert(store@.pending =~= Map::empty());
            assert(store@.replicated =~= Seq::empty());
        }
        store
    }

    /// Ensure a bag exists without producing a mutation.
    pub fn ensure_bag(&mut self, bag: &str)
        requires
            old(self).wf(),
        ensures
            final(self).wf(),
            final(self)@ == (StateBagModel {
                bags: old(self)@.bags.insert(bag@, bag_of(old(self)@, bag@)),
                ..old(self)@
            }),
    {
        let ghost before = self.bags@;
        if !self.bags.contains(bag) {
            let empty: TextMap<(Json, u64)> = TextMap::new();
            self.bags.insert(bag.to_owned(), empty);
            assert(value_models(empty@) =~= Map::empty());
            assert(bag_models(self.bags@) =~= bag_models(before).insert(bag@, Map::empty()));
        } else {
            assert(bag_models(before).insert(bag@, bag_models(before)[bag@]) =~= bag_models(
                before,
            ));
        }
    }

    pub fn get(&self, bag: &str, key: &str) -> (value: Option<Json>)
        requires
            self.wf(),
        ensures
            match value {
                Some(v) => value_of(self@, bag@, key@) == Some(v@),
                None => value_of(self@, bag@, key@) is None,
            },
    {
        match self.bags.get(bag) {
            Some(values) => match values.get(key) {
                Some(entry) => Some(entry.0.copy()),
                None => None,
            },
            None => None,
        }
    }

    pub fn contains_key(&self, bag: &str, key: &str) -> (yes: bool)
        requires
            self.wf(),
        ensures
            yes == (value_of(self@, bag@, key@) is Some),
    {
        match self.bags.get(bag) {
            Some(values) => values.contains(key),
            None => false,
        }
    }

    /// The keys of a bag, ascending.
    pub fn keys(&self, bag: &str) -> (keys: Vec<String>)
        requires
            self.wf(),
        ensures
            keys@.map_values(|s: String| s@) == names_in_order(bag_of(self@, bag@).dom()),
            lists_names(keys@.map_values(|s: String| s@), bag_of(self@, bag@).dom()),
    {
        match self.bags.get(bag) {
            Some(values) => {
                assert(value_models(values@).dom() =~= values@.dom());
                values.names()
            },
            None => {
                let empty: TextMap<(Json, u64)> = TextMap::new();
                assert(empty@.dom() =~= bag_of(self@, bag@).dom());
                empty.names()
            },
        }
    }

    /// Store a value and notify matching local handlers. Only writes with
    /// `replicated == true` enter the networking drain.
    pub fn set(
        &mut self,
        bag: &str,
        key: &str,
        value: Json,
        replicated: bool,
        source: StateBagSource,
    ) -> (change: StateBagChange)
        requires
            old(self).wf(),
        ensures
            final(self).wf(),
            change@ == change_of(old(self)@, bag@, key@, value@, replicated, source@),
            final(self)@ == after_change(old(self)@, change@),
    {
        let version: u64 = if self.version == u64::MAX {
            0
        } else {
            self.version + 1
        };
        let change = StateBagChange {
            bag: bag.to_owned(),
            key: key.to_owned(),
            value,
            version,
            replicated,
            source,
        };
        self.version = version;
        assert(bags_wf(self@)) by {
            assert(self@ == (StateBagModel { version, ..old(self)@ }));
        }
        self.store(&change);
        self.tell(&change);
        if replicated {
            self.replicate(&change);
        }
        change
    }

    fn store(&mut self, change: &StateBagChange)
        requires
            old(self).wf(),
        ensures
            final(self).wf(),
            final(self)@ == (StateBagModel {
                bags: old(self)@.bags.insert(
                    change.bag@,
                    bag_of(old(self)@, change.bag@).insert(
                        change.key@,
                        (change.value@, change.version),
                    ),
                ),
                ..old(self)@
            }),
    {
        let mut values: TextMap<(Json, u64)> = match self.bags.remove(change.bag.as_str()) {
            Some(values) => values,
            None => TextMap::new(),
        };
        let ghost inner = value_models(values@);
        assert(inner =~= bag_of(old(self)@, change.bag@));
        let value = change.value.copy();
        values.insert(change.key.clone(), (value, change.version));
        let ghost outer = inner.insert(change.key@, (change.value@, change.version));
        assert(value_models(values@) =~= outer);
        self.bags.insert(change.bag.clone(), values);
        assert(bag_models(self.bags@) =~= old(self)@.bags.insert(change.bag@, outer));
    }

    /// Queue a change for every handler that hears of it.
    fn tell(&mut self, change: &StateBagChange)
        requires
            old(self).wf(),
        ensures
            final(self).wf(),
            final(self)@ == (StateBagModel {
                pending: told(
                    old(self)@.pending,
                    in_cookie_order(old(self)@.handlers),
                    change@,
                ),
                lost_deliveries: lost_telling(
                    old(self)@.lost_deliveries,
                    old(self)@.pending,
                    in_cookie_order(old(self)@.handlers),
                    change@,
                ),
                ..old(self)@
            }),
    {
        let ghost all = in_cookie_order(self@.handlers);
        let ghost start = self@;
        proof {
            self.handlers.lemma_listing();
            lemma_is_listing(keys_of(self.handlers.listing()), self.handlers@.dom());
            assert(self@.handlers.dom() =~= self.handlers@.dom());
        }
        let n: usize = self.handlers.len();
        assert(all.len() == n);
        let mut i: usize = 0;
        assert(all.take(0) =~= Seq::empty());
        while i < n
            invariant
                i <= n == all.len(),
                self.wf(),
                n == self.handlers.listing().len(),
                start.handlers == self@.handlers,
                all == in_cookie_order(start.handlers),
                listing_of(start.handlers.dom()) == keys_of(self.handlers.listing()),
                self@ == (StateBagModel {
                    pending: told(start.pending, all.take(i as int), change@),
                    lost_deliveries: lost_telling(
                        start.lost_deliveries,
                        start.pending,
                        all.take(i as int),
                        change@,
                    ),
                    ..start
                }),
            decreases n - i,
        {
            let ghost before = self@;
            let (cookie, handler) = self.handlers.entry_at(i);
            proof {
                assert(keys_of(self.handlers.listing())[i as int] == cookie);
                assert(all[i as int] == handler.model());
                assert(all.take(i + 1).drop_last() =~= all.take(i as int));
                assert(all.take(i + 1).last() == all[i as int]);
            }
            if matches_filter(&handler.key_filter, change.key.as_str()) && matches_filter(
                &handler.bag_filter,
                change.bag.as_str(),
            ) {
                let resource = handler.resource.clone();
                let delivery = StateBagDelivery {
                    callback_id: handler.callback_id,
                    change: change.copy(),
                };
                self.enqueue(resource, delivery);
            }
            i = i + 1;
        }
        assert(all.take(i as int) =~= all);
    }

    fn enqueue(&mut self, resource: String, delivery: StateBagDelivery)
        requires
            old(self).wf(),
        ensures
            final(self).wf(),
            final(self)@ == (StateBagModel {
                pending: old(self)@.pending.insert(
                    resource@,
                    queued(
                        queue_of(old(self)@.pending, resource@),
                        delivery@,
                        MAX_PENDING_DELIVERIES_PER_RESOURCE as int,
                    ),
                ),
                lost_deliveries: if queue_of(old(self)@.pending, resource@).len()
                    >= MAX_PENDING_DELIVERIES_PER_RESOURCE {
                    one_more(old(self)@.lost_deliveries)
                } else {
                    old(self)@.lost_deliveries
                },
                ..old(self)@
            }),
            final(self).handlers == old(self).handlers,
    {
        let ghost before = self.pending@;
        let ghost d = delivery@;
        let mut queue: Vec<StateBagDelivery> = match self.pending.remove(resource.as_str()) {
            Some(queue) => queue,
            None => Vec::new(),
        };
        let ghost q = delivery_models(queue@);
        assert(q =~= queue_of(old(self)@.pending, resource@));
        if queue.len() >= MAX_PENDING_DELIVERIES_PER_RESOURCE {
            queue.remove(0);
            self.lost_deliveries = count_one(self.lost_deliveries);
            assert(delivery_models(queue@) =~= q.skip(1));
        }
        queue.push(delivery);
        assert(delivery_models(queue@) =~= queued(
            q,
            d,
            MAX_PENDING_DELIVERIES_PER_RESOURCE as int,
        ));
        self.pending.insert(resource, queue);
        proof {
            assert(self@.pending =~= old(self)@.pending.insert(
                resource@,
                queued(q, d, MAX_PENDING_DELIVERIES_PER_RESOURCE as int),
            ));
        }
    }

    /// Queue a change for the network.
    fn replicate(&mut self, change: &StateBagChange)
        requires
            old(self).wf(),
            change.replicated,
        ensures
            final(self).wf(),
            final(self)@ == (StateBagModel {
                replicated: coalesced(old(self)@.replicated, change@),
                lost_changes: lost_coalescing(
                    old(self)@.lost_changes,
                    old(self)@.replicated,
                    change@,
                ),
                ..old(self)@
            }),
    {
        let ghost queue = self@.replicated;
        let mut i: usize = self.replicated.len();
        assert(queue.take(i as int) =~= queue);
        let mut slot: Option<usize> = None;
        while i > 0 && slot.is_none()
            invariant
                i <= self.replicated@.len(),
                queue == change_models(self.replicated@),
                match slot {
                    Some(s) => slot_of(queue, change@) == Some(s as int) && s < queue.len(),
                    None => slot_of(queue, change@) == slot_of(queue.take(i as int), change@),
                },
            decreases i,
        {
            assert(queue.take(i as int).drop_last() =~= queue.take(i - 1));
            assert(queue.take(i as int).last() == queue[i - 1]);
            i = i - 1;
            let pending = &self.replicated[i];
            if same(pending.bag.as_str(), change.bag.as_str()) && same(
                pending.key.as_str(),
                change.key.as_str(),
            ) {
                slot = Some(i);
            }
        }
        proof {
            lemma_slot(queue, change@);
        }
        match slot {
            Some(s) => {
                self.replicated.remove(s);
                assert(change_models(self.replicated@) =~= queue.remove(s as int));
            },
            None => {
                if self.replicated.len() >= MAX_REPLICATED_CHANGES {
                    self.replicated.remove(0);
                    self.lost_changes = count_one(self.lost_changes);
                    assert(change_models(self.replicated@) =~= queue.skip(1));
                }
            },
        }
        self.replicated.push(change.copy());
        assert(change_models(self.replicated@) =~= coalesced(queue, change@));
    }

    /// How many deliveries to handlers were dropped.
    pub fn lost_deliveries(&self) -> (count: u64)
        ensures
            count == self@.lost_deliveries,
    {
        self.lost_deliveries
    }

    /// How many changes were dropped before they went out to the network.
    pub fn lost_changes(&self) -> (count: u64)
        ensures
            count == self@.lost_changes,
    {
        self.lost_changes
    }

    /// Register a handler and return its non-zero cookie.
    pub fn add_handler(
        &mut self,
        resource: &str,
        key_filter: Option<String>,
        bag_filter: Option<String>,
        callback_id: u32,
    ) -> (cookie: u32)
        requires
            old(self).wf(),
        ensures
            final(self).wf(),
            cookie == next_cookie(old(self)@.cookie),
            cookie != 0,
            final(self)@ == (StateBagModel {
                handlers: old(self)@.handlers.insert(
                    cookie,
                    HandlerModel {
                        resource: resource@,
                        callback_id,
                        key_filter: normalized(optional(key_filter)),
                        bag_filter: normalized(optional(bag_filter)),
                    },
                ),
                cookie,
                ..old(self)@
            }),
    {
        let cookie: u32 = if self.cookie == u32::MAX {
            1
        } else {
            self.cookie + 1
        };
        self.cookie = cookie;
        let handler = Handler {
            resource: resource.to_owned(),
            callback_id,
            key_filter: normalize_filter(key_filter),
            bag_filter: normalize_filter(bag_filter),
        };
        let ghost model = handler.model();
        let ghost before = self.handlers@;
        self.handlers.insert(cookie, handler);
        assert(handler_models(self.handlers@) =~= handler_models(before).insert(cookie, model));
        cookie
    }

    /// Remove a handler only when it belongs to the calling resource.
    pub fn remove_handler(&mut self, resource: &str, cookie: u32) -> (removed: bool)
        requires
            old(self).wf(),
        ensures
            final(self).wf(),
            removed == (old(self)@.handlers.contains_key(cookie)
                && old(self)@.handlers[cookie].resource == resource@),
            final(self)@ == if removed {
                StateBagModel { handlers: old(self)@.handlers.remove(cookie), ..old(self)@ }
            } else {
                old(self)@
            },
    {
        let ghost before = self.handlers@;
        let owned = match self.handlers.get(cookie) {
            Some(handler) => same(handler.resource.as_str(), resource),
            None => false,
        };
        if owned {
            self.handlers.remove(cookie);
            assert(handler_models(self.handlers@) =~= handler_models(before).remove(cookie));
        }
        owned
    }

    /// Take up to `limit` of what is queued for a resource, oldest first.
    pub fn drain_deliveries(&mut self, resource: &str, limit: usize) -> (deliveries: Vec<
        StateBagDelivery,
    >)
        requires
            old(self).wf(),
        ensures
            final(self).wf(),
            ({
                let queue = queue_of(old(self)@.pending, resource@);
                let count = if limit < queue.len() {
                    limit as int
                } else {
                    queue.len() as int
                };
                &&& deliveries@.map_values(|d: StateBagDelivery| d@) == queue.take(count)
                &&& final(self)@ == (StateBagModel {
                    pending: if count == queue.len() {
                        old(self)@.pending.remove(resource@)
                    } else {
                        old(self)@.pending.insert(resource@, queue.skip(count))
                    },
                    ..old(self)@
                })
            }),
    {
        let ghost q = queue_of(self@.pending, resource@);
        match self.pending.remove(resource) {
            None => {
                let none: Vec<StateBagDelivery> = Vec::new();
                assert(delivery_models(none@) =~= q.take(0));
                assert(self@.pending =~= old(self)@.pending.remove(resource@));
                none
            },
            Some(queue) => {
                let mut queue = queue;
                let count: usize = if limit < queue.len() {
                    limit
                } else {
                    queue.len()
                };
                let ghost full = queue@;
                assert(delivery_models(full) =~= q);
                let rest = queue.split_off(count);
                assert(delivery_models(queue@) =~= q.take(count as int));
                assert(delivery_models(rest@) =~= q.skip(count as int));
                if rest.len() > 0 {
                    self.pending.insert(resource.to_owned(), rest);
                    assert(self@.pending =~= old(self)@.pending.insert(
                        resource@,
                        q.skip(count as int),
                    ));
                } else {
                    assert(self@.pending =~= old(self)@.pending.remove(resource@));
                }
                queue
            },
        }
    }

    /// How many deliveries are queued.
    pub fn pending_deliveries(&self) -> (n: usize)
        requires
            self.wf(),
            total_pending(self@.pending) <= usize::MAX,
        ensures
            n == total_pending(self@.pending),
    {
        let ghost names = names_in_order(self@.pending.dom());
        let ghost lengths = names.map_values(|name: Seq<char>| self@.pending[name].len());
        proof {
            self.pending.lemma_listing();
            crate::named::lemma_names_in_order(
                crate::named::names_of(self.pending.listing()),
                self.pending@.dom(),
            );
            assert(self@.pending.dom() =~= self.pending@.dom());
        }
        let mut n: usize = 0;
        let mut i: usize = 0;
        assert(lengths.take(0) =~= Seq::empty());
        while i < self.pending.len()
            invariant
                i <= lengths.len(),
                self.pending.wf(),
                lengths.len() == self.pending.listing().len(),
                names == crate::named::names_of(self.pending.listing()),
                lengths == names.map_values(|name: Seq<char>| self@.pending[name].len()),
                n == total(lengths.take(i as int)),
                total(lengths) <= usize::MAX,
            decreases lengths.len() - i,
        {
            let (name, queue) = self.pending.entry_at(i);
            proof {
                assert(lengths.take(i + 1).drop_last() =~= lengths.take(i as int));
                assert(names[i as int] == name@);
                assert(lengths[i as int] == queue@.len());
                lemma_total_grows(lengths, i + 1);
            }
            n = n + queue.len();
            i = i + 1;
        }
        assert(lengths.take(i as int) =~= lengths);
        n
    }

    /// Take up to `limit` of what is queued for the network, oldest first.
    pub fn drain_replicated(&mut self, limit: usize) -> (changes: Vec<StateBagChange>)
        requires
            old(self).wf(),
        ensures
            final(self).wf(),
            ({
                let queue = old(self)@.replicated;
                let count = if limit < queue.len() {
                    limit as int
                } else {
                    queue.len() as int
                };
                &&& change_models(changes@) == queue.take(count)
                &&& final(self)@ == (StateBagModel {
                    replicated: queue.skip(count),
                    ..old(self)@
                })
            }),
    {
        let ghost queue = self@.replicated;
        let count: usize = if limit < self.replicated.len() {
            limit
        } else {
            self.replicated.len()
        };
        let rest = self.replicated.split_off(count);
        assert(change_models(self.replicated@) =~= queue.take(count as int));
        assert(change_models(rest@) =~= queue.skip(count as int));
        let mut taken = rest;
        std::mem::swap(&mut taken, &mut self.replicated);
        proof {
            assert forall|i: int, j: int| 0 <= i < j < self@.replicated.len() implies !same_slot(
                #[trigger] self@.replicated[i],
                #[trigger] self@.replicated[j],
            ) by {
                assert(!same_slot(queue[count + i], queue[count + j]));
            }
        }
        taken
    }

    /// Forget every handler of a resource and what is queued for it.
    pub fn cleanup_resource(&mut self, resource: &str)
        requires
            old(self).wf(),
        ensures
            final(self).wf(),
            final(self)@ == (StateBagModel {
                handlers: without_resource(old(self)@.handlers, resource@),
                pending: old(self)@.pending.remove(resource@),
                ..old(self)@
            }),
    {
        let cookies = self.handlers.keys();
        let ghost all = self@.handlers;
        let ghost start = self@;
        let mut i: usize = 0;
        proof {
            self.handlers.lemma_listing();
        }
        while i < cookies.len()
            invariant
                i <= cookies@.len(),
                self.wf(),
                crate::ordered::lists(cookies@, all.dom()),
                self@ == (StateBagModel { handlers: self@.handlers, ..start }),
                forall|c: u32| #[trigger]
                    self@.handlers.contains_key(c) <==> all.contains_key(c) && !(all[c].resource
                        == resource@ && cookies@.take(i as int).contains(c)),
                forall|c: u32| #[trigger]
                    self@.handlers.contains_key(c) ==> self@.handlers[c] == all[c],
            decreases cookies@.len() - i,
        {
            let cookie = cookies[i];
            let ghost now = self@.handlers;
            let ghost handlers = self.handlers@;
            self.remove_handler(resource, cookie);
            proof {
                assert(cookies@.take(i + 1) =~= cookies@.take(i as int).push(cookie));
                assert(cookies@.contains(cookie));
                assert(!cookies@.take(i as int).contains(cookie)) by {
                    if cookies@.take(i as int).contains(cookie) {
                        let j = choose|j: int|
                            0 <= j < i && cookies@.take(i as int)[j] == cookie;
                        assert(cookies@[j] < cookies@[i as int]);
                    }
                }
                assert forall|c: u32| #[trigger] self@.handlers.contains_key(c) <==> all.contains_key(
                    c,
                ) && !(all[c].resource == resource@ && cookies@.take(i + 1).contains(c)) by {
                    assert(cookies@.take(i + 1).contains(c) <==> cookies@.take(i as int).contains(c)
                        || c == cookie) by {
                        if cookies@.take(i as int).contains(c) {
                            let j = choose|j: int| 0 <= j < i && cookies@.take(i as int)[j] == c;
                            assert(cookies@.take(i + 1)[j] == c);
                        }
                        if c == cookie {
                            assert(cookies@.take(i + 1)[i as int] == c);
                        }
                        if cookies@.take(i + 1).contains(c) && c != cookie {
                            let longer = cookies@.take(i + 1);
                            let j = choose|j: int| 0 <= j < longer.len() && longer[j] == c;
                            assert(cookies@.take(i as int)[j] == c);
                        }
                    }
                }
            }
            i = i + 1;
        }
        proof {
            assert(cookies@.take(i as int) =~= cookies@);
            assert(self@.handlers =~= without_resource(all, resource@));
        }
        let ghost before = self.pending@;
        self.pending.remove(resource);
        assert(queue_models(self.pending@) =~= queue_models(before).remove(resource@));
    }

    pub fn remove_bag(&mut self, bag: &str)
        requires
            old(self).wf(),
        ensures
            final(self).wf(),
            final(self)@ == (StateBagModel { bags: old(self)@.bags.remove(bag@), ..old(self)@ }),
    {
        let ghost before = self.bags@;
        self.bags.remove(bag);
        assert(bag_models(self.bags@) =~= bag_models(before).remove(bag@));
    }
}

/// The handlers of every other resource.
pub open spec fn without_resource(
    handlers: Map<u32, HandlerModel>,
    resource: Seq<char>,
) -> Map<u32, HandlerModel> {
    handlers.restrict(
        Set::new(|c: u32| handlers.contains_key(c) && handlers[c].resource != resource),
    )
}

proof fn lemma_slot(queue: Seq<ChangeModel>, change: ChangeModel)
    ensures
        match slot_of(queue, change) {
            Some(i) => 0 <= i < queue.len() && same_slot(queue[i], change),
            None => forall|i: int|
                0 <= i < queue.len() ==> !same_slot(#[trigger] queue[i], change),
        },
    decreases queue.len(),
{
    if queue.len() > 0 {
        lemma_slot(queue.drop_last(), change);
        if !same_slot(queue.last(), change) && slot_of(queue, change) is None {
            assert forall|i: int| 0 <= i < queue.len() implies !same_slot(
                #[trigger] queue[i],
                change,
            ) by {
                if i < queue.len() - 1 {
                    assert(queue.drop_last()[i] == queue[i]);
                }
            }
        }
    }
}

proof fn lemma_total_grows(lengths: Seq<nat>, i: int)
    requires
        0 <= i <= lengths.len(),
    ensures
        total(lengths.take(i)) <= total(lengths),
    decreases lengths.len() - i,
{
    if i < lengths.len() {
        lemma_total_grows(lengths, i + 1);
        assert(lengths.take(i + 1).drop_last() =~= lengths.take(i));
    } else {
        assert(lengths.take(i) =~= lengths);
    }
}

fn matches_filter(filter: &Option<String>, text: &str) -> (yes: bool)
    ensures
        yes == (optional(*filter) matches Some(f) ==> f == text@),
{
    match filter {
        Some(f) => same(f.as_str(), text),
        None => true,
    }
}

fn normalize_filter(filter: Option<String>) -> (out: Option<String>)
    ensures
        optional(out) == normalized(optional(filter)),
{
    match filter {
        Some(text) => {
            if same(text.as_str(), "") {
                proof {
                    reveal_strlit("");
                }
                None
            } else {
                proof {
                    reveal_strlit("");
                    if text@.len() == 0 {
                        assert(text@ =~= ""@);
                    }
                }
                Some(text)
            }
        },
        None => None,
    }
}

// --- names ---

/// The bag name of an id behind a prefix.
pub open spec fn bag_name(prefix: Seq<char>, id: u32) -> Seq<char> {
    prefix + decimal(id as nat)
}

// --- what a script is told ---

/// How many deliveries one poll hands out: a burst must not turn one dispatch into an
/// unbounded amount of script work.
pub const MAX_DELIVERIES_PER_POLL: usize = 4096;

/// A source as a JSON object.
pub open spec fn source_text(source: SourceModel) -> Seq<char> {
    "{\"resource\":"@ + json_text(optional_text(source.resource)) + ",\"player\":"@ + json_text(
        optional_number(source.player),
    ) + "}"@
}

/// A change as a JSON object.
pub open spec fn change_text(change: ChangeModel) -> Seq<char> {
    "{\"bag\":"@ + json_text(JsonModel::Text(change.bag)) + ",\"key\":"@ + json_text(
        JsonModel::Text(change.key),
    ) + ",\"value\":"@ + json_text(change.value) + ",\"version\":"@ + decimal(
        change.version as nat,
    ) + ",\"replicated\":"@ + json_text(JsonModel::Bool(change.replicated)) + ",\"source\":"@
        + source_text(change.source) + "}"@
}

/// A delivery as a JSON object.
pub open spec fn delivery_json(delivery: DeliveryModel) -> JsonModel {
    JsonModel::Nested(
        "{\"callback_id\":"@ + decimal(delivery.callback_id as nat) + ",\"change\":"@
            + change_text(delivery.change) + "}"@,
    )
}

fn print_source(source: &StateBagSource) -> (text: String)
    ensures
        text@ == source_text(source@),
{
    let mut text = "{\"resource\":".to_owned();
    let resource = match &source.resource {
        Some(name) => Json::Text(name.clone()),
        None => Json::Null,
    };
    text.append(resource.to_json().as_str());
    text.append(",\"player\":");
    let player = match source.player {
        Some(id) => Json::Unsigned(id as u64),
        None => Json::Null,
    };
    text.append(player.to_json().as_str());
    text.append("}");
    text
}

fn print_change(change: &StateBagChange) -> (text: String)
    ensures
        text@ == change_text(change@),
{
    let mut text = "{\"bag\":".to_owned();
    text.append(quote(change.bag.as_str()).as_str());
    text.append(",\"key\":");
    text.append(quote(change.key.as_str()).as_str());
    text.append(",\"value\":");
    text.append(change.value.to_json().as_str());
    text.append(",\"version\":");
    text.append(print_decimal(change.version).as_str());
    text.append(",\"replicated\":");
    text.append(Json::Bool(change.replicated).to_json().as_str());
    text.append(",\"source\":");
    text.append(print_source(&change.source).as_str());
    text.append("}");
    text
}

impl StateBagDelivery {
    /// The delivery as a JSON object.
    pub fn to_json(&self) -> (json: Json)
        ensures
            json@ == delivery_json(self@),
    {
        let mut text = "{\"callback_id\":".to_owned();
        text.append(print_decimal(self.callback_id as u64).as_str());
        text.append(",\"change\":");
        text.append(print_change(&self.change).as_str());
        text.append("}");
        Json::Nested(text)
    }
}

/// The deliveries that one poll of a queue hands out.
pub open spec fn polled(queue: Seq<DeliveryModel>) -> Seq<DeliveryModel> {
    if MAX_DELIVERIES_PER_POLL < queue.len() {
        queue.take(MAX_DELIVERIES_PER_POLL as int)
    } else {
        queue
    }
}

/// Deliveries as a JSON array.
pub open spec fn deliveries_json(deliveries: Seq<DeliveryModel>) -> JsonModel {
    array_of(deliveries.map_values(|d: DeliveryModel| delivery_json(d)))
}

impl StateBagStore {
    /// Hand a resource the changes that its handlers have not seen, as a JSON array.
    pub fn poll_changes(&mut self, resource: &str) -> (text: String)
        requires
            old(self).wf(),
        ensures
            final(self).wf(),
            ({
                let queue = queue_of(old(self)@.pending, resource@);
                &&& text@ == json_text(deliveries_json(polled(queue)))
                &&& final(self)@ == (StateBagModel {
                    pending: if MAX_DELIVERIES_PER_POLL < queue.len() {
                        old(self)@.pending.insert(
                            resource@,
                            queue.skip(MAX_DELIVERIES_PER_POLL as int),
                        )
                    } else {
                        old(self)@.pending.remove(resource@)
                    },
                    ..old(self)@
                })
            }),
    {
        let ghost queue = queue_of(self@.pending, resource@);
        let deliveries = self.drain_deliveries(resource, MAX_DELIVERIES_PER_POLL);
        let ghost taken = delivery_models(deliveries@);
        assert(taken =~= polled(queue));
        let mut list: Vec<Json> = Vec::new();
        let mut i: usize = 0;
        while i < deliveries.len()
            invariant
                i <= deliveries@.len(),
                list@.len() == i,
                forall|j: int|
                    0 <= j < i ==> (#[trigger] list@[j])@ == delivery_json(deliveries@[j]@),
            decreases deliveries@.len() - i,
        {
            list.push(deliveries[i].to_json());
            i = i + 1;
        }
        assert(models(list@) =~= taken.map_values(|d: DeliveryModel| delivery_json(d)));
        Json::array(&list).to_json()
    }
}

/// The id that a bag name holds behind a prefix.
pub open spec fn bag_id(name: Seq<char>, prefix: Seq<char>) -> Option<nat> {
    if starts_with(name, prefix) {
        parsed_unsigned(name.skip(prefix.len() as int), u32::MAX as nat)
    } else {
        None
    }
}

pub fn entity_state_bag_name(entity: u32) -> (name: String)
    ensures
        name@ == bag_name("entity:"@, entity),
{
    joined("entity:", print_decimal(entity as u64).as_str())
}

pub fn player_state_bag_name(player: u32) -> (name: String)
    ensures
        name@ == bag_name("player:"@, player),
{
    joined("player:", print_decimal(player as u64).as_str())
}

pub fn entity_from_state_bag_name(name: &str) -> (entity: Option<u32>)
    ensures
        match bag_id(name@, "entity:"@) {
            Some(n) => entity == Some(n as u32) && n <= u32::MAX,
            None => entity is None,
        },
{
    parse_bag_id(name, "entity:")
}

pub fn player_from_state_bag_name(name: &str) -> (player: Option<u32>)
    ensures
        match bag_id(name@, "player:"@) {
            Some(n) => player == Some(n as u32) && n <= u32::MAX,
            None => player is None,
        },
{
    parse_bag_id(name, "player:")
}

fn parse_bag_id(name: &str, prefix: &str) -> (id: Option<u32>)
    ensures
        match bag_id(name@, prefix@) {
            Some(n) => id == Some(n as u32) && n <= u32::MAX,
            None => id is None,
        },
{
    match after_prefix(name, prefix) {
        Some(rest) => match parse_unsigned(rest, u32::MAX as u64) {
            Some(n) => Some(n as u32),
            None => None,
        },
        None => None,
    }
}

// --- laws ---

/// A bag name leads back to the id it was made from.
pub proof fn bag_name_reads_back(prefix: Seq<char>, id: u32)
    ensures
        bag_id(bag_name(prefix, id), prefix) == Some(id as nat),
{
    let name = bag_name(prefix, id);
    assert(name.take(prefix.len() as int) =~= prefix);
    assert(name.skip(prefix.len() as int) =~= decimal(id as nat));
    decimal_reads_back(id as nat, u32::MAX as nat);
}

/// The bag of an entity is never taken for the bag of a player, nor the other way.
pub proof fn entity_and_player_bags_differ(id: u32)
    ensures
        bag_id(bag_name("entity:"@, id), "player:"@) is None,
        bag_id(bag_name("player:"@, id), "entity:"@) is None,
{
    reveal_strlit("entity:");
    reveal_strlit("player:");
    let e = bag_name("entity:"@, id);
    let p = bag_name("player:"@, id);
    assert(e[0] == 'e' && p[0] == 'p');
    assert(e.take(7)[0] == 'e');
    assert(p.take(7)[0] == 'p');
    assert("player:"@[0] == 'p' && "entity:"@[0] == 'e');
}

/// A read gives back what was written last; every other key keeps its value.
pub proof fn a_write_is_read_back(
    m: StateBagModel,
    change: ChangeModel,
    bag: Seq<char>,
    key: Seq<char>,
)
    ensures
        value_of(after_change(m, change), change.bag, change.key) == Some(change.value),
        (bag != change.bag || key != change.key) ==> value_of(after_change(m, change), bag, key)
            == value_of(m, bag, key),
{
}

/// Each write gets a higher version than the one before.
pub proof fn versions_increase(
    m: StateBagModel,
    bag: Seq<char>,
    key: Seq<char>,
    value: JsonModel,
    replicated: bool,
    source: SourceModel,
)
    requires
        m.version < u64::MAX,
    ensures
        ({
            let change = change_of(m, bag, key, value, replicated, source);
            &&& change.version > m.version
            &&& after_change(m, change).version == change.version
        }),
{
}

/// What is not replicated never reaches the network; what is, is the last of its queue
/// and the only unsent change of its key.
pub proof fn replication_is_last_write_wins(m: StateBagModel, change: ChangeModel)
    requires
        bags_wf(m),
    ensures
        ({
            let queue = after_change(m, change).replicated;
            if change.replicated {
                &&& queue.len() > 0
                &&& queue.last() == change
                &&& forall|i: int|
                    0 <= i < queue.len() - 1 ==> !same_slot(#[trigger] queue[i], change)
            } else {
                queue == m.replicated
            }
        }),
{
    if change.replicated {
        lemma_slot(m.replicated, change);
        let queue = coalesced(m.replicated, change);
        assert forall|i: int| 0 <= i < queue.len() - 1 implies !same_slot(
            #[trigger] queue[i],
            change,
        ) by {
            if let Some(s) = slot_of(m.replicated, change) {
                let j = if i < s {
                    i
                } else {
                    i + 1
                };
                assert(queue[i] == m.replicated[j]);
                if j < s {
                    assert(!same_slot(m.replicated[j], m.replicated[s]));
                } else {
                    assert(!same_slot(m.replicated[s], m.replicated[j]));
                }
            } else if m.replicated.len() >= MAX_REPLICATED_CHANGES {
                assert(queue[i] == m.replicated[i + 1]);
            } else {
                assert(queue[i] == m.replicated[i]);
            }
        }
    }
}

/// A resource that was cleaned up hears of no later change.
pub proof fn cleaned_up_resource_hears_nothing(
    m: StateBagModel,
    resource: Seq<char>,
    change: ChangeModel,
)
    requires
        bags_wf(m),
    ensures
        ({
            let clean = StateBagModel {
                handlers: without_resource(m.handlers, resource),
                pending: m.pending.remove(resource),
                ..m
            };
            !after_change(clean, change).pending.contains_key(resource)
        }),
{
    let handlers = without_resource(m.handlers, resource);
    let pending = m.pending.remove(resource);
    let all = in_cookie_order(handlers);
    assert(handlers.dom().subset_of(m.handlers.dom()));
    vstd::set_lib::lemma_set_subset_finite(m.handlers.dom(), handlers.dom());
    crate::ordered::finite_set_has_a_listing(handlers.dom());
    let cookies = listing_of(handlers.dom());
    assert forall|i: int| 0 <= i < all.len() implies (#[trigger] all[i]).resource != resource by {
        assert(cookies.contains(cookies[i]));
        assert(handlers.contains_key(cookies[i]));
    }
    lemma_not_told(pending, all, change, resource);
}

proof fn lemma_not_told(
    pending: Map<Seq<char>, Seq<DeliveryModel>>,
    handlers: Seq<HandlerModel>,
    change: ChangeModel,
    resource: Seq<char>,
)
    requires
        forall|i: int| 0 <= i < handlers.len() ==> (#[trigger] handlers[i]).resource != resource,
        !pending.contains_key(resource),
    ensures
        !told(pending, handlers, change).contains_key(resource),
    decreases handlers.len(),
{
    if handlers.len() > 0 {
        assert forall|i: int| 0 <= i < handlers.drop_last().len() implies (
        #[trigger] handlers.drop_last()[i]).resource != resource by {
            assert(handlers.drop_last()[i] == handlers[i]);
        }
        lemma_not_told(pending, handlers.drop_last(), change, resource);
    }
}

} // verus!
