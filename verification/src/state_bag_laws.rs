//! What state-bag handlers and the network are told of a write.
use crate::json::JsonModel;
use crate::natives::{bag_step, shared_step, NativesModel};
use crate::ordered::{ascending, lemma_is_listing, listing_of, lists};
use crate::state_bag::{
    after_change, bag_name, bag_name_reads_back, bags_wf, change_of, in_cookie_order, lost_telling,
    queue_of, queued, slot_of, told, value_of, ChangeModel, DeliveryModel, HandlerModel,
    SourceModel, StateBagModel,
};
use crate::text::decimal;
use vstd::prelude::*;

verus! {

/// Neither filter of the handler names another key or another bag.
pub open spec fn wants(handler: HandlerModel, bag: Seq<char>, key: Seq<char>) -> bool {
    &&& handler.key_filter is None || handler.key_filter->0 == key
    &&& handler.bag_filter is None || handler.bag_filter->0 == bag
}

/// What the given handlers of a resource have to be told of a change: one delivery for
/// each that wants it, in their order.
pub open spec fn notices(
    handlers: Seq<HandlerModel>,
    resource: Seq<char>,
    change: ChangeModel,
) -> Seq<DeliveryModel> {
    handlers.filter(
        |h: HandlerModel| h.resource == resource && wants(h, change.bag, change.key),
    ).map_values(|h: HandlerModel| DeliveryModel { callback_id: h.callback_id, change })
}

/// The newest items of a queue, at most `bound` of them.
pub open spec fn newest<T>(queue: Seq<T>, bound: int) -> Seq<T> {
    if queue.len() > bound {
        queue.skip(queue.len() - bound)
    } else {
        queue
    }
}

proof fn lemma_newest<T>(queue: Seq<T>, item: T, bound: int)
    requires
        bound > 0,
    ensures
        queued(newest(queue, bound), item, bound) == newest(queue.push(item), bound),
{
    assert(queued(newest(queue, bound), item, bound) =~= newest(queue.push(item), bound));
}

proof fn lemma_told(
    pending: Map<Seq<char>, Seq<DeliveryModel>>,
    handlers: Seq<HandlerModel>,
    change: ChangeModel,
    resource: Seq<char>,
)
    requires
        queue_of(pending, resource).len() <= 4096,
    ensures
        queue_of(told(pending, handlers, change), resource) == newest(
            queue_of(pending, resource) + notices(handlers, resource, change),
            4096,
        ),
    decreases handlers.len(),
{
    let old = queue_of(pending, resource);
    let p = |h: HandlerModel| h.resource == resource && wants(h, change.bag, change.key);
    let f = |h: HandlerModel| DeliveryModel { callback_id: h.callback_id, change };
    reveal(Seq::filter);
    if handlers.len() == 0 {
        assert(old + notices(handlers, resource, change) =~= old);
    } else {
        let front = handlers.drop_last();
        let last = handlers.last();
        lemma_told(pending, front, change, resource);
        let all = old + notices(front, resource, change);
        if p(last) {
            assert(handlers.filter(p) == front.filter(p).push(last));
            assert(notices(handlers, resource, change) =~= notices(front, resource, change).push(
                f(last),
            ));
            assert(old + notices(handlers, resource, change) =~= all.push(f(last)));
            lemma_newest(all, f(last), 4096);
        } else {
            assert(handlers.filter(p) == front.filter(p));
        }
    }
}

/// A resource is told of a write through exactly those of its handlers whose filters are
/// absent or name the bag and the key that were written, in the order in which they were
/// registered; where its queue is full, the oldest go.
pub proof fn a_write_is_told_to_those_who_want_it(
    m: StateBagModel,
    change: ChangeModel,
    resource: Seq<char>,
    cookies: Seq<u32>,
)
    requires
        bags_wf(m),
        forall|i: int, j: int| 0 <= i < j < cookies.len() ==> cookies[i] < cookies[j],
        forall|c: u32| #[trigger] cookies.contains(c) <==> m.handlers.contains_key(c),
    ensures
        queue_of(after_change(m, change).pending, resource) == newest(
            queue_of(m.pending, resource) + notices(
                cookies.map_values(|c: u32| m.handlers[c]),
                resource,
                change,
            ),
            4096,
        ),
{
    assert(ascending(cookies));
    assert(lists(cookies, m.handlers.dom()));
    lemma_is_listing(cookies, m.handlers.dom());
    assert(in_cookie_order(m.handlers) =~= cookies.map_values(|c: u32| m.handlers[c]));
    lemma_told(m.pending, in_cookie_order(m.handlers), change, resource);
}

proof fn lemma_no_notice(handlers: Seq<HandlerModel>, resource: Seq<char>, change: ChangeModel)
    requires
        forall|i: int|
            0 <= i < handlers.len() && (#[trigger] handlers[i]).resource == resource ==> !wants(
                handlers[i],
                change.bag,
                change.key,
            ),
    ensures
        notices(handlers, resource, change).len() == 0,
    decreases handlers.len(),
{
    reveal(Seq::filter);
    if handlers.len() > 0 {
        let front = handlers.drop_last();
        assert forall|i: int|
            0 <= i < front.len() && (#[trigger] front[i]).resource == resource implies !wants(
            front[i],
            change.bag,
            change.key,
        ) by {
            assert(front[i] == handlers[i]);
        }
        lemma_no_notice(front, resource, change);
        assert(handlers.last() == handlers[handlers.len() - 1]);
    }
}

proof fn lemma_notice(
    handlers: Seq<HandlerModel>,
    resource: Seq<char>,
    change: ChangeModel,
    i: int,
)
    requires
        0 <= i < handlers.len(),
        handlers[i].resource == resource,
        wants(handlers[i], change.bag, change.key),
    ensures
        notices(handlers, resource, change).contains(
            (DeliveryModel { callback_id: handlers[i].callback_id, change }),
        ),
        notices(handlers, resource, change).len() <= handlers.len(),
    decreases handlers.len(),
{
    reveal(Seq::filter);
    let front = handlers.drop_last();
    let d = DeliveryModel { callback_id: handlers[i].callback_id, change };
    let all = notices(handlers, resource, change);
    let before = notices(front, resource, change);
    lemma_notice_count(front, resource, change);
    lemma_notice_count(handlers, resource, change);
    if i < front.len() {
        lemma_notice(front, resource, change, i);
        let k = choose|k: int| 0 <= k < before.len() && before[k] == d;
        assert(all[k] == d);
    } else {
        assert(all[all.len() - 1] == d);
    }
}

proof fn lemma_notice_count(handlers: Seq<HandlerModel>, resource: Seq<char>, change: ChangeModel)
    ensures
        notices(handlers, resource, change).len() <= handlers.len(),
    decreases handlers.len(),
{
    reveal(Seq::filter);
    if handlers.len() > 0 {
        lemma_notice_count(handlers.drop_last(), resource, change);
    }
}

/// A write that every handler of a resource filters out, by its bag or by its key, is not
/// queued for the resource.
pub proof fn a_filtered_write_is_not_told(
    m: StateBagModel,
    change: ChangeModel,
    resource: Seq<char>,
)
    requires
        bags_wf(m),
        forall|c: u32| #[trigger]
            m.handlers.contains_key(c) && m.handlers[c].resource == resource ==> (
            m.handlers[c].bag_filter is Some && m.handlers[c].bag_filter->0 != change.bag) || (
            m.handlers[c].key_filter is Some && m.handlers[c].key_filter->0 != change.key),
    ensures
        queue_of(after_change(m, change).pending, resource) == queue_of(m.pending, resource),
{
    crate::ordered::finite_set_has_a_listing(m.handlers.dom());
    let cookies = listing_of(m.handlers.dom());
    let handlers = cookies.map_values(|c: u32| m.handlers[c]);
    a_write_is_told_to_those_who_want_it(m, change, resource, cookies);
    assert forall|i: int|
        0 <= i < handlers.len() && (#[trigger] handlers[i]).resource == resource implies !wants(
        handlers[i],
        change.bag,
        change.key,
    ) by {
        assert(cookies.contains(cookies[i]));
        assert(m.handlers.contains_key(cookies[i]));
    }
    lemma_no_notice(handlers, resource, change);
    assert(queue_of(m.pending, resource) + notices(handlers, resource, change) =~= queue_of(
        m.pending,
        resource,
    ));
}

/// A handler whose filters are absent, or name the bag and the key that were written, is
/// told of the write: its callback is in the queue with the change.
pub proof fn a_wanted_write_is_told(m: StateBagModel, change: ChangeModel, cookie: u32)
    requires
        bags_wf(m),
        m.handlers.contains_key(cookie),
        m.handlers.dom().len() <= 4096,
        m.handlers[cookie].bag_filter is None || m.handlers[cookie].bag_filter->0 == change.bag,
        m.handlers[cookie].key_filter is None || m.handlers[cookie].key_filter->0 == change.key,
    ensures
        queue_of(after_change(m, change).pending, m.handlers[cookie].resource).contains(
            (DeliveryModel { callback_id: m.handlers[cookie].callback_id, change }),
        ),
{
    crate::ordered::finite_set_has_a_listing(m.handlers.dom());
    let cookies = listing_of(m.handlers.dom());
    let handlers = cookies.map_values(|c: u32| m.handlers[c]);
    let resource = m.handlers[cookie].resource;
    a_write_is_told_to_those_who_want_it(m, change, resource, cookies);
    assert(cookies.contains(cookie));
    let i = choose|i: int| 0 <= i < cookies.len() && cookies[i] == cookie;
    lemma_notice(handlers, resource, change, i);
    assert(cookies.len() == m.handlers.dom().len()) by {
        assert(cookies.to_set() =~= m.handlers.dom());
        assert(cookies.no_duplicates());
        cookies.unique_seq_to_set();
    }
    let d = DeliveryModel { callback_id: m.handlers[cookie].callback_id, change };
    let old = queue_of(m.pending, resource);
    let news = notices(handlers, resource, change);
    let k = choose|k: int| 0 <= k < news.len() && news[k] == d;
    let all = old + news;
    assert(all[old.len() + k] == d);
    let out = newest(all, 4096);
    let at = old.len() + k - (all.len() - out.len());
    assert(out[at] == d);
}

/// Nothing is lost as long as there is room: neither a delivery nor a change for the
/// network.
pub proof fn nothing_is_lost_while_there_is_room(m: StateBagModel, change: ChangeModel)
    requires
        bags_wf(m),
        forall|r: Seq<char>| (#[trigger] queue_of(m.pending, r)).len() + m.handlers.dom().len() <= 4096,
        m.replicated.len() < 16384,
    ensures
        after_change(m, change).lost_deliveries == m.lost_deliveries,
        after_change(m, change).lost_changes == m.lost_changes,
{
    crate::ordered::finite_set_has_a_listing(m.handlers.dom());
    let cookies = listing_of(m.handlers.dom());
    assert(cookies.len() == m.handlers.dom().len()) by {
        assert(cookies.to_set() =~= m.handlers.dom());
        assert(cookies.no_duplicates());
        cookies.unique_seq_to_set();
    }
    lemma_none_lost(m.lost_deliveries, m.pending, in_cookie_order(m.handlers), change);
}

proof fn lemma_none_lost(
    lost: u64,
    pending: Map<Seq<char>, Seq<DeliveryModel>>,
    handlers: Seq<HandlerModel>,
    change: ChangeModel,
)
    requires
        forall|r: Seq<char>| (#[trigger] queue_of(pending, r)).len() + handlers.len() <= 4096,
    ensures
        lost_telling(lost, pending, handlers, change) == lost,
    decreases handlers.len(),
{
    if handlers.len() > 0 {
        let front = handlers.drop_last();
        lemma_none_lost(lost, pending, front, change);
        let resource = handlers.last().resource;
        assert(queue_of(pending, resource).len() + handlers.len() <= 4096);
        lemma_told(pending, front, change, resource);
        lemma_notice_count(front, resource, change);
    }
}

/// A handler that finds the queue of its resource full costs the oldest delivery, and that
/// is counted.
pub proof fn a_full_queue_loses_its_oldest(m: StateBagModel, change: ChangeModel, cookie: u32)
    requires
        bags_wf(m),
        m.handlers.dom() == set![cookie],
        wants(m.handlers[cookie], change.bag, change.key),
        queue_of(m.pending, m.handlers[cookie].resource).len() == 4096,
        m.lost_deliveries < u64::MAX,
    ensures
        after_change(m, change).lost_deliveries == m.lost_deliveries + 1,
        queue_of(after_change(m, change).pending, m.handlers[cookie].resource) == queue_of(
            m.pending,
            m.handlers[cookie].resource,
        ).skip(1).push((DeliveryModel { callback_id: m.handlers[cookie].callback_id, change })),
{
    let cookies = seq![cookie];
    assert(lists(cookies, m.handlers.dom())) by {
        assert forall|x: u32| #[trigger] cookies.contains(x) <==> m.handlers.dom().contains(x) by {
            assert(cookies[0] == cookie);
        }
    }
    lemma_is_listing(cookies, m.handlers.dom());
    let handlers = in_cookie_order(m.handlers);
    assert(handlers =~= seq![m.handlers[cookie]]);
    assert(handlers.drop_last() =~= Seq::empty());
    reveal_with_fuel(told, 2);
    reveal_with_fuel(lost_telling, 2);
    let old = queue_of(m.pending, m.handlers[cookie].resource);
    let d = DeliveryModel { callback_id: m.handlers[cookie].callback_id, change };
    assert(queue_of(after_change(m, change).pending, m.handlers[cookie].resource) =~= old.skip(
        1,
    ).push(d));
}

/// A replicated write leaves the unsent changes of other keys in the network queue; only a
/// full queue gives up its oldest one for a key that is not in it, and that is counted.
pub proof fn other_unsent_changes_stay(m: StateBagModel, change: ChangeModel, i: int)
    requires
        bags_wf(m),
        change.replicated,
        0 <= i < m.replicated.len(),
        m.replicated[i].bag != change.bag || m.replicated[i].key != change.key,
    ensures
        m.replicated.len() < 16384 || i > 0 ==> after_change(m, change).replicated.contains(
            m.replicated[i],
        ),
        after_change(m, change).replicated.len() <= 16384,
        m.replicated.len() < 16384 ==> after_change(m, change).lost_changes == m.lost_changes,
{
    let queue = m.replicated;
    let out = after_change(m, change).replicated;
    lemma_slots(queue, change);
    match slot_of(queue, change) {
        Some(s) => {
            if i < s {
                assert(out[i] == queue[i]);
            } else {
                assert(out[i - 1] == queue[i]);
            }
        },
        None => {
            if queue.len() >= 16384 {
                if i > 0 {
                    assert(out[i - 1] == queue[i]);
                }
            } else {
                assert(out[i] == queue[i]);
            }
        },
    }
}

proof fn lemma_slots(queue: Seq<ChangeModel>, change: ChangeModel)
    ensures
        slot_of(queue, change) matches Some(s) ==> 0 <= s < queue.len() && queue[s].bag
            == change.bag && queue[s].key == change.key,
        slot_of(queue, change) is None ==> forall|i: int|
            0 <= i < queue.len() ==> (#[trigger] queue[i]).bag != change.bag || queue[i].key
                != change.key,
    decreases queue.len(),
{
    if queue.len() > 0 {
        lemma_slots(queue.drop_last(), change);
        if slot_of(queue, change) is None {
            assert forall|i: int| 0 <= i < queue.len() implies (#[trigger] queue[i]).bag
                != change.bag || queue[i].key != change.key by {
                if i < queue.len() - 1 {
                    assert(queue.drop_last()[i] == queue[i]);
                }
            }
        }
    }
}

/// A full network queue that does not hold the key loses exactly one change, and counts it.
pub proof fn a_full_network_queue_counts_its_loss(m: StateBagModel, change: ChangeModel)
    requires
        bags_wf(m),
        change.replicated,
        m.replicated.len() == 16384,
        m.lost_changes < u64::MAX,
        forall|i: int|
            0 <= i < m.replicated.len() ==> (#[trigger] m.replicated[i]).bag != change.bag
                || m.replicated[i].key != change.key,
    ensures
        after_change(m, change).replicated == m.replicated.skip(1).push(change),
        after_change(m, change).lost_changes == m.lost_changes + 1,
{
    lemma_slots(m.replicated, change);
}

// --- the natives ---

proof fn lemma_bag_call(
    m: NativesModel,
    name: Seq<char>,
    args: Seq<JsonModel>,
    after: NativesModel,
    value: Option<JsonModel>,
)
    requires
        bag_step(m, name, args) is Some,
        shared_step(m, name, args, after, value),
    ensures
        bag_step(m, name, args) == Some((after, value.unwrap())),
        value is Some,
{
}

proof fn lemma_literals()
    ensures
        "ADD_STATE_BAG_CHANGE_HANDLER"@.len() == 28,
        "ENSURE_ENTITY_STATE_BAG"@.len() == 23,
        "REMOVE_STATE_BAG_CHANGE_HANDLER"@.len() == 31,
        "GET_STATE_BAG_KEYS"@.len() == 18,
        "GET_ENTITY_FROM_STATE_BAG_NAME"@.len() == 30,
        "GET_PLAYER_FROM_STATE_BAG_NAME"@.len() == 30,
        "GET_ENTITY_FROM_STATE_BAG_NAME"@[4] == 'E',
        "GET_PLAYER_FROM_STATE_BAG_NAME"@[4] == 'P',
        "GET_STATE_BAG_VALUE"@.len() == 19,
        "SET_STATE_BAG_VALUE"@.len() == 19,
        "GET_STATE_BAG_VALUE"@[0] == 'G',
        "SET_STATE_BAG_VALUE"@[0] == 'S',
        "STATE_BAG_HAS_KEY"@.len() == 17,
{
    reveal_strlit("ADD_STATE_BAG_CHANGE_HANDLER");
    reveal_strlit("ENSURE_ENTITY_STATE_BAG");
    reveal_strlit("REMOVE_STATE_BAG_CHANGE_HANDLER");
    reveal_strlit("GET_STATE_BAG_KEYS");
    reveal_strlit("GET_ENTITY_FROM_STATE_BAG_NAME");
    reveal_strlit("GET_PLAYER_FROM_STATE_BAG_NAME");
    reveal_strlit("GET_STATE_BAG_VALUE");
    reveal_strlit("STATE_BAG_HAS_KEY");
    reveal_strlit("SET_STATE_BAG_VALUE");
}

/// A script that registers a handler gets a cookie that is not zero. The handler belongs
/// to the script's resource, and filters by the key and the bag that the script gave in
/// this order, where it gave any; the other handlers stay.
pub proof fn a_handler_is_registered_with_its_filters(
    m: NativesModel,
    key: Seq<char>,
    bag: Seq<char>,
    callback: u64,
    after: NativesModel,
    value: Option<JsonModel>,
)
    requires
        callback <= u32::MAX,
        shared_step(
            m,
            "ADD_STATE_BAG_CHANGE_HANDLER"@,
            seq![JsonModel::Text(key), JsonModel::Text(bag), JsonModel::Unsigned(callback)],
            after,
            value,
        ),
    ensures
        ({
            let cookie = after.bags.cookie;
            let handler = after.bags.handlers[cookie];
            &&& value == Some(JsonModel::Unsigned(cookie as u64))
            &&& cookie != 0
            &&& cookie != m.bags.cookie
            &&& after.bags.handlers.contains_key(cookie)
            &&& handler.resource == m.resource
            &&& handler.callback_id == callback
            &&& key.len() == 0 ==> handler.key_filter is None
            &&& key.len() > 0 ==> handler.key_filter == Some(key)
            &&& bag.len() == 0 ==> handler.bag_filter is None
            &&& bag.len() > 0 ==> handler.bag_filter == Some(bag)
            &&& after.bags.handlers.remove(cookie) == m.bags.handlers.remove(cookie)
            &&& after.bags.bags == m.bags.bags
            &&& after.bags.pending == m.bags.pending
            &&& after.bags.replicated == m.bags.replicated
        }),
{
    lemma_literals();
    let args = seq![JsonModel::Text(key), JsonModel::Text(bag), JsonModel::Unsigned(callback)];
    lemma_bag_call(m, "ADD_STATE_BAG_CHANGE_HANDLER"@, args, after, value);
    assert((callback as i64) as u32 == callback as u32) by (bit_vector)
        requires
            callback <= u32::MAX,
    ;
    let cookie = after.bags.cookie;
    assert(after.bags.handlers.remove(cookie) =~= m.bags.handlers.remove(cookie));
}

/// A script takes back only its own handlers.
pub proof fn only_its_own_handler_is_removed(
    m: NativesModel,
    cookie: u32,
    after: NativesModel,
    value: Option<JsonModel>,
)
    requires
        shared_step(
            m,
            "REMOVE_STATE_BAG_CHANGE_HANDLER"@,
            seq![JsonModel::Unsigned(cookie as u64)],
            after,
            value,
        ),
    ensures
        m.bags.handlers.contains_key(cookie) && m.bags.handlers[cookie].resource == m.resource
            ==> after.bags.handlers == m.bags.handlers.remove(cookie),
        !m.bags.handlers.contains_key(cookie) || m.bags.handlers[cookie].resource != m.resource
            ==> after.bags.handlers == m.bags.handlers,
        after.bags.bags == m.bags.bags,
        after.bags.pending == m.bags.pending,
{
    lemma_literals();
    let args = seq![JsonModel::Unsigned(cookie as u64)];
    lemma_bag_call(m, "REMOVE_STATE_BAG_CHANGE_HANDLER"@, args, after, value);
    assert(((cookie as u64) as i64) as u32 == cookie) by (bit_vector);
}

/// A script's write goes to the bag and the key that it names, with the value that it
/// gives; it goes out to the network only where the fifth argument says so, in the name of
/// the script's resource, and every other key of every bag keeps its value.
pub proof fn a_script_writes_where_it_says(
    m: NativesModel,
    bag: Seq<char>,
    key: Seq<char>,
    written: JsonModel,
    length: JsonModel,
    replicated: bool,
    after: NativesModel,
    value: Option<JsonModel>,
    other_bag: Seq<char>,
    other_key: Seq<char>,
)
    requires
        bags_wf(m.bags),
        shared_step(
            m,
            "SET_STATE_BAG_VALUE"@,
            seq![
                JsonModel::Text(bag),
                JsonModel::Text(key),
                written,
                length,
                JsonModel::Bool(replicated),
            ],
            after,
            value,
        ),
    ensures
        value == Some(JsonModel::Null),
        after.bags.bags.contains_key(bag),
        after.bags.bags[bag].contains_key(key),
        after.bags.bags[bag][key].0 == written,
        m.bags.version < u64::MAX ==> after.bags.bags[bag][key].1 > m.bags.version,
        other_bag != bag || other_key != key ==> value_of(after.bags, other_bag, other_key)
            == value_of(m.bags, other_bag, other_key),
        replicated ==> after.bags.replicated.len() > 0 && after.bags.replicated.last().bag == bag
            && after.bags.replicated.last().key == key && after.bags.replicated.last().value
            == written && after.bags.replicated.last().source.resource == Some(m.resource)
            && after.bags.replicated.last().source.player is None,
        !replicated ==> after.bags.replicated == m.bags.replicated,
        after.bags.handlers == m.bags.handlers,
{
    lemma_literals();
    let args = seq![
        JsonModel::Text(bag),
        JsonModel::Text(key),
        written,
        length,
        JsonModel::Bool(replicated),
    ];
    lemma_bag_call(m, "SET_STATE_BAG_VALUE"@, args, after, value);
    let change = change_of(
        m.bags,
        bag,
        key,
        written,
        replicated,
        SourceModel { resource: Some(m.resource), player: None },
    );
    assert(after.bags == after_change(m.bags, change));
    lemma_slots(m.bags.replicated, change);
}

/// A bag has the keys that were written to it, and no others; making sure that an entity
/// has a bag writes none.
pub proof fn a_bag_has_the_keys_that_were_written(
    m: NativesModel,
    bag: Seq<char>,
    key: Seq<char>,
    after: NativesModel,
    value: Option<JsonModel>,
)
    requires
        shared_step(
            m,
            "STATE_BAG_HAS_KEY"@,
            seq![JsonModel::Text(bag), JsonModel::Text(key)],
            after,
            value,
        ),
    ensures
        after == m,
        value == Some(
            JsonModel::Bool(
                m.bags.bags.contains_key(bag) && m.bags.bags[bag].contains_key(key),
            ),
        ),
{
    lemma_literals();
    let args = seq![JsonModel::Text(bag), JsonModel::Text(key)];
    lemma_bag_call(m, "STATE_BAG_HAS_KEY"@, args, after, value);
}

/// A read gives the value of the key that is named, and null where there is none.
pub proof fn a_read_gives_the_value_of_its_key(
    m: NativesModel,
    bag: Seq<char>,
    key: Seq<char>,
    after: NativesModel,
    value: Option<JsonModel>,
)
    requires
        shared_step(
            m,
            "GET_STATE_BAG_VALUE"@,
            seq![JsonModel::Text(bag), JsonModel::Text(key)],
            after,
            value,
        ),
    ensures
        after == m,
        m.bags.bags.contains_key(bag) && m.bags.bags[bag].contains_key(key) ==> value == Some(
            m.bags.bags[bag][key].0,
        ),
        !(m.bags.bags.contains_key(bag) && m.bags.bags[bag].contains_key(key)) ==> value == Some(
            JsonModel::Null,
        ),
{
    lemma_literals();
    let args = seq![JsonModel::Text(bag), JsonModel::Text(key)];
    lemma_bag_call(m, "GET_STATE_BAG_VALUE"@, args, after, value);
}

/// The bag of an entity is called `entity:` and its number, that of a player `player:` and
/// its number; a script that asks whose bag it is gets the number, and zero of the other.
pub proof fn bags_are_named_after_their_owners(
    m: NativesModel,
    id: u32,
    player: bool,
    asks_player: bool,
    after: NativesModel,
    value: Option<JsonModel>,
)
    requires
        shared_step(
            m,
            if asks_player {
                "GET_PLAYER_FROM_STATE_BAG_NAME"@
            } else {
                "GET_ENTITY_FROM_STATE_BAG_NAME"@
            },
            seq![
                JsonModel::Text(
                    (if player {
                        "player:"@
                    } else {
                        "entity:"@
                    }) + decimal(id as nat),
                ),
            ],
            after,
            value,
        ),
    ensures
        after == m,
        value == Some(
            JsonModel::Unsigned(
                if player == asks_player {
                    id as u64
                } else {
                    0
                },
            ),
        ),
{
    lemma_literals();
    let prefix = if player {
        "player:"@
    } else {
        "entity:"@
    };
    let args = seq![JsonModel::Text(prefix + decimal(id as nat))];
    assert(prefix + decimal(id as nat) == bag_name(prefix, id));
    let name = if asks_player {
        "GET_PLAYER_FROM_STATE_BAG_NAME"@
    } else {
        "GET_ENTITY_FROM_STATE_BAG_NAME"@
    };
    bag_name_reads_back(prefix, id);
    crate::state_bag::entity_and_player_bags_differ(id);
    lemma_bag_call(m, name, args, after, value);
}

/// Making sure that an entity has a bag makes an empty one where there is none, and
/// changes no value.
pub proof fn an_entity_bag_is_made_empty(
    m: NativesModel,
    id: u32,
    after: NativesModel,
    value: Option<JsonModel>,
    bag: Seq<char>,
    key: Seq<char>,
)
    requires
        shared_step(
            m,
            "ENSURE_ENTITY_STATE_BAG"@,
            seq![JsonModel::Unsigned(id as u64)],
            after,
            value,
        ),
    ensures
        after.bags.bags.contains_key("entity:"@ + decimal(id as nat)),
        value_of(after.bags, bag, key) == value_of(m.bags, bag, key),
        after.bags.version == m.bags.version,
        after.bags.replicated == m.bags.replicated,
        after.bags.pending == m.bags.pending,
{
    lemma_literals();
    lemma_bag_call(
        m,
        "ENSURE_ENTITY_STATE_BAG"@,
        seq![JsonModel::Unsigned(id as u64)],
        after,
        value,
    );
}

} // verus!
