//! What one call leaves for the next to find in the runtimes: their events and commands,
//! their state bags, their watchdog, and what the host does around them.
use crate::bindings::player_from_index;
use crate::client_calls::{Arrival, ClientCalls, PendingClientNative};
use crate::error::{ErrorModel, ScriptError};
use crate::host::{CallbackRounds, ChainStep, EventChain, ScriptHost};
use crate::json::{json_array, json_quoted, models, Json};
use crate::named::precedes;
use crate::native_state::RuntimeContext;
use crate::natives::{Natives, NativesModel};
use crate::net_bridge::{EventTarget, OutboundModel};
use crate::observability::{
    after_dispatch, after_roundtrip, DispatchMeasurement, Moment, ObsModel, Observability,
    ProfilerRecordOptions, ProfilerStatus, RoundtripModel,
};
use crate::resource_control::ResourceControl;
use crate::routing::RoutingControl;
use crate::rpc::{sorted_by_name, RpcNative, RpcTable, SkipReason};
use crate::runtime::{
    db_collected, db_params, db_submitted, delivers, finish_dispatch, finish_load, idle_ms,
    rejected, settle, DISPATCH_BUDGET_MS, DispatchRun, PromiseOutcome, Settled, Watchdog,
};
use crate::state_bag::{
    change_models, entity_from_state_bag_name, entity_state_bag_name, player_from_state_bag_name,
    player_state_bag_name, StateBagChange, StateBagDelivery, StateBagSource, StateBagStore,
};
use crate::text::decimal;
use vstd::prelude::*;

verus! {

// --- events and commands of a runtime ---

/// The events that a script triggers come out once, in order, with their arguments.
pub proof fn triggered_events_come_out_in_order(
    event: String,
    args: String,
    events: Vec<(String, String)>,
)
    ensures
        forall|c: &mut RuntimeContext| #[trigger]
            call_ensures(RuntimeContext::trigger_event, (c, event, args), ()) ==> (
            *final(c))@.queued == (*c)@.queued.push((event@, args@)) && (*final(c))@.handled == (
            *c)@.handled && (*final(c))@.commands == (*c)@.commands,
        forall|c: &mut RuntimeContext| #[trigger]
            call_ensures(RuntimeContext::drain_queued_events, (c,), events) ==> (
            *final(c))@.queued.len() == 0 && events@.len() == (*c)@.queued.len() && forall|i: int|
                #![trigger events@[i]]
                0 <= i < events@.len() ==> (events@[i].0@, events@[i].1@) == (*c)@.queued[i],
{
    assert forall|c: &mut RuntimeContext| #[trigger]
        call_ensures(RuntimeContext::drain_queued_events, (c,), events) implies events@.len() == (
    *c)@.queued.len() && forall|i: int|
        #![trigger events@[i]]
        0 <= i < events@.len() ==> (events@[i].0@, events@[i].1@) == (*c)@.queued[i] by {
        let models = crate::native_state::event_models(events@);
        assert(models.len() == events@.len());
        assert forall|i: int|
            #![trigger events@[i]]
            0 <= i < events@.len() implies (events@[i].0@, events@[i].1@) == (*c)@.queued[i] by {
            assert(models[i] == (events@[i].0@, events@[i].1@));
        }
    }
}

/// What a script registers is registered, under its name, and nothing else is.
pub proof fn a_runtime_knows_what_was_registered(
    name: String,
    same: &str,
    restricted: bool,
    other: Seq<char>,
    yes: bool,
)
    requires
        name@ == same@,
    ensures
        forall|c: &mut RuntimeContext| #[trigger]
            call_ensures(RuntimeContext::add_event_handler, (c, name), ()) ==> {
                &&& call_ensures(RuntimeContext::has_handler, (&*final(c), same), yes) ==> yes
                &&& other != name@ ==> ((*final(c))@.handled.contains(other) <==> (
                *c)@.handled.contains(other))
                &&& (*final(c))@.commands == (*c)@.commands && (*final(c))@.exports == (*c)@.exports
            },
        forall|c: &mut RuntimeContext| #[trigger]
            call_ensures(RuntimeContext::register_command, (c, name, restricted), ()) ==> {
                &&& call_ensures(RuntimeContext::owns_command, (&*final(c), same), yes) ==> yes
                &&& (*final(c))@.commands[name@] == restricted
                &&& other != name@ ==> ((*final(c))@.commands.contains_key(other) <==> (
                *c)@.commands.contains_key(other))
                &&& (*final(c))@.handled == (*c)@.handled
            },
        forall|c: &mut RuntimeContext| #[trigger]
            call_ensures(RuntimeContext::add_export, (c, name), ()) ==> {
                &&& (*final(c))@.exports.contains(name@)
                &&& other != name@ ==> ((*final(c))@.exports.contains(other) <==> (
                *c)@.exports.contains(other))
            },
{
}

/// The state that a script hands over for a transfer is the one it last reported since the
/// transfer began, and is taken once. Only a script that registered for it is asked.
pub proof fn a_transfer_takes_what_was_last_reported(
    json: String,
    registered: bool,
    taken: Option<String>,
)
    ensures
        forall|c: &mut RuntimeContext| #[trigger]
            call_ensures(RuntimeContext::register_zone_transfer_state, (c,), ()) ==> (
            *final(c))@.transfers,
        forall|c: &mut RuntimeContext| #[trigger]
            call_ensures(RuntimeContext::begin_zone_transfer, (c,), registered) ==> {
                &&& registered == (*c)@.transfers
                &&& registered ==> (*final(c))@.collected is None
                &&& !registered ==> (*final(c))@ == (*c)@
            },
        forall|c: &mut RuntimeContext| #[trigger]
            call_ensures(RuntimeContext::report_zone_transfer_state, (c, json), ()) ==> (
            *final(c))@.collected == Some(json@),
        forall|c: &mut RuntimeContext| #[trigger]
            call_ensures(RuntimeContext::take_zone_transfer, (c,), taken) ==> {
                &&& (*c)@.collected is Some ==> taken is Some && taken->0@ == (*c)@.collected->0
                &&& (*c)@.collected is None ==> taken is None
                &&& (*final(c))@.collected is None
            },
{
}

/// The game timer starts with the host and wraps round; errors of handlers are counted.
pub proof fn timer_and_errors_count_up(c: RuntimeContext, now_ms: u64, timer: u32)
    ensures
        call_ensures(RuntimeContext::game_timer, (&c, now_ms), timer) && now_ms
            >= c@.host_started_ms ==> timer == (now_ms - c@.host_started_ms) % 0x1_0000_0000,
        forall|c: &mut RuntimeContext| #[trigger]
            call_ensures(RuntimeContext::report_handler_error, (c,), ()) && (*c)@.handler_errors
                < u64::MAX ==> (*final(c))@.handler_errors == (*c)@.handler_errors + 1,
{
}

// --- the watchdog ---

/// An armed watchdog interrupts once its budget is used up and not before, then is disarmed
/// and remembers that it fired until it is asked. A disarmed one never interrupts.
pub proof fn an_armed_watchdog_fires_once(now_ms: u64, later_ms: u64, yes: bool, fired: bool)
    ensures
        forall|w: &mut Watchdog| #[trigger]
            call_ensures(Watchdog::arm, (w, now_ms), ()) && 0 < now_ms + (*w).budget_ms <= u64::MAX
                ==> (*final(w)).deadline_ms == now_ms + (*w).budget_ms && !(*final(w)).fired && (
            *final(w)).budget_ms == (*w).budget_ms,
        forall|w: &mut Watchdog| #[trigger]
            call_ensures(Watchdog::interrupts, (w, later_ms), yes) ==> {
                &&& yes <==> (*w).deadline_ms != 0 && later_ms >= (*w).deadline_ms
                &&& yes ==> (*final(w)).fired && (*final(w)).deadline_ms == 0
                &&& !yes ==> *final(w) == *w
            },
        forall|w: &mut Watchdog| #[trigger]
            call_ensures(Watchdog::disarm, (w,), ()) ==> (*final(w)).deadline_ms == 0 && (
            *final(w)).fired == (*w).fired && (*final(w)).budget_ms == (*w).budget_ms,
        forall|w: &mut Watchdog| #[trigger]
            call_ensures(Watchdog::took_fired, (w,), fired) ==> fired == (*w).fired && !(
            *final(w)).fired && (*final(w)).deadline_ms == (*w).deadline_ms,
{
}

/// A dispatch with the usual budget is interrupted ten seconds after it began, and not a
/// millisecond before.
pub proof fn the_usual_budget_is_ten_seconds(now_ms: u64, later_ms: u64, yes: bool)
    requires
        now_ms <= u64::MAX - 10_000,
    ensures
        forall|w: &mut Watchdog, v: &mut Watchdog|
            #![trigger call_ensures(Watchdog::arm, (w, now_ms), ()), call_ensures(Watchdog::interrupts, (v, later_ms), yes)]
            call_ensures(Watchdog::arm, (w, now_ms), ()) && (*w).budget_ms == DISPATCH_BUDGET_MS
                && *v == *final(w) && call_ensures(Watchdog::interrupts, (v, later_ms), yes) ==> (
            yes <==> later_ms >= now_ms + 10_000),
{
}

// --- what a dispatch comes to ---

/// An event without a source goes to every runtime, one with a source only to those that
/// take events from the network. A runtime that has nothing to do sleeps between one and
/// fifty milliseconds.
pub proof fn dispatches_are_delivered_and_idled(
    source: Option<u32>,
    accepts: bool,
    yes: bool,
    asked: Option<i64>,
    ms: u64,
)
    ensures
        call_ensures(delivers, (source, accepts), yes) ==> yes == (source is None || accepts),
        call_ensures(idle_ms, (asked,), ms) ==> {
            &&& 1 <= ms <= 50
            &&& asked is None ==> ms == 50
            &&& asked is Some && 1 <= asked->0 <= 50 ==> ms == asked->0
            &&& asked is Some && asked->0 < 1 ==> ms == 1
            &&& asked is Some && asked->0 > 50 ==> ms == 50
        },
{
}

/// A dispatch is settled when its promise is, or when the event loop has been idle since; a
/// rejection fails it, under the name that rejections have.
pub proof fn a_dispatch_is_settled(
    message: String,
    idle: u64,
    since: u64,
    settled: Settled,
    resource: &str,
    error: ScriptError,
)
    ensures
        call_ensures(settle, (PromiseOutcome::Fulfilled, idle, since), settled) ==> settled
            is Finished,
        call_ensures(settle, (PromiseOutcome::Rejected(message), idle, since), settled)
            ==> settled is Failed && settled->Failed_0@ == message@,
        call_ensures(settle, (PromiseOutcome::Pending, idle, since), settled) ==> (settled
            is Finished <==> idle > since) && (settled is Wait <==> idle <= since),
        call_ensures(rejected, (resource, message), error) ==> error@ == (ErrorModel::Execute {
            resource: resource@,
            script: "<dispatch>"@,
            message: message@,
        }),
{
}

/// The measurement of a run says how long it took, of which resource and handler, and
/// whether it failed.
pub open spec fn tells_of(
    d: DispatchMeasurement,
    resource: Seq<char>,
    name: Seq<char>,
    run: DispatchRun,
    errored: bool,
) -> bool {
    &&& d.resource@ == resource && d.name@ == name && d.kind == run.kind
    &&& d.total_us == run.elapsed_us && d.execute_us == run.elapsed_us && d.event_loop_us == 0
    &&& d.errored == errored && d.watchdog_fired == run.watchdog_fired
    &&& d.source == run.source && d.memory is None && d.zone is None
}

/// One measurement of the run was put into the books.
pub open spec fn booked_once(
    before: ObsModel,
    after: ObsModel,
    resource: Seq<char>,
    name: Seq<char>,
    run: DispatchRun,
    errored: bool,
) -> bool {
    exists|d: DispatchMeasurement| #[trigger]
        tells_of(d, resource, name, run, errored) && after == after_dispatch(before, d, run.at)
}

/// A dispatch that ran is booked once, as failed if a handler threw or the watchdog ended
/// it; one that could not run at all fails under its own name and is not booked.
pub proof fn a_dispatch_is_booked_if_it_ran(
    resource: &str,
    name: &str,
    errors: u32,
    message: String,
    run: DispatchRun,
    result: Result<(), ScriptError>,
)
    ensures
        forall|o: &mut Observability| #[trigger]
            call_ensures(finish_dispatch, (o, resource, name, Ok(errors), run), result) ==> {
                &&& result is Ok
                &&& booked_once(
                    (*o)@,
                    (*final(o))@,
                    resource@,
                    name@,
                    run,
                    errors > 0 || run.watchdog_fired,
                )
            },
        forall|o: &mut Observability| #[trigger]
            call_ensures(finish_dispatch, (o, resource, name, Err(message), run), result) ==> {
                &&& result is Err && result->Err_0@ == (ErrorModel::Execute {
                    resource: resource@,
                    script: name@,
                    message: message@,
                })
                &&& (*final(o))@ == (*o)@
            },
{
    assert forall|o: &mut Observability| #[trigger]
        call_ensures(finish_dispatch, (o, resource, name, Ok(errors), run), result) implies booked_once(
        (*o)@,
        (*final(o))@,
        resource@,
        name@,
        run,
        errors > 0 || run.watchdog_fired,
    ) by {
        let errored = errors > 0 || run.watchdog_fired;
        let d = choose|d: DispatchMeasurement| #[trigger]
            crate::runtime::measures(
                d,
                resource@,
                run.kind,
                name@,
                run.elapsed_us,
                errored,
                run.watchdog_fired,
                run.source,
            ) && (*final(o))@ == after_dispatch((*o)@, d, run.at);
        assert(tells_of(d, resource@, name@, run, errored));
    }
}

// --- the database ---

/// A query without readable parameters has none; it is refused with the reason, or with a
/// hint where there is no database; and its result is collected as it is, or as an error.
pub proof fn a_query_is_submitted_and_collected(
    text: &str,
    params: Vec<Json>,
    id: u64,
    message: String,
    answer: (Option<u64>, Option<String>),
    value: String,
    collected: (bool, String),
)
    ensures
        call_ensures(db_params, (text,), params) ==> models(params@) == match json_array(text@) {
            Ok(items) => items,
            Err(_) => Seq::empty(),
        },
        call_ensures(db_submitted, (Some(Ok(id)),), answer) ==> answer.0 == Some(id) && answer.1
            is None,
        call_ensures(db_submitted, (Some(Err(message)),), answer) ==> answer.0 is None && answer.1
            is Some && answer.1->0@ == message@,
        call_ensures(db_submitted, (None::<Result<u64, String>>,), answer) ==> answer.0 is None
            && answer.1 is Some && answer.1->0@
            == "the db module is disabled — add \"db\" to [modules] enable"@,
        call_ensures(db_collected, (Some(None::<Result<String, String>>),), collected)
            ==> !collected.0 && collected.1@.len() == 0,
        call_ensures(db_collected, (Some(Some(Ok::<String, String>(value))),), collected)
            ==> collected.0 && collected.1@ == value@,
        call_ensures(db_collected, (Some(Some(Err::<String, String>(message))),), collected)
            ==> collected.0 && collected.1@ == "{\"__error\":"@ + json_quoted(message@) + "}"@,
        call_ensures(db_collected, (None::<Option<Result<String, String>>>,), collected)
            ==> collected.0 && collected.1@ == "{\"__error\":"@ + json_quoted(
            "db module disabled"@,
        ) + "}"@,
{
}

// --- chains of events ---

/// A chain begins with its event and hands it out first; callbacks that wait are run for 64
/// rounds at most.
pub proof fn a_chain_begins_with_its_event(
    event: String,
    args: String,
    publish: bool,
    chain: EventChain,
    step: Option<ChainStep>,
    pending: usize,
    due: bool,
)
    ensures
        call_ensures(EventChain::new, (event, args, publish), chain) ==> chain@.pending == seq![
            (event@, args@),
        ] && chain@.dispatched == 0 && chain@.publish_entry == publish,
        forall|c: &mut EventChain| #[trigger]
            call_ensures(EventChain::next, (c,), step) ==> {
                &&& step is None <==> (*c)@.pending.len() == 0
                &&& step is Some ==> step->0.event@ == (*c)@.pending[0].0 && step->0.args_json@ == (
                *c)@.pending[0].1 && step->0.dispatch == ((*c)@.dispatched < 64) && (
                *final(c))@.dispatched == (*c)@.dispatched + 1
            },
        forall|r: &mut CallbackRounds| #[trigger]
            call_ensures(CallbackRounds::another, (r, pending), due) ==> {
                &&& due <==> pending != 0 && (*r).done() < 64
                &&& due ==> (*final(r)).done() == (*r).done() + 1
                &&& !due ==> (*final(r)).done() == (*r).done()
            },
{
}

// --- state bags ---

/// A value that was set is read back, under the next version, and the bag and the key that
/// hold it are the only ones that change.
pub proof fn a_bag_gives_back_what_was_set(
    bag: &str,
    key: &str,
    value: Json,
    replicated: bool,
    source: StateBagSource,
    change: StateBagChange,
    read: Option<Json>,
    other: Seq<char>,
)
    ensures
        forall|b: &mut StateBagStore| #[trigger]
            call_ensures(StateBagStore::set, (b, bag, key, value, replicated, source), change) ==> {
                &&& call_ensures(StateBagStore::get, (&*final(b), bag, key), read) ==> read is Some
                    && read->0@ == value@
                &&& (*b)@.version < u64::MAX ==> change.version == (*b)@.version + 1
                &&& change.bag@ == bag@ && change.key@ == key@ && change.value@ == value@
                    && change.replicated == replicated && change.source@ == source@
                &&& (*final(b))@.version == change.version
                &&& other != bag@ ==> (*final(b))@.bags[other] == (*b)@.bags[other]
                &&& other != key@ && (*b)@.bags.contains_key(bag@) ==> (*final(b))@.bags[bag@][other]
                    == (*b)@.bags[bag@][other]
                &&& !replicated ==> (*final(b))@.replicated == (*b)@.replicated
                &&& (*final(b))@.handlers == (*b)@.handlers
            },
        forall|b: &mut StateBagStore| #[trigger]
            call_ensures(StateBagStore::remove_bag, (b, bag), ()) ==> {
                &&& call_ensures(StateBagStore::get, (&*final(b), bag, key), read) ==> read is None
                &&& other != bag@ ==> (*final(b))@.bags[other] == (*b)@.bags[other]
            },
{
}

/// A handler is known by the cookie that it got; an empty filter is none; and only its own
/// resource can remove it.
pub proof fn a_handler_is_known_by_its_cookie(
    resource: &str,
    key: String,
    callback: u32,
    cookie: u32,
    removed: bool,
    other: u32,
)
    ensures
        forall|b: &mut StateBagStore| #[trigger]
            call_ensures(
                StateBagStore::add_handler,
                (b, resource, Some(key), None::<String>, callback),
                cookie,
            ) ==> {
                let handler = (*final(b))@.handlers[cookie];
                &&& (*b)@.cookie < u32::MAX ==> cookie == (*b)@.cookie + 1
                &&& (*b)@.cookie == u32::MAX ==> cookie == 1
                &&& (*final(b))@.handlers.contains_key(cookie)
                &&& handler.resource == resource@ && handler.callback_id == callback
                &&& key@.len() > 0 ==> handler.key_filter == Some(key@)
                &&& key@.len() == 0 ==> handler.key_filter is None
                &&& handler.bag_filter is None
                &&& other != cookie ==> (*final(b))@.handlers[other] == (*b)@.handlers[other]
            },
        forall|b: &mut StateBagStore| #[trigger]
            call_ensures(StateBagStore::remove_handler, (b, resource, cookie), removed) ==> {
                let own = (*b)@.handlers.contains_key(cookie) && (*b)@.handlers[cookie].resource
                    == resource@;
                &&& removed <==> own
                &&& own ==> !(*final(b))@.handlers.contains_key(cookie)
                &&& !own ==> (*final(b))@ == (*b)@
                &&& other != cookie ==> ((*final(b))@.handlers.contains_key(other) <==> (
                *b)@.handlers.contains_key(other))
            },
{
}

/// What waits for a resource comes out oldest first, as much as was asked for; the rest
/// keeps waiting, and so does what waits for others. The same holds of what waits for the
/// network.
pub proof fn what_waits_comes_out_oldest_first(
    resource: &str,
    limit: usize,
    deliveries: Vec<StateBagDelivery>,
    changes: Vec<StateBagChange>,
    other: Seq<char>,
)
    ensures
        forall|b: &mut StateBagStore| #[trigger]
            call_ensures(StateBagStore::drain_deliveries, (b, resource, limit), deliveries) && (
            *b)@.pending.contains_key(resource@) ==> {
                let queue = (*b)@.pending[resource@];
                let got = deliveries@.map_values(|d: StateBagDelivery| d@);
                &&& limit >= queue.len() ==> got == queue && !(*final(b))@.pending.contains_key(
                    resource@,
                )
                &&& limit < queue.len() ==> got.len() == limit && got + (
                *final(b))@.pending[resource@] == queue
                &&& other != resource@ ==> (*final(b))@.pending[other] == (*b)@.pending[other]
            },
        forall|b: &mut StateBagStore| #[trigger]
            call_ensures(StateBagStore::drain_replicated, (b, limit), changes) ==> {
                let queue = (*b)@.replicated;
                &&& change_models(changes@) + (*final(b))@.replicated == queue
                &&& limit >= queue.len() ==> (*final(b))@.replicated.len() == 0
                &&& limit < queue.len() ==> changes@.len() == limit
            },
{
    assert forall|b: &mut StateBagStore| #[trigger]
        call_ensures(StateBagStore::drain_deliveries, (b, resource, limit), deliveries) && (
    *b)@.pending.contains_key(resource@) implies {
        let queue = (*b)@.pending[resource@];
        let got = deliveries@.map_values(|d: StateBagDelivery| d@);
        &&& limit >= queue.len() ==> got == queue
        &&& limit < queue.len() ==> got.len() == limit && got + (*final(b))@.pending[resource@]
            == queue
    } by {
        let queue = (*b)@.pending[resource@];
        if limit < queue.len() {
            assert(queue.take(limit as int) + queue.skip(limit as int) =~= queue);
        } else {
            assert(queue.take(queue.len() as int) =~= queue);
        }
    }
    assert forall|b: &mut StateBagStore| #[trigger]
        call_ensures(StateBagStore::drain_replicated, (b, limit), changes) implies {
        let queue = (*b)@.replicated;
        &&& change_models(changes@) + (*final(b))@.replicated == queue
        &&& limit < queue.len() ==> changes@.len() == limit
    } by {
        let queue = (*b)@.replicated;
        assert(change_models(changes@).len() == changes@.len());
        if limit < queue.len() {
            assert(queue.take(limit as int) + queue.skip(limit as int) =~= queue);
        } else {
            assert(queue.take(queue.len() as int) + queue.skip(queue.len() as int) =~= queue);
        }
    }
}

/// The bag of an entity or a player is named after it, and its name leads back to it.
pub proof fn a_bag_name_leads_back(id: u32, name: String, same: &str, found: Option<u32>)
    requires
        name@ == same@,
    ensures
        call_ensures(entity_state_bag_name, (id,), name) ==> name@ == "entity:"@ + decimal(
            id as nat,
        ) && (call_ensures(entity_from_state_bag_name, (same,), found) ==> found == Some(id)),
        call_ensures(player_state_bag_name, (id,), name) ==> name@ == "player:"@ + decimal(
            id as nat,
        ) && (call_ensures(player_from_state_bag_name, (same,), found) ==> found == Some(id)),
{
    crate::state_bag::bag_name_reads_back("entity:"@, id);
    crate::state_bag::bag_name_reads_back("player:"@, id);
}

// --- the host ---

/// A resource is loaded from when its runtimes are there to when it is unloaded; only a
/// loaded one can be unloaded.
pub proof fn a_resource_is_loaded_until_unloaded<R: RoutingControl, C: ResourceControl>(
    name: &str,
    other: Seq<char>,
    yes: bool,
    host: ScriptHost<R, C>,
    outcome: Result<(), ScriptError>,
)
    ensures
        forall|h: &mut ScriptHost<R, C>| #[trigger]
            call_ensures(ScriptHost::<R, C>::resource_loaded, (h, name), ()) ==> {
                &&& call_ensures(ScriptHost::<R, C>::is_loaded, (&*final(h), name), yes) ==> yes
                &&& other != name@ ==> ((*final(h))@.runtimes.contains(other) <==> (
                *h)@.runtimes.contains(other))
                &&& (*final(h))@.natives == (*h)@.natives
            },
        forall|h: &mut ScriptHost<R, C>| #[trigger]
            call_ensures(ScriptHost::<R, C>::resource_unloaded, (h, name), ()) ==> {
                &&& call_ensures(ScriptHost::<R, C>::is_loaded, (&*final(h), name), yes) ==> !yes
                &&& other != name@ ==> ((*final(h))@.runtimes.contains(other) <==> (
                *h)@.runtimes.contains(other))
            },
        call_ensures(ScriptHost::<R, C>::unload_resource, (&host, name), outcome) ==> {
            &&& outcome is Ok <==> host@.runtimes.contains(name@)
            &&& outcome is Err ==> outcome->Err_0@ == ErrorModel::ResourceNotLoaded(name@)
        },
{
}

/// What a script prints goes to the console under its resource, with tabs between the
/// parts; what it sends to a client goes out under the event's name, to whom it says.
pub proof fn a_script_prints_and_sends<R: RoutingControl, C: ResourceControl>(
    event: String,
    target: i64,
    args: String,
    sent: bool,
    resource: &str,
)
    ensures
        forall|n: &mut Natives<R, C>| #[trigger]
            call_ensures(Natives::<R, C>::trigger_client_event, (n, event, target, args), sent)
                ==> {
                let room = (*n)@.net.open && (*n)@.net.queue.len() < 2048;
                &&& sent <==> room
                &&& room && 0 <= target <= 0xffff_ffff ==> (*final(n))@.net.queue == (
                *n)@.net.queue.push(
                    OutboundModel::ClientEvent {
                        target: EventTarget::One(target as u32),
                        event: event@,
                        args_json: args@,
                    },
                )
                &&& room && target < 0 ==> (*final(n))@.net.queue == (*n)@.net.queue.push(
                    OutboundModel::ClientEvent {
                        target: EventTarget::All,
                        event: event@,
                        args_json: args@,
                    },
                )
                &&& !room ==> (*final(n))@ == (*n)@
            },
        forall|n: &mut Natives<R, C>| #[trigger]
            call_ensures(Natives::<R, C>::act_for, (n, resource), ()) ==> (*final(n))@.resource
                == resource@ && (*final(n))@.effects == (*n)@.effects && (*final(n))@.kvp == (
            *n)@.kvp,
{
}

/// A player is found by its place in the list, and nobody behind its end.
pub proof fn players_are_counted_from_zero(sources: Vec<u32>, index: u32, source: u32)
    requires
        call_ensures(player_from_index, (&sources, index), source),
    ensures
        index < sources@.len() ==> source == sources@[index as int],
        index >= sources@.len() ==> source == 0,
{
}

/// The reasons why a call stays on the server have names of their own.
pub proof fn reasons_have_names(label: &'static str)
    ensures
        call_ensures(SkipReason::as_str, (SkipReason::NoOwner,), label) ==> label@ == "no_owner"@,
        call_ensures(SkipReason::as_str, (SkipReason::NoTarget,), label) ==> label@ == "no_target"@,
        call_ensures(SkipReason::as_str, (SkipReason::UnsupportedContext,), label) ==> label@
            == "unsupported_context"@,
        call_ensures(SkipReason::as_str, (SkipReason::BadArity,), label) ==> label@ == "bad_arity"@,
        call_ensures(SkipReason::as_str, (SkipReason::BridgeFull,), label) ==> label@
            == "bridge_full"@,
{
}

// --- calls that are polled for ---

/// A call that is waited for is known by its number until it is answered, nobody can answer
/// it, or a second has passed; then it is booked once, as a failure unless it was answered.
pub proof fn a_polled_call_is_booked_once(
    id: u64,
    call: PendingClientNative,
    other: u64,
)
    ensures
        forall|c: &mut ClientCalls| #[trigger]
            call_ensures(ClientCalls::wait_for, (c, id, call), ()) ==> (*final(c))@.contains_key(id)
                && (*final(c))@[id] == call && (other != id ==> (*final(c))@[other] == (*c)@[other]),
{
}

/// A polled call that is over is forgotten and booked once, with the time it took, as timed
/// out and failed unless it was answered; one that is not over is left alone.
pub proof fn a_polled_call_is_booked_when_over(
    resource: &str,
    id: u64,
    arrival: Arrival,
    at: Moment,
    answer: Option<String>,
)
    ensures
        forall|c: &mut ClientCalls, o: &mut Observability|
            #![trigger call_ensures(ClientCalls::poll, (c, o, resource, id, arrival, at), answer)]
            call_ensures(ClientCalls::poll, (c, o, resource, id, arrival, at), answer) ==> {
                let call = (*c)@[id];
                let over = (*c)@.contains_key(id) && (!(arrival is Nothing) || at.monotonic_us
                    >= call.started_us + 1_000_000);
                &&& over ==> answer is Some && !(*final(c))@.contains_key(id)
                &&& !over ==> (*final(c))@ == (*c)@ && (*final(o))@ == (*o)@
                &&& over && at.monotonic_us >= call.started_us ==> (*final(o))@ == after_roundtrip(
                    (*o)@,
                    RoundtripModel {
                        resource: resource@,
                        hash: call.hash,
                        source: call.source,
                        duration_us: (at.monotonic_us - call.started_us) as u64,
                        timed_out: !(arrival is Answered),
                        errored: !(arrival is Answered),
                    },
                    at,
                )
                &&& (*c)@.contains_key(id) && !over ==> answer is None
                &&& !(*c)@.contains_key(id) ==> answer is Some
            },
{
}

/// A script that was loaded is booked under its path, as failed if it threw, and then the
/// failure is told.
pub proof fn a_load_is_booked(
    resource: &str,
    path: &str,
    message: String,
    run: DispatchRun,
    result: Result<(), ScriptError>,
)
    ensures
        forall|o: &mut Observability| #[trigger]
            call_ensures(finish_load, (o, resource, path, Ok(()), run), result) ==> result is Ok
                && booked_once((*o)@, (*final(o))@, resource@, path@, run, false),
        forall|o: &mut Observability| #[trigger]
            call_ensures(finish_load, (o, resource, path, Err(message), run), result) ==> {
                &&& booked_once((*o)@, (*final(o))@, resource@, path@, run, true)
                &&& result is Err && result->Err_0@ == (ErrorModel::Execute {
                    resource: resource@,
                    script: path@,
                    message: message@,
                })
            },
{
    assert forall|before: ObsModel, after: ObsModel, errored: bool|
        #![trigger crate::runtime::measured(before, resource@, path@, run, errored, after)]
        crate::runtime::measured(
            before,
            resource@,
            path@,
            run,
            errored,
            after,
        ) implies booked_once(before, after, resource@, path@, run, errored) by {
        let d = choose|d: DispatchMeasurement| #[trigger]
            crate::runtime::measures(
                d,
                resource@,
                run.kind,
                path@,
                run.elapsed_us,
                errored,
                run.watchdog_fired,
                run.source,
            ) && after == after_dispatch(before, d, run.at);
        assert(tells_of(d, resource@, path@, run, errored));
    }
}

/// The natives start with nothing but what they are given: no player, no entity, no bag; made
/// up handles count from ten thousand, and calls from one.
pub proof fn natives_start_with_nothing<R: RoutingControl, C: ResourceControl>(
    resource: &str,
    routing: R,
    control: C,
    table: RpcTable,
    natives: Natives<R, C>,
    id: u32,
)
    requires
        call_ensures(Natives::<R, C>::new, (resource, routing, control, table), natives),
    ensures
        natives@.resource == resource@,
        natives@.players == 0,
        natives@.next_synthetic == 10_000,
        natives@.next_call == 1,
        natives@.reserved is None,
        natives@.http is None,
        natives@.net.open && natives@.net.queue.len() == 0,
        natives@.effects.len() == 0,
        !natives@.synthetic.contains_key(id) && !natives@.world.entities.contains_key(id),
        natives@.routing == routing.routing(),
        natives@.routes == table@,
{
}

/// An id that is held is kept until it is used; only then is another one taken.
pub proof fn a_held_id_is_kept<R: RoutingControl, C: ResourceControl>(id: Option<u32>)
    ensures
        forall|n: &mut Natives<R, C>| #[trigger]
            call_ensures(Natives::<R, C>::hold_in_reserve, (n, id), ()) ==> {
                &&& (*n)@.reserved is Some ==> (*final(n))@.reserved == (*n)@.reserved
                &&& (*n)@.reserved is None ==> (*final(n))@.reserved == id
                &&& (*final(n))@ == (NativesModel { reserved: (*final(n))@.reserved, ..(*n)@ })
            },
{
}

/// A connection that all handlers have seen is let in unless one of them took it over.
pub proof fn a_connection_is_let_in_if_nobody_minds<R: RoutingControl, C: ResourceControl>(
    source: u32,
)
    ensures
        forall|h: &mut ScriptHost<R, C>| #[trigger]
            call_ensures(ScriptHost::<R, C>::connecting_dispatched, (h, source), ()) ==> {
                let waits = (*h)@.deferrals.contains_key(source) && (
                *h)@.deferrals[source].outcome is None;
                &&& waits && !(*h)@.deferrals[source].deferred ==> (
                *final(h))@.deferrals[source].outcome == Some(Ok::<(), Seq<char>>(()))
                &&& !waits || (*h)@.deferrals[source].deferred ==> (*final(h))@ == (*h)@
                &&& (*final(h))@.natives == (*h)@.natives
            },
{
}

/// A routed native is found by its name, with the hash and the context that it was listed
/// with; a list that is not in order is refused.
pub proof fn a_routed_native_is_found_by_name(
    natives: Vec<RpcNative>,
    table: Option<RpcTable>,
    name: &str,
    found: Option<&RpcNative>,
    i: int,
)
    requires
        call_ensures(RpcTable::new, (natives,), table),
        0 <= i < natives@.len(),
        natives@[i].name@ == name@,
    ensures
        table is Some <==> sorted_by_name(natives@),
        table is Some && call_ensures(RpcTable::lookup, (&table->0, name), found) ==> found is Some
            && found->0.hash == natives@[i].hash && found->0.context == natives@[i].context
            && found->0.arg_count == natives@[i].arg_count,
{
    if table is Some {
        let t = table->0;
        let place = crate::rpc::place_of(natives@, name@);
        assert(natives@[place].name@ == name@);
        if place < i {
            assert(precedes(natives@[place].name@, natives@[i].name@));
            crate::named::precedes_is_total(name@, name@);
        }
        if i < place {
            assert(precedes(natives@[i].name@, natives@[place].name@));
            crate::named::precedes_is_total(name@, name@);
        }
        assert(t@.contains_key(name@));
        assert(t@[name@] == crate::rpc::route_of(natives@[i]));
    }
}

// --- recordings ---

/// A recording that is started is empty, starts now, and holds what it was asked for; the
/// last finished one stays until this one is finished.
pub proof fn a_recording_starts_empty(
    options: ProfilerRecordOptions,
    at: Moment,
    status: ProfilerStatus,
    stopped: ProfilerStatus,
    enabled: bool,
    yes: bool,
)
    ensures
        forall|o: &mut Observability| #[trigger]
            call_ensures(Observability::start_profiler, (o, options, at), status) ==> {
                let recording = (*final(o))@.active->0;
                &&& (*final(o))@.active is Some
                &&& recording.events.len() == 0
                &&& recording.started_us == at.monotonic_us
                &&& recording.started_ms == at.wall_us / 1000
                &&& recording.seconds == options.seconds
                &&& recording.scope == options.scope@
                &&& recording.include_native_calls == options.include_native_calls
                &&& options.frames is None ==> recording.limit_events == 4096
                &&& (*final(o))@.latest == (*o)@.latest && (*final(o))@.resources == (*o)@.resources
                &&& status.active && status.recorded_events == 0 && status.limit_events
                    == recording.limit_events && status.latest_events == (*o)@.latest.len()
                &&& status.scope@ == options.scope@
            },
        forall|o: &mut Observability| #[trigger]
            call_ensures(Observability::stop_profiler, (o,), stopped) ==> {
                &&& (*final(o))@.active is None && !stopped.active && stopped.started_ms is None
                &&& (*o)@.active is Some ==> (*final(o))@.latest == (*o)@.active->0.events
                    && stopped.latest_events == (*o)@.active->0.events.len()
                &&& (*o)@.active is None ==> (*final(o))@ == (*o)@
            },
        forall|o: &mut Observability| #[trigger]
            call_ensures(Observability::set_resmon_enabled, (o, enabled), ()) ==> (call_ensures(
                Observability::resmon_enabled,
                (&*final(o),),
                yes,
            ) ==> yes == enabled),
{
}

} // verus!
