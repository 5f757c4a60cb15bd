//! What the library's entry points do, call by call: what goes in, what comes out, and what
//! is different afterwards.
use crate::bindings::command_models;
use crate::cfx_lua::{expand_compound_assignment, expanded};
use crate::client_calls::{settle_client_call, CallOutcome};
use crate::engine::Engine;
use crate::entity_world::{
    after_publish, EntitySummary, EntityWorldView, ScriptEntityType, WorldCommand,
};
use crate::error::ScriptError;
use crate::host::ScriptHost;
use crate::http_handler::HttpHandlerRegistry;
use crate::json::{array_of, json_array, json_text, JsonModel};
use crate::natives::{
    default_native_value, effect_models, hash_rage_string, native_step, neutral, rage_hash,
    voice_model, Effect, Natives, VoiceAnswer,
};
use crate::observability::{
    after_dispatch, after_roundtrip, label_for, DispatchMeasurement, Moment, NativeRoundtrip,
    Observability, ResourcePerfStats, RoundtripModel,
};
use crate::ordered::lists;
use crate::resource_control::ResourceControl;
use crate::resource_registry::{FileWrite, ResourceRegistry};
use crate::routing::RoutingControl;
use crate::server::{
    action_models, dropped, message_handled, Action, Incoming, Material, Outcome, VoiceState,
};
use crate::session::{netid_of, parse_netid};
use crate::state_bag::StateBagStore;
use vstd::prelude::*;

verus! {

// --- voice ---

/// Every control message is handled as the server handles messages of its kind, and its
/// outcome says whether the connection stays and whose it is.
pub proof fn a_message_is_handled(
    session: Option<u32>,
    message: Incoming,
    material: Option<Material>,
    outcome: Outcome,
)
    ensures
        forall|s: &mut VoiceState| #[trigger]
            call_ensures(VoiceState::handle_message, (s, session, message, material), outcome)
                ==> message_handled(
                (*s)@,
                session,
                message,
                material,
                (*final(s))@,
                outcome.keep,
                outcome.session,
                action_models(outcome.actions@),
            ),
{
}

/// A player that leaves is gone from the voice server, and its name is read from brackets.
pub proof fn a_player_leaves_the_voice_server(
    netid: u32,
    actions: Vec<Action>,
    name: &str,
    id: Option<u32>,
)
    ensures
        forall|s: &mut VoiceState| #[trigger]
            call_ensures(VoiceState::on_player_dropped, (s, netid), actions) ==> {
                &&& ((*final(s))@, action_models(actions@)) == dropped((*s)@, netid)
                &&& !(*final(s))@.sessions.contains_key(netid)
            },
        call_ensures(parse_netid, (name,), id) ==> {
            &&& id is Some <==> netid_of(name@) is Some
            &&& id is Some ==> netid_of(name@) == Some(id->0 as nat)
        },
{
}

// --- scripts ---

/// A source comes out with its compound assignments spelt out.
pub proof fn a_source_is_expanded(source: &str, out: String)
    requires
        call_ensures(expand_compound_assignment, (source,), out),
    ensures
        out@ == expanded(source@),
{
}

/// A native that a script calls gets the arguments that were written, or none where they
/// cannot be read, and what it answers comes back as JSON.
pub proof fn a_native_is_called_with_what_was_written<R: RoutingControl, C: ResourceControl>(
    voice: Option<&VoiceAnswer>,
    name: &str,
    kind: &str,
    args_json: &str,
    text: String,
    args: Seq<JsonModel>,
)
    requires
        json_array(args_json@) matches Ok(items) ==> args == items,
        json_array(args_json@) is Err ==> args.len() == 0,
    ensures
        forall|n: &mut Natives<R, C>| #[trigger]
            call_ensures(Natives::<R, C>::cfx_native, (n, voice, name, kind, args_json), text)
                ==> exists|value: JsonModel|
                text@ == json_text(value) && #[trigger] native_step(
                    (*n)@,
                    voice_model(voice),
                    name@,
                    kind@,
                    args,
                    (*final(n))@,
                    value,
                ),
{
    if json_array(args_json@) is Err {
        assert(args =~= Seq::empty());
    }
}

/// A script finds out that it runs on a server, whatever it passes and whatever went before.
pub proof fn a_script_knows_that_it_runs_on_a_server<R: RoutingControl, C: ResourceControl>(
    voice: Option<&VoiceAnswer>,
    kind: &str,
    args_json: &str,
    text: String,
    name: &str,
)
    requires
        name@ == "IS_DUPLICITY_VERSION"@,
    ensures
        forall|n: &mut Natives<R, C>| #[trigger]
            call_ensures(Natives::<R, C>::cfx_native, (n, voice, name, kind, args_json), text)
                ==> text@ == "true"@ && (*final(n))@ == (*n)@,
{
    let args = crate::args::args_of(args_json@);
    assert forall|n: &mut Natives<R, C>| #[trigger]
        call_ensures(
            Natives::<R, C>::cfx_native,
            (n, voice, name, kind, args_json),
            text,
        ) implies text@ == "true"@ && (*final(n))@ == (*n)@ by {
        let value = choose|value: JsonModel|
            text@ == json_text(value) && #[trigger] native_step(
                (*n)@,
                voice_model(voice),
                name@,
                kind@,
                args,
                (*final(n))@,
                value,
            );
        crate::service_laws::some_answers_are_always_the_same(
            (*n)@,
            voice_model(voice),
            name@,
            kind@,
            args,
            (*final(n))@,
            value,
        );
    }
}

/// Hashes and neutral values are those that natives use.
pub proof fn hashes_and_neutral_values_are_shared(
    text: &str,
    hash: u32,
    kind: &str,
    value: crate::json::Json,
)
    ensures
        call_ensures(hash_rage_string, (text,), hash) ==> hash == rage_hash(text@),
        call_ensures(default_native_value, (kind,), value) ==> value@ == neutral(kind@),
{
}

/// What a script prints is one line of the console, its parts set apart by tabs, under its
/// resource.
pub proof fn a_script_prints_one_line<R: RoutingControl, C: ResourceControl>(parts: Vec<String>)
    ensures
        forall|n: &mut Natives<R, C>| #[trigger]
            call_ensures(Natives::<R, C>::print, (n, &parts), ()) && (*n)@.console.len() < 512 ==> (
            *final(n))@.console == (*n)@.console.push(
                "["@ + (*n)@.resource + "] "@ + crate::bindings::tabbed(
                    crate::engine::texts(parts@),
                ),
            ) && (*final(n))@.effects == (*n)@.effects,
{
}

/// The host takes what natives left behind once: the calls are booked, and the rest is
/// handed over in order. Commands to the world are taken apart from it, and stay nowhere.
pub proof fn effects_are_taken_once<R: RoutingControl, C: ResourceControl>(
    us: u64,
    at: Moment,
    left: Vec<Effect>,
    commands: Vec<WorldCommand>,
)
    ensures
        forall|n: &mut Natives<R, C>, o: &mut Observability|
            #![trigger call_ensures(Natives::<R, C>::take_effects, (n, o, us, at), left)]
            call_ensures(Natives::<R, C>::take_effects, (n, o, us, at), left) ==> {
                &&& (*final(n))@.effects.len() == 0
                &&& effect_models(left@) == crate::bindings::without_calls((*n)@.effects)
                &&& (*final(o))@ == crate::bindings::after_calls(
                    (*o)@,
                    (*n)@.resource,
                    (*n)@.effects,
                    us,
                    at,
                )
            },
        forall|n: &mut Natives<R, C>| #[trigger]
            call_ensures(Natives::<R, C>::take_world_commands, (n,), commands) ==> {
                &&& command_models(commands@) == crate::bindings::world_commands((*n)@.effects)
                &&& (*final(n))@.effects == crate::bindings::without_world((*n)@.effects)
            },
{
}

/// A handler that a runtime adds is its own resource's, filters by what it was given, and is
/// removed only by that resource.
pub proof fn a_runtime_adds_and_removes_its_handlers<R: RoutingControl, C: ResourceControl>(
    key: String,
    bag: String,
    callback: u32,
    cookie: u32,
    removed: bool,
)
    ensures
        forall|n: &mut Natives<R, C>| #[trigger]
            call_ensures(
                Natives::<R, C>::add_state_bag_handler,
                (n, key, bag, callback),
                cookie,
            ) ==> {
                let handler = (*final(n))@.bags.handlers[cookie];
                &&& (*final(n))@.bags.handlers.contains_key(cookie)
                &&& handler.resource == (*n)@.resource && handler.callback_id == callback
                &&& key@.len() > 0 ==> handler.key_filter == Some(key@)
                &&& key@.len() == 0 ==> handler.key_filter is None
                &&& bag@.len() > 0 ==> handler.bag_filter == Some(bag@)
                &&& bag@.len() == 0 ==> handler.bag_filter is None
            },
        forall|n: &mut Natives<R, C>| #[trigger]
            call_ensures(Natives::<R, C>::remove_state_bag_handler, (n, cookie), removed) ==> {
                let own = (*n)@.bags.handlers.contains_key(cookie) && (
                *n)@.bags.handlers[cookie].resource == (*n)@.resource;
                &&& removed <==> own
                &&& own ==> !(*final(n))@.bags.handlers.contains_key(cookie)
                &&& !own ==> (*final(n))@ == (*n)@
            },
{
}

// --- state bags ---

/// A resource that goes takes its handlers and what waits for them along, and leaves the
/// values; a bag that is ensured is there, with what it held.
pub proof fn a_resource_takes_its_handlers_along(
    resource: &str,
    bag: &str,
    cookie: u32,
    other: Seq<char>,
)
    ensures
        forall|b: &mut StateBagStore| #[trigger]
            call_ensures(StateBagStore::cleanup_resource, (b, resource), ()) ==> {
                &&& (*final(b))@.handlers.contains_key(cookie) <==> (*b)@.handlers.contains_key(
                    cookie,
                ) && (*b)@.handlers[cookie].resource != resource@
                &&& !(*final(b))@.pending.contains_key(resource@)
                &&& other != resource@ ==> (*final(b))@.pending[other] == (*b)@.pending[other]
                &&& (*final(b))@.bags == (*b)@.bags
            },
        forall|b: &mut StateBagStore| #[trigger]
            call_ensures(StateBagStore::ensure_bag, (b, bag), ()) ==> {
                &&& (*final(b))@.bags.contains_key(bag@)
                &&& (*b)@.bags.contains_key(bag@) ==> (*final(b))@.bags[bag@] == (*b)@.bags[bag@]
                &&& !(*b)@.bags.contains_key(bag@) ==> (*final(b))@.bags[bag@].dom() =~= Set::empty()
                &&& other != bag@ ==> (*final(b))@.bags[other] == (*b)@.bags[other]
            },
{
}

/// A runtime that polls is told, as a list, of what waits for it, and it no longer waits.
pub proof fn a_poll_tells_what_waits(resource: &str, text: String)
    ensures
        forall|b: &mut StateBagStore| #[trigger]
            call_ensures(StateBagStore::poll_changes, (b, resource), text) && (
            *b)@.pending.contains_key(resource@) && (*b)@.pending[resource@].len() <= 4096 ==> {
                &&& text@ == json_text(
                    array_of(
                        (*b)@.pending[resource@].map_values(
                            |d: crate::state_bag::DeliveryModel|
                                crate::state_bag::delivery_json(d),
                        ),
                    ),
                )
                &&& !(*final(b))@.pending.contains_key(resource@)
            },
        forall|b: &mut StateBagStore| #[trigger]
            call_ensures(StateBagStore::poll_changes, (b, resource), text) && !(
            *b)@.pending.contains_key(resource@) ==> text@ == json_text(
                array_of(Seq::empty()),
            ),
{
    let f = |d: crate::state_bag::DeliveryModel| crate::state_bag::delivery_json(d);
    assert(Seq::<crate::state_bag::DeliveryModel>::empty().map_values(f) =~= Seq::empty());
}

// --- the world ---

/// A publication replaces the mirror; owners, peds and kinds are then read from it, and each
/// kind has its number.
pub proof fn a_publication_is_mirrored(
    list: Vec<EntitySummary>,
    world: EntityWorldView,
    id: u32,
    owner: Option<u32>,
    ped: Option<u32>,
    kind: ScriptEntityType,
    ids: Vec<u32>,
    number: u8,
)
    ensures
        forall|w: &mut EntityWorldView| #[trigger]
            call_ensures(EntityWorldView::publish, (w, list), ()) ==> (*final(w))@ == after_publish(
                (*w)@,
                list@,
            ),
        call_ensures(EntityWorldView::owner, (&world, id), owner) ==> {
            &&& world@.entities.contains_key(id) ==> owner == Some(world@.entities[id].owner)
            &&& !world@.entities.contains_key(id) ==> owner is None
        },
        call_ensures(EntityWorldView::player_ped, (&world, id), ped) ==> {
            &&& world@.player_peds.contains_key(id) ==> ped == Some(world@.player_peds[id])
            &&& !world@.player_peds.contains_key(id) ==> ped is None
        },
        call_ensures(EntityWorldView::ids_of_type, (&world, kind), ids) ==> forall|x: u32|
            #[trigger]
            ids@.contains(x) <==> world@.entities.contains_key(x) && world@.entities[x].entity_type
                == kind,
        call_ensures(ScriptEntityType::as_native, (kind,), number) ==> {
            &&& kind is Ped ==> number == 1
            &&& kind is Vehicle ==> number == 2
            &&& kind is Object ==> number == 3
        },
{
    if call_ensures(EntityWorldView::ids_of_type, (&world, kind), ids) {
        let set = crate::entity_world::of_type(world@.entities, kind);
        assert(lists(ids@, set));
        assert forall|x: u32| #[trigger] ids@.contains(x) <==> world@.entities.contains_key(x)
            && world@.entities[x].entity_type == kind by {
            assert(ids@.contains(x) <==> set.contains(x));
        }
    }
}

// --- books ---

/// A dispatch and a native call are booked as measured, and a dispatch is labelled by its
/// name; what is shown of a resource is what was booked of it, and of none other.
pub proof fn measurements_are_booked(
    d: DispatchMeasurement,
    r: NativeRoundtrip,
    at: Moment,
    label: String,
    o: Observability,
    name: &str,
    perf: Option<ResourcePerfStats>,
)
    ensures
        forall|o: &mut Observability| #[trigger]
            call_ensures(Observability::record_dispatch, (o, d, at), label) ==> (*final(o))@
                == after_dispatch((*o)@, d, at) && label@ == label_for((*o)@.labels, d.name@),
        forall|o: &mut Observability| #[trigger]
            call_ensures(Observability::record_native_roundtrip, (o, &r, at), ()) ==> (*final(o))@
                == after_roundtrip((*o)@, r@, at),
        call_ensures(Observability::resource_snapshot, (&o, name), perf) ==> {
            &&& perf is Some <==> o@.resources.contains_key(name@)
            &&& perf is Some ==> crate::observability::perf_of(
                perf->0,
                name@,
                o@.resources[name@],
            )
        },
{
}

/// An awaited call is booked as timed out only if it did, and as failed unless it was
/// answered.
pub proof fn an_awaited_call_is_booked(
    resource: &str,
    source: u32,
    hash: u64,
    outcome: CallOutcome,
    us: u64,
    at: Moment,
    text: String,
)
    ensures
        forall|o: &mut Observability| #[trigger]
            call_ensures(
                settle_client_call,
                (o, resource, source, hash, outcome, us, at),
                text,
            ) ==> (*final(o))@ == after_roundtrip(
                (*o)@,
                RoundtripModel {
                    resource: resource@,
                    hash,
                    source,
                    duration_us: us,
                    timed_out: outcome is TimedOut,
                    errored: outcome is TimedOut || outcome is Closed,
                },
                at,
            ) && (outcome matches CallOutcome::Answered(value) ==> text@ == value@),
{
}

// --- resources ---

/// A file that a script saves is written below the root of its resource, with as many bytes
/// as it said; a path that leads out is refused. Metadata are counted and read in order.
pub proof fn a_script_saves_below_its_root(
    registry: ResourceRegistry,
    name: &str,
    file: &str,
    data: &str,
    n: i32,
    write: Option<FileWrite>,
    key: &str,
    index: usize,
    value: String,
    count: u32,
)
    ensures
        call_ensures(ResourceRegistry::save_file, (&registry, name, file, data, n), write) ==> {
            let inside = crate::resource_registry::sanitized(file@);
            &&& write is Some <==> registry@.contains_key(name@) && inside is Some
            &&& write is Some ==> write->0.root@ == registry@[name@].root && write->0.relative@
                == inside->0 && write->0.bytes@ == crate::resource_registry::saved_bytes(data@, n)
        },
        call_ensures(ResourceRegistry::metadata_count, (&registry, name, key), count) ==> count
            == crate::resource_registry::metadata(registry@, name@, key@).len() % 0x1_0000_0000,
        call_ensures(ResourceRegistry::metadata_value, (&registry, name, key, index), value) ==> {
            let list = crate::resource_registry::metadata(registry@, name@, key@);
            &&& index < list.len() ==> value@ == list[index as int]
            &&& index >= list.len() ==> value@.len() == 0
        },
{
}

/// A resource that is loaded anew has left nothing behind; without scripts it needs no
/// runtime, and otherwise its scripts are grouped by runtime or refused.
pub proof fn a_resource_is_loaded_anew<R: RoutingControl, C: ResourceControl>(
    name: &str,
    paths: Vec<String>,
    runtimes: Result<Vec<(Engine, Vec<usize>)>, ScriptError>,
)
    ensures
        forall|h: &mut ScriptHost<R, C>| #[trigger]
            call_ensures(ScriptHost::<R, C>::load_resource, (h, name, &paths), runtimes) ==> {
                &&& (*final(h))@ == crate::host::without((*h)@, name@)
                &&& paths@.len() == 0 ==> runtimes is Ok && runtimes->Ok_0@.len() == 0
                &&& paths@.len() > 0 ==> (runtimes is Ok <==> crate::engine::grouping(
                    name@,
                    crate::engine::texts(paths@),
                    (*h)@.engines,
                ) is Ok)
            },
{
    assert forall|h: &mut ScriptHost<R, C>| #[trigger]
        call_ensures(ScriptHost::<R, C>::load_resource, (h, name, &paths), runtimes) && paths@.len()
            == 0 implies runtimes is Ok && runtimes->Ok_0@.len() == 0 by {
        assert(crate::engine::texts(paths@).len() == 0);
        if runtimes is Ok {
            assert(crate::engine::group_views(runtimes->Ok_0@).len() == runtimes->Ok_0@.len());
        }
    }
}

/// An answer that a script writes reaches whoever waits, once, with its status and its body;
/// an answer that nobody waits for is dropped.
pub proof fn a_written_answer_reaches_who_waits(
    id: u32,
    status: u32,
    headers: &str,
    body: String,
    delivered: bool,
)
    ensures
        forall|h: &mut HttpHandlerRegistry| #[trigger]
            call_ensures(HttpHandlerRegistry::respond, (h, id, status, headers, body), delivered)
                ==> {
                &&& delivered <==> (*h)@.waiting.contains(id)
                &&& delivered ==> !(*final(h))@.waiting.contains(id) && (
                *final(h))@.answered.contains_key(id) && (*final(h))@.answered[id].body@ == body@
                &&& delivered && status <= 0xffff ==> (*final(h))@.answered[id].status == status
                &&& delivered && status > 0xffff ==> (*final(h))@.answered[id].status == 500
                &&& !delivered ==> (*final(h))@ == (*h)@
            },
{
}

} // verus!
