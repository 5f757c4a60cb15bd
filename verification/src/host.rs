//! The script host: which resources run, what a load or an unload cleans up, and how far
//! an event chain goes.
//!
//! Every resource runs on a thread of its own. The host's own decisions are here; the
//! caller owns the threads, hands the events over and brings the replies back.
use crate::deferrals::{decided, pending, DeferralModel, DeferralRegistry};
use crate::engine::{group_by_engine, group_views, grouping, texts, Engine, Engines};
use crate::error::{ErrorModel, ScriptError};
use crate::http_bridge::HttpBridge;
use crate::http_handler::{no_handlers, HandlersModel, HttpHandlerRegistry};
use crate::json::{array_of, json_text, models, Json, JsonModel};
use crate::kvp::KvpStore;
use crate::named::{lists_names, names_in_order, TextMap};
use crate::native_state::event_models;
use crate::natives::{Natives, NativesModel};
use crate::observability::{no_observations, ObsModel, Observability};
use crate::resource_control::ResourceControl;
use crate::resource_registry::{
    record_of, RecordModel, ResourceManifest, ResourceRegistry, ScriptResourceState,
};
use crate::routing::RoutingControl;
use crate::state_bag::{
    change_models, without_resource, StateBagChange, StateBagModel,
};
use crate::text::{has_prefix, same, starts_with};
use vstd::prelude::*;

verus! {

/// A script file to load into a resource's runtime.
#[derive(Debug)]
pub struct ScriptSource {
    /// Path relative to the resource's directory, for error messages.
    pub path: String,
    pub code: String,
}

// --- event chains ---

/// Lifecycle and internal events, which never leave the local zone.
pub open spec fn zone_local(event: Seq<char>) -> bool {
    starts_with(event, "onResource"@) || starts_with(event, "player"@) || starts_with(
        event,
        "__baston"@,
    ) || event == "onEntityOwnerChanged"@
}

/// Lifecycle and internal events, which never leave the local zone.
pub fn is_zone_local_event(event: &str) -> (yes: bool)
    ensures
        yes == zone_local(event@),
{
    has_prefix(event, "onResource") || has_prefix(event, "player") || has_prefix(event, "__baston")
        || same(event, "onEntityOwnerChanged")
}

/// Cap on chained event broadcasts per dispatch, so a pair of handlers triggering each
/// other cannot wedge the host.
pub const MAX_EVENT_CHAIN: usize = 64;

/// An event and everything that its handlers trigger in turn.
#[derive(Debug)]
pub struct EventChain {
    pending: Vec<(String, String)>,
    dispatched: usize,
    publish_entry: bool,
}

/// What an [`EventChain`] has still to do.
#[verifier::ext_equal]
pub struct ChainModel {
    /// Events that nobody has seen yet, oldest first.
    pub pending: Seq<(Seq<char>, Seq<char>)>,
    /// How many events have been handed out.
    pub dispatched: nat,
    /// Whether the first event originated here, rather than in another zone.
    pub publish_entry: bool,
}

/// What to do with the next event of a chain.
#[derive(Debug)]
pub struct ChainStep {
    pub event: String,
    pub args_json: String,
    /// Mirror the event to sibling zones.
    pub publish: bool,
    /// Hand the event to every runtime. `false` means that the chain was cut off.
    pub dispatch: bool,
}

/// Whether the next event goes to sibling zones: events that originated here do, and are
/// no lifecycle events. The first event of a chain that came from another zone must not
/// go back, but what local handlers make of it is local.
pub open spec fn publishes(m: ChainModel) -> bool {
    !(m.dispatched == 0 && !m.publish_entry) && !zone_local(m.pending[0].0)
}

/// Whether the next event reaches the runtimes.
pub open spec fn dispatches(m: ChainModel) -> bool {
    m.dispatched < MAX_EVENT_CHAIN
}

/// The chain after its next event was handed out. A chain that has gone too far drops the
/// rest.
pub open spec fn chain_after(m: ChainModel) -> ChainModel {
    ChainModel {
        pending: if dispatches(m) {
            m.pending.skip(1)
        } else {
            Seq::empty()
        },
        dispatched: m.dispatched + 1,
        ..m
    }
}

/// The chain with the events that handlers triggered.
pub open spec fn chained(m: ChainModel, events: Seq<(Seq<char>, Seq<char>)>) -> ChainModel {
    if m.dispatched > MAX_EVENT_CHAIN {
        m
    } else {
        ChainModel { pending: m.pending + events, ..m }
    }
}

impl View for EventChain {
    type V = ChainModel;

    closed spec fn view(&self) -> ChainModel {
        ChainModel {
            pending: event_models(self.pending@),
            dispatched: self.dispatched as nat,
            publish_entry: self.publish_entry,
        }
    }
}

impl EventChain {
    pub closed spec fn wf(&self) -> bool {
        &&& self.dispatched <= MAX_EVENT_CHAIN + 1
        &&& self.dispatched > MAX_EVENT_CHAIN ==> self.pending@.len() == 0
    }

    pub fn new(event: String, args_json: String, publish_entry: bool) -> (chain: Self)
        ensures
            chain.wf(),
            chain@ == (ChainModel {
                pending: seq![(event@, args_json@)],
                dispatched: 0,
                publish_entry,
            }),
    {
        let ghost entry = (event@, args_json@);
        let mut pending: Vec<(String, String)> = Vec::new();
        pending.push((event, args_json));
        let chain = EventChain { pending, dispatched: 0, publish_entry };
        assert(chain@.pending =~= seq![entry]);
        chain
    }

    /// The next event of the chain, and what to do with it.
    pub fn next(&mut self) -> (step: Option<ChainStep>)
        requires
            old(self).wf(),
        ensures
            final(self).wf(),
            match step {
                None => old(self)@.pending.len() == 0 && final(self)@ == old(self)@,
                Some(s) => {
                    &&& old(self)@.pending.len() > 0
                    &&& (s.event@, s.args_json@) == old(self)@.pending[0]
                    &&& s.publish == publishes(old(self)@)
                    &&& s.dispatch == dispatches(old(self)@)
                    &&& final(self)@ == chain_after(old(self)@)
                },
            },
    {
        if self.pending.len() == 0 {
            return None;
        }
        let ghost before = self.pending@;
        let (event, args_json) = self.pending.remove(0);
        assert(event_models(self.pending@) =~= event_models(before).skip(1));
        let remote_entry = self.dispatched == 0 && !self.publish_entry;
        let publish = !remote_entry && !is_zone_local_event(event.as_str());
        let dispatch = self.dispatched < MAX_EVENT_CHAIN;
        self.dispatched = self.dispatched + 1;
        if !dispatch {
            self.pending = Vec::new();
            assert(event_models(self.pending@) =~= Seq::empty());
        }
        Some(ChainStep { event, args_json, publish, dispatch })
    }

    /// Add what the handlers of the last event triggered.
    pub fn extend(&mut self, events: Vec<(String, String)>)
        requires
            old(self).wf(),
        ensures
            final(self).wf(),
            final(self)@ == chained(old(self)@, event_models(events@)),
    {
        if self.dispatched <= MAX_EVENT_CHAIN {
            let ghost before = self.pending@;
            let ghost added = events@;
            let mut events = events;
            self.pending.append(&mut events);
            assert(event_models(self.pending@) =~= event_models(before) + event_models(added));
        }
    }
}

/// However many events its handlers trigger, a chain reaches the runtimes a bounded
/// number of times: a dispatch moves the count on, and past the cap there are none.
pub proof fn a_chain_is_bounded(m: ChainModel)
    ensures
        dispatches(m) ==> chain_after(m).dispatched <= MAX_EVENT_CHAIN,
        !dispatches(m) ==> chain_after(m).pending.len() == 0,
        chain_after(m).dispatched == m.dispatched + 1,
        forall|events: Seq<(Seq<char>, Seq<char>)>|
            m.dispatched > MAX_EVENT_CHAIN ==> #[trigger] chained(m, events) == m,
{
}

/// An event that came from another zone does not go back there.
pub proof fn a_remote_event_is_not_sent_back(event: Seq<char>, args: Seq<char>)
    ensures
        !publishes(
            ChainModel { pending: seq![(event, args)], dispatched: 0, publish_entry: false },
        ),
{
}

/// What a local handler makes of a remote event is local, and goes out.
pub proof fn a_reaction_is_local(m: ChainModel)
    requires
        m.pending.len() > 0,
        m.dispatched > 0,
    ensures
        publishes(m) == !zone_local(m.pending[0].0),
{
}

/// Cap on the rounds of state-bag callbacks at one boundary: handlers may write another
/// bag, but a recursive pair of them must not monopolize the host.
pub const MAX_CALLBACK_ROUNDS: usize = 64;

/// The rounds of state-bag callbacks at one boundary.
#[derive(Debug)]
pub struct CallbackRounds {
    rounds: usize,
}

impl CallbackRounds {
    pub closed spec fn done(&self) -> nat {
        self.rounds as nat
    }

    pub fn new() -> (rounds: Self)
        ensures
            rounds.done() == 0,
    {
        CallbackRounds { rounds: 0 }
    }

    /// Whether another round is due: there are deliveries, and the cap is not reached.
    pub fn another(&mut self, pending_deliveries: usize) -> (due: bool)
        ensures
            due == (pending_deliveries != 0 && old(self).done() < MAX_CALLBACK_ROUNDS),
            final(self).done() == old(self).done() + if due {
                1int
            } else {
                0int
            },
    {
        if pending_deliveries == 0 || self.rounds >= MAX_CALLBACK_ROUNDS {
            return false;
        }
        self.rounds = self.rounds + 1;
        true
    }
}

// --- replies ---

/// The events of the replies that succeeded, in order.
pub open spec fn gathered(replies: Seq<Result<Vec<(String, String)>, ScriptError>>) -> Seq<
    (Seq<char>, Seq<char>),
>
    decreases replies.len(),
{
    if replies.len() == 0 {
        Seq::empty()
    } else {
        let before = gathered(replies.drop_last());
        match replies.last() {
            Ok(events) => before + event_models(events@),
            Err(_) => before,
        }
    }
}

/// Put together what the runtimes triggered. A runtime that failed costs its own events
/// only.
pub fn gather_events(replies: Vec<Result<Vec<(String, String)>, ScriptError>>) -> (events: Vec<
    (String, String),
>)
    ensures
        event_models(events@) == gathered(replies@),
{
    let mut events: Vec<(String, String)> = Vec::new();
    let mut replies = replies;
    let ghost all = replies@;
    let ghost mut done: int = 0;
    assert(event_models(events@) =~= gathered(all.take(0)));
    assert(replies@ =~= all.skip(0));
    while replies.len() > 0
        invariant
            0 <= done <= all.len(),
            replies@ == all.skip(done),
            event_models(events@) == gathered(all.take(done)),
        decreases replies@.len(),
    {
        let ghost before = events@;
        proof {
            assert(all.take(done + 1).drop_last() =~= all.take(done));
            assert(all.take(done + 1).last() == replies@[0]);
        }
        let reply = replies.remove(0);
        assert(replies@ =~= all.skip(done + 1));
        if let Ok(added) = reply {
            let ghost new = added@;
            let mut added = added;
            events.append(&mut added);
            assert(event_models(events@) =~= event_models(before) + event_models(new));
        }
        proof {
            done = done + 1;
        }
    }
    assert(all.take(done) =~= all);
    events
}

/// The transfer states of the runtimes that have one.
pub open spec fn states_of(replies: Seq<(String, Result<Option<String>, ScriptError>)>) -> Map<
    Seq<char>,
    Seq<char>,
>
    decreases replies.len(),
{
    if replies.len() == 0 {
        Map::empty()
    } else {
        let before = states_of(replies.drop_last());
        match replies.last().1 {
            Ok(Some(json)) => before.insert(replies.last().0@, json@),
            _ => before,
        }
    }
}

pub open spec fn state_texts(states: Map<Seq<char>, String>) -> Map<Seq<char>, Seq<char>> {
    states.map_values(|s: String| s@)
}

/// Put together the script state that a handoff carries, by resource. A resource that
/// registered none, or failed, has no part in it.
pub fn gather_transfer_states(replies: Vec<(String, Result<Option<String>, ScriptError>)>) -> (
states: TextMap<String>)
    ensures
        states.wf(),
        state_texts(states@) == states_of(replies@),
{
    let mut states: TextMap<String> = TextMap::new();
    let mut replies = replies;
    let ghost all = replies@;
    let ghost mut done: int = 0;
    assert(state_texts(states@) =~= states_of(all.take(0)));
    assert(replies@ =~= all.skip(0));
    while replies.len() > 0
        invariant
            states.wf(),
            0 <= done <= all.len(),
            replies@ == all.skip(done),
            state_texts(states@) == states_of(all.take(done)),
        decreases replies@.len(),
    {
        let ghost before = states@;
        proof {
            assert(all.take(done + 1).drop_last() =~= all.take(done));
            assert(all.take(done + 1).last() == replies@[0]);
        }
        let (resource, reply) = replies.remove(0);
        assert(replies@ =~= all.skip(done + 1));
        if let Ok(Some(json)) = reply {
            let ghost name = resource@;
            let ghost text = json@;
            states.insert(resource, json);
            assert(state_texts(states@) =~= state_texts(before).insert(name, text));
        }
        proof {
            done = done + 1;
        }
    }
    assert(all.take(done) =~= all);
    states
}

// --- lifecycle ---

/// The arguments of a lifecycle event: the resource's name.
pub open spec fn lifecycle_args(name: Seq<char>) -> Seq<char> {
    json_text(array_of(seq![JsonModel::Text(name)]))
}

/// The arguments of a lifecycle event: the resource's name.
pub fn print_lifecycle_args(name: &str) -> (args_json: String)
    ensures
        args_json@ == lifecycle_args(name@),
{
    let mut list: Vec<Json> = Vec::new();
    list.push(Json::Text(name.to_owned()));
    assert(models(list@) =~= seq![JsonModel::Text(name@)]);
    Json::array(&list).to_json()
}

/// Orchestrates the runtimes of all resources.
pub struct ScriptHost<R: RoutingControl, C: ResourceControl> {
    /// The resources that have a runtime.
    pub runtimes: TextMap<()>,
    pub natives: Natives<R, C>,
    pub http_handlers: HttpHandlerRegistry,
    pub deferrals: DeferralRegistry,
    pub observability: Observability,
    pub resources: ResourceRegistry,
    pub engines: Engines,
}

/// What a [`ScriptHost`] holds.
pub struct HostModel {
    pub runtimes: Set<Seq<char>>,
    pub natives: NativesModel,
    pub handlers: HandlersModel,
    pub deferrals: Map<u32, DeferralModel>,
    pub observability: ObsModel,
    pub resources: Map<Seq<char>, RecordModel>,
    pub engines: Engines,
}

impl<R: RoutingControl, C: ResourceControl> View for ScriptHost<R, C> {
    type V = HostModel;

    open spec fn view(&self) -> HostModel {
        HostModel {
            runtimes: self.runtimes@.dom(),
            natives: self.natives@,
            handlers: self.http_handlers@,
            deferrals: self.deferrals@,
            observability: self.observability@,
            resources: self.resources@,
            engines: self.engines,
        }
    }
}

/// The host without a resource: no runtime, no state-bag handlers, no HTTP handler. The
/// route must stop answering with the runtime gone, or the next request would wait for
/// somebody who cannot answer.
pub open spec fn without(h: HostModel, name: Seq<char>) -> HostModel {
    HostModel {
        runtimes: h.runtimes.remove(name),
        natives: NativesModel {
            bags: StateBagModel {
                handlers: without_resource(h.natives.bags.handlers, name),
                pending: h.natives.bags.pending.remove(name),
                ..h.natives.bags
            },
            ..h.natives
        },
        handlers: HandlersModel { handlers: h.handlers.handlers.remove(name), ..h.handlers },
        ..h
    }
}

/// The runtimes that a resource needs: nothing where it has no server scripts, and
/// otherwise one for each engine, with the scripts that it runs.
pub open spec fn runtimes_for(h: HostModel, name: Seq<char>, paths: Seq<Seq<char>>) -> Result<
    Seq<(Engine, Seq<usize>)>,
    ErrorModel,
> {
    if paths.len() == 0 {
        Ok(Seq::empty())
    } else {
        grouping(name, paths, h.engines)
    }
}

impl<R: RoutingControl, C: ResourceControl> ScriptHost<R, C> {
    pub open spec fn wf(&self) -> bool {
        &&& self.runtimes.wf()
        &&& self.natives.wf()
        &&& self.http_handlers.wf()
        &&& self.deferrals.wf()
        &&& self.observability.wf()
        &&& self.resources.wf()
    }

    /// A host with nothing loaded.
    pub fn new(natives: Natives<R, C>, engines: Engines, monotonic_us: u64) -> (host: Self)
        requires
            natives.wf(),
        ensures
            host.wf(),
            host@ == (HostModel {
                runtimes: Set::empty(),
                natives: natives@,
                handlers: no_handlers(),
                deferrals: Map::empty(),
                observability: no_observations(monotonic_us),
                resources: Map::empty(),
                engines,
            }),
    {
        let host = ScriptHost {
            runtimes: TextMap::new(),
            natives,
            http_handlers: HttpHandlerRegistry::new(),
            deferrals: DeferralRegistry::new(),
            observability: Observability::new(monotonic_us),
            resources: ResourceRegistry::new(),
            engines,
        };
        assert(host@.runtimes =~= Set::<Seq<char>>::empty());
        host
    }

    fn clean_up(&mut self, name: &str)
        requires
            old(self).wf(),
        ensures
            final(self).wf(),
            final(self)@ == without(old(self)@, name@),
    {
        self.runtimes.remove(name);
        self.natives.state_bags.cleanup_resource(name);
        self.http_handlers.unregister(name);
        assert(self@.runtimes =~= old(self)@.runtimes.remove(name@));
    }

    /// Start to load a resource: what is left of an earlier load goes, and the runtimes
    /// that it needs come out. A client-only or files-only resource needs none.
    pub fn load_resource(&mut self, name: &str, script_paths: &Vec<String>) -> (runtimes: Result<
        Vec<(Engine, Vec<usize>)>,
        ScriptError,
    >)
        requires
            old(self).wf(),
        ensures
            final(self).wf(),
            final(self)@ == without(old(self)@, name@),
            match runtimes {
                Ok(groups) => runtimes_for(old(self)@, name@, texts(script_paths@)) == Ok::<
                    _,
                    ErrorModel,
                >(group_views(groups@)),
                Err(e) => runtimes_for(old(self)@, name@, texts(script_paths@)) == Err::<
                    Seq<(Engine, Seq<usize>)>,
                    _,
                >(e@),
            },
    {
        self.clean_up(name);
        if script_paths.len() == 0 {
            let none: Vec<(Engine, Vec<usize>)> = Vec::new();
            assert(group_views(none@) =~= Seq::empty());
            return Ok(none);
        }
        group_by_engine(name, script_paths, &self.engines)
    }

    /// The resource's scripts have run.
    pub fn resource_loaded(&mut self, name: &str)
        requires
            old(self).wf(),
        ensures
            final(self).wf(),
            final(self)@ == (HostModel {
                runtimes: old(self)@.runtimes.insert(name@),
                ..old(self)@
            }),
    {
        self.runtimes.insert(name.to_owned(), ());
        assert(self@.runtimes =~= old(self)@.runtimes.insert(name@));
    }

    /// Start to unload a resource: `Err` where it is not loaded. `onResourceStop` comes
    /// before the runtime goes.
    pub fn unload_resource(&self, name: &str) -> (outcome: Result<(), ScriptError>)
        requires
            self.wf(),
        ensures
            match outcome {
                Ok(_) => self@.runtimes.contains(name@),
                Err(e) => !self@.runtimes.contains(name@) && e@ == ErrorModel::ResourceNotLoaded(
                    name@,
                ),
            },
    {
        if self.runtimes.contains(name) {
            Ok(())
        } else {
            Err(ScriptError::ResourceNotLoaded(name.to_owned()))
        }
    }

    /// The resource's runtime is gone.
    pub fn resource_unloaded(&mut self, name: &str)
        requires
            old(self).wf(),
        ensures
            final(self).wf(),
            final(self)@ == without(old(self)@, name@),
    {
        self.clean_up(name);
    }

    /// Whether a resource has a runtime. An event for one that has stopped meanwhile is
    /// no error: there is simply nobody left to tell.
    pub fn is_loaded(&self, name: &str) -> (yes: bool)
        requires
            self.wf(),
        ensures
            yes == self@.runtimes.contains(name@),
    {
        self.runtimes.contains(name)
    }

    /// The resources that an event goes to, ascending.
    pub fn recipients(&self) -> (names: Vec<String>)
        requires
            self.wf(),
        ensures
            texts(names@) == names_in_order(self@.runtimes),
            lists_names(texts(names@), self@.runtimes),
    {
        let names = self.runtimes.names();
        assert(texts(names@) =~= names@.map_values(|s: String| s@));
        names
    }

    /// Every `playerConnecting` handler has run. If none of them deferred the connection,
    /// it is accepted.
    pub fn connecting_dispatched(&mut self, source: u32)
        requires
            old(self).wf(),
        ensures
            final(self).wf(),
            final(self)@ == (HostModel {
                deferrals: if pending(old(self)@.deferrals, source)
                    && !old(self)@.deferrals[source].deferred {
                    old(self)@.deferrals.insert(
                        source,
                        decided(old(self)@.deferrals[source], None),
                    )
                } else {
                    old(self)@.deferrals
                },
                ..old(self)@
            }),
    {
        self.deferrals.resolve_if_not_deferred(source);
    }

    /// A resource was found, or changed: scripts can ask about it from now on.
    pub fn upsert_resource(
        &mut self,
        name: String,
        root: String,
        manifest: ResourceManifest,
        state: ScriptResourceState,
    )
        requires
            old(self).wf(),
        ensures
            final(self).wf(),
            ({
                let resources = old(self)@.resources.insert(
                    name@,
                    record_of(root@, manifest, state),
                );
                final(self)@ == (HostModel {
                    resources,
                    natives: NativesModel {
                        loaded: names_in_order(resources.dom()),
                        ..old(self)@.natives
                    },
                    ..old(self)@
                })
            }),
            lists_names(final(self)@.natives.loaded, final(self)@.resources.dom()),
    {
        self.resources.upsert_resource(name, root, manifest, state);
        self.natives.loaded = self.resources.names();
    }

    /// The resources that scripts can ask about.
    pub fn resources(&self) -> (resources: &ResourceRegistry)
        requires
            self.wf(),
        ensures
            resources.wf(),
            resources@ == self@.resources,
    {
        &self.resources
    }

    /// Install the persistent key/value store.
    pub fn set_kvp_store(&mut self, kvp: KvpStore)
        requires
            old(self).wf(),
            kvp.wf(),
        ensures
            final(self).wf(),
            final(self)@ == (HostModel {
                natives: NativesModel { kvp: kvp@, ..old(self)@.natives },
                ..old(self)@
            }),
    {
        self.natives.kvp = kvp;
    }

    /// Install the outbound HTTP bridge.
    pub fn set_http_bridge(&mut self, bridge: HttpBridge)
        requires
            old(self).wf(),
            bridge.wf(),
        ensures
            final(self).wf(),
            final(self)@ == (HostModel {
                natives: NativesModel { http: Some(bridge@), ..old(self)@.natives },
                ..old(self)@
            }),
    {
        self.natives.http = Some(bridge);
    }

    /// Install the resource lifecycle control.
    pub fn set_resource_control(&mut self, control: C)
        requires
            old(self).wf(),
        ensures
            final(self).wf(),
            final(self)@ == (HostModel {
                natives: NativesModel {
                    accepts: control.accepts(),
                    accepted: control.accepted(),
                    ..old(self)@.natives
                },
                ..old(self)@
            }),
    {
        self.natives.resource_control = control;
    }

    /// Take the replicated state-bag changes that the network has not seen.
    pub fn drain_replicated_state_bags(&mut self, limit: usize) -> (changes: Vec<StateBagChange>)
        requires
            old(self).wf(),
        ensures
            final(self).wf(),
            ({
                let queue = old(self)@.natives.bags.replicated;
                let count = if limit < queue.len() {
                    limit as int
                } else {
                    queue.len() as int
                };
                &&& change_models(changes@) == queue.take(count)
                &&& final(self)@ == (HostModel {
                    natives: NativesModel {
                        bags: StateBagModel {
                            replicated: queue.skip(count),
                            ..old(self)@.natives.bags
                        },
                        ..old(self)@.natives
                    },
                    ..old(self)@
                })
            }),
    {
        self.natives.state_bags.drain_replicated(limit)
    }
}

/// An unloaded resource leaves nothing behind: it has no runtime, hears of no state-bag
/// change, and answers no request.
pub proof fn an_unloaded_resource_is_gone(h: HostModel, name: Seq<char>)
    ensures
        !without(h, name).runtimes.contains(name),
        !without(h, name).handlers.handlers.contains(name),
        !without(h, name).natives.bags.pending.contains_key(name),
        forall|cookie: u32|
            #![trigger without(h, name).natives.bags.handlers[cookie]]
            without(h, name).natives.bags.handlers.contains_key(cookie) ==> without(
                h,
                name,
            ).natives.bags.handlers[cookie].resource != name,
{
}

/// Unloading one resource leaves the others running.
pub proof fn others_keep_running(h: HostModel, name: Seq<char>, other: Seq<char>)
    requires
        other != name,
    ensures
        without(h, name).runtimes.contains(other) == h.runtimes.contains(other),
        without(h, name).handlers.handlers.contains(other) == h.handlers.handlers.contains(other),
{
}

} // verus!
