//! What a script runtime binds into its scripts beside the natives themselves: the
//! console, events to clients, state-bag handlers, and native calls to clients that wait
//! for an answer.
use crate::console::{console_line, logged, ConsoleBuffer};
use crate::convars::Convars;
use crate::dash::no_texts;
use crate::engine::texts;
use crate::entity_world::{
    EntityWorldView, ReservedIds, WorldCommand, WorldCommands, WorldControl, WorldModel,
};
use crate::http_bridge::HttpBridge;
use crate::json::json_text;
use crate::kvp::{KvpModel, KvpStore};
use crate::natives::{
    effect_models, Effect, EffectModel, Natives, NativesModel,
};
use crate::net_bridge::{
    net_sent, net_takes, target_of, EventTarget, NetBridge, NetModel, NetOutbound, OutboundModel,
};
use crate::observability::{
    after_roundtrip, Moment, NativeRoundtrip, ObsModel, Observability, RoundtripModel,
};
use crate::resource_control::{CommandModel, ResourceControl};
use crate::routing::{RoutingControl, RoutingModel};
use crate::rpc::{RouteModel, RpcTable};
use crate::slots::SlotMap;
use crate::state_bag::{
    deliveries_json, next_cookie, no_bags, normalized, polled, queue_of, HandlerModel,
    StateBagModel, StateBagStore, MAX_DELIVERIES_PER_POLL,
};
use vstd::prelude::*;
use vstd::string::StringExecFns;

verus! {

// --- setting up ---

/// What the natives work on before the process has installed anything.
pub open spec fn bare_natives(
    resource: Seq<char>,
    routing: RoutingModel,
    accepts: bool,
    accepted: Seq<CommandModel>,
    routes: Map<Seq<char>, RouteModel>,
) -> NativesModel {
    NativesModel {
        resource,
        loaded: Seq::empty(),
        bags: no_bags(),
        kvp: KvpModel { entries: Map::empty(), persistent: false, dirty: false },
        routing,
        world: WorldModel {
            entities: Map::empty(),
            player_peds: Map::empty(),
            occupants: Map::empty(),
            last_occupants: Map::empty(),
            revision: 0,
        },
        convars: no_texts(),
        console: Seq::empty(),
        http: None,
        accepts,
        accepted,
        net: NetModel { queue: Seq::empty(), open: true },
        players: 0,
        synthetic: Map::empty(),
        next_synthetic: 10_000,
        reserved: None,
        routes,
        next_call: 1,
        effects: Seq::empty(),
    }
}

/// The authoritative surfaces every resource runtime shares, installed before any
/// resource script runs.
pub struct SharedGameState<R: RoutingControl, C: ResourceControl> {
    pub state_bags: StateBagStore,
    pub routing: R,
    pub entity_world: EntityWorldView,
    pub kvp: KvpStore,
    /// `None` until an outbound HTTP worker is wired.
    pub http: Option<HttpBridge>,
    pub resource_control: C,
}

impl<R: RoutingControl, C: ResourceControl> SharedGameState<R, C> {
    pub open spec fn wf(&self) -> bool {
        &&& self.state_bags.wf()
        &&& self.routing.routing_wf()
        &&& self.entity_world.wf()
        &&& self.kvp.wf()
        &&& self.http matches Some(bridge) ==> bridge.wf()
    }
}

impl<R: RoutingControl, C: ResourceControl> Natives<R, C> {
    /// Everything the natives work on, with placeholders for what the process installs
    /// later: an in-memory key/value store, an empty world, no HTTP worker.
    pub fn new(resource: &str, routing: R, resource_control: C, table: RpcTable) -> (natives: Self)
        requires
            routing.routing_wf(),
            table.wf(),
        ensures
            natives.wf(),
            natives@ == bare_natives(
                resource@,
                routing.routing(),
                resource_control.accepts(),
                resource_control.accepted(),
                table@,
            ),
    {
        let natives = Natives {
            resource: resource.to_owned(),
            loaded: Vec::new(),
            state_bags: StateBagStore::new(),
            kvp: KvpStore::in_memory(),
            routing,
            world: EntityWorldView::new(),
            convars: Convars::new(),
            console: ConsoleBuffer::new(),
            http: None,
            resource_control,
            net: NetBridge::new(),
            players: 0,
            synthetic: SlotMap::new(),
            next_synthetic: 10_000,
            reserved: None,
            table,
            next_call: 1,
            effects: Vec::new(),
        };
        assert(natives@.loaded =~= Seq::empty());
        assert(natives@.synthetic =~= Map::empty());
        assert(natives@.effects =~= Seq::empty());
        natives
    }

    /// Install the process-wide surfaces, replacing the placeholders.
    pub fn install_shared_game_state(&mut self, shared: SharedGameState<R, C>)
        requires
            old(self).wf(),
            shared.wf(),
        ensures
            final(self).wf(),
            final(self)@ == (NativesModel {
                bags: shared.state_bags@,
                routing: shared.routing.routing(),
                world: shared.entity_world@,
                kvp: shared.kvp@,
                http: match shared.http {
                    Some(bridge) => Some(bridge@),
                    None => None,
                },
                accepts: shared.resource_control.accepts(),
                accepted: shared.resource_control.accepted(),
                ..old(self)@
            }),
    {
        self.state_bags = shared.state_bags;
        self.routing = shared.routing;
        self.world = shared.entity_world;
        self.kvp = shared.kvp;
        self.http = shared.http;
        self.resource_control = shared.resource_control;
    }

    /// Let another resource call.
    pub fn act_for(&mut self, resource: &str)
        requires
            old(self).wf(),
        ensures
            final(self).wf(),
            final(self)@ == (NativesModel { resource: resource@, ..old(self)@ }),
    {
        self.resource = resource.to_owned();
    }
}

// --- console and events ---

/// Texts with tabs between them.
pub open spec fn tabbed(parts: Seq<Seq<char>>) -> Seq<char>
    decreases parts.len(),
{
    if parts.len() == 0 {
        Seq::empty()
    } else if parts.len() == 1 {
        parts[0]
    } else {
        tabbed(parts.drop_last()) + "\t"@ + parts.last()
    }
}

fn join_parts(parts: &Vec<String>) -> (text: String)
    ensures
        text@ == tabbed(texts(parts@)),
{
    let ghost all = texts(parts@);
    let mut text = String::new();
    let mut i: usize = 0;
    assert(text@ =~= tabbed(all.take(0)));
    while i < parts.len()
        invariant
            i <= parts@.len() == all.len(),
            all == texts(parts@),
            text@ == tabbed(all.take(i as int)),
        decreases parts@.len() - i,
    {
        let ghost before = text@;
        if i > 0 {
            text.append("\t");
        }
        text.append(parts[i].as_str());
        proof {
            assert(all.take(i + 1).drop_last() =~= all.take(i as int));
            assert(all.take(i + 1).last() == parts@[i as int]@);
            if i == 0 {
                assert(before =~= Seq::empty());
                assert(text@ =~= all.take(1)[0]);
            }
        }
        i = i + 1;
    }
    assert(all.take(i as int) =~= all);
    text
}

impl<R: RoutingControl, C: ResourceControl> Natives<R, C> {
    /// `print`: one console line, the parts with tabs between them.
    pub fn print(&mut self, parts: &Vec<String>)
        requires
            old(self).wf(),
        ensures
            final(self).wf(),
            final(self)@ == (NativesModel {
                console: logged(
                    old(self)@.console,
                    console_line(old(self)@.resource, tabbed(texts(parts@))),
                ),
                ..old(self)@
            }),
    {
        let line = join_parts(parts);
        self.console.log(self.resource.as_str(), line.as_str());
    }

    /// `TriggerClientEvent(name, target, ...args)`: a negative target means everyone.
    /// `false` means that the event was dropped: the bridge is full or closed.
    pub fn trigger_client_event(&mut self, event: String, target: i64, args_json: String) -> (sent:
        bool)
        requires
            old(self).wf(),
        ensures
            final(self).wf(),
            sent == net_takes(old(self)@.net),
            final(self)@ == (NativesModel {
                net: net_sent(
                    old(self)@.net,
                    OutboundModel::ClientEvent {
                        target: target_of(target as int),
                        event: event@,
                        args_json: args_json@,
                    },
                ),
                ..old(self)@
            }),
    {
        self.net.send(
            NetOutbound::ClientEvent {
                target: EventTarget::from_script(target),
                event,
                args_json,
            },
        )
    }

    /// `AddStateBagChangeHandler`: the callback stays with the script. Empty filters
    /// match everything.
    pub fn add_state_bag_handler(
        &mut self,
        key_filter: String,
        bag_filter: String,
        callback_id: u32,
    ) -> (cookie: u32)
        requires
            old(self).wf(),
        ensures
            final(self).wf(),
            cookie == next_cookie(old(self)@.bags.cookie),
            final(self)@ == (NativesModel {
                bags: StateBagModel {
                    handlers: old(self)@.bags.handlers.insert(
                        cookie,
                        HandlerModel {
                            resource: old(self)@.resource,
                            callback_id,
                            key_filter: normalized(Some(key_filter@)),
                            bag_filter: normalized(Some(bag_filter@)),
                        },
                    ),
                    cookie,
                    ..old(self)@.bags
                },
                ..old(self)@
            }),
    {
        self.state_bags.add_handler(
            self.resource.as_str(),
            Some(key_filter),
            Some(bag_filter),
            callback_id,
        )
    }

    /// `RemoveStateBagChangeHandler`: a resource can take back its own handlers only.
    pub fn remove_state_bag_handler(&mut self, cookie: u32) -> (removed: bool)
        requires
            old(self).wf(),
        ensures
            final(self).wf(),
            removed == (old(self)@.bags.handlers.contains_key(cookie)
                && old(self)@.bags.handlers[cookie].resource == old(self)@.resource),
            final(self)@ == if removed {
                NativesModel {
                    bags: StateBagModel {
                        handlers: old(self)@.bags.handlers.remove(cookie),
                        ..old(self)@.bags
                    },
                    ..old(self)@
                }
            } else {
                old(self)@
            },
    {
        self.state_bags.remove_handler(self.resource.as_str(), cookie)
    }

    /// Hand the resource the changes that its handlers have not seen, as a JSON array.
    pub fn poll_state_bag_changes(&mut self) -> (text: String)
        requires
            old(self).wf(),
        ensures
            final(self).wf(),
            ({
                let m = old(self)@;
                let queue = queue_of(m.bags.pending, m.resource);
                &&& text@ == json_text(deliveries_json(polled(queue)))
                &&& final(self)@ == (NativesModel {
                    bags: StateBagModel {
                        pending: if MAX_DELIVERIES_PER_POLL < queue.len() {
                            m.bags.pending.insert(
                                m.resource,
                                queue.skip(MAX_DELIVERIES_PER_POLL as int),
                            )
                        } else {
                            m.bags.pending.remove(m.resource)
                        },
                        ..m.bags
                    },
                    ..m
                })
            }),
    {
        self.state_bags.poll_changes(self.resource.as_str())
    }
}

/// `GetPlayerFromIndex`: the player at a position, or zero.
pub fn player_from_index(sources: &Vec<u32>, index: u32) -> (source: u32)
    ensures
        source == if index < sources@.len() {
            sources@[index as int]
        } else {
            0
        },
{
    let n: usize = sources.len();
    if (index as u64) < n as u64 {
        sources[index as usize]
    } else {
        0
    }
}

// --- carrying out what the natives asked for ---

/// The effects that are no native calls.
pub open spec fn without_calls(effects: Seq<EffectModel>) -> Seq<EffectModel>
    decreases effects.len(),
{
    if effects.len() == 0 {
        Seq::empty()
    } else {
        let before = without_calls(effects.drop_last());
        if effects.last() is Called {
            before
        } else {
            before.push(effects.last())
        }
    }
}

/// The collector after the native calls among some effects. A call that named no client
/// never left, so it is not measured.
pub open spec fn after_calls(
    obs: ObsModel,
    resource: Seq<char>,
    effects: Seq<EffectModel>,
    duration_us: u64,
    at: Moment,
) -> ObsModel
    decreases effects.len(),
{
    if effects.len() == 0 {
        obs
    } else {
        let before = after_calls(obs, resource, effects.drop_last(), duration_us, at);
        match effects.last() {
            EffectModel::Called { hash, target: Some(source), outcome, .. } => after_roundtrip(
                before,
                RoundtripModel {
                    resource,
                    hash,
                    source,
                    duration_us,
                    timed_out: false,
                    errored: outcome is Err,
                },
                at,
            ),
            _ => before,
        }
    }
}

/// What some commands ask for.
pub open spec fn command_models(commands: Seq<WorldCommand>) -> WorldCommands {
    commands.map_values(|c: WorldCommand| c@)
}

/// The changes of the world among some effects.
pub open spec fn world_commands(effects: Seq<EffectModel>) -> WorldCommands
    decreases effects.len(),
{
    if effects.len() == 0 {
        Seq::empty()
    } else {
        let before = world_commands(effects.drop_last());
        match effects.last() {
            EffectModel::World(command) => before.push(command),
            _ => before,
        }
    }
}

/// The effects that are no changes of the world.
pub open spec fn without_world(effects: Seq<EffectModel>) -> Seq<EffectModel>
    decreases effects.len(),
{
    if effects.len() == 0 {
        Seq::empty()
    } else {
        let before = without_world(effects.drop_last());
        if effects.last() is World {
            before
        } else {
            before.push(effects.last())
        }
    }
}

/// The id in reserve after the world was asked: one that is held already stays, and the
/// world is not asked. Otherwise it is the one that the world hands out, for the first
/// time; none where the world has none left.
pub open spec fn served_id(
    held: Option<u32>,
    exhausted: bool,
    handed_out: ReservedIds,
    after: Option<u32>,
    handed_out_after: ReservedIds,
) -> bool {
    if held is Some || exhausted {
        after == held && handed_out_after == handed_out
    } else {
        after matches Some(id) && !handed_out.contains(id) && handed_out_after == handed_out.push(
            id,
        )
    }
}

impl<R: RoutingControl, C: ResourceControl> Natives<R, C> {
    /// Take what the natives asked the host to do, and account for the native calls.
    pub fn take_effects(
        &mut self,
        observability: &mut Observability,
        duration_us: u64,
        at: Moment,
    ) -> (left: Vec<Effect>)
        requires
            old(self).wf(),
            old(observability).wf(),
        ensures
            final(self).wf(),
            final(observability).wf(),
            final(self)@ == (NativesModel { effects: Seq::empty(), ..old(self)@ }),
            effect_models(left@) == without_calls(old(self)@.effects),
            final(observability)@ == after_calls(
                old(observability)@,
                old(self)@.resource,
                old(self)@.effects,
                duration_us,
                at,
            ),
    {
        let mut effects: Vec<Effect> = Vec::new();
        std::mem::swap(&mut effects, &mut self.effects);
        assert(self@.effects =~= Seq::empty());
        let ghost all = effect_models(effects@);
        let ghost mut done: int = 0;
        let mut left: Vec<Effect> = Vec::new();
        assert(effect_models(left@) =~= without_calls(all.take(0)));
        assert(effect_models(effects@) =~= all.skip(0));
        while effects.len() > 0
            invariant
                self.wf(),
                observability.wf(),
                self@ == (NativesModel { effects: Seq::empty(), ..old(self)@ }),
                all == old(self)@.effects,
                0 <= done <= all.len(),
                effect_models(effects@) == all.skip(done),
                effect_models(left@) == without_calls(all.take(done)),
                observability@ == after_calls(
                    old(observability)@,
                    old(self)@.resource,
                    all.take(done),
                    duration_us,
                    at,
                ),
            decreases effects@.len(),
        {
            let ghost rest = effects@;
            let ghost kept = left@;
            proof {
                assert(effect_models(rest).len() == all.len() - done);
                assert(all.take(done + 1).drop_last() =~= all.take(done));
                assert(all.take(done + 1).last() == effect_models(rest)[0]);
            }
            let effect = effects.remove(0);
            assert(effect_models(effects@) =~= all.skip(done + 1)) by {
                assert forall|j: int| 0 <= j < effects@.len() implies #[trigger] effects@[j]@
                    == all[done + 1 + j] by {
                    assert(effect_models(rest)[j + 1] == all.skip(done)[j + 1]);
                }
            }
            match effect {
                Effect::Called { hash, target, outcome, .. } => {
                    if let Some(source) = target {
                        let roundtrip = NativeRoundtrip {
                            resource: self.resource.clone(),
                            hash,
                            source,
                            duration_us,
                            timed_out: false,
                            errored: outcome.is_err(),
                        };
                        observability.record_native_roundtrip(&roundtrip, at);
                    }
                },
                other => {
                    let ghost model = other@;
                    left.push(other);
                    assert(effect_models(left@) =~= effect_models(kept).push(model));
                },
            }
            proof {
                done = done + 1;
            }
        }
        assert(all.take(done) =~= all);
        left
    }

    /// Take what the natives asked of the world, oldest first.
    pub fn take_world_commands(&mut self) -> (commands: Vec<WorldCommand>)
        requires
            old(self).wf(),
        ensures
            final(self).wf(),
            command_models(commands@) == world_commands(old(self)@.effects),
            final(self)@ == (NativesModel {
                effects: without_world(old(self)@.effects),
                ..old(self)@
            }),
    {
        let mut effects: Vec<Effect> = Vec::new();
        std::mem::swap(&mut effects, &mut self.effects);
        let ghost all = effect_models(effects@);
        let ghost mut done: int = 0;
        let mut commands: Vec<WorldCommand> = Vec::new();
        assert(self@.effects =~= without_world(all.take(0)));
        assert(command_models(commands@) =~= world_commands(all.take(0)));
        assert(effect_models(effects@) =~= all.skip(0));
        while effects.len() > 0
            invariant
                self.wf(),
                all == old(self)@.effects,
                0 <= done <= all.len(),
                effect_models(effects@) == all.skip(done),
                command_models(commands@) == world_commands(all.take(done)),
                self@ == (NativesModel {
                    effects: without_world(all.take(done)),
                    ..old(self)@
                }),
            decreases effects@.len(),
        {
            let ghost rest = effects@;
            let ghost kept = self.effects@;
            let ghost taken = commands@;
            proof {
                assert(effect_models(rest).len() == all.len() - done);
                assert(all.take(done + 1).drop_last() =~= all.take(done));
                assert(all.take(done + 1).last() == effect_models(rest)[0]);
            }
            let effect = effects.remove(0);
            assert(effect_models(effects@) =~= all.skip(done + 1)) by {
                assert forall|j: int| 0 <= j < effects@.len() implies #[trigger] effects@[j]@
                    == all[done + 1 + j] by {
                    assert(effect_models(rest)[j + 1] == all.skip(done)[j + 1]);
                }
            }
            match effect {
                Effect::World(command) => {
                    let ghost model = command@;
                    commands.push(command);
                    assert(command_models(commands@) =~= command_models(taken).push(model));
                },
                other => {
                    let ghost model = other@;
                    self.effects.push(other);
                    assert(effect_models(self.effects@) =~= effect_models(kept).push(model));
                },
            }
            proof {
                done = done + 1;
            }
        }
        assert(all.take(done) =~= all);
        commands
    }

    /// Have the id that the world reserved for the next entity, unless there is one in
    /// reserve already.
    pub fn hold_in_reserve(&mut self, id: Option<u32>)
        requires
            old(self).wf(),
        ensures
            final(self).wf(),
            final(self)@ == (NativesModel {
                reserved: match old(self)@.reserved {
                    Some(held) => Some(held),
                    None => id,
                },
                ..old(self)@
            }),
    {
        if self.reserved.is_none() {
            self.reserved = id;
        }
    }

    /// Have an id of the world in reserve for the next entity, and hand the world what the
    /// natives asked of it. Which id that is, the world decides.
    pub fn serve_world<W: WorldControl>(&mut self, world: &mut W)
        requires
            old(self).wf(),
        ensures
            final(self).wf(),
            served_id(
                old(self)@.reserved,
                old(world).exhausted(),
                old(world).handed_out(),
                final(self)@.reserved,
                final(world).handed_out(),
            ),
            final(self)@ == (NativesModel {
                effects: without_world(old(self)@.effects),
                reserved: final(self)@.reserved,
                ..old(self)@
            }),
            final(world).takes() == old(world).takes(),
            final(world).asked() == if old(world).takes() {
                old(world).asked() + world_commands(old(self)@.effects)
            } else {
                old(world).asked()
            },
    {
        let mut commands = self.take_world_commands();
        if self.reserved.is_none() {
            let id: Option<u32> = world.reserve_network_id();
            self.hold_in_reserve(id);
        }
        let ghost served = self@;
        let ghost reserved = world.handed_out();
        let ghost all = command_models(commands@);
        let ghost mut done: int = 0;
        proof {
            assert(old(world).asked() + all.take(0) =~= old(world).asked());
            assert(all.skip(0) =~= all);
        }
        while commands.len() > 0
            invariant
                self.wf(),
                self@ == served,
                0 <= done <= all.len(),
                command_models(commands@) == all.skip(done),
                world.takes() == old(world).takes(),
                world.handed_out() == reserved,
                world.asked() == if old(world).takes() {
                    old(world).asked() + all.take(done)
                } else {
                    old(world).asked()
                },
            decreases commands@.len(),
        {
            let ghost rest = commands@;
            assert(command_models(rest).len() == all.len() - done);
            assert(command_models(rest)[0] == all[done]);
            let command = commands.remove(0);
            assert(command_models(commands@) =~= all.skip(done + 1)) by {
                assert forall|j: int| 0 <= j < commands@.len() implies #[trigger] commands@[j]@
                    == all[done + 1 + j] by {
                    assert(command_models(rest)[j + 1] == all.skip(done)[j + 1]);
                }
            }
            world.submit(command);
            proof {
                assert(old(world).asked() + all.take(done + 1) =~= (old(world).asked() + all.take(
                    done,
                )).push(all[done]));
                done = done + 1;
            }
        }
        assert(all.take(done) =~= all);
    }
}

} // verus!
