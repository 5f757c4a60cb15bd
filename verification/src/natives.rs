//! The CFX natives, independent of any scripting engine.
//!
//! A native takes its arguments as JSON and answers with JSON, so one implementation
//! serves every runtime. What a native does outside the library (telling the world, the
//! voice server, the disk) is recorded in the state for the host to carry out.
use crate::args::{
    arg_any, arg_bool, arg_handle, arg_i64, arg_netid, arg_real, arg_target, arg_text, args_of,
    json_arg_any, json_arg_bool, json_arg_handle, json_arg_i64, json_arg_netid, json_arg_real,
    json_arg_string, json_arg_target, json_args,
};
use crate::console::{lines_text, ConsoleBuffer};
use crate::convars::Convars;
use crate::engine::texts;
use crate::entity_world::{
    found, of_type, owner_of, point_of, type_number, EntityWorldView, Point, ScriptEntityType,
    WorldCommand, WorldCommandModel, WorldModel,
};
use crate::http_bridge::{
    next_token, parse_request, parsed_request, BridgeModel, HttpBridge, REQUEST_CAPACITY,
};
use crate::json::{
    array_of, display_float, float_display, float_read, json_text, models, numbers, parse_float,
    Json, JsonModel,
};
use crate::kvp::{flat, keys_under, written, KvpModel, KvpStore};
use crate::named::{finite_names_have_a_listing, lists_names, names_in_order};
use crate::natives_world::{first_of, id_or_zero, optional_json, try_dispatch, world_answer};
use crate::net_bridge::{net_sent, NetBridge, NetModel, NetOutbound, OutboundModel};
use crate::ordered::{lists, listing_of, lemma_is_listing, IdSet};
use crate::password::{password_hash, password_matches, verify_password};
use crate::resource_control::{CommandModel, ResourceCommand, ResourceControl};
use crate::routing::{
    assigned, bumped, lockdown_of, or_default, RoutingControl, RoutingLockdownMode, RoutingModel,
};
use crate::rpc::{
    dispatch, dispatched, resolve_target, routed, RouteModel, RpcTable, SkipReason,
};
use crate::slots::SlotMap;
use crate::state_bag::{
    after_change, bag_id, bag_name, bag_of, change_of, entity_from_state_bag_name,
    entity_state_bag_name, next_cookie, normalized, optional, player_from_state_bag_name, value_of,
    HandlerModel, SourceModel, StateBagModel, StateBagSource, StateBagStore,
};
use crate::tally::one_more;
use crate::text::{ascii_lower, chars_of, lowercased, print_decimal_int, same};
use vstd::prelude::*;

verus! {

/// A handle that a script created and no client simulates.
#[derive(Debug)]
pub struct SyntheticEntity {
    pub entity_type: ScriptEntityType,
    pub model: i64,
    pub coords: [String; 3],
    pub heading: String,
    pub health: i64,
    pub routing_bucket: u32,
    /// The vehicle a ped was created in, and its seat.
    pub vehicle: Option<(i64, i64)>,
}

/// The origin.
pub open spec fn origin() -> Point {
    Point { x: "0.0"@, y: "0.0"@, z: "0.0"@ }
}

/// A point as a JSON array.
pub open spec fn point_json(p: Point) -> JsonModel {
    array_of(seq![JsonModel::Real(p.x), JsonModel::Real(p.y), JsonModel::Real(p.z)])
}

/// The point that three arguments stand for.
pub open spec fn arg_point(args: Seq<JsonModel>, first: int) -> Point {
    Point {
        x: arg_real(args, first),
        y: arg_real(args, first + 1),
        z: arg_real(args, first + 2),
    }
}

/// What a [`SyntheticEntity`] is.
#[verifier::ext_equal]
pub struct SyntheticModel {
    pub entity_type: ScriptEntityType,
    pub model: i64,
    pub coords: Point,
    pub heading: Seq<char>,
    pub health: i64,
    pub routing_bucket: u32,
    pub vehicle: Option<(i64, i64)>,
}

impl View for SyntheticEntity {
    type V = SyntheticModel;

    open spec fn view(&self) -> SyntheticModel {
        SyntheticModel {
            entity_type: self.entity_type,
            model: self.model,
            coords: point_of(self.coords),
            heading: self.heading@,
            health: self.health,
            routing_bucket: self.routing_bucket,
            vehicle: self.vehicle,
        }
    }
}

/// Something that a native asks the host to do.
#[derive(Debug)]
pub enum Effect {
    /// Change the authoritative world.
    World(WorldCommand),
    /// Drop a player.
    DropPlayer(u32),
    /// Write the key/value store.
    WriteKvp(String),
    /// Create a voice channel.
    CreateChannel(u32),
    /// Mute a player, or take that back.
    MutePlayer(u32, bool),
    /// Place a player's voice somewhere else, or take that back.
    PlaceVoice(u32, Option<[String; 3]>),
    /// A native call went out to a client, or was dropped; and the client it was meant
    /// for, where there is one.
    Called { native: String, hash: u64, target: Option<u32>, outcome: Result<u32, SkipReason> },
    /// A native that there is none of was called and answered neutrally: a silent neutral
    /// value would be indistinguishable from a real answer.
    Unimplemented { native: String, result_kind: String },
}

/// What an [`Effect`] asks for.
#[verifier::ext_equal]
pub enum EffectModel {
    World(WorldCommandModel),
    DropPlayer(u32),
    WriteKvp(Seq<char>),
    CreateChannel(u32),
    MutePlayer(u32, bool),
    PlaceVoice(u32, Option<Point>),
    Called {
        native: Seq<char>,
        hash: u64,
        target: Option<u32>,
        outcome: Result<u32, SkipReason>,
    },
    Unimplemented { native: Seq<char>, result_kind: Seq<char> },
}

impl View for Effect {
    type V = EffectModel;

    open spec fn view(&self) -> EffectModel {
        match self {
            Effect::World(command) => EffectModel::World(command@),
            Effect::DropPlayer(source) => EffectModel::DropPlayer(*source),
            Effect::WriteKvp(text) => EffectModel::WriteKvp(text@),
            Effect::CreateChannel(id) => EffectModel::CreateChannel(*id),
            Effect::MutePlayer(netid, muted) => EffectModel::MutePlayer(*netid, *muted),
            Effect::PlaceVoice(netid, place) => EffectModel::PlaceVoice(
                *netid,
                match place {
                    Some(texts) => Some(point_of(*texts)),
                    None => None,
                },
            ),
            Effect::Called { native, hash, target, outcome } => EffectModel::Called {
                native: native@,
                hash: *hash,
                target: *target,
                outcome: *outcome,
            },
            Effect::Unimplemented { native, result_kind } => EffectModel::Unimplemented {
                native: native@,
                result_kind: result_kind@,
            },
        }
    }
}

/// What the voice server answers to the question a native puts to it.
#[derive(Debug)]
pub struct VoiceAnswer {
    pub channel_exists: bool,
    pub player_muted: bool,
    pub proximity: [String; 3],
}

/// What the voice server is asked before a native runs.
#[derive(Debug, Clone, Copy, PartialEq, Eq, Structural)]
pub enum VoiceQuestion {
    ChannelExists(u32),
    PlayerMuted(u32),
    Proximity(u32),
}

/// What everything that the natives work on holds.
pub struct NativesModel {
    /// The resource that calls.
    pub resource: Seq<char>,
    /// The resources there are, in the order in which they are searched.
    pub loaded: Seq<Seq<char>>,
    pub bags: StateBagModel,
    pub kvp: KvpModel,
    pub routing: RoutingModel,
    pub world: WorldModel,
    pub convars: Map<Seq<char>, Seq<char>>,
    pub console: Seq<Seq<char>>,
    pub http: Option<BridgeModel>,
    /// Whether the next lifecycle command would be accepted.
    pub accepts: bool,
    /// The lifecycle commands that were accepted.
    pub accepted: Seq<CommandModel>,
    pub net: NetModel,
    pub players: u32,
    pub synthetic: Map<u32, SyntheticModel>,
    pub next_synthetic: u32,
    /// The network id that the world has reserved for the next entity, if it has one.
    pub reserved: Option<u32>,
    pub routes: Map<Seq<char>, RouteModel>,
    pub next_call: u64,
    pub effects: Seq<EffectModel>,
}

/// Everything that the natives work on.
pub struct Natives<R: RoutingControl, C: ResourceControl> {
    /// The resource that calls.
    pub resource: String,
    /// The resources there are, in the order in which they are searched.
    pub loaded: Vec<String>,
    pub state_bags: StateBagStore,
    pub kvp: KvpStore,
    pub routing: R,
    pub world: EntityWorldView,
    pub convars: Convars,
    pub console: ConsoleBuffer,
    pub http: Option<HttpBridge>,
    pub resource_control: C,
    pub net: NetBridge,
    pub players: u32,
    pub synthetic: SlotMap<SyntheticEntity>,
    pub next_synthetic: u32,
    /// The network id that the world has reserved for the next entity, if it has one. A
    /// script needs its handle back from `CreateVehicle` immediately, while the entity
    /// itself is authored on the world's next tick.
    pub reserved: Option<u32>,
    pub table: RpcTable,
    pub next_call: u64,
    /// What the host has still to carry out, oldest first.
    pub effects: Vec<Effect>,
}

pub open spec fn synthetic_models(entities: Map<u32, SyntheticEntity>) -> Map<u32, SyntheticModel> {
    entities.map_values(|e: SyntheticEntity| e@)
}

pub open spec fn effect_models(effects: Seq<Effect>) -> Seq<EffectModel> {
    effects.map_values(|e: Effect| e@)
}

impl<R: RoutingControl, C: ResourceControl> View for Natives<R, C> {
    type V = NativesModel;

    open spec fn view(&self) -> NativesModel {
        NativesModel {
            resource: self.resource@,
            loaded: texts(self.loaded@),
            bags: self.state_bags@,
            kvp: self.kvp@,
            routing: self.routing.routing(),
            world: self.world@,
            convars: self.convars@,
            console: self.console@,
            http: match self.http {
                Some(bridge) => Some(bridge@),
                None => None,
            },
            accepts: self.resource_control.accepts(),
            accepted: self.resource_control.accepted(),
            net: self.net@,
            players: self.players,
            synthetic: synthetic_models(self.synthetic@),
            next_synthetic: self.next_synthetic,
            reserved: self.reserved,
            routes: self.table@,
            next_call: self.next_call,
            effects: effect_models(self.effects@),
        }
    }
}

/// The state with one more effect.
pub open spec fn with_effect(m: NativesModel, effect: EffectModel) -> NativesModel {
    NativesModel { effects: m.effects.push(effect), ..m }
}

impl<R: RoutingControl, C: ResourceControl> Natives<R, C> {
    pub open spec fn wf(&self) -> bool {
        &&& self.state_bags.wf()
        &&& self.kvp.wf()
        &&& self.routing.routing_wf()
        &&& self.world.wf()
        &&& self.console.wf()
        &&& self.http matches Some(bridge) ==> bridge.wf()
        &&& self.synthetic.wf()
        &&& self.table.wf()
    }

    /// The keys that `GET_STATE_BAG_KEYS` answers with are exactly those of the bag, in
    /// ascending order.
    pub proof fn bag_keys_are_listed(&self, bag: Seq<char>)
        requires
            self.wf(),
        ensures
            lists_names(
                names_in_order(bag_of(self@.bags, bag).dom()),
                bag_of(self@.bags, bag).dom(),
            ),
    {
        self.state_bags.lemma_finite(bag);
        finite_names_have_a_listing(bag_of(self@.bags, bag).dom());
    }

    fn effect(&mut self, effect: Effect)
        requires
            old(self).wf(),
        ensures
            final(self).wf(),
            final(self)@ == with_effect(old(self)@, effect@),
    {
        let ghost before = self.effects@;
        let ghost model = effect@;
        self.effects.push(effect);
        assert(effect_models(self.effects@) =~= effect_models(before).push(model));
    }

    fn miss(&mut self, native: &str, result_kind: &str)
        requires
            old(self).wf(),
        ensures
            final(self).wf(),
            final(self)@ == missed(old(self)@, native@, result_kind@),
    {
        self.effect(
            Effect::Unimplemented {
                native: native.to_owned(),
                result_kind: result_kind.to_owned(),
            },
        );
    }
}

// --- state bags ---

pub open spec fn with_bags(m: NativesModel, bags: StateBagModel) -> NativesModel {
    NativesModel { bags, ..m }
}

/// What an optional value is; null where there is none.
pub open spec fn or_null(value: Option<JsonModel>) -> JsonModel {
    match value {
        Some(v) => v,
        None => JsonModel::Null,
    }
}

/// What the state-bag natives do and answer.
pub open spec fn bag_step(m: NativesModel, name: Seq<char>, args: Seq<JsonModel>) -> Option<
    (NativesModel, JsonModel),
> {
    if name == "ADD_STATE_BAG_CHANGE_HANDLER"@ {
        let cookie = next_cookie(m.bags.cookie);
        Some(
            (
                with_bags(
                    m,
                    StateBagModel {
                        handlers: m.bags.handlers.insert(
                            cookie,
                            HandlerModel {
                                resource: m.resource,
                                callback_id: arg_handle(args, 2),
                                key_filter: normalized(Some(arg_text(args, 0))),
                                bag_filter: normalized(Some(arg_text(args, 1))),
                            },
                        ),
                        cookie,
                        ..m.bags
                    },
                ),
                JsonModel::Unsigned(cookie as u64),
            ),
        )
    } else if name == "ENSURE_ENTITY_STATE_BAG"@ {
        let bag = bag_name("entity:"@, arg_netid(args, 0));
        Some(
            (
                with_bags(
                    m,
                    StateBagModel {
                        bags: m.bags.bags.insert(bag, bag_of(m.bags, bag)),
                        ..m.bags
                    },
                ),
                JsonModel::Null,
            ),
        )
    } else if name == "REMOVE_STATE_BAG_CHANGE_HANDLER"@ {
        let cookie = arg_handle(args, 0);
        let owned = m.bags.handlers.contains_key(cookie) && m.bags.handlers[cookie].resource
            == m.resource;
        Some(
            (
                if owned {
                    with_bags(
                        m,
                        StateBagModel { handlers: m.bags.handlers.remove(cookie), ..m.bags },
                    )
                } else {
                    m
                },
                JsonModel::Null,
            ),
        )
    } else if name == "GET_STATE_BAG_KEYS"@ {
        let keys = names_in_order(bag_of(m.bags, arg_text(args, 0)).dom());
        Some((m, array_of(keys.map_values(|k: Seq<char>| JsonModel::Text(k)))))
    } else if name == "GET_ENTITY_FROM_STATE_BAG_NAME"@ {
        Some((m, bag_id_json(bag_id(arg_text(args, 0), "entity:"@))))
    } else if name == "GET_PLAYER_FROM_STATE_BAG_NAME"@ {
        Some((m, bag_id_json(bag_id(arg_text(args, 0), "player:"@))))
    } else if name == "GET_STATE_BAG_VALUE"@ {
        Some((m, or_null(value_of(m.bags, arg_text(args, 0), arg_text(args, 1)))))
    } else if name == "STATE_BAG_HAS_KEY"@ {
        Some(
            (
                m,
                JsonModel::Bool(value_of(m.bags, arg_text(args, 0), arg_text(args, 1)) is Some),
            ),
        )
    } else if name == "SET_STATE_BAG_VALUE"@ {
        let change = change_of(
            m.bags,
            arg_text(args, 0),
            arg_text(args, 1),
            arg_any(args, 2),
            arg_bool(args, 4),
            SourceModel { resource: Some(m.resource), player: None },
        );
        Some((with_bags(m, after_change(m.bags, change)), JsonModel::Null))
    } else {
        None
    }
}

/// The id of a bag name as JSON; zero where it has none.
pub open spec fn bag_id_json(id: Option<nat>) -> JsonModel {
    JsonModel::Unsigned(
        match id {
            Some(n) => n as u64,
            None => 0,
        },
    )
}

/// Whether a native did and answered what it should: nothing at all where it is none of
/// the natives in question.
pub open spec fn took(
    step: Option<(NativesModel, JsonModel)>,
    before: NativesModel,
    after: NativesModel,
    value: Option<JsonModel>,
) -> bool {
    match step {
        Some((m, answer)) => after == m && value == Some(answer),
        None => after == before && value is None,
    }
}

impl<R: RoutingControl, C: ResourceControl> Natives<R, C> {
    fn bag_native(&mut self, name: &str, args: &Vec<Json>) -> (value: Option<Json>)
        requires
            old(self).wf(),
        ensures
            final(self).wf(),
            took(
                bag_step(old(self)@, name@, models(args@)),
                old(self)@,
                final(self)@,
                optional_json(value),
            ),
    {
        if same(name, "ADD_STATE_BAG_CHANGE_HANDLER") {
            let callback_id: u32 = json_arg_handle(args, 2);
            let key = json_arg_string(args, 0);
            let bag = json_arg_string(args, 1);
            let cookie: u32 = self.state_bags.add_handler(
                self.resource.as_str(),
                Some(key),
                Some(bag),
                callback_id,
            );
            Some(Json::Unsigned(cookie as u64))
        } else if same(name, "ENSURE_ENTITY_STATE_BAG") {
            let bag = entity_state_bag_name(json_arg_netid(args, 0));
            self.state_bags.ensure_bag(bag.as_str());
            Some(Json::Null)
        } else if same(name, "REMOVE_STATE_BAG_CHANGE_HANDLER") {
            self.state_bags.remove_handler(self.resource.as_str(), json_arg_handle(args, 0));
            Some(Json::Null)
        } else if same(name, "GET_STATE_BAG_KEYS") {
            let bag = json_arg_string(args, 0);
            let keys = self.state_bags.keys(bag.as_str());
            proof {
                let names = names_in_order(bag_of(self@.bags, bag@).dom());
                assert(keys@.map_values(|s: String| JsonModel::Text(s@)) =~= names.map_values(
                    |k: Seq<char>| JsonModel::Text(k),
                )) by {
                    assert(names == keys@.map_values(|s: String| s@));
                }
            }
            Some(Json::texts(&keys))
        } else if same(name, "GET_ENTITY_FROM_STATE_BAG_NAME") {
            let bag = json_arg_string(args, 0);
            Some(
                match entity_from_state_bag_name(bag.as_str()) {
                    Some(id) => Json::Unsigned(id as u64),
                    None => Json::Unsigned(0),
                },
            )
        } else if same(name, "GET_PLAYER_FROM_STATE_BAG_NAME") {
            let bag = json_arg_string(args, 0);
            Some(
                match player_from_state_bag_name(bag.as_str()) {
                    Some(id) => Json::Unsigned(id as u64),
                    None => Json::Unsigned(0),
                },
            )
        } else if same(name, "GET_STATE_BAG_VALUE") {
            let bag = json_arg_string(args, 0);
            let key = json_arg_string(args, 1);
            Some(
                match self.state_bags.get(bag.as_str(), key.as_str()) {
                    Some(value) => value,
                    None => Json::Null,
                },
            )
        } else if same(name, "STATE_BAG_HAS_KEY") {
            let bag = json_arg_string(args, 0);
            let key = json_arg_string(args, 1);
            Some(Json::Bool(self.state_bags.contains_key(bag.as_str(), key.as_str())))
        } else if same(name, "SET_STATE_BAG_VALUE") {
            let bag = json_arg_string(args, 0);
            let key = json_arg_string(args, 1);
            let value = json_arg_any(args, 2);
            let replicated = json_arg_bool(args, 4);
            let source = StateBagSource::resource(self.resource.as_str());
            self.state_bags.set(bag.as_str(), key.as_str(), value, replicated, source);
            Some(Json::Null)
        } else {
            None
        }
    }
}

// --- the key/value store ---

/// The state after a change of the key/value store that had `text` to write.
pub open spec fn with_kvp(m: NativesModel, kvp: KvpModel, text: Option<Seq<char>>) -> NativesModel {
    NativesModel {
        kvp,
        effects: match text {
            Some(t) => m.effects.push(EffectModel::WriteKvp(t)),
            None => m.effects,
        },
        ..m
    }
}

/// The store changed to `kvp`, and was flushed where that was asked for.
pub open spec fn kvp_saved(m: NativesModel, kvp: KvpModel, sync: bool, after: NativesModel) -> bool {
    exists|text: Option<Seq<char>>|
        #![trigger with_kvp(m, after.kvp, text)]
        written(kvp, sync, after.kvp, text) && after == with_kvp(m, after.kvp, text)
}

/// The store with a value.
pub open spec fn kvp_with(m: NativesModel, key: Seq<char>, value: Seq<char>) -> KvpModel {
    KvpModel { entries: m.kvp.entries.insert(flat(m.resource, key), value), dirty: true, ..m.kvp }
}

/// The store without a value.
pub open spec fn kvp_without(m: NativesModel, key: Seq<char>) -> KvpModel {
    KvpModel { entries: m.kvp.entries.remove(flat(m.resource, key)), dirty: true, ..m.kvp }
}

/// The value that a resource has stored.
pub open spec fn kvp_value(m: NativesModel, key: Seq<char>) -> Option<Seq<char>> {
    if m.kvp.entries.contains_key(flat(m.resource, key)) {
        Some(m.kvp.entries[flat(m.resource, key)])
    } else {
        None
    }
}

/// A stored value as a number with a fraction: zero where it is none, null where it is
/// not finite.
pub open spec fn kvp_real(value: Option<Seq<char>>) -> JsonModel {
    match value {
        Some(text) => match float_read(text) {
            Some(Some(number)) => JsonModel::Real(number),
            Some(None) => JsonModel::Null,
            None => JsonModel::Real("0.0"@),
        },
        None => JsonModel::Real("0.0"@),
    }
}

/// A stored value as a whole number: zero where it is none.
pub open spec fn kvp_int(value: Option<Seq<char>>) -> JsonModel {
    match value {
        Some(text) => match crate::text::parsed_signed(text, i64::MIN as int, i64::MAX as int) {
            Some(n) => crate::natives_world::int_json(n),
            None => JsonModel::Unsigned(0),
        },
        None => JsonModel::Unsigned(0),
    }
}

/// What the key/value natives do and answer.
pub open spec fn kvp_step(
    m: NativesModel,
    name: Seq<char>,
    args: Seq<JsonModel>,
    after: NativesModel,
    value: Option<JsonModel>,
) -> bool {
    let key = arg_text(args, 0);
    if name == "DELETE_RESOURCE_KVP"@ || name == "DELETE_RESOURCE_KVP_NO_SYNC"@ {
        kvp_saved(m, kvp_without(m, key), name == "DELETE_RESOURCE_KVP"@, after) && value == Some(
            JsonModel::Null,
        )
    } else if name == "FIND_KVP"@ {
        let keys = names_in_order(keys_under(m.kvp.entries, m.resource, key));
        lists_names(keys, keys_under(m.kvp.entries, m.resource, key)) && after == m && value == Some(
            array_of(keys.map_values(|k: Seq<char>| JsonModel::Text(k))),
        )
    } else if name == "FLUSH_RESOURCE_KVP"@ {
        kvp_saved(m, m.kvp, true, after) && value == Some(JsonModel::Null)
    } else if name == "GET_RESOURCE_KVP_FLOAT"@ {
        after == m && value == Some(kvp_real(kvp_value(m, key)))
    } else if name == "GET_RESOURCE_KVP_INT"@ {
        after == m && value == Some(kvp_int(kvp_value(m, key)))
    } else if name == "GET_RESOURCE_KVP_STRING"@ {
        after == m && value == Some(
            match kvp_value(m, key) {
                Some(text) => JsonModel::Text(text),
                None => JsonModel::Null,
            },
        )
    } else if name == "SET_RESOURCE_KVP"@ || name == "SET_RESOURCE_KVP_NO_SYNC"@ {
        kvp_saved(
            m,
            kvp_with(m, key, arg_text(args, 1)),
            name == "SET_RESOURCE_KVP"@,
            after,
        ) && value == Some(JsonModel::Null)
    } else if name == "SET_RESOURCE_KVP_FLOAT"@ || name == "SET_RESOURCE_KVP_FLOAT_NO_SYNC"@ {
        kvp_saved(
            m,
            kvp_with(m, key, float_display(arg_real(args, 1))),
            name == "SET_RESOURCE_KVP_FLOAT"@,
            after,
        ) && value == Some(JsonModel::Null)
    } else if name == "SET_RESOURCE_KVP_INT"@ || name == "SET_RESOURCE_KVP_INT_NO_SYNC"@ {
        kvp_saved(
            m,
            kvp_with(m, key, crate::text::decimal_int(arg_i64(args, 1) as int)),
            name == "SET_RESOURCE_KVP_INT"@,
            after,
        ) && value == Some(JsonModel::Null)
    } else {
        after == m && value is None
    }
}

impl<R: RoutingControl, C: ResourceControl> Natives<R, C> {
    /// Hand a text that the store has to have written to the host.
    fn write_kvp(&mut self, text: Option<String>)
        requires
            old(self).wf(),
        ensures
            final(self).wf(),
            final(self)@ == with_kvp(old(self)@, old(self)@.kvp, optional(text)),
    {
        if let Some(text) = text {
            self.effect(Effect::WriteKvp(text));
        }
    }

    /// Store a value of the calling resource.
    fn store_kvp(&mut self, key: &str, value: String, sync: bool)
        requires
            old(self).wf(),
        ensures
            final(self).wf(),
            kvp_saved(old(self)@, kvp_with(old(self)@, key@, value@), sync, final(self)@),
    {
        let text = self.kvp.set(self.resource.as_str(), key, value, sync);
        let ghost out = optional(text);
        self.write_kvp(text);
        assert(self@ == with_kvp(old(self)@, self@.kvp, out));
    }

    fn kvp_native(&mut self, name: &str, args: &Vec<Json>) -> (value: Option<Json>)
        requires
            old(self).wf(),
        ensures
            final(self).wf(),
            kvp_step(
                old(self)@,
                name@,
                models(args@),
                final(self)@,
                optional_json(value),
            ),
    {
        let key = json_arg_string(args, 0);
        if same(name, "DELETE_RESOURCE_KVP") || same(name, "DELETE_RESOURCE_KVP_NO_SYNC") {
            let sync = same(name, "DELETE_RESOURCE_KVP");
            let text = self.kvp.remove(self.resource.as_str(), key.as_str(), sync);
            let ghost out = optional(text);
            self.write_kvp(text);
            assert(self@ == with_kvp(old(self)@, self@.kvp, out));
            Some(Json::Null)
        } else if same(name, "FIND_KVP") {
            let keys = self.kvp.keys_with_prefix(self.resource.as_str(), key.as_str());
            proof {
                let names = names_in_order(
                    keys_under(self@.kvp.entries, self@.resource, key@),
                );
                assert(keys@.map_values(|s: String| JsonModel::Text(s@)) =~= names.map_values(
                    |k: Seq<char>| JsonModel::Text(k),
                )) by {
                    assert(names == keys@.map_values(|s: String| s@));
                }
            }
            Some(Json::texts(&keys))
        } else if same(name, "FLUSH_RESOURCE_KVP") {
            let text = self.kvp.flush();
            let ghost out = optional(text);
            self.write_kvp(text);
            assert(self@ == with_kvp(old(self)@, self@.kvp, out));
            Some(Json::Null)
        } else if same(name, "GET_RESOURCE_KVP_FLOAT") {
            let stored = self.kvp.get(self.resource.as_str(), key.as_str());
            Some(
                match stored {
                    Some(text) => match parse_float(text.as_str()) {
                        Some(Some(number)) => Json::Real(number),
                        Some(None) => Json::Null,
                        None => Json::Real("0.0".to_owned()),
                    },
                    None => Json::Real("0.0".to_owned()),
                },
            )
        } else if same(name, "GET_RESOURCE_KVP_INT") {
            let stored = self.kvp.get(self.resource.as_str(), key.as_str());
            Some(
                match stored {
                    Some(text) => match crate::text::parse_i64(text.as_str()) {
                        Some(n) => {
                            if n < 0 {
                                Json::Signed(n)
                            } else {
                                Json::Unsigned(n as u64)
                            }
                        },
                        None => Json::Unsigned(0),
                    },
                    None => Json::Unsigned(0),
                },
            )
        } else if same(name, "GET_RESOURCE_KVP_STRING") {
            let stored = self.kvp.get(self.resource.as_str(), key.as_str());
            Some(
                match stored {
                    Some(text) => Json::Text(text),
                    None => Json::Null,
                },
            )
        } else if same(name, "SET_RESOURCE_KVP") || same(name, "SET_RESOURCE_KVP_NO_SYNC") {
            let sync = same(name, "SET_RESOURCE_KVP");
            let text = json_arg_string(args, 1);
            self.store_kvp(key.as_str(), text, sync);
            Some(Json::Null)
        } else if same(name, "SET_RESOURCE_KVP_FLOAT") || same(
            name,
            "SET_RESOURCE_KVP_FLOAT_NO_SYNC",
        ) {
            let sync = same(name, "SET_RESOURCE_KVP_FLOAT");
            let text = display_float(json_arg_real(args, 1).as_str());
            self.store_kvp(key.as_str(), text, sync);
            Some(Json::Null)
        } else if same(name, "SET_RESOURCE_KVP_INT") || same(name, "SET_RESOURCE_KVP_INT_NO_SYNC") {
            let sync = same(name, "SET_RESOURCE_KVP_INT");
            let text = print_decimal_int(json_arg_i64(args, 1));
            self.store_kvp(key.as_str(), text, sync);
            Some(Json::Null)
        } else {
            None
        }
    }
}

// --- shared natives that only answer ---

/// What the shared natives that change nothing answer.
pub open spec fn shared_answer(resource: Seq<char>, name: Seq<char>, args: Seq<JsonModel>) -> Option<
    JsonModel,
> {
    if name == "CANCEL_EVENT"@ || name == "END_FIND_KVP"@ || name == "PROFILER_ENTER_SCOPE"@ || name
        == "PROFILER_EXIT_SCOPE"@ || name == "REGISTER_RESOURCE_AS_EVENT_HANDLER"@ || name
        == "REMOVE_CONVAR_CHANGE_LISTENER"@ || name == "TRIGGER_EVENT_INTERNAL"@ || name
        == "DELETE_FUNCTION_REFERENCE"@ || name == "EXECUTE_COMMAND"@ {
        Some(JsonModel::Null)
    } else if name == "ADD_CONVAR_CHANGE_LISTENER"@ || name == "GET_GAME_BUILD_NUMBER"@ || name
        == "GET_INSTANCE_ID"@ {
        Some(JsonModel::Unsigned(0))
    } else if name == "DUPLICATE_FUNCTION_REFERENCE"@ || name == "FORMAT_STACK_TRACE"@ {
        Some(JsonModel::Text(arg_text(args, 0)))
    } else if name == "GET_ENTITIES_IN_RADIUS"@ || name == "GET_GAME_POOL"@ || name
        == "GET_REGISTERED_COMMANDS"@ || name == "GET_RESOURCE_COMMANDS"@ {
        Some(array_of(Seq::empty()))
    } else if name == "GET_GAME_NAME"@ {
        Some(JsonModel::Text("gta5"@))
    } else if name == "GET_INVOKING_RESOURCE"@ {
        Some(JsonModel::Text(resource))
    } else if name == "IS_ACE_ALLOWED"@ || name == "IS_PRINCIPAL_ACE_ALLOWED"@ || name
        == "PROFILER_IS_RECORDING"@ || name == "WAS_EVENT_CANCELED"@ {
        Some(JsonModel::Bool(false))
    } else if name == "IS_DUPLICITY_VERSION"@ {
        Some(JsonModel::Bool(true))
    } else {
        None
    }
}

fn no_items() -> (value: Json)
    ensures
        value@ == array_of(Seq::empty()),
{
    let none: Vec<Json> = Vec::new();
    assert(models(none@) =~= Seq::empty());
    Json::array(&none)
}

fn shared_constant(resource: &str, name: &str, args: &Vec<Json>) -> (value: Option<Json>)
    ensures
        optional_json(value) == shared_answer(resource@, name@, models(args@)),
{
    if same(name, "CANCEL_EVENT") || same(name, "END_FIND_KVP") || same(
        name,
        "PROFILER_ENTER_SCOPE",
    ) || same(name, "PROFILER_EXIT_SCOPE") || same(name, "REGISTER_RESOURCE_AS_EVENT_HANDLER")
        || same(name, "REMOVE_CONVAR_CHANGE_LISTENER") || same(name, "TRIGGER_EVENT_INTERNAL")
        || same(name, "DELETE_FUNCTION_REFERENCE") || same(name, "EXECUTE_COMMAND") {
        Some(Json::Null)
    } else if same(name, "ADD_CONVAR_CHANGE_LISTENER") || same(name, "GET_GAME_BUILD_NUMBER")
        || same(name, "GET_INSTANCE_ID") {
        Some(Json::Unsigned(0))
    } else if same(name, "DUPLICATE_FUNCTION_REFERENCE") || same(name, "FORMAT_STACK_TRACE") {
        Some(Json::Text(json_arg_string(args, 0)))
    } else if same(name, "GET_ENTITIES_IN_RADIUS") || same(name, "GET_GAME_POOL") || same(
        name,
        "GET_REGISTERED_COMMANDS",
    ) || same(name, "GET_RESOURCE_COMMANDS") {
        Some(no_items())
    } else if same(name, "GET_GAME_NAME") {
        Some(Json::Text("gta5".to_owned()))
    } else if same(name, "GET_INVOKING_RESOURCE") {
        Some(Json::Text(resource.to_owned()))
    } else if same(name, "IS_ACE_ALLOWED") || same(name, "IS_PRINCIPAL_ACE_ALLOWED") || same(
        name,
        "PROFILER_IS_RECORDING",
    ) || same(name, "WAS_EVENT_CANCELED") {
        Some(Json::Bool(false))
    } else if same(name, "IS_DUPLICITY_VERSION") {
        Some(Json::Bool(true))
    } else {
        None
    }
}

/// What the shared natives do and answer: nothing where the name is none of theirs, so
/// the caller can fall through.
pub open spec fn shared_step(
    m: NativesModel,
    name: Seq<char>,
    args: Seq<JsonModel>,
    after: NativesModel,
    value: Option<JsonModel>,
) -> bool {
    if bag_step(m, name, args) is Some {
        took(bag_step(m, name, args), m, after, value)
    } else if shared_answer(m.resource, name, args) is Some {
        after == m && value == shared_answer(m.resource, name, args)
    } else {
        kvp_step(m, name, args, after, value)
    }
}

impl<R: RoutingControl, C: ResourceControl> Natives<R, C> {
    /// The shared CFX natives (KVP, state bags and the ones that only answer).
    ///
    /// `None` means "not one of the shared natives", so the caller can fall through
    /// instead of receiving a fabricated neutral value.
    pub fn shared_native_value(&mut self, name: &str, args: &Vec<Json>) -> (value: Option<Json>)
        requires
            old(self).wf(),
        ensures
            final(self).wf(),
            shared_step(
                old(self)@,
                name@,
                models(args@),
                final(self)@,
                optional_json(value),
            ),
    {
        if let Some(value) = self.bag_native(name, args) {
            return Some(value);
        }
        if let Some(value) = shared_constant(self.resource.as_str(), name, args) {
            return Some(value);
        }
        self.kvp_native(name, args)
    }
}

// --- entities ---

/// The handle that follows.
pub open spec fn next_handle(handle: u32) -> u32 {
    if handle == u32::MAX {
        0
    } else {
        (handle + 1) as u32
    }
}

/// The state with a new synthetic entity, in bucket zero.
pub open spec fn with_synthetic(m: NativesModel, id: u32, entity: SyntheticModel) -> NativesModel {
    NativesModel {
        synthetic: m.synthetic.insert(id, entity),
        routing: RoutingModel {
            entities: assigned(m.routing.entities, id, 0),
            revision: bumped(m.routing.revision),
            ..m.routing
        },
        ..m
    }
}

/// The state after a handle was made up for an entity, and the handle.
pub open spec fn made_up(m: NativesModel) -> (NativesModel, u32) {
    (
        NativesModel { next_synthetic: next_handle(m.next_synthetic), ..m },
        m.next_synthetic,
    )
}

/// The state after a handle was found for a new entity, and the handle. With an
/// authoritative world, the entity is networked and its handle is its network id.
/// Without one, the entity stays a server-local record so scripts that only read back
/// what they created keep working.
pub open spec fn handle_for(
    m: NativesModel,
    model: u32,
    dynamic: bool,
    entity: SyntheticModel,
) -> (NativesModel, u32) {
    match m.reserved {
        Some(id) => (
            with_effect(
                NativesModel { reserved: None, ..m },
                EffectModel::World(
                    WorldCommandModel::Spawn {
                        network_id: id,
                        entity_type: entity.entity_type,
                        model,
                        position: entity.coords,
                        heading: entity.heading,
                        dynamic,
                    },
                ),
            ),
            id,
        ),
        None => made_up(m),
    }
}

/// The state after an entity was created, and the answer.
pub open spec fn created(
    m: NativesModel,
    model: u32,
    dynamic: bool,
    entity: SyntheticModel,
) -> (NativesModel, JsonModel) {
    let (m1, id) = handle_for(m, model, dynamic, entity);
    (with_synthetic(m1, id, entity), JsonModel::Unsigned(id as u64))
}

/// A fresh entity.
pub open spec fn fresh_entity(
    entity_type: ScriptEntityType,
    model: i64,
    coords: Point,
    heading: Seq<char>,
    health: i64,
    vehicle: Option<(i64, i64)>,
) -> SyntheticModel {
    SyntheticModel { entity_type, model, coords, heading, health, routing_bucket: 0, vehicle }
}

/// What the natives that create and delete entities do and answer.
pub open spec fn creation_step(m: NativesModel, name: Seq<char>, args: Seq<JsonModel>) -> Option<
    (NativesModel, JsonModel),
> {
    if name == "CREATE_OBJECT"@ || name == "CREATE_OBJECT_NO_OFFSET"@ {
        Some(
            created(
                m,
                arg_handle(args, 0),
                arg_bool(args, 5),
                fresh_entity(
                    ScriptEntityType::Object,
                    arg_i64(args, 0),
                    arg_point(args, 1),
                    "0.0"@,
                    1000,
                    None,
                ),
            ),
        )
    } else if name == "CREATE_PED"@ {
        Some(
            created(
                m,
                arg_handle(args, 1),
                false,
                fresh_entity(
                    ScriptEntityType::Ped,
                    arg_i64(args, 1),
                    arg_point(args, 2),
                    arg_real(args, 5),
                    200,
                    None,
                ),
            ),
        )
    } else if name == "CREATE_PED_INSIDE_VEHICLE"@ {
        let (m1, id) = made_up(m);
        Some(
            (
                with_synthetic(
                    m1,
                    id,
                    fresh_entity(
                        ScriptEntityType::Ped,
                        arg_i64(args, 2),
                        origin(),
                        "0.0"@,
                        200,
                        Some((arg_i64(args, 0), arg_i64(args, 3))),
                    ),
                ),
                JsonModel::Unsigned(id as u64),
            ),
        )
    } else if name == "CREATE_VEHICLE"@ {
        Some(
            created(
                m,
                arg_handle(args, 0),
                false,
                fresh_entity(
                    ScriptEntityType::Vehicle,
                    arg_i64(args, 0),
                    arg_point(args, 1),
                    arg_real(args, 4),
                    1000,
                    None,
                ),
            ),
        )
    } else if name == "CREATE_VEHICLE_SERVER_SETTER"@ {
        Some(
            created(
                m,
                arg_handle(args, 0),
                false,
                fresh_entity(
                    ScriptEntityType::Vehicle,
                    arg_i64(args, 0),
                    arg_point(args, 2),
                    arg_real(args, 5),
                    1000,
                    None,
                ),
            ),
        )
    } else if name == "DELETE_ENTITY"@ || name == "DELETE_TRAIN"@ {
        let id = arg_handle(args, 0);
        let m1 = with_effect(
            NativesModel { synthetic: m.synthetic.remove(id), ..m },
            EffectModel::World(WorldCommandModel::Despawn { network_id: id }),
        );
        Some(
            (
                NativesModel {
                    routing: RoutingModel {
                        entities: m.routing.entities.remove(id),
                        revision: bumped(m.routing.revision),
                        ..m.routing
                    },
                    bags: StateBagModel {
                        bags: m.bags.bags.remove(bag_name("entity:"@, id)),
                        ..m.bags
                    },
                    ..m1
                },
                JsonModel::Null,
            ),
        )
    } else {
        None
    }
}

fn arg_coords(args: &Vec<Json>, first: usize) -> (coords: [String; 3])
    requires
        first < 100,
    ensures
        point_of(coords) == arg_point(models(args@), first as int),
{
    [json_arg_real(args, first), json_arg_real(args, first + 1), json_arg_real(args, first + 2)]
}

fn copy_coords(coords: &[String; 3]) -> (copy: [String; 3])
    ensures
        point_of(copy) == point_of(*coords),
{
    [coords[0].clone(), coords[1].clone(), coords[2].clone()]
}

impl<R: RoutingControl, C: ResourceControl> Natives<R, C> {
    /// A handle that no world knows of.
    fn make_up_handle(&mut self) -> (id: u32)
        requires
            old(self).wf(),
        ensures
            final(self).wf(),
            (final(self)@, id) == made_up(old(self)@),
    {
        let id: u32 = self.next_synthetic;
        self.next_synthetic = if id == u32::MAX {
            0
        } else {
            id + 1
        };
        id
    }

    /// The handle that a create native returns.
    fn create_entity_handle(&mut self, model: u32, dynamic: bool, entity: &SyntheticEntity) -> (id:
        u32)
        requires
            old(self).wf(),
        ensures
            final(self).wf(),
            (final(self)@, id) == handle_for(old(self)@, model, dynamic, entity@),
    {
        match self.reserved {
            Some(id) => {
                self.reserved = None;
                let command = WorldCommand::Spawn {
                    network_id: id,
                    entity_type: entity.entity_type,
                    model,
                    position: copy_coords(&entity.coords),
                    heading: entity.heading.clone(),
                    dynamic,
                };
                self.effect(Effect::World(command));
                id
            },
            None => self.make_up_handle(),
        }
    }

    /// Keep a new entity's record.
    fn keep(&mut self, id: u32, entity: SyntheticEntity)
        requires
            old(self).wf(),
        ensures
            final(self).wf(),
            final(self)@ == with_synthetic(old(self)@, id, entity@),
    {
        let ghost model = entity@;
        let ghost before = self.synthetic@;
        self.synthetic.insert(id, entity);
        assert(synthetic_models(self.synthetic@) =~= synthetic_models(before).insert(id, model));
        self.routing.set_entity_bucket(id, 0);
    }

    fn create(&mut self, model: u32, dynamic: bool, entity: SyntheticEntity) -> (value: Json)
        requires
            old(self).wf(),
        ensures
            final(self).wf(),
            (final(self)@, value@) == created(old(self)@, model, dynamic, entity@),
    {
        let id: u32 = self.create_entity_handle(model, dynamic, &entity);
        self.keep(id, entity);
        Json::Unsigned(id as u64)
    }

    fn creation_native(&mut self, name: &str, args: &Vec<Json>) -> (value: Option<Json>)
        requires
            old(self).wf(),
        ensures
            final(self).wf(),
            took(
                creation_step(old(self)@, name@, models(args@)),
                old(self)@,
                final(self)@,
                optional_json(value),
            ),
    {
        if same(name, "CREATE_OBJECT") || same(name, "CREATE_OBJECT_NO_OFFSET") {
            let entity = SyntheticEntity {
                entity_type: ScriptEntityType::Object,
                model: json_arg_i64(args, 0),
                coords: arg_coords(args, 1),
                heading: "0.0".to_owned(),
                health: 1000,
                routing_bucket: 0,
                vehicle: None,
            };
            Some(self.create(json_arg_handle(args, 0), json_arg_bool(args, 5), entity))
        } else if same(name, "CREATE_PED") {
            let entity = SyntheticEntity {
                entity_type: ScriptEntityType::Ped,
                model: json_arg_i64(args, 1),
                coords: arg_coords(args, 2),
                heading: json_arg_real(args, 5),
                health: 200,
                routing_bucket: 0,
                vehicle: None,
            };
            Some(self.create(json_arg_handle(args, 1), false, entity))
        } else if same(name, "CREATE_PED_INSIDE_VEHICLE") {
            let coords = ["0.0".to_owned(), "0.0".to_owned(), "0.0".to_owned()];
            assert(point_of(coords) == origin());
            let entity = SyntheticEntity {
                entity_type: ScriptEntityType::Ped,
                model: json_arg_i64(args, 2),
                coords,
                heading: "0.0".to_owned(),
                health: 200,
                routing_bucket: 0,
                vehicle: Some((json_arg_i64(args, 0), json_arg_i64(args, 3))),
            };
            let id: u32 = self.make_up_handle();
            self.keep(id, entity);
            Some(Json::Unsigned(id as u64))
        } else if same(name, "CREATE_VEHICLE") {
            let entity = SyntheticEntity {
                entity_type: ScriptEntityType::Vehicle,
                model: json_arg_i64(args, 0),
                coords: arg_coords(args, 1),
                heading: json_arg_real(args, 4),
                health: 1000,
                routing_bucket: 0,
                vehicle: None,
            };
            Some(self.create(json_arg_handle(args, 0), false, entity))
        } else if same(name, "CREATE_VEHICLE_SERVER_SETTER") {
            let entity = SyntheticEntity {
                entity_type: ScriptEntityType::Vehicle,
                model: json_arg_i64(args, 0),
                coords: arg_coords(args, 2),
                heading: json_arg_real(args, 5),
                health: 1000,
                routing_bucket: 0,
                vehicle: None,
            };
            Some(self.create(json_arg_handle(args, 0), false, entity))
        } else if same(name, "DELETE_ENTITY") || same(name, "DELETE_TRAIN") {
            let id: u32 = json_arg_handle(args, 0);
            let ghost before = self.synthetic@;
            self.synthetic.remove(id);
            assert(synthetic_models(self.synthetic@) =~= synthetic_models(before).remove(id));
            self.effect(Effect::World(WorldCommand::Despawn { network_id: id }));
            self.routing.remove_entity(id);
            let bag = entity_state_bag_name(id);
            self.state_bags.remove_bag(bag.as_str());
            Some(Json::Null)
        } else {
            None
        }
    }
}

/// The synthetic entities of one class.
pub open spec fn synthetic_of_type(
    synthetic: Map<u32, SyntheticModel>,
    entity_type: ScriptEntityType,
) -> Set<u32> {
    Set::new(|id: u32| synthetic.contains_key(id) && synthetic[id].entity_type == entity_type)
}

/// Every entity of one class, networked or script-created, ascending. The two are
/// distinct populations, and a script asking for "all vehicles" means both.
pub open spec fn all_of_type(m: NativesModel, entity_type: ScriptEntityType) -> JsonModel {
    array_of(
        numbers(
            listing_of(
                of_type(m.world.entities, entity_type).union(
                    synthetic_of_type(m.synthetic, entity_type),
                ),
            ),
        ),
    )
}

/// Whether a handle means anything.
pub open spec fn known(m: NativesModel, id: u32) -> bool {
    m.world.entities.contains_key(id) || m.synthetic.contains_key(id)
}

/// What the natives that read entities answer.
pub open spec fn entity_answer(m: NativesModel, name: Seq<char>, args: Seq<JsonModel>) -> Option<
    JsonModel,
> {
    let id = arg_handle(args, 0);
    let networked = found(m.world.entities, id);
    let local = found(m.synthetic, id);
    if name == "DOES_ENTITY_EXIST"@ {
        Some(JsonModel::Bool(known(m, id)))
    } else if name == "GET_ALL_OBJECTS"@ {
        Some(all_of_type(m, ScriptEntityType::Object))
    } else if name == "GET_ALL_PEDS"@ {
        Some(all_of_type(m, ScriptEntityType::Ped))
    } else if name == "GET_ALL_VEHICLES"@ {
        Some(all_of_type(m, ScriptEntityType::Vehicle))
    } else if name == "GET_ENTITY_COORDS"@ {
        Some(
            point_json(
                match networked {
                    Some(entity) => point_of(entity.position),
                    None => match local {
                        Some(entity) => entity.coords,
                        None => origin(),
                    },
                },
            ),
        )
    } else if name == "GET_ENTITY_VELOCITY"@ {
        Some(
            point_json(
                match networked {
                    Some(entity) => point_of(entity.velocity),
                    None => origin(),
                },
            ),
        )
    } else if name == "NETWORK_GET_NETWORK_ID_FROM_ENTITY"@ || name
        == "NETWORK_GET_ENTITY_FROM_NETWORK_ID"@ {
        Some(
            JsonModel::Unsigned(
                if known(m, id) {
                    id as u64
                } else {
                    0
                },
            ),
        )
    } else if name == "GET_PLAYER_PED"@ {
        Some(id_or_zero(found(m.world.player_peds, arg_netid(args, 0))))
    } else if name == "GET_ENTITY_HEADING"@ {
        Some(
            JsonModel::Real(
                match local {
                    Some(entity) => entity.heading,
                    None => "0.0"@,
                },
            ),
        )
    } else if name == "GET_ENTITY_HEALTH"@ {
        Some(
            match local {
                Some(entity) => crate::natives_world::int_json(entity.health as int),
                None => JsonModel::Unsigned(0),
            },
        )
    } else if name == "GET_ENTITY_MODEL"@ {
        Some(
            match local {
                Some(entity) => crate::natives_world::int_json(entity.model as int),
                None => JsonModel::Unsigned(0),
            },
        )
    } else if name == "GET_ENTITY_ROUTING_BUCKET"@ {
        Some(
            JsonModel::Unsigned(
                or_default(m.routing.entities, arg_netid(args, 0), 0u32) as u64,
            ),
        )
    } else if name == "GET_ENTITY_TYPE"@ {
        Some(
            JsonModel::Unsigned(
                match networked {
                    Some(entity) => type_number(entity.entity_type) as u64,
                    None => match local {
                        Some(entity) => type_number(entity.entity_type) as u64,
                        None => 0,
                    },
                },
            ),
        )
    } else if name == "NETWORK_GET_ENTITY_OWNER"@ {
        Some(id_or_zero(owner_of(m.world, id)))
    } else {
        None
    }
}

fn point_value(coords: &[String; 3]) -> (value: Json)
    ensures
        value@ == point_json(point_of(*coords)),
{
    let mut list: Vec<Json> = Vec::new();
    list.push(Json::Real(coords[0].clone()));
    list.push(Json::Real(coords[1].clone()));
    list.push(Json::Real(coords[2].clone()));
    let ghost p = point_of(*coords);
    assert(models(list@) =~= seq![
        JsonModel::Real(p.x),
        JsonModel::Real(p.y),
        JsonModel::Real(p.z),
    ]);
    Json::array(&list)
}

fn origin_value() -> (value: Json)
    ensures
        value@ == point_json(origin()),
{
    let coords = ["0.0".to_owned(), "0.0".to_owned(), "0.0".to_owned()];
    assert(point_of(coords) == origin());
    point_value(&coords)
}

fn whole_value(n: i64) -> (value: Json)
    ensures
        value@ == crate::natives_world::int_json(n as int),
{
    if n < 0 {
        Json::Signed(n)
    } else {
        Json::Unsigned(n as u64)
    }
}

fn id_value(id: Option<u32>) -> (value: Json)
    ensures
        value@ == id_or_zero(id),
{
    match id {
        Some(n) => Json::Unsigned(n as u64),
        None => Json::Unsigned(0),
    }
}

impl<R: RoutingControl, C: ResourceControl> Natives<R, C> {
    /// Union of the networked world and the synthetic (script-created) store.
    fn all_entities(&self, entity_type: ScriptEntityType) -> (value: Json)
        requires
            self.wf(),
        ensures
            value@ == all_of_type(self@, entity_type),
    {
        let networked = self.world.ids_of_type(entity_type);
        let local = self.synthetic.ids();
        let ghost world_ids = of_type(self@.world.entities, entity_type);
        let ghost local_ids = synthetic_of_type(self@.synthetic, entity_type);
        let mut ids = IdSet::new();
        let mut i: usize = 0;
        while i < networked.len()
            invariant
                i <= networked@.len(),
                ids.wf(),
                lists(networked@, world_ids),
                forall|x: u32| #[trigger]
                    ids@.contains(x) <==> networked@.take(i as int).contains(x),
            decreases networked@.len() - i,
        {
            let id: u32 = networked[i];
            let ghost before = ids@;
            ids.insert(id);
            proof {
                assert forall|x: u32| #[trigger] ids@.contains(x) <==> networked@.take(
                    i + 1,
                ).contains(x) by {
                    lemma_taken(networked@, i as int, x);
                    assert(before.contains(x) <==> networked@.take(i as int).contains(x));
                }
            }
            i = i + 1;
        }
        assert(networked@.take(i as int) =~= networked@);
        let ghost first = ids@;
        let mut j: usize = 0;
        while j < local.len()
            invariant
                j <= local@.len(),
                self.wf(),
                ids.wf(),
                lists(local@, self.synthetic@.dom()),
                local_ids == synthetic_of_type(self@.synthetic, entity_type),
                forall|x: u32| #[trigger]
                    ids@.contains(x) <==> first.contains(x) || local@.take(j as int).contains(x)
                        && local_ids.contains(x),
            decreases local@.len() - j,
        {
            let id: u32 = local[j];
            let ghost before = ids@;
            assert(local@.contains(id));
            if let Some(entity) = self.synthetic.get(id) {
                if entity.entity_type == entity_type {
                    ids.insert(id);
                }
            }
            proof {
                assert forall|x: u32| #[trigger] ids@.contains(x) <==> first.contains(x)
                    || local@.take(j + 1).contains(x) && local_ids.contains(x) by {
                    lemma_taken(local@, j as int, x);
                    assert(before.contains(x) <==> first.contains(x) || local@.take(
                        j as int,
                    ).contains(x) && local_ids.contains(x));
                }
            }
            j = j + 1;
        }
        assert(local@.take(j as int) =~= local@);
        let list = ids.items();
        proof {
            let all = world_ids.union(local_ids);
            assert(ids@ =~= all) by {
                assert forall|x: u32| ids@.contains(x) == #[trigger] all.contains(x) by {
                    assert(local@.contains(x) <==> self.synthetic@.dom().contains(x));
                    assert(networked@.contains(x) <==> world_ids.contains(x));
                }
            }
            lemma_is_listing(list@, all);
        }
        Json::ids(&list)
    }

    fn entity_reader(&self, name: &str, args: &Vec<Json>) -> (value: Option<Json>)
        requires
            self.wf(),
        ensures
            optional_json(value) == entity_answer(self@, name@, models(args@)),
    {
        let id: u32 = json_arg_handle(args, 0);
        if same(name, "DOES_ENTITY_EXIST") {
            Some(Json::Bool(self.world.contains(id) || self.synthetic.contains(id)))
        } else if same(name, "GET_ALL_OBJECTS") {
            Some(self.all_entities(ScriptEntityType::Object))
        } else if same(name, "GET_ALL_PEDS") {
            Some(self.all_entities(ScriptEntityType::Ped))
        } else if same(name, "GET_ALL_VEHICLES") {
            Some(self.all_entities(ScriptEntityType::Vehicle))
        } else if same(name, "GET_ENTITY_COORDS") {
            Some(
                match self.world.get(id) {
                    Some(entity) => point_value(&entity.position),
                    None => match self.synthetic.get(id) {
                        Some(entity) => point_value(&entity.coords),
                        None => origin_value(),
                    },
                },
            )
        } else if same(name, "GET_ENTITY_VELOCITY") {
            Some(
                match self.world.get(id) {
                    Some(entity) => point_value(&entity.velocity),
                    None => origin_value(),
                },
            )
        } else if same(name, "NETWORK_GET_NETWORK_ID_FROM_ENTITY") || same(
            name,
            "NETWORK_GET_ENTITY_FROM_NETWORK_ID",
        ) {
            let known = self.world.contains(id) || self.synthetic.contains(id);
            Some(
                if known {
                    Json::Unsigned(id as u64)
                } else {
                    Json::Unsigned(0)
                },
            )
        } else if same(name, "GET_PLAYER_PED") {
            Some(id_value(self.world.player_ped(json_arg_netid(args, 0))))
        } else if same(name, "GET_ENTITY_HEADING") {
            Some(
                match self.synthetic.get(id) {
                    Some(entity) => Json::Real(entity.heading.clone()),
                    None => Json::Real("0.0".to_owned()),
                },
            )
        } else if same(name, "GET_ENTITY_HEALTH") {
            Some(
                match self.synthetic.get(id) {
                    Some(entity) => whole_value(entity.health),
                    None => Json::Unsigned(0),
                },
            )
        } else if same(name, "GET_ENTITY_MODEL") {
            Some(
                match self.synthetic.get(id) {
                    Some(entity) => whole_value(entity.model),
                    None => Json::Unsigned(0),
                },
            )
        } else if same(name, "GET_ENTITY_ROUTING_BUCKET") {
            Some(Json::Unsigned(self.routing.entity_bucket(json_arg_netid(args, 0)) as u64))
        } else if same(name, "GET_ENTITY_TYPE") {
            Some(
                match self.world.get(id) {
                    Some(entity) => Json::Unsigned(entity.entity_type.as_native() as u64),
                    None => match self.synthetic.get(id) {
                        Some(entity) => Json::Unsigned(entity.entity_type.as_native() as u64),
                        None => Json::Unsigned(0),
                    },
                },
            )
        } else if same(name, "NETWORK_GET_ENTITY_OWNER") {
            Some(id_value(self.world.owner(id)))
        } else {
            None
        }
    }
}

proof fn lemma_taken(s: Seq<u32>, i: int, x: u32)
    requires
        0 <= i < s.len(),
    ensures
        s.take(i + 1).contains(x) <==> s.take(i).contains(x) || s[i] == x,
{
    let longer = s.take(i + 1);
    let shorter = s.take(i);
    if longer.contains(x) {
        let j = choose|j: int| 0 <= j < longer.len() && longer[j] == x;
        if j < i {
            assert(shorter[j] == x);
        }
    }
    if shorter.contains(x) {
        let j = choose|j: int| 0 <= j < shorter.len() && shorter[j] == x;
        assert(longer[j] == x);
    }
    if s[i] == x {
        assert(longer[i] == x);
    }
}

// --- context-routed natives ---

/// The client that a call is meant for, where its arguments name one.
pub open spec fn addressed(world: WorldModel, route: RouteModel, args: Seq<JsonModel>) -> Option<
    u32,
> {
    if args.len() == route.arg_count {
        match routed(world, route.context, args) {
            Ok(target) => Some(target),
            Err(_) => None,
        }
    } else {
        None
    }
}

/// The state after a context-routed native was called; nothing where the name is none.
pub open spec fn rpc_step(m: NativesModel, name: Seq<char>, args: Seq<JsonModel>) -> Option<
    NativesModel,
> {
    if m.routes.contains_key(name) {
        let route = m.routes[name];
        let (outcome, net) = dispatched(m.world, m.net, route, m.next_call, args);
        let target = addressed(m.world, route, args);
        // A call that names no client never gets an id.
        let next_call = if target is Some {
            bumped(m.next_call)
        } else {
            m.next_call
        };
        Some(
            with_effect(
                NativesModel { net, next_call, ..m },
                EffectModel::Called { native: name, hash: route.hash, target, outcome },
            ),
        )
    } else {
        None
    }
}

impl<R: RoutingControl, C: ResourceControl> Natives<R, C> {
    /// Route `name` to the owning client if it is a context native.
    ///
    /// Returns `true` when the native belongs to the routed surface, that is, when the
    /// caller must *not* fall through to its own handling, regardless of whether a
    /// target could be resolved.
    fn route_native(&mut self, name: &str, args: &Vec<Json>) -> (ours: bool)
        requires
            old(self).wf(),
        ensures
            final(self).wf(),
            ours == (rpc_step(old(self)@, name@, models(args@)) is Some),
            final(self)@ == match rpc_step(old(self)@, name@, models(args@)) {
                Some(m) => m,
                None => old(self)@,
            },
    {
        let id: u64 = self.next_call;
        match self.table.lookup(name) {
            None => false,
            Some(native) => {
                let hash: u64 = native.hash;
                let target: Option<u32> = if args.len() == native.arg_count {
                    match resolve_target(&self.world, native, args) {
                        Ok(target) => Some(target),
                        Err(_) => None,
                    }
                } else {
                    None
                };
                let outcome = dispatch(&self.world, &mut self.net, native, id, args);
                if target.is_some() {
                    self.next_call = if id == u64::MAX {
                        0
                    } else {
                        id + 1
                    };
                }
                self.effect(Effect::Called { native: name.to_owned(), hash, target, outcome });
                true
            },
        }
    }
}

// --- changing entities ---

/// The state with a script-created entity changed, where there is one.
pub open spec fn updated(m: NativesModel, id: u32, entity: SyntheticModel) -> NativesModel {
    if m.synthetic.contains_key(id) {
        NativesModel { synthetic: m.synthetic.insert(id, entity), ..m }
    } else {
        m
    }
}

/// The state after a native that may be routed was handed to the client it belongs to.
pub open spec fn handed_on(m: NativesModel, name: Seq<char>, args: Seq<JsonModel>) -> NativesModel {
    match rpc_step(m, name, args) {
        Some(after) => after,
        None => m,
    }
}

/// What the natives that change entities do. Moving one is both server state and a
/// client mutation: the record takes the new value, and the owner is told.
pub open spec fn update_step(m: NativesModel, name: Seq<char>, args: Seq<JsonModel>) -> Option<
    (NativesModel, JsonModel),
> {
    let id = arg_handle(args, 0);
    if name == "SET_ENTITY_COORDS"@ {
        Some(
            (
                handed_on(
                    updated(
                        m,
                        id,
                        SyntheticModel { coords: arg_point(args, 1), ..m.synthetic[id] },
                    ),
                    name,
                    args,
                ),
                JsonModel::Null,
            ),
        )
    } else if name == "SET_ENTITY_HEADING"@ {
        Some(
            (
                handed_on(
                    updated(
                        m,
                        id,
                        SyntheticModel { heading: arg_real(args, 1), ..m.synthetic[id] },
                    ),
                    name,
                    args,
                ),
                JsonModel::Null,
            ),
        )
    } else if name == "SET_ENTITY_HEALTH"@ {
        Some(
            (
                updated(m, id, SyntheticModel { health: arg_i64(args, 1), ..m.synthetic[id] }),
                JsonModel::Null,
            ),
        )
    } else if name == "SET_ENTITY_ROUTING_BUCKET"@ {
        let entity = arg_netid(args, 0);
        let bucket = arg_netid(args, 1);
        let m1 = NativesModel {
            routing: RoutingModel {
                entities: assigned(m.routing.entities, entity, bucket),
                revision: bumped(m.routing.revision),
                ..m.routing
            },
            ..m
        };
        Some(
            (
                updated(
                    m1,
                    entity,
                    SyntheticModel { routing_bucket: bucket, ..m.synthetic[entity] },
                ),
                JsonModel::Null,
            ),
        )
    } else {
        None
    }
}

impl<R: RoutingControl, C: ResourceControl> Natives<R, C> {
    /// Take a script-created entity's record out, to be put back.
    fn take_entity(&mut self, id: u32) -> (entity: Option<SyntheticEntity>)
        requires
            old(self).wf(),
        ensures
            final(self).wf(),
            match entity {
                Some(e) => old(self)@.synthetic.contains_key(id) && old(self)@.synthetic[id] == e@
                    && final(self)@ == (NativesModel {
                    synthetic: old(self)@.synthetic.remove(id),
                    ..old(self)@
                }),
                None => !old(self)@.synthetic.contains_key(id) && final(self)@ == old(self)@,
            },
    {
        let ghost before = self.synthetic@;
        let entity = self.synthetic.remove(id);
        assert(synthetic_models(self.synthetic@) =~= synthetic_models(before).remove(id));
        if entity.is_none() {
            assert(synthetic_models(before).remove(id) =~= synthetic_models(before));
        }
        entity
    }

    fn put_entity(&mut self, id: u32, entity: SyntheticEntity)
        requires
            old(self).wf(),
        ensures
            final(self).wf(),
            final(self)@ == (NativesModel {
                synthetic: old(self)@.synthetic.insert(id, entity@),
                ..old(self)@
            }),
    {
        let ghost before = self.synthetic@;
        let ghost model = entity@;
        self.synthetic.insert(id, entity);
        assert(synthetic_models(self.synthetic@) =~= synthetic_models(before).insert(id, model));
    }

    fn update_native(&mut self, name: &str, args: &Vec<Json>) -> (value: Option<Json>)
        requires
            old(self).wf(),
        ensures
            final(self).wf(),
            took(
                update_step(old(self)@, name@, models(args@)),
                old(self)@,
                final(self)@,
                optional_json(value),
            ),
    {
        let id: u32 = json_arg_handle(args, 0);
        if same(name, "SET_ENTITY_COORDS") {
            if let Some(entity) = self.take_entity(id) {
                let mut entity = entity;
                entity.coords = arg_coords(args, 1);
                self.put_entity(id, entity);
                assert(old(self)@.synthetic.remove(id).insert(id, entity@) =~= old(
                    self,
                )@.synthetic.insert(id, entity@));
            }
            self.route_native(name, args);
            Some(Json::Null)
        } else if same(name, "SET_ENTITY_HEADING") {
            if let Some(entity) = self.take_entity(id) {
                let mut entity = entity;
                entity.heading = json_arg_real(args, 1);
                self.put_entity(id, entity);
                assert(old(self)@.synthetic.remove(id).insert(id, entity@) =~= old(
                    self,
                )@.synthetic.insert(id, entity@));
            }
            self.route_native(name, args);
            Some(Json::Null)
        } else if same(name, "SET_ENTITY_HEALTH") {
            if let Some(entity) = self.take_entity(id) {
                let mut entity = entity;
                entity.health = json_arg_i64(args, 1);
                self.put_entity(id, entity);
                assert(old(self)@.synthetic.remove(id).insert(id, entity@) =~= old(
                    self,
                )@.synthetic.insert(id, entity@));
            }
            Some(Json::Null)
        } else if same(name, "SET_ENTITY_ROUTING_BUCKET") {
            let target: u32 = json_arg_netid(args, 0);
            let bucket: u32 = json_arg_netid(args, 1);
            self.routing.set_entity_bucket(target, bucket);
            if let Some(entity) = self.take_entity(target) {
                let mut entity = entity;
                entity.routing_bucket = bucket;
                self.put_entity(target, entity);
                assert(old(self)@.synthetic.remove(target).insert(target, entity@) =~= old(
                    self,
                )@.synthetic.insert(target, entity@));
            }
            Some(Json::Null)
        } else {
            None
        }
    }
}

// --- players and buckets ---

/// What the natives on players and routing buckets do and answer.
pub open spec fn player_step(m: NativesModel, name: Seq<char>, args: Seq<JsonModel>) -> Option<
    (NativesModel, JsonModel),
> {
    if name == "DROP_PLAYER"@ {
        Some((with_effect(m, EffectModel::DropPlayer(arg_handle(args, 0))), JsonModel::Null))
    } else if name == "TEMP_BAN_PLAYER"@ {
        Some((with_effect(m, EffectModel::DropPlayer(arg_netid(args, 0))), JsonModel::Null))
    } else if name == "GET_NUM_PLAYER_INDICES"@ {
        Some((m, JsonModel::Unsigned(m.players as u64)))
    } else if name == "GET_PLAYER_ROUTING_BUCKET"@ {
        Some(
            (
                m,
                JsonModel::Unsigned(
                    or_default(m.routing.players, arg_netid(args, 0), 0u32) as u64,
                ),
            ),
        )
    } else if name == "SET_PLAYER_ROUTING_BUCKET"@ {
        Some(
            (
                NativesModel {
                    routing: RoutingModel {
                        players: assigned(
                            m.routing.players,
                            arg_netid(args, 0),
                            arg_netid(args, 1),
                        ),
                        revision: bumped(m.routing.revision),
                        ..m.routing
                    },
                    ..m
                },
                JsonModel::Null,
            ),
        )
    } else if name == "SET_ROUTING_BUCKET_ENTITY_LOCKDOWN_MODE"@ {
        Some(
            (
                match lockdown_of(arg_text(args, 1)) {
                    Some(mode) => NativesModel {
                        routing: RoutingModel {
                            lockdown: m.routing.lockdown.insert(arg_netid(args, 0), mode),
                            revision: bumped(m.routing.revision),
                            ..m.routing
                        },
                        ..m
                    },
                    None => m,
                },
                JsonModel::Null,
            ),
        )
    } else if name == "SET_ROUTING_BUCKET_POPULATION_ENABLED"@ {
        Some(
            (
                NativesModel {
                    routing: RoutingModel {
                        population: m.routing.population.insert(
                            arg_netid(args, 0),
                            arg_bool(args, 1),
                        ),
                        revision: bumped(m.routing.revision),
                        ..m.routing
                    },
                    ..m
                },
                JsonModel::Null,
            ),
        )
    } else {
        None
    }
}

impl<R: RoutingControl, C: ResourceControl> Natives<R, C> {
    fn player_native(&mut self, name: &str, args: &Vec<Json>) -> (value: Option<Json>)
        requires
            old(self).wf(),
        ensures
            final(self).wf(),
            took(
                player_step(old(self)@, name@, models(args@)),
                old(self)@,
                final(self)@,
                optional_json(value),
            ),
    {
        if same(name, "DROP_PLAYER") {
            self.effect(Effect::DropPlayer(json_arg_handle(args, 0)));
            Some(Json::Null)
        } else if same(name, "TEMP_BAN_PLAYER") {
            // There is no ban list: the player is dropped, and the ban itself is the
            // calling resource's to persist.
            self.effect(Effect::DropPlayer(json_arg_netid(args, 0)));
            Some(Json::Null)
        } else if same(name, "GET_NUM_PLAYER_INDICES") {
            Some(Json::Unsigned(self.players as u64))
        } else if same(name, "GET_PLAYER_ROUTING_BUCKET") {
            Some(Json::Unsigned(self.routing.player_bucket(json_arg_netid(args, 0)) as u64))
        } else if same(name, "SET_PLAYER_ROUTING_BUCKET") {
            self.routing.set_player_bucket(json_arg_netid(args, 0), json_arg_netid(args, 1));
            Some(Json::Null)
        } else if same(name, "SET_ROUTING_BUCKET_ENTITY_LOCKDOWN_MODE") {
            let bucket: u32 = json_arg_netid(args, 0);
            let mode = json_arg_string(args, 1);
            if let Some(mode) = RoutingLockdownMode::parse(mode.as_str()) {
                self.routing.set_lockdown_mode(bucket, mode);
            }
            Some(Json::Null)
        } else if same(name, "SET_ROUTING_BUCKET_POPULATION_ENABLED") {
            self.routing.set_population_enabled(json_arg_netid(args, 0), json_arg_bool(args, 1));
            Some(Json::Null)
        } else {
            None
        }
    }
}

// --- server natives that only answer ---

/// One step of the hash that the engine names things by.
pub open spec fn hash_step(hash: u32, byte: u8) -> u32 {
    let a = hash.wrapping_add(byte as u32);
    let b = a.wrapping_add(a << 10u32);
    b ^ (b >> 6u32)
}

/// The hash of the first `n` bytes, unfinished.
pub open spec fn hash_upto(bytes: Seq<u8>, n: int) -> u32
    decreases n,
{
    if n <= 0 {
        0
    } else {
        hash_step(hash_upto(bytes, n - 1), bytes[n - 1])
    }
}

/// The hash that the engine names things by.
pub open spec fn rage_hash(text: Seq<char>) -> u32 {
    let bytes = vstd::utf8::encode_utf8(text);
    let a = hash_upto(bytes, bytes.len() as int);
    let b = a.wrapping_add(a << 3u32);
    let c = b ^ (b >> 11u32);
    c.wrapping_add(c << 15u32)
}

/// The hash that the engine names things by (`GET_HASH_KEY`).
pub fn hash_rage_string(input: &str) -> (hash: u32)
    ensures
        hash == rage_hash(input@),
{
    let bytes = input.as_bytes();
    let mut hash: u32 = 0;
    let mut i: usize = 0;
    while i < bytes.len()
        invariant
            i <= bytes@.len(),
            hash == hash_upto(bytes@, i as int),
        decreases bytes@.len() - i,
    {
        hash = hash.wrapping_add(bytes[i] as u32);
        hash = hash.wrapping_add(hash << 10u32);
        hash = hash ^ (hash >> 6u32);
        i = i + 1;
    }
    hash = hash.wrapping_add(hash << 3u32);
    hash = hash ^ (hash >> 11u32);
    hash.wrapping_add(hash << 15u32)
}

/// What the server natives that need nothing but their arguments answer.
pub open spec fn server_answer(name: Seq<char>, args: Seq<JsonModel>) -> Option<JsonModel> {
    if name == "GET_HASH_KEY"@ {
        Some(JsonModel::Unsigned(rage_hash(arg_text(args, 0)) as u64))
    } else if name == "GET_HOST_ID"@ || name == "REGISTER_RESOURCE_ASSET"@ {
        Some(JsonModel::Text(""@))
    } else if name == "GET_PLAYER_INVINCIBLE"@ || name
        == "HAS_ENTITY_BEEN_MARKED_AS_NO_LONGER_NEEDED"@ || name == "IS_PLAYER_ACE_ALLOWED"@ || name
        == "IS_PLAYER_USING_SUPER_JUMP"@ || name == "CAN_PLAYER_START_COMMERCE_SESSION"@ || name
        == "DOES_PLAYER_OWN_SKU"@ || name == "DOES_PLAYER_OWN_SKU_EXT"@ || name
        == "IS_PLAYER_COMMERCE_INFO_LOADED"@ || name == "IS_PLAYER_COMMERCE_INFO_LOADED_EXT"@ || name
        == "IS_PED_ON_MOUNT"@ {
        Some(JsonModel::Bool(false))
    } else if name == "GET_PLAYER_LAST_MSG"@ || name == "GET_PLAYER_TIME_IN_PURSUIT"@ || name
        == "GET_PLAYER_WANTED_LEVEL"@ || name == "GET_MOUNT"@ {
        Some(JsonModel::Unsigned(0))
    } else if name == "PRINT_STRUCTURED_TRACE"@ || name == "LOAD_PLAYER_COMMERCE_DATA"@ || name
        == "LOAD_PLAYER_COMMERCE_DATA_EXT"@ || name == "REQUEST_PLAYER_COMMERCE_SESSION"@ || name
        == "SET_HTTP_HANDLER"@ || name == "REGISTER_CONSOLE_LISTENER"@ || name
        == "SCHEDULE_RESOURCE_TICK"@ || name == "REGISTER_RESOURCE_BUILD_TASK_FACTORY"@ {
        Some(JsonModel::Null)
    } else if name == "VERIFY_PASSWORD_HASH"@ {
        Some(JsonModel::Bool(password_matches(arg_text(args, 0), arg_text(args, 1))))
    } else {
        None
    }
}

fn server_constant(name: &str, args: &Vec<Json>) -> (value: Option<Json>)
    ensures
        optional_json(value) == server_answer(name@, models(args@)),
{
    if same(name, "GET_HASH_KEY") {
        Some(Json::Unsigned(hash_rage_string(json_arg_string(args, 0).as_str()) as u64))
    } else if same(name, "GET_HOST_ID") || same(name, "REGISTER_RESOURCE_ASSET") {
        Some(Json::Text("".to_owned()))
    } else if same(name, "GET_PLAYER_INVINCIBLE") || same(
        name,
        "HAS_ENTITY_BEEN_MARKED_AS_NO_LONGER_NEEDED",
    ) || same(name, "IS_PLAYER_ACE_ALLOWED") || same(name, "IS_PLAYER_USING_SUPER_JUMP") || same(
        name,
        "CAN_PLAYER_START_COMMERCE_SESSION",
    ) || same(name, "DOES_PLAYER_OWN_SKU") || same(name, "DOES_PLAYER_OWN_SKU_EXT") || same(
        name,
        "IS_PLAYER_COMMERCE_INFO_LOADED",
    ) || same(name, "IS_PLAYER_COMMERCE_INFO_LOADED_EXT") || same(name, "IS_PED_ON_MOUNT") {
        Some(Json::Bool(false))
    } else if same(name, "GET_PLAYER_LAST_MSG") || same(name, "GET_PLAYER_TIME_IN_PURSUIT") || same(
        name,
        "GET_PLAYER_WANTED_LEVEL",
    ) || same(name, "GET_MOUNT") {
        Some(Json::Unsigned(0))
    } else if same(name, "PRINT_STRUCTURED_TRACE") || same(name, "LOAD_PLAYER_COMMERCE_DATA")
        || same(name, "LOAD_PLAYER_COMMERCE_DATA_EXT") || same(
        name,
        "REQUEST_PLAYER_COMMERCE_SESSION",
    ) || same(name, "SET_HTTP_HANDLER") || same(name, "REGISTER_CONSOLE_LISTENER") || same(
        name,
        "SCHEDULE_RESOURCE_TICK",
    ) || same(name, "REGISTER_RESOURCE_BUILD_TASK_FACTORY") {
        Some(Json::Null)
    } else if same(name, "VERIFY_PASSWORD_HASH") {
        let password = json_arg_string(args, 0);
        let hash = json_arg_string(args, 1);
        Some(Json::Bool(verify_password(password.as_str(), hash.as_str())))
    } else {
        None
    }
}

// --- services ---

/// The bytes behind a binary string: the characters up to 255. Anything above never came
/// from a byte buffer, so it is dropped.
pub open spec fn latin1(text: Seq<char>) -> Seq<u8>
    decreases text.len(),
{
    if text.len() == 0 {
        Seq::empty()
    } else {
        let before = latin1(text.drop_last());
        if text.last() as u32 <= 255 {
            before.push(text.last() as u8)
        } else {
            before
        }
    }
}

/// Recover the bytes behind a binary string.
pub fn latin1_bytes(text: &str) -> (bytes: Vec<u8>)
    ensures
        bytes@ == latin1(text@),
{
    let chars = chars_of(text);
    let mut bytes: Vec<u8> = Vec::new();
    let mut i: usize = 0;
    assert(chars@.take(0) =~= Seq::empty());
    while i < chars.len()
        invariant
            i <= chars@.len(),
            bytes@ == latin1(chars@.take(i as int)),
        decreases chars@.len() - i,
    {
        let c = chars[i];
        proof {
            assert(chars@.take(i + 1).drop_last() =~= chars@.take(i as int));
            assert(chars@.take(i + 1).last() == c);
        }
        if c as u32 <= 255 {
            bytes.push(c as u8);
        }
        i = i + 1;
    }
    assert(chars@.take(i as int) =~= chars@);
    bytes
}

/// The state after an outbound HTTP request, and its token: zero where it never left.
pub open spec fn requested(m: NativesModel, raw: Seq<char>) -> (NativesModel, JsonModel) {
    match (m.http, parsed_request(m.resource, raw)) {
        (Some(bridge), Some(request)) => {
            let taken = bridge.open && bridge.queue.len() < REQUEST_CAPACITY;
            let token = bridge.next_token;
            (
                NativesModel {
                    http: Some(
                        BridgeModel {
                            queue: if taken {
                                bridge.queue.push((request, token))
                            } else {
                                bridge.queue
                            },
                            next_token: next_token(token),
                            dropped: if taken {
                                bridge.dropped
                            } else {
                                one_more(bridge.dropped)
                            },
                            ..bridge
                        },
                    ),
                    ..m
                },
                JsonModel::Unsigned(
                    if taken {
                        token as u64
                    } else {
                        0
                    },
                ),
            )
        },
        (None, _) => (
            missed(m, "PERFORM_HTTP_REQUEST_INTERNAL"@, "int"@),
            JsonModel::Unsigned(0),
        ),
        _ => (m, JsonModel::Unsigned(0)),
    }
}

/// A native that there is none of was called.
pub open spec fn missed(m: NativesModel, native: Seq<char>, result_kind: Seq<char>) -> NativesModel {
    with_effect(m, EffectModel::Unimplemented { native, result_kind })
}

/// A lifecycle command was submitted: the answer says whether it was accepted.
pub open spec fn submitted(
    m: NativesModel,
    command: CommandModel,
    after: NativesModel,
    value: Option<JsonModel>,
) -> bool {
    &&& value == Some(JsonModel::Bool(m.accepts))
    &&& after == (NativesModel {
        accepted: if m.accepts {
            m.accepted.push(command)
        } else {
            m.accepted
        },
        accepts: after.accepts,
        ..m
    })
}

/// The state with a console variable set.
pub open spec fn with_convar(m: NativesModel, name: Seq<char>, value: Seq<char>) -> NativesModel {
    NativesModel { convars: m.convars.insert(name, value), ..m }
}

pub open spec fn bool_text(b: bool) -> Seq<char> {
    if b {
        "true"@
    } else {
        "false"@
    }
}

/// What the natives that reach the services do and answer.
pub open spec fn service_step(
    m: NativesModel,
    name: Seq<char>,
    args: Seq<JsonModel>,
    after: NativesModel,
    value: Option<JsonModel>,
) -> bool {
    let text = arg_text(args, 0);
    if name == "PERFORM_HTTP_REQUEST_INTERNAL"@ || name == "PERFORM_HTTP_REQUEST_INTERNAL_EX"@ {
        after == requested(m, text).0 && value == Some(requested(m, text).1)
    } else if name == "GET_CONSOLE_BUFFER"@ {
        after == m && value == Some(JsonModel::Text(lines_text(m.console)))
    } else if name == "TRIGGER_CLIENT_EVENT_INTERNAL"@ || name
        == "TRIGGER_LATENT_CLIENT_EVENT_INTERNAL"@ {
        after == (NativesModel {
            net: net_sent(
                m.net,
                OutboundModel::ClientEventRaw {
                    target: arg_target(args, 1),
                    event: text,
                    payload: latin1(arg_text(args, 2)),
                },
            ),
            ..m
        }) && value == Some(JsonModel::Null)
    } else if name == "START_RESOURCE"@ {
        submitted(m, CommandModel::Start(text), after, value)
    } else if name == "STOP_RESOURCE"@ {
        submitted(m, CommandModel::Stop(text), after, value)
    } else if name == "SCAN_RESOURCE_ROOT"@ {
        submitted(m, CommandModel::ScanRoot(text), after, value)
    } else if name == "SET_GAME_TYPE"@ {
        after == with_convar(m, "sv_gametype"@, text) && value == Some(JsonModel::Null)
    } else if name == "SET_MAP_NAME"@ {
        after == with_convar(m, "sv_mapname"@, text) && value == Some(JsonModel::Null)
    } else if name == "FLAG_SERVER_AS_PRIVATE"@ {
        after == with_convar(m, "sv_private"@, bool_text(arg_bool(args, 0))) && value == Some(
            JsonModel::Null,
        )
    } else if name == "ENABLE_ENHANCED_HOST_SUPPORT"@ {
        after == with_convar(m, "sv_enhancedHostSupport"@, bool_text(arg_bool(args, 0))) && value
            == Some(JsonModel::Null)
    } else if name == "GET_PASSWORD_HASH"@ {
        // Which hash comes out is left to chance.
        after == m && (value matches Some(JsonModel::Text(hash)) && (hash.len() == 0 || hash.len()
            == 60 && password_matches(text, hash)))
    } else {
        after == m && value is None
    }
}

fn bool_string(b: bool) -> (text: String)
    ensures
        text@ == bool_text(b),
{
    if b {
        "true".to_owned()
    } else {
        "false".to_owned()
    }
}

impl<R: RoutingControl, C: ResourceControl> Natives<R, C> {
    /// Queue an outbound HTTP request and return its token.
    ///
    /// `0` means the request never left: either no worker is wired, the request object
    /// was malformed, or the queue is saturated.
    fn perform_http_request(&mut self, raw: &str) -> (value: Json)
        requires
            old(self).wf(),
        ensures
            final(self).wf(),
            (final(self)@, value@) == requested(old(self)@, raw@),
    {
        let spec = parse_request(self.resource.as_str(), raw);
        let mut current: Option<HttpBridge> = None;
        std::mem::swap(&mut current, &mut self.http);
        match current {
            None => {
                self.miss("PERFORM_HTTP_REQUEST_INTERNAL", "int");
                Json::Unsigned(0)
            },
            Some(bridge) => {
                let mut bridge = bridge;
                let value = match spec {
                    Some(spec) => match bridge.submit(spec) {
                        Some(token) => Json::Unsigned(token as u64),
                        None => Json::Unsigned(0),
                    },
                    None => Json::Unsigned(0),
                };
                self.http = Some(bridge);
                value
            },
        }
    }

    fn service_native(&mut self, name: &str, args: &Vec<Json>) -> (value: Option<Json>)
        requires
            old(self).wf(),
        ensures
            final(self).wf(),
            service_step(
                old(self)@,
                name@,
                models(args@),
                final(self)@,
                optional_json(value),
            ),
    {
        let text = json_arg_string(args, 0);
        if same(name, "PERFORM_HTTP_REQUEST_INTERNAL") || same(
            name,
            "PERFORM_HTTP_REQUEST_INTERNAL_EX",
        ) {
            Some(self.perform_http_request(text.as_str()))
        } else if same(name, "GET_CONSOLE_BUFFER") {
            Some(Json::Text(self.console.text()))
        } else if same(name, "TRIGGER_CLIENT_EVENT_INTERNAL") || same(
            name,
            "TRIGGER_LATENT_CLIENT_EVENT_INTERNAL",
        ) {
            // The latent variant additionally takes a bytes-per-second budget; the event
            // is delivered whole rather than paced.
            let target = json_arg_target(args, 1);
            let payload = latin1_bytes(json_arg_string(args, 2).as_str());
            self.net.send(NetOutbound::ClientEventRaw { target, event: text, payload });
            Some(Json::Null)
        } else if same(name, "START_RESOURCE") {
            let taken = self.resource_control.submit(ResourceCommand::Start(text));
            Some(Json::Bool(taken))
        } else if same(name, "STOP_RESOURCE") {
            let taken = self.resource_control.submit(ResourceCommand::Stop(text));
            Some(Json::Bool(taken))
        } else if same(name, "SCAN_RESOURCE_ROOT") {
            let taken = self.resource_control.submit(ResourceCommand::ScanRoot(text));
            Some(Json::Bool(taken))
        } else if same(name, "SET_GAME_TYPE") {
            self.convars.set_convar("sv_gametype", text);
            Some(Json::Null)
        } else if same(name, "SET_MAP_NAME") {
            self.convars.set_convar("sv_mapname", text);
            Some(Json::Null)
        } else if same(name, "FLAG_SERVER_AS_PRIVATE") {
            self.convars.set_convar("sv_private", bool_string(json_arg_bool(args, 0)));
            Some(Json::Null)
        } else if same(name, "ENABLE_ENHANCED_HOST_SUPPORT") {
            self.convars.set_convar("sv_enhancedHostSupport", bool_string(json_arg_bool(args, 0)));
            Some(Json::Null)
        } else if same(name, "GET_PASSWORD_HASH") {
            Some(Json::Text(password_hash(text.as_str())))
        } else {
            None
        }
    }
}

// --- voice ---

/// What the voice server has to be asked before a native runs.
pub open spec fn question_of(name: Seq<char>, args: Seq<JsonModel>) -> Option<VoiceQuestion> {
    if name == "MUMBLE_DOES_CHANNEL_EXIST"@ {
        Some(VoiceQuestion::ChannelExists(arg_handle(args, 0)))
    } else if name == "MUMBLE_IS_PLAYER_MUTED"@ {
        Some(VoiceQuestion::PlayerMuted(arg_netid(args, 0)))
    } else if name == "NETWORK_GET_VOICE_PROXIMITY_OVERRIDE_FOR_PLAYER"@ {
        Some(VoiceQuestion::Proximity(arg_netid(args, 0)))
    } else {
        None
    }
}

/// What the voice server has to be asked before a native runs.
pub fn voice_question(name: &str, args_json: &str) -> (question: Option<VoiceQuestion>)
    ensures
        question == question_of(name@, args_of(args_json@)),
{
    let args = json_args(args_json);
    if same(name, "MUMBLE_DOES_CHANNEL_EXIST") {
        Some(VoiceQuestion::ChannelExists(json_arg_handle(&args, 0)))
    } else if same(name, "MUMBLE_IS_PLAYER_MUTED") {
        Some(VoiceQuestion::PlayerMuted(json_arg_netid(&args, 0)))
    } else if same(name, "NETWORK_GET_VOICE_PROXIMITY_OVERRIDE_FOR_PLAYER") {
        Some(VoiceQuestion::Proximity(json_arg_netid(&args, 0)))
    } else {
        None
    }
}

/// What a [`VoiceAnswer`] says.
#[verifier::ext_equal]
pub struct VoiceModel {
    pub channel_exists: bool,
    pub player_muted: bool,
    pub proximity: Point,
}

impl View for VoiceAnswer {
    type V = VoiceModel;

    open spec fn view(&self) -> VoiceModel {
        VoiceModel {
            channel_exists: self.channel_exists,
            player_muted: self.player_muted,
            proximity: point_of(self.proximity),
        }
    }
}

/// The voice server's answer; nothing where there is no voice server.
pub open spec fn voice_model(voice: Option<&VoiceAnswer>) -> Option<VoiceModel> {
    match voice {
        Some(answer) => Some(answer@),
        None => None,
    }
}

/// The state with one more effect, where there is a voice server.
pub open spec fn voiced(m: NativesModel, voice: Option<VoiceModel>, effect: EffectModel) -> NativesModel {
    if voice is Some {
        with_effect(m, effect)
    } else {
        m
    }
}

/// What the voice natives do and answer. Without a voice server they do nothing and
/// answer neutrally.
pub open spec fn voice_step(
    m: NativesModel,
    voice: Option<VoiceModel>,
    name: Seq<char>,
    args: Seq<JsonModel>,
) -> Option<(NativesModel, JsonModel)> {
    let netid = arg_netid(args, 0);
    if name == "MUMBLE_CREATE_CHANNEL"@ {
        Some(
            (
                voiced(m, voice, EffectModel::CreateChannel(arg_handle(args, 0))),
                JsonModel::Null,
            ),
        )
    } else if name == "MUMBLE_DOES_CHANNEL_EXIST"@ {
        Some((m, JsonModel::Bool(voice matches Some(v) && v.channel_exists)))
    } else if name == "MUMBLE_SET_PLAYER_MUTED"@ {
        Some(
            (
                voiced(m, voice, EffectModel::MutePlayer(netid, arg_bool(args, 1))),
                JsonModel::Null,
            ),
        )
    } else if name == "MUMBLE_IS_PLAYER_MUTED"@ {
        Some((m, JsonModel::Bool(voice matches Some(v) && v.player_muted)))
    } else if name == "NETWORK_SET_VOICE_PROXIMITY_OVERRIDE_FOR_PLAYER"@ {
        Some(
            (
                voiced(m, voice, EffectModel::PlaceVoice(netid, Some(arg_point(args, 1)))),
                JsonModel::Null,
            ),
        )
    } else if name == "NETWORK_CLEAR_VOICE_PROXIMITY_OVERRIDE_FOR_PLAYER"@ {
        Some((voiced(m, voice, EffectModel::PlaceVoice(netid, None)), JsonModel::Null))
    } else if name == "NETWORK_GET_VOICE_PROXIMITY_OVERRIDE_FOR_PLAYER"@ {
        Some(
            (
                m,
                point_json(
                    match voice {
                        Some(v) => v.proximity,
                        None => origin(),
                    },
                ),
            ),
        )
    } else {
        None
    }
}

impl<R: RoutingControl, C: ResourceControl> Natives<R, C> {
    fn voice_native(&mut self, voice: Option<&VoiceAnswer>, name: &str, args: &Vec<Json>) -> (value:
        Option<Json>)
        requires
            old(self).wf(),
        ensures
            final(self).wf(),
            took(
                voice_step(old(self)@, voice_model(voice), name@, models(args@)),
                old(self)@,
                final(self)@,
                optional_json(value),
            ),
    {
        let netid: u32 = json_arg_netid(args, 0);
        if same(name, "MUMBLE_CREATE_CHANNEL") {
            if voice.is_some() {
                self.effect(Effect::CreateChannel(json_arg_handle(args, 0)));
            }
            Some(Json::Null)
        } else if same(name, "MUMBLE_DOES_CHANNEL_EXIST") {
            Some(
                match voice {
                    Some(answer) => Json::Bool(answer.channel_exists),
                    None => Json::Bool(false),
                },
            )
        } else if same(name, "MUMBLE_SET_PLAYER_MUTED") {
            if voice.is_some() {
                self.effect(Effect::MutePlayer(netid, json_arg_bool(args, 1)));
            }
            Some(Json::Null)
        } else if same(name, "MUMBLE_IS_PLAYER_MUTED") {
            Some(
                match voice {
                    Some(answer) => Json::Bool(answer.player_muted),
                    None => Json::Bool(false),
                },
            )
        } else if same(name, "NETWORK_SET_VOICE_PROXIMITY_OVERRIDE_FOR_PLAYER") {
            if voice.is_some() {
                self.effect(Effect::PlaceVoice(netid, Some(arg_coords(args, 1))));
            }
            Some(Json::Null)
        } else if same(name, "NETWORK_CLEAR_VOICE_PROXIMITY_OVERRIDE_FOR_PLAYER") {
            if voice.is_some() {
                self.effect(Effect::PlaceVoice(netid, None));
            }
            Some(Json::Null)
        } else if same(name, "NETWORK_GET_VOICE_PROXIMITY_OVERRIDE_FOR_PLAYER") {
            Some(
                match voice {
                    Some(answer) => point_value(&answer.proximity),
                    None => origin_value(),
                },
            )
        } else {
            None
        }
    }
}

// --- the whole surface ---

/// A list of zeros.
pub open spec fn zeros(n: nat) -> JsonModel {
    array_of(Seq::new(n, |i: int| JsonModel::Real("0.0"@)))
}

/// The neutral value of a kind of result. Returning one rather than failing is
/// deliberate: a resource that calls one unimplemented native should degrade, not die.
pub open spec fn neutral(result_kind: Seq<char>) -> JsonModel {
    let kind = ascii_lower(result_kind);
    if kind == "void"@ {
        JsonModel::Null
    } else if kind == "bool"@ || kind == "boolean"@ {
        JsonModel::Bool(false)
    } else if kind == "char*"@ || kind == "const char*"@ || kind == "string"@ {
        JsonModel::Text(""@)
    } else if kind == "float"@ || kind == "double"@ {
        JsonModel::Real("0.0"@)
    } else if kind == "object"@ {
        zeros(0)
    } else if kind == "vector3"@ {
        zeros(3)
    } else if kind == "vector2"@ {
        zeros(2)
    } else if kind == "vector4"@ {
        zeros(4)
    } else {
        JsonModel::Unsigned(0)
    }
}

fn zero_list(n: usize) -> (value: Json)
    ensures
        value@ == zeros(n as nat),
{
    let mut list: Vec<Json> = Vec::new();
    let mut i: usize = 0;
    while i < n
        invariant
            i <= n,
            list@.len() == i,
            forall|j: int| 0 <= j < i ==> (#[trigger] list@[j])@ == JsonModel::Real("0.0"@),
        decreases n - i,
    {
        list.push(Json::Real("0.0".to_owned()));
        i = i + 1;
    }
    assert(models(list@) =~= Seq::new(n as nat, |i: int| JsonModel::Real("0.0"@)));
    Json::array(&list)
}

/// The neutral value of a kind of result.
pub fn default_native_value(result_kind: &str) -> (value: Json)
    ensures
        value@ == neutral(result_kind@),
{
    let lower = lowercased(result_kind);
    let kind = lower.as_str();
    if same(kind, "void") {
        Json::Null
    } else if same(kind, "bool") || same(kind, "boolean") {
        Json::Bool(false)
    } else if same(kind, "char*") || same(kind, "const char*") || same(kind, "string") {
        Json::Text("".to_owned())
    } else if same(kind, "float") || same(kind, "double") {
        Json::Real("0.0".to_owned())
    } else if same(kind, "object") {
        zero_list(0)
    } else if same(kind, "vector3") {
        // A vector result is destructured (`const [x, y, z] = ...`): a scalar would make
        // every unimplemented vector getter a type error at the call site.
        zero_list(3)
    } else if same(kind, "vector2") {
        zero_list(2)
    } else if same(kind, "vector4") {
        zero_list(4)
    } else {
        Json::Unsigned(0)
    }
}

/// The resource with a hash; no text where there is none.
pub open spec fn named_by(loaded: Seq<Seq<char>>, hash: u32) -> Seq<char>
    decreases loaded.len(),
{
    if loaded.len() == 0 {
        Seq::empty()
    } else if rage_hash(loaded[0]) == hash {
        loaded[0]
    } else {
        named_by(loaded.skip(1), hash)
    }
}

/// What the native on an entity's creator answers: the wire carries only the hash of the
/// resource's name.
pub open spec fn script_answer(m: NativesModel, name: Seq<char>, args: Seq<JsonModel>) -> Option<
    JsonModel,
> {
    if name == "GET_ENTITY_SCRIPT"@ {
        Some(
            JsonModel::Text(
                match found(m.world.entities, arg_netid(args, 0)) {
                    Some(entity) => match entity.sync.script_hash {
                        Some(hash) => named_by(m.loaded, hash),
                        None => Seq::empty(),
                    },
                    None => Seq::empty(),
                },
            ),
        )
    } else {
        None
    }
}

impl<R: RoutingControl, C: ResourceControl> Natives<R, C> {
    fn find_by_hash(&self, hash: u32) -> (name: String)
        ensures
            name@ == named_by(self@.loaded, hash),
    {
        let ghost all = self@.loaded;
        let mut i: usize = 0;
        assert(all.skip(0) =~= all);
        while i < self.loaded.len()
            invariant
                i <= self.loaded@.len() == all.len(),
                all == texts(self.loaded@),
                named_by(all, hash) == named_by(all.skip(i as int), hash),
            decreases self.loaded@.len() - i,
        {
            assert(all.skip(i as int)[0] == self.loaded@[i as int]@);
            assert(all.skip(i as int).skip(1) =~= all.skip(i + 1));
            if hash_rage_string(self.loaded[i].as_str()) == hash {
                return self.loaded[i].clone();
            }
            i = i + 1;
        }
        let none = String::new();
        assert(none@ =~= Seq::empty());
        none
    }

    fn script_native(&self, name: &str, args: &Vec<Json>) -> (value: Option<Json>)
        requires
            self.wf(),
        ensures
            optional_json(value) == script_answer(self@, name@, models(args@)),
    {
        if same(name, "GET_ENTITY_SCRIPT") {
            let hash: Option<u32> = match self.world.get(json_arg_netid(args, 0)) {
                Some(entity) => entity.sync.script_hash,
                None => None,
            };
            let name = match hash {
                Some(hash) => self.find_by_hash(hash),
                None => {
                    let none = String::new();
                    assert(none@ =~= Seq::empty());
                    none
                },
            };
            Some(Json::Text(name))
        } else {
            None
        }
    }
}

/// The natives whose outcome is settled by the state and the arguments.
pub open spec fn settled_step(
    m: NativesModel,
    voice: Option<VoiceModel>,
    name: Seq<char>,
    args: Seq<JsonModel>,
) -> Option<(NativesModel, JsonModel)> {
    if creation_step(m, name, args) is Some {
        creation_step(m, name, args)
    } else if entity_answer(m, name, args) is Some {
        Some((m, entity_answer(m, name, args).unwrap()))
    } else if update_step(m, name, args) is Some {
        update_step(m, name, args)
    } else if player_step(m, name, args) is Some {
        player_step(m, name, args)
    } else if server_answer(name, args) is Some {
        Some((m, server_answer(name, args).unwrap()))
    } else {
        voice_step(m, voice, name, args)
    }
}

/// The natives that are answered from the world mirror or handed to a client, and the
/// rest, which get a neutral value.
pub open spec fn fallback_step(
    m: NativesModel,
    name: Seq<char>,
    result_kind: Seq<char>,
    args: Seq<JsonModel>,
) -> (NativesModel, JsonModel) {
    match first_of(script_answer(m, name, args), world_answer(m.world, name, args)) {
        Some(value) => (m, value),
        None => match rpc_step(m, name, args) {
            Some(after) => (after, JsonModel::Null),
            None => (missed(m, name, result_kind), neutral(result_kind)),
        },
    }
}

/// What the server natives do and answer.
pub open spec fn server_step(
    m: NativesModel,
    voice: Option<VoiceModel>,
    name: Seq<char>,
    result_kind: Seq<char>,
    args: Seq<JsonModel>,
    after: NativesModel,
    value: JsonModel,
) -> bool {
    if settled_step(m, voice, name, args) is Some {
        (after, value) == settled_step(m, voice, name, args).unwrap()
    } else if service_step(m, name, args, m, None) {
        (after, value) == fallback_step(m, name, result_kind, args)
    } else {
        service_step(m, name, args, after, Some(value))
    }
}

impl<R: RoutingControl, C: ResourceControl> Natives<R, C> {
    fn settled_native(&mut self, voice: Option<&VoiceAnswer>, name: &str, args: &Vec<Json>) -> (value:
        Option<Json>)
        requires
            old(self).wf(),
        ensures
            final(self).wf(),
            took(
                settled_step(old(self)@, voice_model(voice), name@, models(args@)),
                old(self)@,
                final(self)@,
                optional_json(value),
            ),
    {
        if let Some(value) = self.creation_native(name, args) {
            return Some(value);
        }
        if let Some(value) = self.entity_reader(name, args) {
            return Some(value);
        }
        if let Some(value) = self.update_native(name, args) {
            return Some(value);
        }
        if let Some(value) = self.player_native(name, args) {
            return Some(value);
        }
        if let Some(value) = server_constant(name, args) {
            return Some(value);
        }
        self.voice_native(voice, name, args)
    }

    /// The server-only natives: synthetic entities, players, voice, world.
    pub fn server_native_value(
        &mut self,
        voice: Option<&VoiceAnswer>,
        name: &str,
        result_kind: &str,
        args: &Vec<Json>,
    ) -> (value: Json)
        requires
            old(self).wf(),
        ensures
            final(self).wf(),
            server_step(
                old(self)@,
                voice_model(voice),
                name@,
                result_kind@,
                models(args@),
                final(self)@,
                value@,
            ),
    {
        if let Some(value) = self.settled_native(voice, name, args) {
            return value;
        }
        if let Some(value) = self.service_native(name, args) {
            return value;
        }
        if let Some(value) = self.script_native(name, args) {
            return value;
        }
        // Readers backed by the decoded sync tree answer from the server's own reading of
        // the world, so they must not be routed to a client.
        if let Some(value) = try_dispatch(&self.world, name, args) {
            return value;
        }
        // Much of the "server" native surface is really a client mutation that the
        // server routes to one client. Every one of them returns void.
        if self.route_native(name, args) {
            return Json::Null;
        }
        self.miss(name, result_kind);
        default_native_value(result_kind)
    }

    /// The server-only natives, as a script calls them.
    pub fn cfx_server_native(
        &mut self,
        voice: Option<&VoiceAnswer>,
        name: &str,
        result_kind: &str,
        args_json: &str,
    ) -> (text: String)
        requires
            old(self).wf(),
        ensures
            final(self).wf(),
            exists|value: JsonModel|
                text@ == json_text(value) && #[trigger] server_step(
                    old(self)@,
                    voice_model(voice),
                    name@,
                    result_kind@,
                    args_of(args_json@),
                    final(self)@,
                    value,
                ),
    {
        let args = json_args(args_json);
        let value = self.server_native_value(voice, name, result_kind, &args);
        value.to_json()
    }

    /// The shared natives, as a script calls them.
    pub fn cfx_shared_native(&mut self, name: &str, args_json: &str) -> (text: String)
        requires
            old(self).wf(),
        ensures
            final(self).wf(),
            exists|value: Option<JsonModel>, done: NativesModel| #[trigger]
                shared_step(old(self)@, name@, args_of(args_json@), done, value) && match value {
                    Some(v) => final(self)@ == done && text@ == json_text(v),
                    None => final(self)@ == missed(done, name@, "void"@) && text@ == json_text(
                        neutral("void"@),
                    ),
                },
    {
        let args = json_args(args_json);
        let value = self.shared_native_value(name, &args);
        let ghost model = optional_json(value);
        assert(shared_step(old(self)@, name@, args_of(args_json@), self@, model));
        match value {
            Some(value) => value.to_json(),
            None => {
                self.miss(name, "void");
                default_native_value("void").to_json()
            },
        }
    }

    /// Route a native to whichever dispatcher owns it. The shared set is tried first
    /// because it is the one whose names are exact.
    pub fn cfx_native(
        &mut self,
        voice: Option<&VoiceAnswer>,
        name: &str,
        result_kind: &str,
        args_json: &str,
    ) -> (text: String)
        requires
            old(self).wf(),
        ensures
            final(self).wf(),
            exists|value: JsonModel|
                text@ == json_text(value) && #[trigger] native_step(
                    old(self)@,
                    voice_model(voice),
                    name@,
                    result_kind@,
                    args_of(args_json@),
                    final(self)@,
                    value,
                ),
    {
        let args = json_args(args_json);
        match self.shared_native_value(name, &args) {
            Some(value) => {
                assert(native_step(
                    old(self)@,
                    voice_model(voice),
                    name@,
                    result_kind@,
                    args_of(args_json@),
                    self@,
                    value@,
                ));
                value.to_json()
            },
            None => {
                assert(self@ == old(self)@);
                let value = self.server_native_value(voice, name, result_kind, &args);
                assert(native_step(
                    old(self)@,
                    voice_model(voice),
                    name@,
                    result_kind@,
                    args_of(args_json@),
                    self@,
                    value@,
                ));
                value.to_json()
            },
        }
    }
}

/// What a native does and answers, whichever dispatcher owns it.
pub open spec fn native_step(
    m: NativesModel,
    voice: Option<VoiceModel>,
    name: Seq<char>,
    result_kind: Seq<char>,
    args: Seq<JsonModel>,
    after: NativesModel,
    value: JsonModel,
) -> bool {
    if shared_step(m, name, args, m, None) {
        server_step(m, voice, name, result_kind, args, after, value)
    } else {
        shared_step(m, name, args, after, Some(value))
    }
}

} // verus!
