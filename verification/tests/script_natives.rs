//! The natives, called the way a script calls them.
use baston::bindings::{player_from_index, SharedGameState};
use baston::entity_world::{
    EntitySummary, EntitySyncState, EntityWorldView, NoWorldControl, PedGameState, PedMovement,
    PedTasks, ReservedIds, ScriptEntityType, VehicleAppearance, VehicleGameState, VehicleHealth,
    WorldCommand, WorldCommands, WorldControl,
};
use baston::http_bridge::HttpBridge;
use baston::json::Json;
use baston::kvp::KvpStore;
use baston::natives::{
    hash_rage_string, latin1_bytes, voice_question, Effect, Natives, VoiceAnswer, VoiceQuestion,
};
use baston::net_bridge::{EventTarget, NetOutbound};
use baston::observability::{Moment, Observability};
use baston::password::{password_hash, verify_password};
use baston::resource_control::{QueuedResourceControl, ResourceCommand};
use baston::routing::{InMemoryRoutingControl, RoutingControl, RoutingLockdownMode};
use baston::rpc::{RpcContext, RpcNative, RpcTable, SkipReason};
use baston::state_bag::{StateBagSource, StateBagStore};
use serde_json::Value;

type TestNatives = Natives<InMemoryRoutingControl, QueuedResourceControl>;

const AT: Moment = Moment { monotonic_us: 1_000, wall_us: 5_000, thread: 1 };

fn native(name: &str, hash: u64, context: RpcContext, arg_count: usize) -> RpcNative {
    RpcNative { name: name.to_owned(), hash, context, arg_count }
}

fn natives(resource: &str) -> TestNatives {
    let table = RpcTable::new(vec![
        native("SET_ENTITY_COORDS", 0x06843DA7060A026B, RpcContext::Entity { idx: 0 }, 8),
        native("SET_PED_ARMOUR", 0xCEA04D83135264CC, RpcContext::Entity { idx: 0 }, 2),
        native("SET_PLAYER_WANTED_LEVEL", 0x39FF19C64EF7DA5B, RpcContext::Player { idx: 0 }, 3),
    ])
    .expect("sorted");
    Natives::new(
        resource,
        InMemoryRoutingControl::default(),
        QueuedResourceControl::new(),
        table,
    )
}

/// Call a native and read its JSON answer.
fn call(n: &mut TestNatives, name: &str, args: &str) -> Value {
    let text = n.cfx_native(None, name, "Any", args);
    serde_json::from_str(&text).unwrap_or_else(|e| panic!("{name}: {text}: {e}"))
}

fn zero() -> String {
    "0.0".to_owned()
}

fn owned_entity(network_id: u32, owner: u32) -> EntitySummary {
    EntitySummary {
        network_id,
        owner,
        entity_type: ScriptEntityType::Ped,
        position: [zero(), zero(), zero()],
        velocity: [zero(), zero(), zero()],
        speed: zero(),
        routing_bucket: 0,
        health: None,
        dead: false,
        max_health: None,
        armour: None,
        model: None,
        heading: None,
        desired_heading: None,
        sync: EntitySyncState::default(),
    }
}

/// Decompose an `__baston:invokeNative` message into `(target, hash, args)`.
fn invoke_native_call(outbound: &NetOutbound) -> (EventTarget, String, Value) {
    let NetOutbound::ClientEvent { target, event, args_json } = outbound else {
        panic!("a native dispatch emits a JSON-args client event, not a raw one")
    };
    assert_eq!(event, "__baston:invokeNative");
    let payload: Value = serde_json::from_str(args_json).expect("payload is JSON");
    let call = payload[0].clone();
    let hash = call["hash"].as_str().expect("hash").to_owned();
    (*target, hash, call["args"].clone())
}

// --- shared natives ---

#[test]
fn shared_cfx_runtime_natives_are_exposed() {
    let mut n = natives("shared-cfx");
    assert_eq!(call(&mut n, "IS_DUPLICITY_VERSION", "[]"), Value::from(true));
    assert_eq!(call(&mut n, "GET_GAME_NAME", "[]"), Value::from("gta5"));
    assert_eq!(call(&mut n, "GET_INSTANCE_ID", "[]"), Value::from(0));
    assert_eq!(call(&mut n, "GET_INVOKING_RESOURCE", "[]"), Value::from("shared-cfx"));
    assert_eq!(call(&mut n, "PROFILER_IS_RECORDING", "[]"), Value::from(false));
    call(&mut n, "PROFILER_ENTER_SCOPE", r#"["shared-cfx-test"]"#);
    call(&mut n, "PROFILER_EXIT_SCOPE", "[]");
    assert_eq!(call(&mut n, "WAS_EVENT_CANCELED", "[]"), Value::from(false));
    assert_eq!(call(&mut n, "IS_ACE_ALLOWED", r#"["command.test"]"#), Value::from(false));
    assert_eq!(
        call(&mut n, "GET_REGISTERED_COMMANDS", "[]"),
        Value::Array(vec![])
    );
}

#[test]
fn natives_answer_through_the_shared_implementation() {
    let mut n = natives("my-resource");
    assert_eq!(n.cfx_shared_native("GET_INVOKING_RESOURCE", "[]"), "\"my-resource\"");
    // A name that is not shared is neutral there.
    assert_eq!(n.cfx_shared_native("CREATE_PED", "[]"), "null");
}

#[test]
fn resource_kvp_round_trips_through_the_shared_natives() {
    let mut n = natives("kvp-test");
    call(&mut n, "SET_RESOURCE_KVP", r#"["greeting", "bonjour"]"#);
    assert_eq!(
        call(&mut n, "GET_RESOURCE_KVP_STRING", r#"["greeting"]"#),
        Value::from("bonjour")
    );
}

#[test]
fn shared_cfx_kvp_natives_are_resource_scoped() {
    let mut n = natives("kvp-a");
    call(&mut n, "SET_RESOURCE_KVP", r#"["alpha", "one"]"#);
    call(&mut n, "SET_RESOURCE_KVP_INT", r#"["count", 42]"#);
    call(&mut n, "SET_RESOURCE_KVP_FLOAT", r#"["ratio", 2.5]"#);
    assert_eq!(call(&mut n, "GET_RESOURCE_KVP_STRING", r#"["alpha"]"#), Value::from("one"));
    assert_eq!(call(&mut n, "GET_RESOURCE_KVP_INT", r#"["count"]"#), Value::from(42));
    assert_eq!(call(&mut n, "GET_RESOURCE_KVP_FLOAT", r#"["ratio"]"#), Value::from(2.5));
    assert_eq!(n.kvp.keys_with_prefix("kvp-a", ""), vec!["alpha", "count", "ratio"]);
    call(&mut n, "DELETE_RESOURCE_KVP", r#"["alpha"]"#);
    assert_eq!(call(&mut n, "GET_RESOURCE_KVP_STRING", r#"["alpha"]"#), Value::Null);

    n.act_for("kvp-b");
    assert_eq!(
        call(&mut n, "GET_RESOURCE_KVP_STRING", r#"["count"]"#),
        Value::Null,
        "kvp leaked"
    );
}

// --- entities ---

#[test]
fn generated_server_native_shims_are_callable() {
    let mut n = natives("server-cfx");
    let vehicle = call(&mut n, "CREATE_VEHICLE", "[4660, 1.0, 2.0, 3.0, 90.0, true, false]");
    let on = |rest: &str| format!("[{vehicle}{rest}]");
    assert_eq!(call(&mut n, "DOES_ENTITY_EXIST", &on("")), Value::from(true));
    assert_eq!(call(&mut n, "GET_ENTITY_TYPE", &on("")), Value::from(2));
    assert_eq!(
        call(&mut n, "GET_ENTITY_COORDS", &on("")),
        Value::from(vec![1.0, 2.0, 3.0])
    );
    call(&mut n, "SET_ENTITY_COORDS", &on(", 4.0, 5.0, 6.0"));
    assert_eq!(
        call(&mut n, "GET_ENTITY_COORDS", &on("")),
        Value::from(vec![4.0, 5.0, 6.0])
    );
    assert_eq!(call(&mut n, "GET_ENTITY_MODEL", &on("")), Value::from(0x1234));
    assert_eq!(call(&mut n, "GET_ALL_VEHICLES", "[]")[0], vehicle);
    assert_ne!(call(&mut n, "GET_HASH_KEY", r#"["test"]"#), Value::from(0));
    call(&mut n, "DELETE_ENTITY", &on(""));
    assert_eq!(call(&mut n, "DOES_ENTITY_EXIST", &on("")), Value::from(false));
}

#[test]
fn the_hash_is_the_engines() {
    // One-at-a-time hashes that the game itself uses.
    assert_eq!(hash_rage_string("adder"), 0xB779A091);
    assert_eq!(hash_rage_string(""), 0);
}

#[test]
fn routing_bucket_natives_update_shared_control_and_synthetic_entities() {
    let mut n = natives("routing-test");
    let entity = call(&mut n, "CREATE_OBJECT", "[123, 0, 0, 0, true, true, false]");
    let id = entity.as_u64().expect("synthetic entity id") as u32;
    call(&mut n, "SET_ENTITY_ROUTING_BUCKET", &format!("[{id}, 17]"));
    call(&mut n, "SET_PLAYER_ROUTING_BUCKET", "[23, 17]");
    call(&mut n, "SET_ROUTING_BUCKET_ENTITY_LOCKDOWN_MODE", r#"[17, "strict"]"#);
    call(&mut n, "SET_ROUTING_BUCKET_POPULATION_ENABLED", "[17, false]");
    assert_eq!(
        call(&mut n, "GET_ENTITY_ROUTING_BUCKET", &format!("[{id}]")),
        Value::from(17)
    );
    assert_eq!(call(&mut n, "GET_PLAYER_ROUTING_BUCKET", "[23]"), Value::from(17));

    assert_eq!(n.routing.entity_bucket(id), 17);
    assert_eq!(n.routing.player_bucket(23), 17);
    assert_eq!(n.routing.lockdown_mode(17), RoutingLockdownMode::Strict);
    assert!(!n.routing.population_enabled(17));
    // An unknown mode is ignored.
    call(&mut n, "SET_ROUTING_BUCKET_ENTITY_LOCKDOWN_MODE", r#"[17, "sealed"]"#);
    assert_eq!(n.routing.lockdown_mode(17), RoutingLockdownMode::Strict);
}

#[test]
fn creation_uses_a_reserved_network_id() {
    let mut n = natives("spawner");
    let mut world = World { next: 70, commands: vec![] };
    n.serve_world(&mut world);
    let ped = call(&mut n, "CREATE_PED", "[4, 1885233650, 1.0, 2.0, 3.0, 90.0, true, true]");
    assert_eq!(ped, Value::from(70));
    n.serve_world(&mut world);
    assert_eq!(
        world.commands,
        vec![WorldCommand::Spawn {
            network_id: 70,
            entity_type: ScriptEntityType::Ped,
            model: 1885233650,
            position: ["1.0".into(), "2.0".into(), "3.0".into()],
            heading: "90.0".into(),
            dynamic: false,
        }]
    );
    assert!(n.effects.is_empty());
    assert_eq!(NoWorldControl.reserve_network_id(), None);
}

/// An id is asked for when none is held, and only then; a world that has none left leaves
/// the script without one.
#[test]
fn the_world_is_asked_for_one_id_at_a_time() {
    let mut n = natives("spawner");
    let mut world = World { next: 70, commands: vec![] };
    n.serve_world(&mut world);
    n.serve_world(&mut world);
    assert_eq!((n.reserved, world.next), (Some(70), 71));
    call(&mut n, "CREATE_PED", "[4, 1, 1.0, 2.0, 3.0, 90.0, true, true]");
    assert_eq!(n.reserved, None);
    n.serve_world(&mut world);
    assert_eq!((n.reserved, world.next), (Some(71), 72), "never the same id twice");

    let mut other = natives("spawner");
    other.serve_world(&mut NoWorldControl);
    assert_eq!(other.reserved, None);
}

struct World {
    next: u32,
    commands: Vec<WorldCommand>,
}

impl WorldControl for World {
    fn asked(&self) -> WorldCommands {
        unreachable!()
    }

    fn takes(&self) -> bool {
        true
    }

    fn handed_out(&self) -> ReservedIds {
        unreachable!()
    }

    fn exhausted(&self) -> bool {
        false
    }

    fn reserve_network_id(&mut self) -> Option<u32> {
        self.next += 1;
        Some(self.next - 1)
    }

    fn submit(&mut self, command: WorldCommand) {
        self.commands.push(command);
    }
}

/// A native that there is none of is answered neutrally, and the host is told.
#[test]
fn an_unimplemented_native_is_reported() {
    let mut n = natives("gap-test");
    assert_eq!(n.cfx_native(None, "NO_SUCH_NATIVE", "BOOL", "[]"), "false");
    assert_eq!(n.cfx_shared_native("NO_SUCH_NATIVE_EITHER", "[]"), "null");
    assert_eq!(call(&mut n, "PERFORM_HTTP_REQUEST_INTERNAL", "[\"{}\", 2]"), Value::from(0));
    let reported: Vec<_> = n
        .effects
        .iter()
        .map(|effect| match effect {
            Effect::Unimplemented { native, result_kind } => (&native[..], &result_kind[..]),
            other => panic!("{other:?}"),
        })
        .collect();
    assert_eq!(
        reported,
        [
            ("NO_SUCH_NATIVE", "BOOL"),
            ("NO_SUCH_NATIVE_EITHER", "void"),
            ("PERFORM_HTTP_REQUEST_INTERNAL", "int"),
        ]
    );
}

// --- context-routed natives ---

/// A context-routed native whose entity has no owner must stay on the server.
#[test]
fn entity_ctx_native_without_a_known_owner_is_not_dispatched() {
    let mut n = natives("rpc-test");
    // SET_PED_ARMOUR is a pure client native: ctx = owner of args[0].
    call(&mut n, "SET_PED_ARMOUR", "[4242, 50]");
    assert!(
        n.net.drain().is_empty(),
        "an unowned entity must not produce a client dispatch"
    );

    // Same call, same handle — but now a client owns it.
    n.world.publish(vec![owned_entity(4242, 9)]);
    call(&mut n, "SET_PED_ARMOUR", "[4242, 50]");

    let sent = n.net.drain();
    assert_eq!(sent.len(), 1);
    let (target, hash, args) = invoke_native_call(&sent[0]);
    assert_eq!(target, EventTarget::One(9), "routed to the owner, not to the caller");
    assert_eq!(hash, "0xCEA04D83135264CC");
    // A script handle IS the network id, so the entity argument travels verbatim.
    assert_eq!(args, Value::from(vec![4242, 50]));

    // Only the call that had a target is measured.
    let mut obs = Observability::new(0);
    assert!(n.take_effects(&mut obs, 7, AT).is_empty());
    assert_eq!(obs.resource_snapshot("rpc-test").unwrap().native_calls, 1);
}

/// A call that names no client gets no id: the next one that does takes it.
#[test]
fn a_dropped_call_consumes_no_id() {
    let mut n = natives("rpc-test");
    let first = n.next_call;
    call(&mut n, "SET_PED_ARMOUR", "[4242]");
    call(&mut n, "SET_PED_ARMOUR", "[4242, 50]");
    call(&mut n, "SET_PLAYER_WANTED_LEVEL", "[0, 3, false]");
    assert_eq!(n.next_call, first);
    let dropped: Vec<_> = n
        .effects
        .iter()
        .map(|effect| match effect {
            Effect::Called { native, outcome, target: None, .. } => (&native[..], *outcome),
            other => panic!("{other:?}"),
        })
        .collect();
    assert_eq!(
        dropped,
        [
            ("SET_PED_ARMOUR", Err(SkipReason::BadArity)),
            ("SET_PED_ARMOUR", Err(SkipReason::NoOwner)),
            ("SET_PLAYER_WANTED_LEVEL", Err(SkipReason::NoTarget)),
        ]
    );

    call(&mut n, "SET_PLAYER_WANTED_LEVEL", "[7, 3, false]");
    assert_eq!(n.next_call, first + 1);
    // One that the bridge refuses has had its id.
    n.net.close();
    call(&mut n, "SET_PLAYER_WANTED_LEVEL", "[7, 3, false]");
    assert_eq!(n.next_call, first + 2);
}

/// `ctx.type == "Player"` natives address the player argument directly.
#[test]
fn player_ctx_native_is_dispatched_to_that_player() {
    let mut n = natives("rpc-test");
    call(&mut n, "SET_PLAYER_WANTED_LEVEL", "[7, 3, false]");
    let sent = n.net.drain();
    let (target, hash, args) = invoke_native_call(&sent[0]);
    assert_eq!(target, EventTarget::One(7));
    assert_eq!(hash, "0x39FF19C64EF7DA5B");
    assert_eq!(args, serde_json::from_str::<Value>("[7, 3, false]").unwrap());
}

#[test]
fn network_get_entity_owner_reads_the_entity_mirror() {
    let mut n = natives("owner-test");
    n.world.publish(vec![owned_entity(77, 3)]);
    assert_eq!(call(&mut n, "NETWORK_GET_ENTITY_OWNER", "[77]"), Value::from(3));
    assert_eq!(call(&mut n, "NETWORK_GET_ENTITY_OWNER", "[78]"), Value::from(0));
    call(&mut n, "SET_PLAYER_WANTED_LEVEL", "[3, 1, false]");
    let sent = n.net.drain();
    assert_eq!(invoke_native_call(&sent[0]).0, EventTarget::One(3));
}

/// `SET_ENTITY_COORDS` has real server-side behaviour (the synthetic store) and
/// is a context native. Both must happen.
#[test]
fn set_entity_coords_updates_server_state_and_propagates_to_the_owner() {
    let mut n = natives("coords-test");
    n.world.publish(vec![owned_entity(4243, 5)]);
    // A script-created handle: server-side store only, no owner.
    let obj = call(&mut n, "CREATE_OBJECT", "[1, 1.0, 2.0, 3.0, false, false, false]");
    call(
        &mut n,
        "SET_ENTITY_COORDS",
        &format!("[{obj}, 9.0, 8.0, 7.0, false, false, false, false]"),
    );
    assert_eq!(
        call(&mut n, "GET_ENTITY_COORDS", &format!("[{obj}]"))[0],
        Value::from(9.0)
    );
    // A networked handle: must reach its owner.
    call(
        &mut n,
        "SET_ENTITY_COORDS",
        "[4243, 1.0, 2.0, 3.0, false, false, false, false]",
    );

    let sent = n.net.drain();
    assert_eq!(sent.len(), 1);
    let (target, hash, args) = invoke_native_call(&sent[0]);
    assert_eq!(target, EventTarget::One(5), "only the networked handle has an owner");
    assert_eq!(hash, "0x06843DA7060A026B");
    assert_eq!(args[0], Value::from(4243));
}

// --- vehicle and ped state natives ---

/// A vehicle carrying every node the readers depend on.
fn synced_vehicle(network_id: u32, owner: u32) -> EntitySummary {
    let mut entity = owned_entity(network_id, owner);
    entity.entity_type = ScriptEntityType::Vehicle;
    entity.velocity = ["3.0".into(), "4.0".into(), zero()];
    entity.speed = "5.0".into();
    entity.heading = Some("90.0".into());
    entity.sync.vehicle_game_state = Some(VehicleGameState {
        engine_on: true,
        engine_starting: false,
        siren_on: true,
        lock_status: 2,
        has_lock: true,
        locked_players: -1,
        doors_open: 0b000_0001,
        door_positions: vec![4, 0, 0, 0, 0, 0, 0],
        lights_on: true,
        highbeams_on: false,
        default_headlights: false,
        headlights_colour: 0,
        radio_station: 21,
        has_been_owned_by_player: false,
    });
    let mut tyre_status = vec![0; 16];
    tyre_status[0] = 1;
    tyre_status[1] = 2;
    entity.sync.vehicle_health = Some(VehicleHealth {
        body_health: 910,
        engine_health: 650,
        petrol_tank_health: 0,
        total_repairs: 0,
        tyres_fine: false,
        tyre_status,
    });
    entity.sync.vehicle_appearance = Some(VehicleAppearance {
        primary_colour: 12,
        secondary_colour: 34,
        pearl_colour: 0,
        wheel_colour: 0,
        interior_colour: 0,
        dashboard_colour: 0,
        is_primary_colour_rgb: false,
        is_secondary_colour_rgb: false,
        primary_rgb: [0; 3],
        secondary_rgb: [0; 3],
        dirt_level: 0,
        livery_index: 5,
        roof_livery_index: 0,
        wheel_type: 0,
        window_tint_index: 255,
        tyre_smoke_colour: [0; 3],
        plate_text: "BASTON01".into(),
        number_plate_text_index: 0,
        horn_type_hash: 0,
        has_neon_lights: true,
        neon_colour: [255, 0, 128],
        neon_sides: vec![true, false, true, false],
        // Extras are inverted on the wire: a set bit turns the extra off. Bit 2
        // is extra 1, so extra 1 reads as off and extra 2 as on.
        extras: 0b100,
    });
    entity
}

/// A ped sitting in `vehicle`'s driver seat (raw seat 1 = script seat -1).
fn seated_ped(network_id: u32, owner: u32, vehicle: i32) -> EntitySummary {
    let mut ped = owned_entity(network_id, owner);
    ped.sync.ped_game_state = Some(PedGameState {
        cur_vehicle: vehicle,
        cur_vehicle_seat: 1,
        cur_weapon: 0x1B06_D7B1,
        is_handcuffed: true,
        is_flashlight_on: false,
        action_mode_enabled: false,
        stealth_mode_enabled: false,
    });
    ped
}

#[test]
fn vehicle_natives_read_the_decoded_sync_tree() {
    let mut n = natives("vehicle-test");
    n.world.publish(vec![synced_vehicle(4243, 5)]);
    let mut eq = |name: &str, args: &str, want: Value| {
        assert_eq!(call(&mut n, name, args), want, "{name}{args}");
    };
    eq("GET_IS_VEHICLE_ENGINE_RUNNING", "[4243]", Value::from(true));
    eq("IS_VEHICLE_SIREN_ON", "[4243]", Value::from(true));
    eq("GET_VEHICLE_DOOR_LOCK_STATUS", "[4243]", Value::from(2));
    eq("GET_VEHICLE_DOORS_LOCKED_FOR_PLAYER", "[4243]", Value::from(true));
    eq("GET_VEHICLE_DOOR_STATUS", "[4243, 0]", Value::from(4));
    eq("GET_VEHICLE_DOOR_STATUS", "[4243, 1]", Value::from(0));
    eq("GET_VEHICLE_RADIO_STATION_INDEX", "[4243]", Value::from(21));
    eq("GET_VEHICLE_ENGINE_HEALTH", "[4243]", Value::from(650.0));
    eq("GET_VEHICLE_BODY_HEALTH", "[4243]", Value::from(910.0));
    eq("IS_VEHICLE_TYRE_BURST", "[4243, 0, false]", Value::from(true));
    eq("IS_VEHICLE_TYRE_BURST", "[4243, 0, true]", Value::from(false));
    eq("IS_VEHICLE_TYRE_BURST", "[4243, 1, true]", Value::from(true));
    eq("IS_VEHICLE_TYRE_BURST", "[4243, 2, false]", Value::from(false));
    eq("GET_VEHICLE_NUMBER_PLATE_TEXT", "[4243]", Value::from("BASTON01"));
    eq("GET_VEHICLE_LIVERY", "[4243]", Value::from(5));
    eq("GET_VEHICLE_WINDOW_TINT", "[4243]", Value::from(-1));
    eq("IS_VEHICLE_EXTRA_TURNED_ON", "[4243, 1]", Value::from(false));
    eq("IS_VEHICLE_EXTRA_TURNED_ON", "[4243, 2]", Value::from(true));
    eq("GET_VEHICLE_NEON_ENABLED", "[4243, 0]", Value::from(true));
    eq("GET_VEHICLE_NEON_ENABLED", "[4243, 1]", Value::from(false));
    eq("GET_VEHICLE_COLOURS", "[4243]", Value::from(vec![12, 34]));
    eq("GET_VEHICLE_NEON_COLOUR", "[4243]", Value::from(vec![255, 0, 128]));
    eq("GET_ENTITY_SPEED", "[4243]", Value::from(5.0));

    // An entity the mirror does not know answers neutrally rather than
    // inventing a reading.
    eq("GET_IS_VEHICLE_ENGINE_RUNNING", "[9999]", Value::from(false));
    eq("GET_VEHICLE_NUMBER_PLATE_TEXT", "[9999]", Value::from(""));

    let lights = call(&mut n, "GET_VEHICLE_LIGHTS_STATE", "[4243]");
    assert_eq!(lights[1], Value::from(true));
    assert_eq!(lights[2], Value::from(false));
    assert_eq!(call(&mut n, "GET_ENTITY_ROTATION", "[4243]")[2], Value::from(90.0));
}

#[test]
fn ped_occupancy_natives_resolve_both_directions() {
    let mut n = natives("occupancy-test");
    n.world.publish(vec![synced_vehicle(4243, 5), seated_ped(77, 5, 4243)]);
    let mut eq = |name: &str, args: &str, want: Value| {
        assert_eq!(call(&mut n, name, args), want, "{name}{args}");
    };
    eq("GET_VEHICLE_PED_IS_IN", "[77, false]", Value::from(4243));
    eq("GET_VEHICLE_PED_IS_IN", "[9999, false]", Value::from(0));
    eq("GET_VEHICLE_PED_IS_IN", "[9999, true]", Value::from(0));
    eq("IS_PED_IN_ANY_VEHICLE", "[77]", Value::from(true));
    eq("IS_PED_IN_VEHICLE", "[77, 4243, false]", Value::from(true));
    eq("IS_PED_IN_VEHICLE", "[77, 1, false]", Value::from(false));
    eq("GET_SEAT_PED_IS_USING", "[77]", Value::from(-1));
    eq("GET_PED_IN_VEHICLE_SEAT", "[4243, -1]", Value::from(77));
    eq("GET_PED_IN_VEHICLE_SEAT", "[4243, 0]", Value::from(0));
    eq("GET_LAST_PED_IN_VEHICLE_SEAT", "[4243, -1]", Value::from(77));
    eq("GET_SELECTED_PED_WEAPON", "[77]", Value::from(0x1B06_D7B1));
    eq("IS_PED_HANDCUFFED", "[77]", Value::from(true));
    eq("GET_PED_STEALTH_MOVEMENT", "[77]", Value::from(false));
}

/// Leaving a vehicle must keep the seat's last occupant, or a script cannot
/// tell who just got out.
#[test]
fn a_seat_keeps_its_last_occupant_after_the_ped_leaves() {
    let mut world = EntityWorldView::new();
    world.publish(vec![synced_vehicle(4243, 5), seated_ped(77, 5, 4243)]);

    let mut left = seated_ped(77, 5, -1);
    if let Some(state) = &mut left.sync.ped_game_state {
        state.cur_vehicle = -1;
        state.cur_vehicle_seat = -1;
    }
    left.sync.last_vehicle = Some(4243);
    left.sync.last_vehicle_seat = Some(1);
    world.publish(vec![synced_vehicle(4243, 5), left]);

    assert_eq!(world.occupant(4243, -1), None, "the seat is empty now");
    assert_eq!(world.last_occupant(4243, -1), Some(77));
}

/// The death and movement family, which anti-cheat and RP death handlers
/// depend on.
#[test]
fn ped_state_natives_read_the_decoded_nodes() {
    let mut killer = owned_entity(88, 6);
    killer.health = Some("200.0".into());

    let mut victim = owned_entity(77, 5);
    victim.health = Some(zero());
    victim.dead = true;
    victim.desired_heading = Some("120.0".into());
    victim.sync.cause_of_death = Some(0xA284_C825);
    victim.sync.source_of_damage = Some(88);
    victim.sync.relationship_group = Some(0x1234_5678);
    victim.sync.is_visible = Some(true);
    victim.sync.attached_to = Some(0);
    victim.sync.ped_movement = Some(PedMovement {
        is_stealthy: false,
        is_strafing: true,
        is_ragdolling: true,
    });
    victim.sync.ped_tasks = Some(PedTasks {
        script_command: 0xDEAD_BEEF,
        script_task_stage: 1,
        task_types: vec![151, 531, 47, 531, 531, 531, 531, 531],
    });

    let mut n = natives("ped-state-test");
    n.world.publish(vec![victim, killer]);
    let mut eq = |name: &str, args: &str, want: Value| {
        assert_eq!(call(&mut n, name, args), want, "{name}{args}");
    };
    eq("GET_PED_CAUSE_OF_DEATH", "[77]", Value::from(0xA284_C825u32));
    eq("GET_PED_SOURCE_OF_DAMAGE", "[77]", Value::from(88));
    eq("GET_PED_SOURCE_OF_DEATH", "[77]", Value::from(88));
    eq("IS_PED_RAGDOLL", "[77]", Value::from(true));
    eq("IS_PED_STRAFING", "[77]", Value::from(true));
    eq("GET_PED_RELATIONSHIP_GROUP_HASH", "[77]", Value::from(0x1234_5678));
    eq("GET_PED_DESIRED_HEADING", "[77]", Value::from(120.0));
    eq("GET_PED_SCRIPT_TASK_COMMAND", "[77]", Value::from(0xDEAD_BEEFu32));
    eq("GET_PED_SCRIPT_TASK_STAGE", "[77]", Value::from(1));
    eq("GET_PED_SPECIFIC_TASK_TYPE", "[77, 0]", Value::from(151));
    eq("GET_PED_SPECIFIC_TASK_TYPE", "[77, 2]", Value::from(47));
    eq("GET_PED_SPECIFIC_TASK_TYPE", "[77, 99]", Value::from(151));
    eq("IS_ENTITY_VISIBLE", "[77]", Value::from(true));
    eq("GET_ENTITY_ATTACHED_TO", "[77]", Value::from(0));

    // A living ped has no source of death, only a source of damage.
    eq("GET_PED_SOURCE_OF_DEATH", "[88]", Value::from(0));
}

/// `GET_ENTITY_SCRIPT` resolves the hash on the wire back to the resource name
/// a script can actually use.
#[test]
fn entity_script_resolves_the_owning_resource_name() {
    let mut entity = owned_entity(77, 5);
    entity.sync.script_hash = Some(hash_rage_string("script-owner"));
    let mut n = natives("script-owner");
    n.world.publish(vec![entity]);
    n.loaded = vec!["another".into(), "script-owner".into()];

    assert_eq!(call(&mut n, "GET_ENTITY_SCRIPT", "[77]"), Value::from("script-owner"));
    // A hash nothing loaded produced resolves to nothing.
    assert_eq!(call(&mut n, "GET_ENTITY_SCRIPT", "[9999]"), Value::from(""));
}

// --- server control natives ---

#[test]
fn resource_lifecycle_natives_reach_the_manager() {
    let mut n = natives("admin");
    assert_eq!(call(&mut n, "START_RESOURCE", r#"["chat"]"#), Value::from(true));
    assert_eq!(call(&mut n, "STOP_RESOURCE", r#"["chat"]"#), Value::from(true));
    assert_eq!(
        n.resource_control.drain(),
        vec![
            ResourceCommand::Start("chat".into()),
            ResourceCommand::Stop("chat".into())
        ]
    );
}

/// With no manager wired the natives must report failure rather than look like
/// they worked.
#[test]
fn resource_lifecycle_natives_refuse_without_a_manager() {
    let mut n = natives("admin");
    n.resource_control.close();
    assert_eq!(call(&mut n, "START_RESOURCE", r#"["chat"]"#), Value::from(false));
}

#[test]
fn server_metadata_natives_write_the_convars_info_json_reads() {
    let mut n = natives("meta");
    call(&mut n, "SET_GAME_TYPE", r#"["Roleplay"]"#);
    call(&mut n, "SET_MAP_NAME", r#"["Los Santos"]"#);
    assert_eq!(n.convars.get_convar("sv_gametype", String::new()), "Roleplay");
    assert_eq!(n.convars.get_convar("sv_mapname", String::new()), "Los Santos");
}

#[test]
fn core_convar_natives_follow_fxserver_defaults() {
    let mut n = natives("convars");
    assert_eq!(n.convars.get_convar("missing", "fallback".into()), "fallback");
    assert_eq!(n.convars.get_convar_int("missing_int", 7), 7);
    assert!(n.convars.get_convar_bool("missing_bool", true));
    n.convars.set_convar("voice_useNativeAudio", "true".into());
    n.convars.set_convar("rounds", "42".into());
    assert_eq!(n.convars.get_convar("voice_useNativeAudio", "false".into()), "true");
    assert!(n.convars.get_convar_bool("voice_useNativeAudio", false));
    assert_eq!(n.convars.get_convar_int("rounds", 0), 42);
}

#[test]
fn players_are_found_by_their_position() {
    assert_eq!(player_from_index(&vec![12, 7], 1), 7);
    assert_eq!(player_from_index(&vec![12, 7], 2), 0);
}

/// bcrypt round trip: the hash a script stores must verify, and a wrong
/// password must not.
#[test]
fn password_hashing_round_trips() {
    let mut n = natives("auth");
    let hash = call(&mut n, "GET_PASSWORD_HASH", r#"["correct horse battery staple"]"#);
    let hash = hash.as_str().expect("a text");
    assert!(hash.starts_with("$2"), "not a bcrypt hash: {hash}");
    assert_eq!(
        call(
            &mut n,
            "VERIFY_PASSWORD_HASH",
            &format!(r#"["correct horse battery staple", "{hash}"]"#)
        ),
        Value::from(true)
    );
    assert!(!verify_password("wrong", hash));
    assert!(!verify_password("anything", "not-a-hash"));
    assert_ne!(password_hash("same"), password_hash("same"), "the salt is left to chance");
}

/// The internal event native carries msgpack the caller packed itself, so the
/// bytes must reach the transport unchanged.
#[test]
fn trigger_client_event_internal_forwards_its_payload_verbatim() {
    let mut n = natives("raw-events");
    // msgpack for [1, 255] — bytes that are not valid UTF-8 text.
    call(
        &mut n,
        "TRIGGER_CLIENT_EVENT_INTERNAL",
        "[\"custom:ping\", 7, \"\u{92}\\u0001\u{cc}\u{ff}\", 4]",
    );
    assert_eq!(
        n.net.drain(),
        vec![NetOutbound::ClientEventRaw {
            target: EventTarget::One(7),
            event: "custom:ping".into(),
            payload: vec![0x92, 0x01, 0xCC, 0xFF],
        }]
    );
    assert_eq!(latin1_bytes("a\u{100}b"), b"ab".to_vec());
}

#[test]
fn the_console_buffer_retains_what_resources_printed() {
    let mut n = natives("chatty");
    n.print(&vec!["a distinctive".into(), "line".into()]);
    let text = call(&mut n, "GET_CONSOLE_BUFFER", "[]");
    assert_eq!(text, Value::from("[chatty] a distinctive\tline"));
}

#[test]
fn perform_http_request_queues_and_resolves_its_callback() {
    let mut n = natives("caller");
    n.http = Some(HttpBridge::new());
    let request = r#"{"url":"https://api.test/v1/thing","method":"POST","data":"{\"hello\":\"world\"}","headers":{"Content-Type":"application/json"}}"#;
    let args = serde_json::to_string(&vec![request]).unwrap();
    let token = call(&mut n, "PERFORM_HTTP_REQUEST_INTERNAL", &args);

    let queued = n.http.as_mut().unwrap().drain();
    assert_eq!(queued.len(), 1);
    assert_eq!(queued[0].resource, "caller");
    assert_eq!(queued[0].url, "https://api.test/v1/thing");
    assert_eq!(queued[0].method, "POST");
    assert_eq!(queued[0].body, r#"{"hello":"world"}"#);
    assert_eq!(
        queued[0].headers,
        vec![("Content-Type".to_owned(), "application/json".to_owned())]
    );
    assert_eq!(
        token,
        Value::from(queued[0].token),
        "the script holds the same token the worker sees"
    );
}

/// Without a worker the native must refuse rather than hand back a token that
/// never resolves.
#[test]
fn perform_http_request_without_a_worker_refuses() {
    let mut n = natives("caller");
    let args = serde_json::to_string(&vec![r#"{"url":"https://api.test/"}"#]).unwrap();
    assert_eq!(
        call(&mut n, "PERFORM_HTTP_REQUEST_INTERNAL", &args),
        Value::from(0)
    );
}

#[test]
fn unknown_natives_answer_neutrally() {
    let mut n = natives("neutral");
    for (kind, want) in [
        ("void", "null"),
        ("BOOL", "false"),
        ("char*", "\"\""),
        ("float", "0.0"),
        ("object", "[]"),
        ("Vector3", "[0.0,0.0,0.0]"),
        ("vector2", "[0.0,0.0]"),
        ("int", "0"),
    ] {
        assert_eq!(n.cfx_server_native(None, "NO_SUCH_NATIVE", kind, "[]"), want, "{kind}");
    }
}

// --- voice ---

#[test]
fn mumble_natives_drive_the_voice_control_surface() {
    let mut n = natives("voice-test");
    let quiet = VoiceAnswer {
        channel_exists: false,
        player_muted: false,
        proximity: [zero(), zero(), zero()],
    };
    n.cfx_native(Some(&quiet), "MUMBLE_CREATE_CHANNEL", "void", "[64]");
    n.cfx_native(Some(&quiet), "MUMBLE_SET_PLAYER_MUTED", "void", "[7, true]");
    assert_eq!(
        voice_question("MUMBLE_IS_PLAYER_MUTED", "[7]"),
        Some(VoiceQuestion::PlayerMuted(7))
    );
    let muted = VoiceAnswer { player_muted: true, ..quiet };
    assert_eq!(n.cfx_native(Some(&muted), "MUMBLE_IS_PLAYER_MUTED", "BOOL", "[7]"), "true");
    assert_eq!(
        n.cfx_native(
            Some(&muted),
            "NETWORK_GET_VOICE_PROXIMITY_OVERRIDE_FOR_PLAYER",
            "Vector3",
            "[7]"
        ),
        "[0.0,0.0,0.0]"
    );
    assert!(matches!(
        &n.effects[..],
        [Effect::CreateChannel(64), Effect::MutePlayer(7, true)]
    ));
}

#[test]
fn voice_natives_are_inert_without_a_voice_server() {
    let mut n = natives("voice-test");
    call(&mut n, "MUMBLE_CREATE_CHANNEL", "[64]");
    assert_eq!(call(&mut n, "MUMBLE_DOES_CHANNEL_EXIST", "[64]"), Value::from(false));
    assert!(n.effects.is_empty());
}

// --- state bags ---

#[test]
fn js_handlers_receive_serializable_deliveries_and_errors_are_isolated() {
    let mut n = natives("state-test");
    n.add_state_bag_handler("health".into(), "entity:42".into(), 1);
    let cookie = n.add_state_bag_handler("health".into(), "entity:42".into(), 2);
    n.state_bags.set(
        "entity:42",
        "health",
        Json::Unsigned(75),
        true,
        StateBagSource::resource("state-test"),
    );

    let deliveries: Value = serde_json::from_str(&n.poll_state_bag_changes()).unwrap();
    assert_eq!(deliveries.as_array().unwrap().len(), 2);
    assert_eq!(deliveries[1]["callback_id"], Value::from(2));
    let change = &deliveries[1]["change"];
    assert_eq!(change["bag"], Value::from("entity:42"));
    assert_eq!(change["key"], Value::from("health"));
    assert_eq!(change["value"], Value::from(75));
    assert_eq!(change["replicated"], Value::from(true));
    assert_eq!(change["source"]["resource"], Value::from("state-test"));
    assert_eq!(change["source"]["player"], Value::Null);
    assert_eq!(n.poll_state_bag_changes(), "[]", "a delivery comes once");

    let replicated = n.state_bags.drain_replicated(16);
    assert_eq!(replicated.len(), 1);
    assert_eq!(replicated[0].bag, "entity:42");
    assert_eq!(replicated[0].key, "health");
    assert!(n.remove_state_bag_handler(cookie));
    assert!(!n.remove_state_bag_handler(cookie));
}

#[test]
fn installed_surfaces_replace_the_placeholders() {
    let mut n = natives("r");
    let mut kvp = KvpStore::open(None);
    kvp.set("r", "k", "v".into(), true);
    let mut world = EntityWorldView::new();
    world.publish(vec![owned_entity(77, 3)]);
    n.install_shared_game_state(SharedGameState {
        state_bags: StateBagStore::default(),
        routing: InMemoryRoutingControl::default(),
        entity_world: world,
        kvp,
        http: None,
        resource_control: QueuedResourceControl::new(),
    });
    assert_eq!(call(&mut n, "GET_RESOURCE_KVP_STRING", r#"["k"]"#), Value::from("v"));
    assert_eq!(call(&mut n, "NETWORK_GET_ENTITY_OWNER", "[77]"), Value::from(3));
}

// --- what one call stores, another reads back ---

#[test]
fn a_created_entity_exists_until_it_is_deleted() {
    let mut n = natives("r");
    for (name, args) in [
        ("CREATE_OBJECT", "[10,1.0,2.0,3.0,true,true]"),
        ("CREATE_OBJECT_NO_OFFSET", "[10,1.0,2.0,3.0,true,true]"),
        ("CREATE_PED", "[4,10,1.0,2.0,3.0,90.0]"),
        ("CREATE_PED_INSIDE_VEHICLE", "[1,4,10,-1]"),
        ("CREATE_VEHICLE", "[10,1.0,2.0,3.0,90.0]"),
        ("CREATE_VEHICLE_SERVER_SETTER", "[10,\"automobile\",1.0,2.0,3.0,90.0]"),
    ] {
        let handle = call(&mut n, name, args);
        let args = format!("[{handle}]");
        assert_eq!(call(&mut n, "DOES_ENTITY_EXIST", &args), Value::Bool(true), "{name}");
        call(&mut n, "DELETE_ENTITY", &args);
        assert_eq!(call(&mut n, "DOES_ENTITY_EXIST", &args), Value::Bool(false), "{name}");
    }
}

#[test]
fn a_script_reads_back_what_it_gave_its_entity() {
    let mut n = natives("r");
    let id = call(&mut n, "CREATE_VEHICLE", "[10,1.0,2.0,3.0,90.0]");
    call(&mut n, "SET_ENTITY_COORDS", &format!("[{id},4.5,5.5,6.5]"));
    assert_eq!(
        call(&mut n, "GET_ENTITY_COORDS", &format!("[{id}]")),
        Value::from(vec![4.5, 5.5, 6.5])
    );
    call(&mut n, "SET_ENTITY_HEADING", &format!("[{id},12.5]"));
    assert_eq!(call(&mut n, "GET_ENTITY_HEADING", &format!("[{id}]")), Value::from(12.5));
    call(&mut n, "SET_ENTITY_HEALTH", &format!("[{id},-3]"));
    assert_eq!(call(&mut n, "GET_ENTITY_HEALTH", &format!("[{id}]")), Value::from(-3));
    call(&mut n, "SET_ENTITY_ROUTING_BUCKET", &format!("[{id},9]"));
    assert_eq!(call(&mut n, "GET_ENTITY_ROUTING_BUCKET", &format!("[{id}]")), Value::from(9));
    call(&mut n, "SET_PLAYER_ROUTING_BUCKET", "[\"3\",7]");
    assert_eq!(call(&mut n, "GET_PLAYER_ROUTING_BUCKET", "[3]"), Value::from(7));
}

#[test]
fn a_script_reads_back_what_it_stored() {
    let mut n = natives("r");
    for name in ["SET_RESOURCE_KVP", "SET_RESOURCE_KVP_NO_SYNC"] {
        call(&mut n, name, &format!("[\"k\",\"{name}\"]"));
        assert_eq!(call(&mut n, "GET_RESOURCE_KVP_STRING", "[\"k\"]"), Value::from(name));
    }
    for (name, value) in [("SET_RESOURCE_KVP_INT", i64::MIN), ("SET_RESOURCE_KVP_INT_NO_SYNC", 41)] {
        call(&mut n, name, &format!("[\"n\",{value}]"));
        assert_eq!(call(&mut n, "GET_RESOURCE_KVP_INT", "[\"n\"]"), Value::from(value));
    }
    assert_eq!(
        call(&mut n, "GET_RESOURCE_KVP_STRING", "[\"k\"]"),
        Value::from("SET_RESOURCE_KVP_NO_SYNC"),
        "another key is another value"
    );
    n.act_for("other");
    assert_eq!(call(&mut n, "GET_RESOURCE_KVP_STRING", "[\"k\"]"), Value::Null);
    n.act_for("r");
    call(&mut n, "DELETE_RESOURCE_KVP", "[\"k\"]");
    assert_eq!(call(&mut n, "GET_RESOURCE_KVP_STRING", "[\"k\"]"), Value::Null);

    call(&mut n, "SET_STATE_BAG_VALUE", "[\"global\",\"weather\",{\"rain\":1},0,false]");
    assert_eq!(
        call(&mut n, "GET_STATE_BAG_VALUE", "[\"global\",\"weather\"]")["rain"],
        Value::from(1)
    );
}

#[test]
fn world_commands_come_out_in_order_and_one_id_is_held() {
    let mut n = natives("r");
    n.hold_in_reserve(Some(77));
    n.hold_in_reserve(Some(78));
    let id = call(&mut n, "CREATE_VEHICLE", "[10,1.0,2.0,3.0,90.0]");
    assert_eq!(id, Value::from(77), "the id that was held first");
    call(&mut n, "DELETE_ENTITY", "[77]");
    let commands = n.take_world_commands();
    assert!(matches!(
        &commands[..],
        [
            WorldCommand::Spawn { network_id: 77, model: 10, .. },
            WorldCommand::Despawn { network_id: 77 },
        ]
    ));
    assert!(n.take_world_commands().is_empty());
}
