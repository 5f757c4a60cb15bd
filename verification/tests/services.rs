//! The services behind the natives, one by one.
use baston::deferrals::DeferralRegistry;
use baston::engine::{group_by_engine, Engine, Engines};
use baston::entity_world::{EntitySummary, EntitySyncState, EntityWorldView, ScriptEntityType};
use baston::http_bridge::{parse_request, HttpBridge, REQUEST_CAPACITY};
use baston::http_handler::{HttpHandlerRegistry, ScriptHttpResponse};
use baston::json::Json;
use baston::kvp::KvpStore;
use baston::net_bridge::{EventTarget, NetBridge, NetOutbound, NET_BRIDGE_CAPACITY};
use baston::observability::{
    DispatchKind, DispatchMeasurement, Moment, NativeRoundtrip, Observability,
    ProfilerRecordOptions,
};
use baston::resource_control::{
    NoResourceControl, QueuedResourceControl, ResourceCommand, ResourceControl, COMMAND_CAPACITY,
};
use baston::resource_registry::{ResourceManifest, ResourceRegistry, ScriptResourceState};
use baston::routing::{InMemoryRoutingControl, RoutingControl, RoutingLockdownMode};
use baston::rpc::{dispatch, resolve_target, RpcContext, RpcNative, RpcTable, SkipReason};
use baston::state_bag::{
    entity_from_state_bag_name, entity_state_bag_name, player_from_state_bag_name,
    player_state_bag_name, StateBagSource, StateBagStore, MAX_PENDING_DELIVERIES_PER_RESOURCE,
    MAX_REPLICATED_CHANGES,
};

// --- deferrals ---

#[test]
fn done_without_reason_accepts() {
    let mut reg = DeferralRegistry::new();
    reg.register(1);
    reg.done(1, None);
    assert_eq!(reg.outcome(1), Some(Ok(())));
}

#[test]
fn done_with_reason_rejects() {
    let mut reg = DeferralRegistry::new();
    reg.register(2);
    reg.defer(2);
    reg.done(2, Some("Not whitelisted".into()));
    assert_eq!(reg.outcome(2), Some(Err("Not whitelisted".into())));
}

#[test]
fn not_deferred_auto_resolves() {
    let mut reg = DeferralRegistry::new();
    reg.register(3);
    reg.resolve_if_not_deferred(3);
    assert_eq!(reg.outcome(3), Some(Ok(())));
}

#[test]
fn deferred_does_not_auto_resolve() {
    let mut reg = DeferralRegistry::new();
    reg.register(4);
    reg.defer(4);
    reg.resolve_if_not_deferred(4);
    assert!(reg.is_pending(4));
    assert_eq!(reg.outcome(4), None);
}

#[test]
fn a_second_decision_is_ignored() {
    let mut reg = DeferralRegistry::new();
    reg.register(5);
    reg.done(5, Some("first".into()));
    reg.done(5, None);
    assert_eq!(reg.outcome(5), Some(Err("first".into())));
    reg.remove(5);
    assert_eq!(reg.outcome(5), None);
}

// --- engines ---

const BOTH: Engines = Engines { js: true, lua: true };

fn paths(list: &[&str]) -> Vec<String> {
    list.iter().map(|s| (*s).to_owned()).collect()
}

#[test]
fn extensions_map_to_their_engine() {
    assert_eq!(Engine::of_path("server/main.js"), Some(Engine::Js));
    assert_eq!(Engine::of_path("dist/index.mjs"), Some(Engine::Js));
    assert_eq!(Engine::of_path("sv_main.lua"), Some(Engine::Lua));
    // Case follows the filesystem's habits, not ours.
    assert_eq!(Engine::of_path("SV_MAIN.LUA"), Some(Engine::Lua));
    assert_eq!(Engine::of_path("readme.md"), None);
    assert_eq!(Engine::of_path("noextension"), None);
}

/// Groups, not a single choice: the count and the order inside each are
/// what a resource's `server_scripts` promised.
#[test]
fn scripts_of_one_language_form_one_group_in_order() {
    let groups = group_by_engine("test", &paths(&["a.js", "b.js"]), &BOTH).unwrap();
    assert_eq!(groups, vec![(Engine::Js, vec![0, 1])]);
}

#[test]
fn a_lua_resource_groups_onto_the_lua_engine() {
    let groups = group_by_engine("test", &paths(&["sv.lua"]), &BOTH).unwrap();
    assert_eq!(groups, vec![(Engine::Lua, vec![0])]);
}

/// `cfx-server-data`'s runcode: Lua server scripts and a shared `runcode.js`.
#[test]
fn a_resource_using_both_languages_gets_a_group_for_each() {
    let groups = group_by_engine(
        "runcode",
        &paths(&["runcode_sv.lua", "runcode.js", "runcode_web.lua"]),
        &BOTH,
    )
    .unwrap();
    assert_eq!(
        groups,
        vec![(Engine::Lua, vec![0, 2]), (Engine::Js, vec![1])],
        "each language keeps its own scripts, in the order they were declared"
    );
}

/// A group appears in the order its language was first seen, so the log
/// and the error messages read the way the manifest does.
#[test]
fn groups_follow_the_order_the_languages_first_appear() {
    let groups = group_by_engine("test", &paths(&["a.js", "b.lua"]), &BOTH).unwrap();
    assert_eq!(groups[0].0, Engine::Js);
    assert_eq!(groups[1].0, Engine::Lua);
}

#[test]
fn an_unknown_extension_names_what_is_supported() {
    let err = group_by_engine("test", &paths(&["main.py"]), &BOTH).expect_err("unsupported");
    assert!(err.message().contains(".lua"), "{}", err.message());
}

#[test]
fn a_resource_without_server_scripts_is_refused() {
    assert!(group_by_engine("test", &Vec::new(), &BOTH).is_err());
}

#[test]
fn a_lua_resource_on_a_js_build_names_the_bundle() {
    // The single most likely support question for a bundled binary.
    let only_js = Engines { js: true, lua: false };
    let err = group_by_engine("test", &paths(&["sv.lua"]), &only_js).expect_err("no lua here");
    let text = err.message();
    assert!(text.contains("bundle lua"), "{text}");
    assert!(text.contains("--modules"), "{text}");
}

// --- the world mirror ---

fn zero() -> String {
    "0.0".to_owned()
}

fn summary(id: u32, owner: u32, entity_type: ScriptEntityType) -> EntitySummary {
    EntitySummary {
        network_id: id,
        owner,
        entity_type,
        position: [format!("{id}.0"), zero(), zero()],
        velocity: [zero(), zero(), zero()],
        speed: zero(),
        routing_bucket: 0,
        health: None,
        dead: false,
        max_health: None,
        armour: None,
        model: None,
        heading: None,
        desired_heading: None,
        sync: EntitySyncState::default(),
    }
}

#[test]
fn publish_exposes_owner_and_type() {
    let mut view = EntityWorldView::new();
    view.publish(vec![
        summary(10, 1, ScriptEntityType::Ped),
        summary(11, 1, ScriptEntityType::Vehicle),
    ]);

    assert_eq!(view.owner(10), Some(1));
    assert_eq!(view.owner(11), Some(1));
    assert_eq!(view.owner(12), None, "unknown handles have no owner");
    assert_eq!(view.get(11).unwrap().entity_type, ScriptEntityType::Vehicle);
    assert_eq!(view.ids_of_type(ScriptEntityType::Vehicle), vec![11]);
}

/// A despawned entity must stop existing for scripts, otherwise natives
/// keep answering about a world that no longer exists.
#[test]
fn republishing_prunes_entities_the_authority_dropped() {
    let mut view = EntityWorldView::new();
    view.publish(vec![
        summary(10, 1, ScriptEntityType::Ped),
        summary(11, 1, ScriptEntityType::Vehicle),
    ]);
    assert_eq!(view.len(), 2);

    view.publish(vec![summary(10, 1, ScriptEntityType::Ped)]);

    assert!(view.contains(10));
    assert!(!view.contains(11), "the vehicle is gone");
    assert_eq!(view.len(), 1);
}

#[test]
fn ownership_changes_are_reflected() {
    let mut view = EntityWorldView::new();
    view.publish(vec![summary(11, 1, ScriptEntityType::Vehicle)]);
    assert_eq!(view.owner(11), Some(1));

    view.publish(vec![summary(11, 2, ScriptEntityType::Vehicle)]);

    assert_eq!(view.owner(11), Some(2), "takeover is visible to scripts");
    assert_eq!(view.len(), 1, "the entity was updated, not duplicated");
}

#[test]
fn player_ped_resolves_and_clears() {
    let mut view = EntityWorldView::new();
    view.publish(vec![
        summary(10, 7, ScriptEntityType::Ped),
        summary(11, 7, ScriptEntityType::Vehicle),
    ]);
    assert_eq!(view.player_ped(7), Some(10));

    // The player left: its ped is no longer published.
    view.publish(vec![summary(11, 7, ScriptEntityType::Vehicle)]);

    assert_eq!(view.player_ped(7), None);
}

#[test]
fn revision_advances_per_publication() {
    let mut view = EntityWorldView::new();
    let before = view.revision();
    view.publish(vec![summary(10, 1, ScriptEntityType::Ped)]);
    view.publish(vec![summary(10, 1, ScriptEntityType::Ped)]);
    assert_eq!(view.revision(), before + 2);
}

#[test]
fn empty_publication_clears_the_world() {
    let mut view = EntityWorldView::new();
    view.publish(vec![summary(10, 1, ScriptEntityType::Ped)]);
    view.publish(vec![]);
    assert!(view.is_empty());
    assert_eq!(view.player_ped(1), None);
}

// --- context-routed natives ---

fn native(name: &str, hash: u64, context: RpcContext, arg_count: usize) -> RpcNative {
    RpcNative { name: name.to_owned(), hash, context, arg_count }
}

fn table() -> RpcTable {
    RpcTable::new(vec![
        native("REMOVE_BLIP", 0x86A652570E5F25DD, RpcContext::ObjectDelete { idx: 0 }, 1),
        native("SET_BLIP_SPRITE", 0xDF735600A4696DAF, RpcContext::ObjectRef { idx: 0 }, 2),
        native("SET_PED_ARMOUR", 0xCEA04D83135264CC, RpcContext::Entity { idx: 0 }, 2),
        native("SET_PLAYER_WANTED_LEVEL", 0x39FF19C64EF7DA5B, RpcContext::Player { idx: 0 }, 3),
        native("SET_VEHICLE_DOORS_LOCKED", 0xB664292EAECF7FA6, RpcContext::Entity { idx: 0 }, 2),
    ])
    .expect("sorted by name")
}

/// Constructors hand out a handle that a client cannot resolve: they are no
/// context-routed natives.
#[test]
fn entity_and_object_constructors_are_out_of_scope() {
    for name in ["CREATE_PED", "CREATE_VEHICLE", "ADD_BLIP_FOR_COORD"] {
        assert!(table().lookup(name).is_none(), "{name} must not be RPC-dispatched");
    }
}

/// `lookup` binary-searches, which is only correct on a sorted table.
#[test]
fn table_is_sorted_by_name() {
    assert!(table().lookup("SET_PED_ARMOUR").is_some());
    assert!(table().lookup("NOT_A_NATIVE").is_none());
    let shuffled = vec![
        native("SET_PED_ARMOUR", 1, RpcContext::Entity { idx: 0 }, 2),
        native("REMOVE_BLIP", 2, RpcContext::ObjectDelete { idx: 0 }, 1),
    ];
    assert!(RpcTable::new(shuffled).is_none(), "an unsorted table is refused");
}

#[test]
fn context_kinds_are_mapped_from_the_spec() {
    let table = table();
    assert_eq!(
        table.lookup("SET_VEHICLE_DOORS_LOCKED").expect("present").context,
        RpcContext::Entity { idx: 0 }
    );
    assert_eq!(
        table.lookup("SET_PLAYER_WANTED_LEVEL").expect("present").context,
        RpcContext::Player { idx: 0 }
    );
    assert_eq!(
        table.lookup("REMOVE_BLIP").expect("present").context,
        RpcContext::ObjectDelete { idx: 0 }
    );
}

fn world_with(network_id: u32, owner: u32) -> EntityWorldView {
    let mut world = EntityWorldView::new();
    world.publish(vec![summary(network_id, owner, ScriptEntityType::Vehicle)]);
    world
}

#[test]
fn entity_context_routes_to_the_owning_client() {
    let table = table();
    let native = table.lookup("SET_VEHICLE_DOORS_LOCKED").expect("an Entity-context native");
    let RpcContext::Entity { idx } = native.context else {
        panic!("expected an entity context");
    };
    let mut args = vec![Json::Unsigned(0); native.arg_count];
    args[idx] = Json::Unsigned(4321);

    assert_eq!(resolve_target(&world_with(4321, 9), native, &args), Ok(9));
}

/// Before the first sync tick — or on a server running without OneSync — the
/// mirror is empty. The call must be dropped, never sent to an arbitrary client.
#[test]
fn an_unowned_entity_is_not_dispatched_anywhere() {
    let table = table();
    let native = table.lookup("SET_VEHICLE_DOORS_LOCKED").expect("an Entity-context native");
    let args = vec![Json::Unsigned(4321); native.arg_count];

    assert_eq!(
        resolve_target(&EntityWorldView::new(), native, &args),
        Err(SkipReason::NoOwner),
        "an empty world routes nowhere"
    );
    assert_eq!(
        resolve_target(&world_with(4321, 0), native, &args),
        Err(SkipReason::NoOwner),
        "an entity nobody simulates routes nowhere"
    );
}

#[test]
fn player_context_routes_to_the_given_net_id() {
    let table = table();
    let native = table.lookup("SET_PLAYER_WANTED_LEVEL").expect("a Player-context native");
    let RpcContext::Player { idx } = native.context else { unreachable!() };
    let mut args = vec![Json::Unsigned(0); native.arg_count];

    // The argument already is the target: no entity mirror is consulted.
    args[idx] = Json::Unsigned(12);
    assert_eq!(resolve_target(&EntityWorldView::new(), native, &args), Ok(12));

    args[idx] = Json::Unsigned(0);
    assert_eq!(
        resolve_target(&EntityWorldView::new(), native, &args),
        Err(SkipReason::NoTarget)
    );
}

/// Blip-context natives route on a server-created handle that nothing tracks.
/// They must skip explicitly rather than resolve to something plausible.
#[test]
fn blip_contexts_are_refused_rather_than_guessed() {
    let table = table();
    for name in ["REMOVE_BLIP", "SET_BLIP_SPRITE"] {
        let native = table.lookup(name).expect("present");
        let args = vec![Json::Unsigned(1); native.arg_count];
        assert_eq!(
            resolve_target(&EntityWorldView::new(), native, &args),
            Err(SkipReason::UnsupportedContext),
            "{name} must not guess a target"
        );
    }
}

#[test]
fn a_wrong_number_of_arguments_is_refused() {
    let table = table();
    let native = table.lookup("SET_PED_ARMOUR").unwrap();
    let args = vec![Json::Unsigned(4321)];
    let mut net = NetBridge::new();
    assert_eq!(
        dispatch(&world_with(4321, 9), &mut net, native, 1, &args),
        Err(SkipReason::BadArity)
    );
    assert!(net.drain().is_empty());
    assert_eq!(SkipReason::BadArity.as_str(), "bad_arity");
}

// --- outbound HTTP ---

#[test]
fn a_minimal_request_defaults_to_get() {
    let spec = parse_request("r", r#"{"url":"https://example.test/x"}"#).expect("parsed");
    assert_eq!(spec.method, "GET");
    assert!(spec.body.is_empty());
    assert!(spec.headers.is_empty());
}

#[test]
fn method_headers_and_body_are_carried() {
    let raw = r#"{"url":"https://api.test/v1","method":"post","data":"{\"a\":1}",
                      "headers":{"Content-Type":"application/json"}}"#;
    let spec = parse_request("r", raw).expect("parsed");
    assert_eq!(spec.method, "POST", "the method is normalised");
    assert_eq!(spec.body, "{\"a\":1}");
    assert_eq!(
        spec.headers,
        vec![("Content-Type".to_owned(), "application/json".to_owned())]
    );
}

/// A resource written against a newer FiveM may send fields we do not read.
/// Ignoring them beats refusing the request.
#[test]
fn unknown_fields_are_ignored() {
    let raw = r#"{"url":"https://example.test/","followLocation":true,"future":42}"#;
    assert!(parse_request("r", raw).is_some());
}

#[test]
fn a_request_without_a_url_is_refused() {
    assert!(parse_request("r", r#"{"method":"GET"}"#).is_none());
    assert!(parse_request("r", "not json").is_none());
}

#[test]
fn tokens_are_unique_and_never_zero() {
    let mut bridge = HttpBridge::new();
    let spec = parse_request("r", r#"{"url":"https://example.test/"}"#).unwrap();
    let first = bridge.submit(spec.clone()).unwrap();
    let second = bridge.submit(spec.clone()).unwrap();
    assert_ne!(first, second);
    assert!(first > 0, "0 is the failure token");
    assert_eq!(bridge.drain().len(), 2);
}

#[test]
fn a_saturated_or_closed_bridge_refuses() {
    let mut bridge = HttpBridge::new();
    let spec = parse_request("r", r#"{"url":"https://example.test/"}"#).unwrap();
    for _ in 0..REQUEST_CAPACITY {
        assert!(bridge.submit(spec.clone()).is_some());
    }
    assert_eq!(bridge.dropped(), 0);
    assert!(bridge.submit(spec.clone()).is_none());
    bridge.drain();
    bridge.close();
    assert!(bridge.submit(spec).is_none());
    assert_eq!(bridge.dropped(), 2);
}

// --- inbound HTTP ---

#[test]
fn only_registered_resources_are_routable() {
    let mut registry = HttpHandlerRegistry::new();
    assert!(!registry.has_handler("panel"));
    registry.register("panel");
    assert!(registry.has_handler("panel"));
    registry.unregister("panel");
    assert!(!registry.has_handler("panel"));
}

#[test]
fn a_completed_request_reaches_its_waiter() {
    let mut registry = HttpHandlerRegistry::new();
    let id = registry.begin();
    let response = ScriptHttpResponse {
        status: 201,
        headers: vec![("Content-Type".into(), "application/json".into())],
        body: "{}".into(),
    };
    assert!(registry.complete(id, response.clone()));
    assert_eq!(registry.receive(id).expect("delivered"), response);
}

/// A handler calling `send()` twice must not panic or resurrect a request.
#[test]
fn a_second_completion_is_a_no_op() {
    let mut registry = HttpHandlerRegistry::new();
    let id = registry.begin();
    assert!(registry.complete(id, ScriptHttpResponse::default()));
    assert!(!registry.complete(id, ScriptHttpResponse::default()));
}

/// After the gateway gives up, a late `send()` finds nothing and the entry
/// is gone rather than pinned until the process exits.
#[test]
fn an_abandoned_request_closes_its_channel() {
    let mut registry = HttpHandlerRegistry::new();
    let id = registry.begin();
    registry.abandon(id);
    assert_eq!(registry.pending_count(), 0);
    assert!(registry.receive(id).is_none(), "nobody will answer");
    assert!(!registry.complete(id, ScriptHttpResponse::default()));
}

#[test]
fn ids_are_unique_and_never_zero() {
    let mut registry = HttpHandlerRegistry::new();
    let first = registry.begin();
    let second = registry.begin();
    assert_ne!(first, second);
    assert!(first > 0);
}

// --- key/value store ---

#[test]
fn values_are_scoped_per_resource() {
    let mut store = KvpStore::in_memory();
    store.set("a", "shared", "from-a".into(), false);
    store.set("b", "shared", "from-b".into(), false);

    assert_eq!(store.get("a", "shared").as_deref(), Some("from-a"));
    assert_eq!(store.get("b", "shared").as_deref(), Some("from-b"));
    assert_eq!(store.get("c", "shared"), None);
}

/// The whole point: a value written before a restart is still there after.
#[test]
fn values_survive_a_restart() {
    let mut store = KvpStore::open(None);
    let file = store
        .set("axiom-core", "character:42", "{\"cash\":100}".into(), true)
        .expect("a synchronous write is written through");
    assert!(!store.is_dirty(), "a synchronous write flushed");

    let reopened = KvpStore::open(Some(&file));

    assert_eq!(
        reopened.get("axiom-core", "character:42").as_deref(),
        Some("{\"cash\":100}")
    );
}

/// Deferred writes are what makes a bulk import fast; they must still land
/// once the resource asks for them to.
#[test]
fn deferred_writes_land_on_flush() {
    let mut store = KvpStore::open(None);
    for index in 0..100 {
        let out = store.set("bulk", &format!("key:{index}"), index.to_string(), false);
        assert!(out.is_none(), "nothing is written yet");
    }
    assert!(store.is_dirty(), "deferred writes leave the store dirty");

    let file = store.flush().expect("the deferred writes");
    assert!(!store.is_dirty());

    let reopened = KvpStore::open(Some(&file));
    assert_eq!(reopened.len(), 100);
    assert_eq!(reopened.get("bulk", "key:7").as_deref(), Some("7"));
}

#[test]
fn removal_persists_too() {
    let mut store = KvpStore::open(None);
    store.set("r", "keep", "1".into(), false);
    store.set("r", "drop", "2".into(), false);
    store.flush();
    let file = store.remove("r", "drop", true).expect("written through");

    let reopened = KvpStore::open(Some(&file));
    assert_eq!(reopened.get("r", "keep").as_deref(), Some("1"));
    assert_eq!(reopened.get("r", "drop"), None);
}

#[test]
fn prefix_search_is_scoped_and_sorted() {
    let mut store = KvpStore::in_memory();
    store.set("r", "user:b", "1".into(), false);
    store.set("r", "user:a", "1".into(), false);
    store.set("r", "other", "1".into(), false);
    store.set("elsewhere", "user:z", "1".into(), false);

    assert_eq!(store.keys_with_prefix("r", "user:"), vec!["user:a", "user:b"]);
    assert_eq!(store.keys_with_prefix("r", ""), vec!["other", "user:a", "user:b"]);
}

/// Unparseable stored data must not take the server down.
#[test]
fn a_corrupt_file_starts_empty_rather_than_panicking() {
    let mut store = KvpStore::open(Some("{not json"));

    assert!(store.is_empty());
    // And the store is still usable afterwards.
    let file = store.set("r", "k", "v".into(), true).expect("written through");
    assert_eq!(KvpStore::open(Some(&file)).get("r", "k").as_deref(), Some("v"));
}

#[test]
fn an_in_memory_store_never_stays_dirty() {
    let mut store = KvpStore::in_memory();
    store.set("r", "k", "v".into(), false);
    store.flush();
    assert!(!store.is_dirty());
}

#[test]
fn a_failed_flush_leaves_the_store_dirty() {
    let mut store = KvpStore::open(None);
    store.set("r", "k", "v".into(), true);
    assert!(!store.is_dirty());
    store.flush_failed();
    assert!(store.is_dirty());
}

// --- event targets and the net bridge ---

#[test]
fn minus_one_is_everyone_and_survives_a_round_trip() {
    assert_eq!(EventTarget::from_script(-1), EventTarget::All);
    assert_eq!(EventTarget::All.to_script(), -1);
}

/// Any negative value, not only -1: a script computing a target from an
/// index that came out empty should broadcast rather than address a player
/// four billion places away.
#[test]
fn any_negative_target_means_everyone() {
    for raw in [-1, -2, -999, i64::MIN] {
        assert_eq!(EventTarget::from_script(raw), EventTarget::All, "{raw}");
    }
}

#[test]
fn a_source_id_stays_itself() {
    assert_eq!(EventTarget::from_script(7), EventTarget::One(7));
    assert_eq!(EventTarget::One(7).to_script(), 7);
}

/// Beyond u32 there is no player, and wrapping into one would deliver an
/// event to whoever happens to hold that id.
#[test]
fn a_target_too_large_for_a_source_is_not_wrapped_into_one() {
    assert_eq!(EventTarget::from_script(i64::from(u32::MAX) + 1), EventTarget::All);
}

#[test]
fn a_full_bridge_drops_what_follows() {
    let event = || NetOutbound::ClientEvent {
        target: EventTarget::One(1),
        event: "tick".into(),
        args_json: "[]".into(),
    };
    let mut bridge = NetBridge::new();
    for _ in 0..NET_BRIDGE_CAPACITY {
        assert!(bridge.send(event()));
    }
    assert!(!bridge.send(event()));
    assert_eq!(bridge.drain().len(), NET_BRIDGE_CAPACITY);
    bridge.close();
    assert!(!bridge.send(event()));
}

// --- resource lifecycle control ---

#[test]
fn a_submitted_command_reaches_the_manager() {
    let mut control = QueuedResourceControl::new();
    assert!(control.submit(ResourceCommand::Start("chat".into())));
    assert_eq!(control.drain(), vec![ResourceCommand::Start("chat".into())]);
}

/// Without a manager the native must report failure, not pretend.
#[test]
fn the_inert_control_refuses() {
    assert!(!NoResourceControl.submit(ResourceCommand::Stop("chat".into())));
}

/// A dead receiver means nobody will ever run the command; saying so is
/// what lets a script fall back instead of waiting forever.
#[test]
fn a_dropped_manager_is_reported() {
    let mut control = QueuedResourceControl::new();
    control.close();
    assert!(!control.submit(ResourceCommand::Start("chat".into())));
}

#[test]
fn a_full_command_queue_refuses() {
    let mut control = QueuedResourceControl::new();
    for _ in 0..COMMAND_CAPACITY {
        assert!(control.submit(ResourceCommand::Restart("chat".into())));
    }
    assert_eq!(control.dropped(), 0);
    assert!(!control.submit(ResourceCommand::Restart("chat".into())));
    assert_eq!(control.dropped(), 1);
}

// --- state bags and routing ---

#[test]
fn versions_filters_and_replication_are_explicit() {
    let mut store = StateBagStore::default();
    let cookie = store.add_handler(
        "resource-a",
        Some("health".into()),
        Some("entity:42".into()),
        7,
    );
    assert_ne!(cookie, 0);

    let local = store.set(
        "entity:42",
        "health",
        Json::Unsigned(90),
        false,
        StateBagSource::resource("writer"),
    );
    let replicated = store.set(
        "entity:42",
        "health",
        Json::Unsigned(80),
        true,
        StateBagSource::resource("writer"),
    );
    store.set(
        "entity:42",
        "armour",
        Json::Unsigned(50),
        true,
        StateBagSource::resource("writer"),
    );

    assert!(replicated.version > local.version);
    let deliveries = store.drain_deliveries("resource-a", 32);
    assert_eq!(deliveries.len(), 2);
    assert!(deliveries.iter().all(|item| item.callback_id == 7));
    let outbound = store.drain_replicated(32);
    assert_eq!(outbound.len(), 2);
    assert!(outbound.iter().all(|change| change.replicated));
}

#[test]
fn replication_is_coalesced_and_callback_backlog_is_bounded() {
    let mut store = StateBagStore::default();
    store.add_handler("slow-resource", None, None, 1);

    for version in 0..(MAX_PENDING_DELIVERIES_PER_RESOURCE + 3) {
        store.set(
            "global",
            "hot-key",
            Json::Unsigned(version as u64),
            true,
            StateBagSource::resource("writer"),
        );
    }

    let outbound = store.drain_replicated(usize::MAX);
    assert_eq!(outbound.len(), 1);
    assert_eq!(
        outbound[0].value,
        Json::Unsigned(MAX_PENDING_DELIVERIES_PER_RESOURCE as u64 + 2)
    );
    assert_eq!(
        store.drain_deliveries("slow-resource", usize::MAX).len(),
        MAX_PENDING_DELIVERIES_PER_RESOURCE
    );
}

/// What the bounded queues drop is counted; a change that replaces an unsent one of its
/// key drops nothing.
#[test]
fn dropped_changes_are_counted() {
    let mut store = StateBagStore::default();
    store.add_handler("slow-resource", Some("hot-key".into()), None, 1);
    let writer = || StateBagSource::resource("writer");
    for _ in 0..(MAX_PENDING_DELIVERIES_PER_RESOURCE + 3) {
        store.set("global", "hot-key", Json::Bool(true), true, writer());
    }
    assert_eq!((store.lost_deliveries(), store.lost_changes()), (3, 0));

    // Two handlers of one resource share its queue.
    store.add_handler("slow-resource", Some("hot-key".into()), None, 2);
    store.set("global", "hot-key", Json::Bool(true), false, writer());
    assert_eq!((store.lost_deliveries(), store.lost_changes()), (5, 0));
}

#[test]
fn a_full_network_queue_drops_its_oldest_change() {
    let mut store = StateBagStore::default();
    let writer = || StateBagSource::resource("writer");
    for i in 0..MAX_REPLICATED_CHANGES {
        store.set("global", &i.to_string(), Json::Null, true, writer());
    }
    assert_eq!(store.lost_changes(), 0);
    store.set("global", "5", Json::Bool(true), true, writer());
    assert_eq!(store.lost_changes(), 0, "it replaced its own");
    store.set("global", "one more", Json::Null, true, writer());
    assert_eq!(store.lost_changes(), 1);
    assert_eq!(store.drain_replicated(1)[0].key, "1");
}

#[test]
fn cookies_are_resource_scoped_and_cleanup_is_complete() {
    let mut store = StateBagStore::default();
    let cookie = store.add_handler("owner", None, None, 1);
    assert!(!store.remove_handler("other", cookie));
    assert!(store.remove_handler("owner", cookie));
    let cookie = store.add_handler("owner", None, None, 2);
    store.set(
        "global",
        "key",
        Json::Text("value".into()),
        false,
        StateBagSource::resource("writer"),
    );
    assert_eq!(store.pending_deliveries(), 1);
    store.cleanup_resource("owner");
    assert!(!store.remove_handler("owner", cookie));
    assert_eq!(store.pending_deliveries(), 0);
}

#[test]
fn bag_name_helpers_are_strict() {
    assert_eq!(entity_state_bag_name(12), "entity:12");
    assert_eq!(player_state_bag_name(34), "player:34");
    assert_eq!(entity_from_state_bag_name("entity:12"), Some(12));
    assert_eq!(player_from_state_bag_name("player:34"), Some(34));
    assert_eq!(entity_from_state_bag_name("player:12"), None);
    assert_eq!(player_from_state_bag_name("player:not-a-number"), None);
}

#[test]
fn routing_defaults_and_policies_are_safe() {
    let mut routing = InMemoryRoutingControl::default();
    let initial_revision = routing.revision();
    assert_eq!(routing.player_bucket(1), 0);
    assert_eq!(routing.entity_bucket(2), 0);
    assert_eq!(routing.lockdown_mode(9), RoutingLockdownMode::Inactive);
    assert!(routing.population_enabled(9));
    routing.set_player_bucket(1, 9);
    routing.set_entity_bucket(2, 9);
    routing.set_lockdown_mode(9, RoutingLockdownMode::Strict);
    routing.set_population_enabled(9, false);
    assert!(routing.revision() > initial_revision);
    assert_eq!(routing.player_bucket(1), 9);
    assert_eq!(routing.entity_bucket(2), 9);
    assert_eq!(routing.lockdown_mode(9), RoutingLockdownMode::Strict);
    assert!(!routing.population_enabled(9));
    routing.set_player_bucket(1, 0);
    routing.set_entity_bucket(2, 0);
    assert_eq!(routing.player_bucket(1), 0);
    assert_eq!(routing.entity_bucket(2), 0);
}

#[test]
fn lockdown_modes_are_read_without_regard_to_case() {
    assert_eq!(RoutingLockdownMode::parse("STRICT"), Some(RoutingLockdownMode::Strict));
    assert_eq!(RoutingLockdownMode::parse("relaxed"), Some(RoutingLockdownMode::Relaxed));
    assert_eq!(RoutingLockdownMode::parse("sealed"), None);
}

// --- measurements ---

const AT: Moment = Moment { monotonic_us: 1_000, wall_us: 5_000, thread: 1 };

fn measurement(resource: &str, kind: DispatchKind, name: &str, us: u64) -> DispatchMeasurement {
    DispatchMeasurement {
        resource: resource.into(),
        kind,
        name: name.into(),
        execute_us: us,
        event_loop_us: 0,
        total_us: us,
        errored: false,
        watchdog_fired: false,
        memory: None,
        source: None,
        zone: None,
    }
}

/// The resources are listed by name, whatever order they came in; a name that comes back
/// keeps its statistics.
#[test]
fn the_monitor_lists_resources_by_name() {
    let mut obs = Observability::new(0);
    for (name, us) in [("delta", 4), ("alpha", 1), ("charlie", 3), ("bravo", 2), ("alpha", 5)] {
        obs.record_dispatch(measurement(name, DispatchKind::Event, "tick", us), AT);
    }
    let rows: Vec<_> = obs
        .snapshot(2_000)
        .resources
        .iter()
        .map(|row| (row.resource.clone(), row.dispatch_count, row.max_dispatch_us))
        .collect();
    assert_eq!(
        rows,
        [
            ("alpha".to_owned(), 2, 5),
            ("bravo".to_owned(), 1, 2),
            ("charlie".to_owned(), 1, 3),
            ("delta".to_owned(), 1, 4),
        ]
    );
    assert!(obs.resource_snapshot("echo").is_none());
    assert_eq!(obs.resource_snapshot("charlie").unwrap().dispatch_count, 1);
    assert_eq!(obs.prom_event_label("tick"), "tick");
    assert_eq!(obs.prom_event_label(&"x".repeat(81)), "__other");
}

#[test]
fn stats_aggregator_calculates_totals_and_percentiles() {
    let mut obs = Observability::new(0);
    for duration in [10, 20, 30, 40, 50] {
        let mut m = measurement("axiom-core", DispatchKind::Event, "tick", duration);
        m.errored = duration == 50;
        obs.record_dispatch(m, AT);
    }

    let snapshot = obs.snapshot(2_000);
    let resource = &snapshot.resources[0];
    assert_eq!(resource.dispatch_count, 5);
    assert_eq!(resource.dispatch_cpu_total_us, 150);
    assert_eq!(resource.dispatch_cpu_p50_us, 30);
    assert_eq!(resource.dispatch_cpu_p95_us, 50);
    assert_eq!(snapshot.handlers[0].errors, 1);
}

#[test]
fn profiler_ring_buffer_is_bounded_and_exports_valid_trace() {
    let mut obs = Observability::new(0);
    obs.start_profiler(
        ProfilerRecordOptions {
            frames: Some(2),
            seconds: None,
            scope: "server".into(),
            include_native_calls: true,
        },
        AT,
    );
    for name in ["a", "b", "c"] {
        obs.record_dispatch(measurement("r", DispatchKind::Event, name, 1), AT);
    }
    obs.stop_profiler();

    let trace: serde_json::Value =
        serde_json::from_str(&obs.latest_trace_json().to_json()).expect("trace is valid JSON");
    let events = trace["traceEvents"].as_array().expect("trace events");
    assert_eq!(events.len(), 2);
}

#[test]
fn trace_does_not_include_payloads_or_sensitive_identifiers() {
    let mut obs = Observability::new(0);
    obs.start_profiler(
        ProfilerRecordOptions {
            frames: Some(8),
            seconds: None,
            scope: "server".into(),
            include_native_calls: true,
        },
        AT,
    );
    let mut m = measurement("auth", DispatchKind::NetEvent, "login", 1);
    m.source = Some(7);
    obs.record_dispatch(m, AT);
    obs.stop_profiler();

    let serialized = obs.latest_trace_json().to_json();
    assert!(!serialized.contains("Bearer"));
    assert!(!serialized.contains("license:"));
    assert!(!serialized.contains("127.0.0.1"));
}

#[test]
fn native_roundtrips_are_counted() {
    let mut obs = Observability::new(0);
    obs.record_native_roundtrip(
        &NativeRoundtrip {
            resource: "r".into(),
            hash: 0xCEA04D83135264CC,
            source: 7,
            duration_us: 1_000,
            timed_out: true,
            errored: true,
        },
        AT,
    );
    let perf = obs.resource_snapshot("r").expect("measured");
    assert_eq!(perf.native_calls, 1);
    assert_eq!(perf.native_timeout_count, 1);
    assert_eq!(perf.native_p95_us, 1_000);
    assert!(obs.resource_snapshot("other").is_none());
}

// --- the resource registry ---

fn registry() -> ResourceRegistry {
    let mut registry = ResourceRegistry::new();
    registry.upsert_resource(
        "core".into(),
        "/srv/core".into(),
        ResourceManifest {
            version: Some("1.2.3".into()),
            dependencies: vec!["dep".into()],
            server_scripts: vec!["server.js".into()],
            client_scripts: vec!["client.js".into()],
            files: vec!["data.json".into()],
        },
        ScriptResourceState::Started,
    );
    registry
}

#[test]
fn core_resource_natives_read_registry_and_files() {
    let registry = registry();
    assert_eq!(registry.count(), 1);
    assert_eq!(registry.name_at(0), "core");
    assert_eq!(registry.name_at(1), "");
    assert_eq!(registry.state("core"), "started");
    assert_eq!(registry.state("missing"), "missing");
    assert!(!registry.path("core").is_empty());
    assert_eq!(registry.metadata_count("core", "file"), 1);
    assert_eq!(registry.metadata_value("core", "version", 0), "1.2.3");
    assert_eq!(
        registry.resource_file_path("core", "data.json"),
        Some(("/srv/core".to_owned(), "data.json".to_owned()))
    );
    let write = registry.save_file("core", "out.txt", "abcdef", 3).expect("inside the root");
    assert_eq!(write.bytes, b"abc".to_vec());
    assert_eq!(registry.resource_file_path("core", "../blocked.txt"), None);
    assert_eq!(registry.resource_file_path("core", "a/../../blocked.txt"), None);
    assert_eq!(registry.resource_file_path("core", "/etc/passwd"), None);
    assert_eq!(
        registry.resource_file_path("core", "./a//...//b/."),
        Some(("/srv/core".to_owned(), "a/.../b".to_owned()))
    );
}
