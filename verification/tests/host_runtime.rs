//! The script host, the runtimes' bookkeeping and calls to clients.
use baston::bindings::player_from_index;
use baston::client_calls::{
    parse_hash, print_error, read_call, settle_client_call, Arrival, CallOutcome, ClientCalls,
    HashFault, Invoked, PendingClientNative, Started,
};
use baston::deferrals::DeferralRegistry;
use baston::engine::{Engine, Engines};
use baston::error::ScriptError;
use baston::host::{
    gather_events, gather_transfer_states, is_zone_local_event, print_lifecycle_args,
    CallbackRounds, EventChain, ScriptHost, MAX_CALLBACK_ROUNDS, MAX_EVENT_CHAIN,
};
use baston::http_bridge::HttpBridge;
use baston::kvp::KvpStore;
use baston::native_state::{Holds, NativeState, RuntimeContext, RuntimeServices, Slots};
use baston::natives::Natives;
use baston::net_bridge::{EventTarget, NetOutbound};
use baston::observability::{DispatchKind, Moment, Observability};
use baston::resource_control::NoResourceControl;
use baston::resource_registry::{ResourceManifest, ResourceRegistry, ScriptResourceState};
use baston::routing::InMemoryRoutingControl;
use baston::rpc::{RpcTable, INVOKE_NATIVE_EVENT};
use baston::runtime::{
    db_collected, db_params, db_submitted, delivers, finish_dispatch, finish_load, finish_run, idle_ms,
    print_command_script, print_connecting_script, print_event_script, print_net_event_script, print_script_name,
    print_transfer_script, rejected, settle, watch, DispatchRun, PromiseOutcome, Settled, WatchAction,
    WatchPhase, WatchedFlags, Watchdog, DISPATCH_BUDGET_MS,
};
use serde_json::Value;

type TestNatives = Natives<InMemoryRoutingControl, NoResourceControl>;

fn at(monotonic_us: u64) -> Moment {
    Moment { monotonic_us, wall_us: monotonic_us, thread: 1 }
}

fn natives(resource: &str) -> TestNatives {
    let table = RpcTable::new(vec![]).expect("an empty table is sorted");
    Natives::new(resource, InMemoryRoutingControl::default(), NoResourceControl, table)
}

fn host() -> ScriptHost<InMemoryRoutingControl, NoResourceControl> {
    ScriptHost::new(natives("host"), Engines { js: true, lua: true }, 0)
}

// --- the service locator ---

#[derive(Clone, Copy)]
struct A(u32);

#[derive(Clone, Copy)]
struct B(&'static str);

struct Two {
    a: Option<A>,
    b: Option<B>,
}

enum Either {
    A(A),
    B(B),
}

impl Slots for Two {
    type Service = Either;

    fn none() -> Self {
        Two::empty()
    }

    fn service(&self, number: u32) -> Option<Either> {
        match number {
            0 => self.a.map(Either::A),
            1 => self.b.map(Either::B),
            _ => None,
        }
    }

    fn starts_empty(_number: u32) {}

    fn empty() -> Self {
        Two { a: None, b: None }
    }
}

impl Holds<A> for Two {
    fn number() -> u32 {
        0
    }

    fn service_of(value: A) -> Either {
        Either::A(value)
    }

    fn held(&self) -> Option<A> {
        self.a
    }

    fn with(&self, value: Option<A>) -> Self {
        Two { a: value, b: self.b }
    }

    fn services_differ(_a: A, _b: A) {}

    fn is_numbered(&self) {}

    fn keeps_the_others(&self, _value: Option<A>, _number: u32) {}

    fn holds_what_was_put(&self, _value: Option<A>) {}

    fn slot(&self) -> &Option<A> {
        &self.a
    }

    fn slot_mut(&mut self) -> &mut Option<A> {
        &mut self.a
    }
}

impl Holds<B> for Two {
    fn number() -> u32 {
        1
    }

    fn service_of(value: B) -> Either {
        Either::B(value)
    }

    fn held(&self) -> Option<B> {
        self.b
    }

    fn with(&self, value: Option<B>) -> Self {
        Two { b: value, a: self.a }
    }

    fn services_differ(_a: B, _b: B) {}

    fn is_numbered(&self) {}

    fn keeps_the_others(&self, _value: Option<B>, _number: u32) {}

    fn holds_what_was_put(&self, _value: Option<B>) {}

    fn slot(&self) -> &Option<B> {
        &self.b
    }

    fn slot_mut(&mut self) -> &mut Option<B> {
        &mut self.b
    }
}

#[test]
fn values_round_trip_by_type() {
    let mut state = NativeState::<Two>::new();
    state.put(A(7));
    state.put(B("hello"));
    assert_eq!(state.borrow::<A>().0, 7);
    assert_eq!(state.borrow::<B>().0, "hello");
}

#[test]
fn put_replaces_a_previous_value() {
    // The host installs placeholders at construction and swaps in the real
    // services later; replacement has to be the documented behaviour.
    let mut state = NativeState::<Two>::new();
    state.put(A(1));
    state.put(A(2));
    assert_eq!(state.borrow::<A>().0, 2);
}

#[test]
fn borrow_mut_mutates_in_place() {
    let mut state = NativeState::<Two>::new();
    state.put(A(1));
    state.borrow_mut::<A>().0 = 42;
    assert_eq!(state.borrow::<A>().0, 42);
}

#[test]
fn try_borrow_reports_absence_without_panicking() {
    let state = NativeState::<Two>::new();
    assert!(state.try_borrow::<A>().is_none());
    assert!(!state.contains::<A>());
}

#[test]
fn a_put_leaves_the_other_types_alone() {
    let mut state = NativeState::<Two>::new();
    state.put(B("kept"));
    assert!(!state.contains::<A>());
    state.put(A(1));
    state.borrow_mut::<A>().0 = 2;
    assert_eq!(state.try_borrow::<B>().map(|b| b.0), Some("kept"));
    assert!(state.contains::<A>() && state.contains::<B>());
}

#[test]
fn a_runtime_starts_with_its_services() {
    let state = NativeState::<RuntimeServices>::for_resource("r", 1_000, DISPATCH_BUDGET_MS);
    assert_eq!(state.borrow::<RuntimeContext>().resource_name, "r");
    assert_eq!(state.borrow::<Watchdog>().budget_ms, 10_000);
    assert!(state.contains::<ClientCalls>());
}

// --- what belongs to one resource ---

#[test]
fn trigger_event_queues_for_the_host_to_rebroadcast() {
    let mut context = RuntimeContext::new("test", 0);
    context.trigger_event("hello".into(), r#"[1,"two"]"#.into());
    let queued = context.drain_queued_events();
    assert_eq!(queued.len(), 1);
    assert_eq!(queued[0].0, "hello");
    assert!(queued[0].1.contains("two"), "{}", queued[0].1);
    assert!(context.drain_queued_events().is_empty(), "draining is one-shot");
}

#[test]
fn a_context_keeps_its_own_books() {
    let mut context = RuntimeContext::new("test", 500);
    assert!(!context.has_handler("greet"));
    context.add_event_handler("greet".into());
    assert!(context.has_handler("greet"));
    context.register_command("greet".into(), false);
    assert_eq!(context.registered_commands(), vec!["greet".to_owned()]);
    context.add_export("add".into());
    assert!(context.exports.contains("add"));
    context.report_handler_error();
    assert_eq!(context.handler_errors, 1);
    assert_eq!(context.game_timer(1_700), 1_200);
    assert_eq!(context.game_timer(500 + 0x1_0000_0005), 5);
}

#[test]
fn zone_transfer_state_is_collected_once() {
    let mut context = RuntimeContext::new("mesh-test", 0);
    // A resource that registered nothing has nothing to carry.
    assert!(!context.begin_zone_transfer());
    context.register_zone_transfer_state();
    context.report_zone_transfer_state("{\"stale\":1}".into());
    assert!(context.begin_zone_transfer());
    assert_eq!(context.take_zone_transfer(), None, "an earlier collection is dropped");
    context.report_zone_transfer_state("{\"hunger\":42}".into());
    assert_eq!(context.take_zone_transfer().as_deref(), Some("{\"hunger\":42}"));
    assert_eq!(context.take_zone_transfer(), None);
}

// --- event chains ---

#[test]
fn lifecycle_events_stay_in_the_zone() {
    assert!(is_zone_local_event("onResourceStart"));
    assert!(is_zone_local_event("playerConnecting"));
    assert!(is_zone_local_event("__baston:invokeNative"));
    assert!(is_zone_local_event("onEntityOwnerChanged"));
    assert!(!is_zone_local_event("custom:ping"));
}

#[test]
fn an_event_chain_is_cut_off() {
    let mut chain = EventChain::new("ping".into(), "[]".into(), true);
    let mut dispatched = 0;
    while let Some(step) = chain.next() {
        assert!(step.publish);
        if step.dispatch {
            dispatched += 1;
            // Two handlers that trigger each other.
            chain.extend(vec![("ping".into(), "[]".into()), ("pong".into(), "[]".into())]);
        }
    }
    assert_eq!(dispatched, MAX_EVENT_CHAIN);
    chain.extend(vec![("late".into(), "[]".into())]);
    assert!(chain.next().is_none());
}

#[test]
fn a_remote_event_is_not_published_again() {
    let mut chain = EventChain::new("custom:ping".into(), "[]".into(), false);
    let entry = chain.next().unwrap();
    assert!(!entry.publish && entry.dispatch);
    chain.extend(vec![("custom:pong".into(), "[1]".into()), ("playerJoined".into(), "[]".into())]);
    let reaction = chain.next().unwrap();
    assert_eq!(reaction.event, "custom:pong");
    assert!(reaction.publish, "a local reaction is local origin");
    assert!(!chain.next().unwrap().publish, "a lifecycle event stays");
}

#[test]
fn callback_rounds_are_bounded() {
    let mut rounds = CallbackRounds::new();
    for _ in 0..MAX_CALLBACK_ROUNDS {
        assert!(rounds.another(3));
    }
    assert!(!rounds.another(3));
    assert!(!CallbackRounds::new().another(0));
}

#[test]
fn replies_are_gathered_in_order() {
    let event = |name: &str| (name.to_owned(), "[]".to_owned());
    let events = gather_events(vec![
        Ok(vec![event("a"), event("b")]),
        Err(ScriptError::HostGone),
        Ok(vec![event("c")]),
    ]);
    let names: Vec<&str> = events.iter().map(|e| e.0.as_str()).collect();
    assert_eq!(names, vec!["a", "b", "c"]);

    let states = gather_transfer_states(vec![
        ("core".into(), Ok(Some("{}".into()))),
        ("plain".into(), Ok(None)),
        ("broken".into(), Err(ScriptError::HostGone)),
    ]);
    assert_eq!(states.names(), vec!["core"]);
    assert_eq!(states.get("core").unwrap(), "{}");
}

// --- lifecycle ---

#[test]
fn a_resource_is_loaded_and_unloaded() {
    let mut host = host();
    let scripts = vec!["sv.lua".to_owned(), "web.js".to_owned()];
    let runtimes = host.load_resource("panel", &scripts).unwrap();
    assert_eq!(runtimes, vec![(Engine::Lua, vec![0]), (Engine::Js, vec![1])]);
    assert!(!host.is_loaded("panel"), "not before its scripts have run");
    host.resource_loaded("panel");
    assert_eq!(host.recipients(), vec!["panel"]);
    assert!(host.unload_resource("panel").is_ok());
    host.resource_unloaded("panel");
    assert_eq!(
        host.unload_resource("panel"),
        Err(ScriptError::ResourceNotLoaded("panel".into()))
    );
    assert_eq!(print_lifecycle_args("panel"), "[\"panel\"]");
}

#[test]
fn a_resource_without_scripts_needs_no_runtime() {
    let mut host = host();
    assert_eq!(host.load_resource("stream", &vec![]), Ok(vec![]));
    assert!(host.load_resource("odd", &vec!["main.py".to_owned()]).is_err());
}

/// A stopped resource must stop answering, or the next request parks a waiter
/// nobody can resolve.
#[test]
fn unloading_a_resource_drops_its_http_handler() {
    let mut host = host();
    host.load_resource("panel", &vec!["server.js".to_owned()]).unwrap();
    host.resource_loaded("panel");
    host.http_handlers.register("panel");
    assert!(host.http_handlers.has_handler("panel"));

    host.resource_unloaded("panel");
    assert!(!host.http_handlers.has_handler("panel"));
}

#[test]
fn no_defer_auto_accepts() {
    let mut host = host();
    host.deferrals.register(9);
    host.connecting_dispatched(9);
    assert_eq!(host.deferrals.outcome(9), Some(Ok(())));
}

#[test]
fn deferral_rejection_propagates_reason() {
    let mut host = host();
    host.deferrals.register(7);
    host.deferrals.defer(7);
    host.deferrals.done(7, Some("Not whitelisted".into()));
    host.connecting_dispatched(7);
    assert_eq!(host.deferrals.outcome(7), Some(Err("Not whitelisted".into())));
}

#[test]
fn a_known_resource_can_be_asked_about() {
    let mut host = host();
    let manifest = ResourceManifest {
        version: None,
        dependencies: vec![],
        server_scripts: vec![],
        client_scripts: vec![],
        files: vec![],
    };
    host.upsert_resource("b".into(), "/srv/b".into(), manifest.clone(), ScriptResourceState::Started);
    host.upsert_resource("a".into(), "/srv/a".into(), manifest, ScriptResourceState::Stopped);
    assert_eq!(host.natives.loaded, vec!["a", "b"]);
    assert_eq!(host.resources().state("a"), "stopped");
    assert_eq!(player_from_index(&vec![], 0), 0);
}

/// `response.send()` resolves the parked request with the status, headers and
/// body that the handler wrote.
#[test]
fn set_http_handler_answers_a_dispatched_request() {
    let mut host = host();
    host.http_handlers.register("panel");
    let id = host.http_handlers.begin();
    assert!(host.http_handlers.respond(
        id,
        201,
        r#"{"Content-Type":"application/json"}"#,
        "{}".into()
    ));
    let response = host.http_handlers.receive(id).expect("the handler answered");
    assert_eq!(response.status, 201);
    assert_eq!(
        response.headers,
        vec![("Content-Type".to_owned(), "application/json".to_owned())]
    );
    assert_eq!(response.body, "{}");
}

#[test]
fn odd_headers_and_statuses_cost_no_response() {
    let mut host = host();
    let id = host.http_handlers.begin();
    host.http_handlers.respond(id, 70_000, r#"{"a":["x",1],"b":true,"c":{"d":1}}"#, String::new());
    let response = host.http_handlers.receive(id).unwrap();
    assert_eq!(response.status, 500);
    let text = |s: &str| s.to_owned();
    assert_eq!(
        response.headers,
        vec![
            (text("a"), text("x, 1")),
            (text("b"), text("true")),
            (text("c"), text("{\"d\":1}"))
        ]
    );

    let id = host.http_handlers.begin();
    host.http_handlers.respond(id, 200, "not json", "body".into());
    let response = host.http_handlers.receive(id).unwrap();
    assert!(response.headers.is_empty());
    assert!(!host.http_handlers.respond(id, 200, "{}", String::new()), "answered already");
}

// --- native calls to clients ---

#[test]
fn hashes_are_read_as_scripts_write_them() {
    assert_eq!(parse_hash("0x43A66C31C68491C0"), Ok(0x43A6_6C31_C684_91C0));
    assert_eq!(parse_hash("deadBEEF"), Ok(0xDEAD_BEEF));
    assert_eq!(parse_hash("0x0x10"), Ok(16));
    assert_eq!(parse_hash("0x"), Err(HashFault::Empty));
    assert_eq!(parse_hash("0xZZ"), Err(HashFault::InvalidDigit));
    assert_eq!(parse_hash("10000000000000000"), Err(HashFault::TooLarge));
    // The messages are those of the standard library.
    for text in ["", "-1", "10000000000000000", "+", "g"] {
        let ours = parse_hash(text).map_err(|fault| fault.message().to_owned());
        let std = u64::from_str_radix(text, 16).map_err(|e| e.to_string());
        assert_eq!(ours, std, "{text}");
    }
}

#[test]
fn malformed_calls_are_refused_with_a_reason() {
    let text = read_call("0xQ", "[]").unwrap_err();
    assert_eq!(text, "invalid native hash 0xQ: invalid digit found in string");
    let text = read_call("0x1", "{}").unwrap_err();
    assert!(text.starts_with("invalid native args: "), "{text}");
    assert_eq!(print_error("a \"b\""), "{\"__error\":\"a \\\"b\\\"\"}");
}

#[test]
fn a_fire_and_forget_client_native_reaches_the_net_bridge() {
    let mut n = natives("client-natives");
    let mut obs = Observability::new(0);
    let call = read_call("0x43A66C31C68491C0", "[1]").unwrap();
    let started = n.start_client_call(&mut obs, 7, &call, None, false, 5, at(10));
    assert!(matches!(started, Started::Sent));
    let sent = n.net.drain();
    match &sent[..] {
        [NetOutbound::ClientEvent { target, event, args_json }] => {
            assert_eq!(*target, EventTarget::One(7));
            assert_eq!(event, INVOKE_NATIVE_EVENT);
            let payload: Value = serde_json::from_str(args_json).unwrap();
            assert_eq!(payload[0]["hash"], Value::from("0x43A66C31C68491C0"));
            assert_eq!(payload[0]["args"], Value::from(vec![1]));
        }
        other => panic!("unexpected outbound: {other:?}"),
    }
    assert_eq!(obs.resource_snapshot("client-natives").unwrap().native_calls, 1);
}

#[test]
fn an_unknown_native_hash_is_refused_before_it_reaches_a_client() {
    let mut n = natives("client-natives");
    let mut obs = Observability::new(0);
    let call = read_call("0xDEADBEEF", "[]").unwrap();
    let verdict = Some("unknown native".to_owned());
    let started = n.start_client_call(&mut obs, 7, &call, verdict, false, 5, at(10));
    assert!(matches!(started, Started::Refused(m) if m == "unknown native"));
    assert!(n.net.drain().is_empty(), "a bogus hash must not go on the wire");
    assert!(obs.resource_snapshot("client-natives").is_none());
}

#[test]
fn a_closed_bridge_refuses_the_call() {
    let mut n = natives("client-natives");
    n.net.close();
    let mut obs = Observability::new(0);
    let call = read_call("0x1", "[]").unwrap();
    let started = n.start_client_call(&mut obs, 7, &call, None, true, 5, at(10));
    assert!(matches!(started, Started::Refused(m) if m == "net bridge full or closed"));
}

#[test]
fn an_awaited_client_native_resumes_its_thread_with_the_result() {
    let mut n = natives("client-natives");
    let mut obs = Observability::new(0);
    let mut calls = ClientCalls::new();
    let call = read_call("0x43A66C31C68491C0", "[1]").unwrap();
    let Started::Waiting(id) = n.start_client_call(&mut obs, 7, &call, None, true, 0, at(0)) else {
        panic!("the caller waits")
    };
    calls.wait_for(id, PendingClientNative { started_us: 0, hash: call.hash, source: 7 });
    assert_eq!(
        calls.poll(&mut obs, "client-natives", id, Arrival::Nothing, at(999_999)),
        None,
        "the thread must still be waiting"
    );

    // The client answers.
    let answer =
        calls.poll(&mut obs, "client-natives", id, Arrival::Answered("4242".into()), at(999_999));
    assert_eq!(answer.as_deref(), Some("4242"));
    assert_eq!(
        calls.poll(&mut obs, "client-natives", id, Arrival::Nothing, at(999_999)).as_deref(),
        Some("{\"__error\":\"unknown native call\"}")
    );
}

#[test]
fn a_call_that_nobody_answers_times_out() {
    let mut obs = Observability::new(0);
    let mut calls = ClientCalls::new();
    calls.wait_for(3, PendingClientNative { started_us: 100, hash: 1, source: 7 });
    let answer = calls.poll(&mut obs, "r", 3, Arrival::Nothing, at(1_000_100));
    assert_eq!(answer.as_deref(), Some("{\"__error\":\"client did not answer in time\"}"));
    assert_eq!(obs.resource_snapshot("r").unwrap().native_timeout_count, 1);

    calls.wait_for(4, PendingClientNative { started_us: 100, hash: 1, source: 7 });
    let answer = calls.poll(&mut obs, "r", 4, Arrival::Closed, at(200));
    assert_eq!(answer.as_deref(), Some("{\"__error\":\"native result channel closed\"}"));

    let text = settle_client_call(&mut obs, "r", 7, 0x1F, CallOutcome::TimedOut, 9, at(9));
    assert_eq!(text, "{\"__error\":\"native call 0x000000000000001F timed out\"}");
    let text =
        settle_client_call(&mut obs, "r", 7, 0x1F, CallOutcome::Answered("1".into()), 9, at(9));
    assert_eq!(text, "1");
}

// --- watchdogs ---

#[test]
fn the_watchdog_terminates_a_runaway_script_and_the_runtime_survives() {
    let mut watchdog = Watchdog::new(50);
    watchdog.arm(1_000);
    assert!(!watchdog.interrupts(1_049));
    assert!(watchdog.interrupts(1_050));
    // Once: the unwind runs script code too.
    assert!(!watchdog.interrupts(1_060));
    watchdog.disarm();
    assert!(watchdog.took_fired());
    assert!(!watchdog.took_fired());

    // The runtime keeps serving.
    watchdog.arm(2_000);
    assert!(!watchdog.interrupts(2_010));
}

#[test]
fn a_watchdog_outside_the_engine_looks_twice() {
    let running = WatchedFlags { deadline_ms: 300, generation: 4, stop: false };
    let (phase, action) = watch(WatchPhase::Watching, running, 299);
    assert_eq!((phase, action), (WatchPhase::Watching, WatchAction::Sleep(50)));
    let (phase, action) = watch(phase, running, 310);
    assert_eq!((phase, action), (WatchPhase::Confirming(4), WatchAction::Sleep(20)));
    // A fresh dispatch in the meantime is left alone.
    let fresh = WatchedFlags { generation: 5, ..running };
    assert_eq!(watch(phase, fresh, 330), (WatchPhase::Watching, WatchAction::Sleep(50)));
    let (phase, action) = watch(phase, running, 330);
    assert_eq!((phase, action), (WatchPhase::Unwinding, WatchAction::Terminate));
    assert_eq!(watch(phase, running, 331).1, WatchAction::Sleep(20));
    let done = WatchedFlags { deadline_ms: 0, ..running };
    assert_eq!(watch(phase, done, 350), (WatchPhase::Watching, WatchAction::Sleep(50)));
    let stopping = WatchedFlags { stop: true, ..done };
    assert_eq!(watch(WatchPhase::Watching, stopping, 400).1, WatchAction::Exit);
}

// --- dispatches ---

fn run(kind: DispatchKind, source: Option<u32>, watchdog_fired: bool) -> DispatchRun {
    DispatchRun { kind, source, watchdog_fired, elapsed_us: 12, at: at(100) }
}

#[test]
fn a_syntax_error_is_reported_against_its_script() {
    let mut obs = Observability::new(0);
    let result = finish_load(
        &mut obs,
        "test",
        "broken.lua",
        Err("unexpected symbol".into()),
        run(DispatchKind::LoadScript, None, false),
    );
    assert_eq!(
        result.unwrap_err().message(),
        "script execution failed in resource test (broken.lua): unexpected symbol"
    );
    assert_eq!(obs.snapshot(200).handlers[0].errors, 1, "and measured all the same");
}

#[test]
fn handler_errors_are_reported_to_resmon() {
    let mut obs = Observability::new(0);
    let event = run(DispatchKind::Event, None, false);
    assert!(finish_dispatch(&mut obs, "broken", "boom", Ok(1), event).is_ok());
    let snapshot = obs.snapshot(200);
    let handler = snapshot
        .handlers
        .iter()
        .find(|handler| handler.resource == "broken" && handler.name == "boom")
        .expect("boom handler stats");
    assert_eq!(handler.errors, 1);
    assert_eq!(handler.total_us, 12);

    assert!(finish_dispatch(&mut obs, "broken", "gone", Err("no table".into()), event).is_err());
    assert_eq!(obs.snapshot(200).handlers.len(), 1, "nothing ran, nothing is measured");
}

#[test]
fn net_events_need_an_explicit_registration() {
    assert!(delivers(None, false), "a server event is for everyone");
    assert!(!delivers(Some(7), false));
    assert!(delivers(Some(7), true));
}

#[test]
fn outcomes_name_the_phase_that_failed() {
    assert_eq!(finish_run("r", "a.js", Ok(()), Ok(())), Ok(()));
    let error = finish_run("r", "a.js", Err("x".into()), Ok(())).unwrap_err();
    assert_eq!(error.message(), "script execution failed in resource r (a.js): x");
    let error = finish_run("r", "a.js", Ok(()), Err("y".into())).unwrap_err();
    assert_eq!(error.message(), "script execution failed in resource r (<event loop>): y");
    assert_eq!(
        rejected("r", "z".into()).message(),
        "script execution failed in resource r (<dispatch>): z"
    );
}

#[test]
fn promises_settle_or_dangle() {
    assert!(matches!(settle(PromiseOutcome::Pending, 3, 3), Settled::Wait));
    assert!(matches!(settle(PromiseOutcome::Pending, 4, 3), Settled::Finished));
    assert!(matches!(settle(PromiseOutcome::Fulfilled, 0, 0), Settled::Finished));
    assert!(matches!(
        settle(PromiseOutcome::Rejected("no".into()), 0, 0),
        Settled::Failed(m) if m == "no"
    ));
}

#[test]
fn dispatch_scripts_quote_what_they_are_given() {
    assert_eq!(
        print_event_script("a\"b", "[1]"),
        "globalThis.__baston.dispatch(\"a\\\"b\", \"[1]\");"
    );
    assert_eq!(
        print_net_event_script("ping", 7, "[]"),
        "globalThis.__baston.dispatchWithSource(\"ping\", 7, \"[]\");"
    );
    assert_eq!(
        print_connecting_script(7, "Lucas"),
        "globalThis.__baston.dispatchPlayerConnecting(7, \"Lucas\");"
    );
    assert_eq!(
        print_command_script("greet", 7, &vec!["a".into(), "b\"c".into()], "greet a b\"c"),
        "globalThis.__baston.dispatchCommand(\"greet\", 7, [\"a\",\"b\\\"c\"], \"greet a b\\\"c\");"
    );
    assert_eq!(print_transfer_script(7), "globalThis.__baston.collectZoneTransferState(7);");
    assert_eq!(print_script_name("core", "sv/main.js"), "baston:core/sv/main.js");
}

#[test]
fn a_tick_sleeps_neither_too_long_nor_not_at_all() {
    assert_eq!(idle_ms(Some(0)), 1);
    assert_eq!(idle_ms(Some(-5)), 1);
    assert_eq!(idle_ms(Some(17)), 17);
    assert_eq!(idle_ms(Some(900)), 50);
    assert_eq!(idle_ms(None), 50);
}

#[test]
fn querying_with_the_module_off_says_so() {
    let (id, message) = db_submitted(None);
    assert_eq!(id, None);
    assert!(message.unwrap().contains("[modules]"));
    assert_eq!(db_submitted(Some(Ok(3))), (Some(3), None));
    assert_eq!(
        db_submitted(Some(Err("unknown query kind".into()))),
        (None, Some("unknown query kind".to_owned()))
    );
    assert_eq!(
        db_collected(None),
        (true, "{\"__error\":\"db module disabled\"}".to_owned())
    );
    assert_eq!(db_collected(Some(None)), (false, String::new()));
    assert_eq!(db_collected(Some(Some(Ok("null".into())))), (true, "null".to_owned()));
}

#[test]
fn a_failing_query_raises_in_the_calling_thread() {
    let (ready, text) = db_collected(Some(Some(Err("table not found".into()))));
    assert!(ready);
    assert!(text.contains("table not found"), "{text}");
}

// --- calls as a script makes them ---

#[test]
fn an_awaiting_script_gets_json_or_an_id() {
    let mut n = natives("r");
    let mut obs = Observability::new(0);
    let bad = read_call("0xQ", "[]");
    match n.invoke_native_on_client(&mut obs, 7, bad, None, true, 0, at(0)) {
        Invoked::Done(text) => assert_eq!(
            text,
            "{\"__error\":\"invalid native hash 0xQ: invalid digit found in string\"}"
        ),
        other => panic!("{other:?}"),
    }
    let refused = Some("wrong arity".to_owned());
    match n.invoke_native_on_client(&mut obs, 7, read_call("0x1", "[]"), refused, true, 0, at(0)) {
        Invoked::Done(text) => assert_eq!(text, "{\"__error\":\"wrong arity\"}"),
        other => panic!("{other:?}"),
    }
    match n.invoke_native_on_client(&mut obs, 7, read_call("0x1", "[]"), None, false, 0, at(0)) {
        Invoked::Done(text) => assert_eq!(text, "null"),
        other => panic!("{other:?}"),
    }
    match n.invoke_native_on_client(&mut obs, 7, read_call("0x1", "[]"), None, true, 0, at(0)) {
        Invoked::Await(_) => {}
        other => panic!("{other:?}"),
    }
    assert_eq!(n.net.drain().len(), 2);
}

#[test]
fn a_polling_script_gets_an_id_to_poll_for() {
    let mut n = natives("r");
    let mut obs = Observability::new(0);
    let mut calls = ClientCalls::new();
    let bad = read_call("", "[]");
    assert_eq!(
        n.invoke_client_native(&mut calls, &mut obs, 7, bad, None, true, 0, at(0)),
        (None, Some("invalid native hash : cannot parse integer from empty string".to_owned()))
    );
    let call = read_call("0x1", "[]");
    assert_eq!(
        n.invoke_client_native(&mut calls, &mut obs, 7, call, None, false, 0, at(0)),
        (None, None)
    );
    let call = read_call("0x1", "[]");
    let (id, error) = n.invoke_client_native(&mut calls, &mut obs, 7, call, None, true, 0, at(5));
    assert_eq!(error, None);
    let id = id.expect("the script polls for it");
    assert_eq!(calls.poll(&mut obs, "r", id, Arrival::Nothing, at(1_000_004)), None);
    let answer = calls.poll(&mut obs, "r", id, Arrival::Nothing, at(1_000_005));
    assert_eq!(answer.as_deref(), Some("{\"__error\":\"client did not answer in time\"}"));
    n.net.close();
    let call = read_call("0x1", "[]");
    assert_eq!(
        n.invoke_client_native(&mut calls, &mut obs, 7, call, None, true, 0, at(5)),
        (None, Some("net bridge full or closed".to_owned()))
    );
}

#[test]
fn a_failed_dispatch_keeps_its_events() {
    let mut context = RuntimeContext::new("r", 0);
    context.trigger_event("ping".to_owned(), "[1]".to_owned());
    let failed = context.reply(Err(ScriptError::HostGone));
    assert!(matches!(failed, Err(ScriptError::HostGone)));
    let events = context.reply(Ok(())).expect("the dispatch succeeded");
    assert_eq!(events, vec![("ping".to_owned(), "[1]".to_owned())]);
    assert!(context.reply(Ok(())).expect("again").is_empty());
}

// --- what the composition root installs ---

#[test]
fn a_client_event_goes_out_unless_the_bridge_is_closed() {
    let mut n = natives("r");
    assert!(n.trigger_client_event("hello".to_owned(), 3, "[1]".to_owned()));
    match &n.net.drain()[..] {
        [NetOutbound::ClientEvent { target, event, args_json }] => {
            assert_eq!(*target, EventTarget::One(3));
            assert_eq!((event.as_str(), args_json.as_str()), ("hello", "[1]"));
        }
        other => panic!("unexpected outbound: {other:?}"),
    }
    // A negative number means everyone, and so does one that no source can have.
    for target in [-1, -7, i64::from(u32::MAX) + 1] {
        assert!(n.trigger_client_event("hello".to_owned(), target, "[]".to_owned()));
        match &n.net.drain()[..] {
            [NetOutbound::ClientEvent { target, .. }] => assert_eq!(*target, EventTarget::All),
            other => panic!("unexpected outbound: {other:?}"),
        }
    }
    n.net.close();
    assert!(!n.trigger_client_event("hello".to_owned(), 3, "[1]".to_owned()));
}

#[test]
fn the_host_hands_installed_services_to_scripts() {
    let mut host = host();
    let mut kvp = KvpStore::in_memory();
    assert_eq!(kvp.set("r", "k", "v".to_owned(), false), None);
    host.set_kvp_store(kvp);
    host.natives.act_for("r");
    assert_eq!(
        host.natives.cfx_native(None, "GET_RESOURCE_KVP_STRING", "string", "[\"k\"]"),
        "\"v\""
    );
    host.set_http_bridge(HttpBridge::new());
    host.set_resource_control(NoResourceControl);
    host.natives.cfx_native(
        None,
        "SET_STATE_BAG_VALUE",
        "void",
        "[\"player:1\",\"job\",\"medic\",0,true]",
    );
    let changes = host.drain_replicated_state_bags(8);
    assert_eq!(changes.len(), 1);
    assert_eq!((changes[0].bag.as_str(), changes[0].key.as_str()), ("player:1", "job"));
    assert!(host.drain_replicated_state_bags(8).is_empty());
}

#[test]
fn the_monitor_can_be_switched_off() {
    let mut obs = Observability::new(0);
    let before = obs.resmon_enabled();
    obs.set_resmon_enabled(!before);
    assert_eq!(obs.resmon_enabled(), !before);
    assert!(!obs.profiler_status(0).active);
}

#[test]
fn a_known_resource_changes_its_state() {
    let mut registry = ResourceRegistry::new();
    registry.set_state("core", ScriptResourceState::Started);
    assert_eq!(registry.state("core"), "missing");
    let manifest = ResourceManifest {
        version: None,
        dependencies: vec![],
        server_scripts: vec![],
        client_scripts: vec![],
        files: vec![],
    };
    registry.upsert_resource("core".into(), "/srv/core".into(), manifest, ScriptResourceState::Stopped);
    assert_eq!(registry.state("core"), "stopped");
    registry.set_state("core", ScriptResourceState::Started);
    assert_eq!(registry.state("core"), "started");
}

#[test]
fn a_kick_reason_decides_nothing_by_itself() {
    let mut deferrals = DeferralRegistry::new();
    deferrals.register(4);
    deferrals.set_kick_reason(4, "later".to_owned());
    assert_eq!(deferrals.outcome(4), None);
    deferrals.resolve_if_not_deferred(4);
    assert_eq!(deferrals.outcome(4), Some(Ok(())));
}

#[test]
fn query_parameters_are_a_json_array() {
    let texts = |json: &str| db_params(json).iter().map(|p| p.to_json()).collect::<Vec<_>>();
    assert_eq!(texts(r#"[1, "two", null, [3]]"#), ["1", "\"two\"", "null", "[3]"]);
    assert!(texts("{}").is_empty());
    assert!(texts("not json").is_empty());
}

#[test]
fn a_command_runs_only_where_it_is_owned() {
    let mut context = RuntimeContext::new("r", 0);
    assert!(!context.owns_command("greet"));
    context.register_command("greet".into(), true);
    assert!(context.owns_command("greet"));
    assert!(!context.owns_command("gree"));
    assert_eq!(context.registered_commands(), ["greet"]);
}

#[test]
fn a_new_host_has_seen_nothing() {
    let host = ScriptHost::new(natives("r"), Engines { js: true, lua: true }, 5_000_000);
    assert!(host.recipients().is_empty());
    assert!(!host.http_handlers.has_handler("r"));
    let snapshot = host.observability.snapshot(7_000_000);
    assert_eq!(snapshot.uptime_secs, 2);
    assert!(snapshot.resources.is_empty() && snapshot.handlers.is_empty());
}
