//! How the host runs scripts: which events leave a zone, how long a chain of events may get,
//! when a dispatch is ended, and which runtime a script belongs to.
use crate::engine::{
    engine_of, extension_of, grouping, groups_of, scripts_of, unclaimed, Engine, Engines,
};
use crate::error::{error_text, ErrorModel, ScriptError};
use crate::host::{
    chain_after, chained, dispatches, gathered, publishes, states_of, without, zone_local,
    ChainModel, HostModel,
};
use crate::json::{array_of, json_quoted, json_text, JsonModel};
use crate::runtime::{
    command_script, connecting_script, deadline_after, event_script, net_event_script, overrun,
    run_outcome, script_name, transfer_script, watch_step, WatchAction, WatchPhase, WatchedFlags,
};
use crate::text::{decimal, starts_with};
use crate::value_laws::{lemma_lower, spelt};
use vstd::prelude::*;

verus! {

// --- events ---

/// An event stays in its zone if its name begins with one of three words, or is the one that
/// tells of a change of owner; every other event may leave it.
pub proof fn some_events_stay_in_their_zone(event: Seq<char>, rest: Seq<char>)
    ensures
        zone_local("onResource"@ + rest),
        zone_local("player"@ + rest),
        zone_local("__baston"@ + rest),
        zone_local("onEntityOwnerChanged"@),
        event.len() > 0 && event[0] != 'o' && event[0] != 'p' && event[0] != '_' ==> !zone_local(
            event,
        ),
        event.len() > 2 && event[0] == 'o' && event[2] != 'R' && event[2] != 'E' ==> !zone_local(
            event,
        ),
        event.len() > 1 && event[0] == 'p' && event[1] != 'l' ==> !zone_local(event),
        event.len() < 6 ==> !zone_local(event),
{
    reveal_strlit("onResource");
    reveal_strlit("player");
    reveal_strlit("__baston");
    reveal_strlit("onEntityOwnerChanged");
    let a = "onResource"@ + rest;
    let b = "player"@ + rest;
    let c = "__baston"@ + rest;
    assert(a.take(10) =~= "onResource"@);
    assert(b.take(6) =~= "player"@);
    assert(c.take(8) =~= "__baston"@);
    if event.len() > 0 && starts_with(event, "onResource"@) {
        assert(event.take(10)[0] == 'o' && event.take(10)[2] == 'R');
        assert(event[0] == event.take(10)[0] && event[2] == event.take(10)[2]);
    }
    if event.len() > 0 && starts_with(event, "player"@) {
        assert(event.take(6)[0] == 'p' && event.take(6)[1] == 'l');
        assert(event[0] == event.take(6)[0] && event[1] == event.take(6)[1]);
    }
    if event.len() > 0 && starts_with(event, "__baston"@) {
        assert(event.take(8)[0] == '_');
        assert(event[0] == event.take(8)[0]);
    }
}

/// The oldest event of a chain is handed out first, and is mirrored to other zones if it may
/// leave its zone and did not just come from one. After 64 events the chain is cut off and
/// what is left of it is forgotten.
pub proof fn a_chain_is_worked_off_in_order(m: ChainModel)
    requires
        m.pending.len() > 0,
    ensures
        dispatches(m) <==> m.dispatched < 64,
        publishes(m) <==> !zone_local(m.pending[0].0) && (m.dispatched > 0 || m.publish_entry),
        chain_after(m).dispatched == m.dispatched + 1,
        chain_after(m).publish_entry == m.publish_entry,
        m.dispatched < 64 ==> chain_after(m).pending == m.pending.subrange(
            1,
            m.pending.len() as int,
        ),
        m.dispatched >= 64 ==> chain_after(m).pending.len() == 0,
{
    assert(m.pending.skip(1) =~= m.pending.subrange(1, m.pending.len() as int));
}

/// What handlers trigger waits behind what was there, until the chain is cut off.
pub proof fn reactions_wait_their_turn(m: ChainModel, events: Seq<(Seq<char>, Seq<char>)>)
    ensures
        m.dispatched <= 64 ==> chained(m, events).pending == m.pending + events,
        m.dispatched > 64 ==> chained(m, events).pending == m.pending,
        chained(m, events).dispatched == m.dispatched,
        chained(m, events).publish_entry == m.publish_entry,
{
}

/// The reactions of the runtimes are gathered in the order of the runtimes; a runtime that
/// failed has none, and spoils none of the others'.
pub proof fn reactions_are_gathered(
    a: Seq<Result<Vec<(String, String)>, ScriptError>>,
    b: Seq<Result<Vec<(String, String)>, ScriptError>>,
    events: Vec<(String, String)>,
    e: ScriptError,
)
    ensures
        gathered(a + b) == gathered(a) + gathered(b),
        gathered(seq![Ok(events)]) == events@.map_values(|p: (String, String)| (p.0@, p.1@)),
        gathered(seq![Err(e)]).len() == 0,
    decreases b.len(),
{
    reveal_with_fuel(gathered, 2);
    let one: Seq<Result<Vec<(String, String)>, ScriptError>> = seq![Ok(events)];
    assert(one.drop_last() =~= Seq::empty());
    assert(gathered(one) =~= events@.map_values(|p: (String, String)| (p.0@, p.1@)));
    let none: Seq<Result<Vec<(String, String)>, ScriptError>> = seq![Err(e)];
    assert(none.drop_last() =~= Seq::empty());
    if b.len() == 0 {
        assert(a + b =~= a);
        assert(gathered(a) + gathered(b) =~= gathered(a));
    } else {
        reactions_are_gathered(a, b.drop_last(), events, e);
        assert((a + b).drop_last() =~= a + b.drop_last());
        assert((a + b).last() == b.last());
        assert(gathered(a + b) =~= gathered(a) + gathered(b));
    }
}

/// The state that each resource has to hand over is kept under its name, the latest where
/// there are several; a resource that has none, or failed, hands over nothing.
pub proof fn states_are_kept_by_resource(
    replies: Seq<(String, Result<Option<String>, ScriptError>)>,
    resource: String,
    json: String,
    e: ScriptError,
    other: Seq<char>,
)
    ensures
        ({
            let with = states_of(replies.push((resource, Ok(Some(json)))));
            &&& with.contains_key(resource@) && with[resource@] == json@
            &&& other != resource@ ==> (with.contains_key(other) <==> states_of(
                replies,
            ).contains_key(other)) && with[other] == states_of(replies)[other]
        }),
        states_of(replies.push((resource, Ok(None)))) == states_of(replies),
        states_of(replies.push((resource, Err(e)))) == states_of(replies),
        states_of(Seq::empty()).dom() =~= Set::empty(),
{
    assert(replies.push((resource, Ok(Some(json)))).drop_last() =~= replies);
    assert(replies.push((resource, Ok(None))).drop_last() =~= replies);
    assert(replies.push((resource, Err(e))).drop_last() =~= replies);
}

// --- the watchdog ---

/// The watchdog looks every fifty milliseconds; a dispatch that overran is looked at again
/// twenty milliseconds later, and terminated only if it is still the same one. Then it waits
/// for it to unwind, and when the runtime goes away it ends.
pub proof fn the_watchdog_looks_twice(
    flags: WatchedFlags,
    now_ms: u64,
    generation: u64,
)
    ensures
        flags.deadline_ms != 0 && now_ms >= flags.deadline_ms ==> watch_step(
            WatchPhase::Watching,
            flags,
            now_ms,
        ) == (WatchPhase::Confirming(flags.generation), WatchAction::Sleep(20)),
        !flags.stop && (flags.deadline_ms == 0 || now_ms < flags.deadline_ms) ==> watch_step(
            WatchPhase::Watching,
            flags,
            now_ms,
        ) == (WatchPhase::Watching, WatchAction::Sleep(50)),
        !flags.stop && flags.deadline_ms != 0 ==> watch_step(
            WatchPhase::Confirming(flags.generation),
            flags,
            now_ms,
        ) == (WatchPhase::Unwinding, WatchAction::Terminate),
        !flags.stop && (flags.deadline_ms == 0 || generation != flags.generation) ==> watch_step(
            WatchPhase::Confirming(generation),
            flags,
            now_ms,
        ) == (WatchPhase::Watching, WatchAction::Sleep(50)),
        !flags.stop && flags.deadline_ms != 0 ==> watch_step(WatchPhase::Unwinding, flags, now_ms)
            == (WatchPhase::Unwinding, WatchAction::Sleep(20)),
        !flags.stop && flags.deadline_ms == 0 ==> watch_step(WatchPhase::Unwinding, flags, now_ms)
            == (WatchPhase::Watching, WatchAction::Sleep(50)),
        flags.stop ==> watch_step(WatchPhase::Unwinding, flags, now_ms).1 == WatchAction::Exit
            && watch_step(WatchPhase::Confirming(generation), flags, now_ms).1
            == WatchAction::Exit,
{
}

/// A dispatch has its budget, from its start on, and no deadline is mistaken for none.
pub proof fn a_dispatch_has_its_budget(now_ms: u64, budget_ms: u64, later_ms: u64)
    ensures
        deadline_after(now_ms, budget_ms) != 0,
        0 < now_ms + budget_ms <= u64::MAX ==> deadline_after(now_ms, budget_ms) == now_ms
            + budget_ms,
        !overrun(0, later_ms),
        now_ms != 0 ==> (overrun(now_ms, later_ms) <==> later_ms >= now_ms),
{
}

/// A script that fails fails under its own name, and one that only fails later, on the event
/// loop, under that name; a failure before keeps the event loop's from being told.
pub proof fn a_failure_names_its_script(
    resource: Seq<char>,
    script: Seq<char>,
    message: Seq<char>,
    later: Result<(), Seq<char>>,
)
    ensures
        run_outcome(resource, script, Err(message), later) == Err::<(), ErrorModel>(
            ErrorModel::Execute { resource, script, message },
        ),
        run_outcome(resource, script, Ok(()), Err(message)) == Err::<(), ErrorModel>(
            ErrorModel::Execute { resource, script: "<event loop>"@, message },
        ),
        run_outcome(resource, script, Ok(()), Ok(())) == Ok::<(), ErrorModel>(()),
{
}

/// An error says what failed, of which resource, and why.
pub proof fn errors_are_told_in_words(
    resource: Seq<char>,
    script: Seq<char>,
    message: Seq<char>,
)
    ensures
        error_text(ErrorModel::RuntimeInit { resource, message })
            == "failed to initialize script runtime for resource "@ + resource + ": "@ + message,
        error_text(ErrorModel::Execute { resource, script, message })
            == "script execution failed in resource "@ + resource + " ("@ + script + "): "@
            + message,
        error_text(ErrorModel::HostGone) == "script host thread is no longer running"@,
        error_text(ErrorModel::HostStart(message)) == "failed to start script host: "@ + message,
        error_text(ErrorModel::ResourceNotLoaded(resource)) == "resource "@ + resource
            + " is not loaded"@,
{
}

// --- what is run ---

/// A dispatch calls the function of the bootstrap that it is for, with its arguments quoted,
/// so that nothing in them can be taken for code.
pub proof fn dispatches_call_the_bootstrap(
    event: Seq<char>,
    args: Seq<char>,
    source: u32,
    words: Seq<Seq<char>>,
    resource: Seq<char>,
)
    ensures
        event_script(event, args) == "globalThis.__baston.dispatch("@ + json_quoted(event) + ", "@
            + json_quoted(args) + ");"@,
        net_event_script(event, source, args) == "globalThis.__baston.dispatchWithSource("@
            + json_quoted(event) + ", "@ + decimal(source as nat) + ", "@ + json_quoted(args)
            + ");"@,
        connecting_script(source, event) == "globalThis.__baston.dispatchPlayerConnecting("@
            + decimal(source as nat) + ", "@ + json_quoted(event) + ");"@,
        transfer_script(source) == "globalThis.__baston.collectZoneTransferState("@ + decimal(
            source as nat,
        ) + ");"@,
        script_name(resource, event) == "baston:"@ + resource + "/"@ + event,
        command_script(event, source, words, args) == "globalThis.__baston.dispatchCommand("@
            + json_quoted(event) + ", "@ + decimal(source as nat) + ", "@ + json_text(
            array_of(words.map_values(|word: Seq<char>| JsonModel::Text(word))),
        ) + ", "@ + json_quoted(args) + ");"@,
{
    let quoted = words.map_values(|word: Seq<char>| JsonModel::Text(word));
    assert(command_script(event, source, words, args) == "globalThis.__baston.dispatchCommand("@
        + json_quoted(event) + ", "@ + decimal(source as nat) + ", "@ + json_text(
        array_of(quoted),
    ) + ", "@ + json_quoted(args) + ");"@);
}

// --- which runtime ---

proof fn lemma_extension(stem: Seq<char>, extension: Seq<char>)
    requires
        forall|i: int| 0 <= i < extension.len() ==> #[trigger] extension[i] != '.',
    ensures
        extension_of(stem + seq!['.'] + extension) == extension,
    decreases extension.len(),
{
    let path = stem + seq!['.'] + extension;
    if extension.len() == 0 {
        assert(path.last() == '.');
        assert(extension =~= Seq::empty());
    } else {
        let rest = extension.drop_last();
        assert(path.drop_last() =~= stem + seq!['.'] + rest);
        assert(path.last() == extension[extension.len() - 1]);
        assert forall|i: int| 0 <= i < rest.len() implies #[trigger] rest[i] != '.' by {
            assert(rest[i] == extension[i]);
        }
        lemma_extension(stem, rest);
        assert(rest.push(extension.last()) =~= extension);
    }
}

/// A script is run by the runtime that the end of its name says, in whatever case: three
/// endings for JavaScript, one for Lua, and none for anything else.
pub proof fn a_script_is_told_by_its_ending(stem: Seq<char>, extension: Seq<char>)
    requires
        forall|i: int| 0 <= i < extension.len() ==> #[trigger] extension[i] != '.',
    ensures
        ({
            let engine = engine_of(stem + seq!['.'] + extension);
            &&& engine == Some(Engine::Js) <==> spelt(extension, "js"@, "JS"@) || spelt(
                extension,
                "mjs"@,
                "MJS"@,
            ) || spelt(extension, "cjs"@, "CJS"@)
            &&& engine == Some(Engine::Lua) <==> spelt(extension, "lua"@, "LUA"@)
        }),
{
    lemma_extension(stem, extension);
    reveal_strlit("js");
    reveal_strlit("mjs");
    reveal_strlit("cjs");
    reveal_strlit("lua");
    reveal_strlit("JS");
    reveal_strlit("MJS");
    reveal_strlit("CJS");
    reveal_strlit("LUA");
    lemma_lower(extension, "js"@, "JS"@);
    lemma_lower(extension, "mjs"@, "MJS"@);
    lemma_lower(extension, "cjs"@, "CJS"@);
    lemma_lower(extension, "lua"@, "LUA"@);
    assert("lua"@[0] == 'l' && "mjs"@[0] == 'm' && "cjs"@[0] == 'c' && "js"@.len() == 2
        && "lua"@.len() == 3);
}

proof fn lemma_unclaimed(paths: Seq<Seq<char>>)
    ensures
        unclaimed(paths) is None <==> forall|i: int|
            0 <= i < paths.len() ==> engine_of(#[trigger] paths[i]) is Some,
        unclaimed(paths) matches Some(path) ==> paths.contains(path) && engine_of(path) is None,
    decreases paths.len(),
{
    if paths.len() > 0 {
        let head = paths.drop_last();
        lemma_unclaimed(head);
        assert forall|i: int| 0 <= i < head.len() implies #[trigger] head[i] == paths[i] by {}
        assert(paths[paths.len() - 1] == paths.last());
        if unclaimed(head) is None {
            assert forall|i: int| 0 <= i < paths.len() - 1 implies engine_of(
                #[trigger] paths[i],
            ) is Some by {
                assert(head[i] == paths[i]);
            }
        } else {
            let path = unclaimed(head)->0;
            let i = choose|i: int| 0 <= i < head.len() && head[i] == path;
            assert(paths[i] == path);
        }
    }
}

/// The group is that of the script's runtime, and holds the script by its place.
pub open spec fn stands_in(group: (Engine, Seq<usize>), path: Seq<char>, i: int) -> bool {
    engine_of(path) == Some(group.0) && group.1.contains(i as usize)
}

/// The scripts of a resource are grouped by runtime, the runtime of the first script first;
/// a resource with scripts for both has two groups. A script that no runtime takes, or one
/// whose runtime is not there, keeps the resource from starting, and so does having none.
pub proof fn scripts_are_grouped_by_runtime(
    resource: Seq<char>,
    paths: Seq<Seq<char>>,
    engines: Engines,
    i: int,
)
    requires
        0 < paths.len() <= usize::MAX,
        0 <= i < paths.len(),
    ensures
        ({
            let groups = grouping(resource, paths, engines);
            let needs_js = engine_of(paths[i]) == Some(Engine::Js);
            let needs_lua = engine_of(paths[i]) == Some(Engine::Lua);
            &&& engine_of(paths[i]) is None ==> groups is Err
            &&& needs_js && !engines.js ==> groups is Err
            &&& needs_lua && !engines.lua ==> groups is Err
            &&& groups is Ok ==> {
                let ok = groups->Ok_0;
                &&& 1 <= ok.len() <= 2
                &&& engine_of(paths[0]) == Some(ok[0].0)
                &&& ok.len() == 2 ==> ok[1].0 != ok[0].0
                &&& stands_in(ok[0], paths[i], i) || (ok.len() == 2 && stands_in(
                    ok[1],
                    paths[i],
                    i,
                ))
            }
        }),
        grouping(resource, Seq::empty(), engines) == Err::<Seq<(Engine, Seq<usize>)>, ErrorModel>(
            ErrorModel::RuntimeInit { resource, message: "no server_scripts to run"@ },
        ),
{
    lemma_unclaimed(paths);
    crate::engine::every_script_has_its_group(paths, Engine::Js, i);
    crate::engine::every_script_has_its_group(paths, Engine::Lua, i);
    crate::engine::every_script_has_its_group(paths, Engine::Js, 0);
    crate::engine::every_script_has_its_group(paths, Engine::Lua, 0);
    let groups = groups_of(paths);
    if unclaimed(paths) is None {
        assert(engine_of(paths[0]) is Some && engine_of(paths[i]) is Some);
        let mine = engine_of(paths[i])->0;
        assert(scripts_of(paths, mine).contains(i as usize));
        if groups[0].0 == mine {
            assert(stands_in(groups[0], paths[i], i));
        } else {
            assert(groups.len() == 2 && groups[1].0 == mine);
            assert(stands_in(groups[1], paths[i], i));
        }
    }
}

// --- unloading ---

/// What belongs to other resources outlives an unloaded one: their change handlers with what
/// they wait for, the unsent changes, the values in the bags, and every book of the host.
pub proof fn only_its_own_goes_with_a_resource(
    h: HostModel,
    name: Seq<char>,
    cookie: u32,
    other: Seq<char>,
)
    requires
        other != name,
    ensures
        ({
            let after = without(h, name);
            &&& h.natives.bags.handlers.contains_key(cookie)
                && h.natives.bags.handlers[cookie].resource != name
                ==> after.natives.bags.handlers.contains_key(cookie)
                && after.natives.bags.handlers[cookie] == h.natives.bags.handlers[cookie]
            &&& after.natives.bags.pending.contains_key(other)
                <==> h.natives.bags.pending.contains_key(other)
            &&& after.natives.bags.pending[other] == h.natives.bags.pending[other]
            &&& after.natives.bags.bags == h.natives.bags.bags
            &&& after.natives.kvp == h.natives.kvp && after.natives.convars == h.natives.convars
                && after.natives.synthetic == h.natives.synthetic && after.natives.routing
                == h.natives.routing
            &&& after.handlers.waiting == h.handlers.waiting && after.handlers.answered
                == h.handlers.answered
            &&& after.deferrals == h.deferrals && after.observability == h.observability
                && after.resources == h.resources
        }),
{
}

} // verus!
