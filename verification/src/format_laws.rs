//! How things are written out: labels, traces, changes and messages, piece by piece.
use crate::engine::{bundle_of, label_of, no_runtime_text, not_in_build_text, Engine};
use crate::json::{array_of, json_quoted, json_text, numbers, JsonModel};
use crate::observability::{
    dispatch_args, event_text, hash_label, hex_digits, in_time_order, kind_name, of_kind,
    roundtrip_args, shows, trace_text, DispatchKind, DispatchMeasurement, ObsModel, ResMonSnapshot,
    RoundtripModel, TraceModel,
};
use crate::state_bag::{change_text, delivery_json, polled, source_text, DeliveryModel};
use crate::text::decimal;
use vstd::prelude::*;

verus! {

/// A list is written between brackets, and ids as numbers.
pub proof fn a_list_is_written_between_brackets(values: Seq<JsonModel>, ids: Seq<u32>, i: int)
    ensures
        json_text(array_of(values)) == seq!['['] + (crate::json::comma_separated(values) + seq![
            ']',
        ]),
        array_of(values) is Nested,
        numbers(ids).len() == ids.len(),
        0 <= i < ids.len() ==> numbers(ids)[i] == JsonModel::Unsigned(ids[i] as u64),
{
    assert(json_text(array_of(values)) =~= seq!['['] + (crate::json::comma_separated(values)
        + seq![']']));
}

proof fn lemma_hex(value: nat, n: nat)
    ensures
        hex_digits(value, n).len() == n,
        forall|i: int| 0 <= i < n ==> is_hex(#[trigger] hex_digits(value, n)[i]),
    decreases n,
{
    if n > 0 {
        lemma_hex(value / 16, (n - 1) as nat);
        let head = hex_digits(value / 16, (n - 1) as nat);
        assert forall|i: int| 0 <= i < n implies is_hex(#[trigger] hex_digits(value, n)[i]) by {
            if i < n - 1 {
                assert(hex_digits(value, n)[i] == head[i]);
            }
        }
    }
}

/// A digit of a hash: a digit or one of six capital letters.
pub open spec fn is_hex(c: char) -> bool {
    ('0' <= c && c <= '9') || ('A' <= c && c <= 'F')
}

/// A hash is shown as `0x` and sixteen digits, the letters as capitals.
pub proof fn a_hash_is_shown_in_full(hash: u64, i: int)
    ensures
        hash_label(hash).len() == 18,
        hash_label(hash)[0] == '0' && hash_label(hash)[1] == 'x',
        2 <= i < 18 ==> is_hex(hash_label(hash)[i]),
        hash % 16 < 10 ==> hash_label(hash)[17] as int == '0' as int + hash % 16,
        hash % 16 >= 10 ==> hash_label(hash)[17] as int == 'A' as int + hash % 16 - 10,
{
    reveal_strlit("0x");
    lemma_hex(hash as nat, 16);
    if 2 <= i < 18 {
        assert(hash_label(hash)[i] == hex_digits(hash as nat, 16)[i - 2]);
    }
    assert(hash_label(hash)[17] == hex_digits(hash as nat, 16)[15]);
}

/// What a trace says of a dispatch: its times, its kind, its resource, who caused it,
/// whether it failed, and where.
pub proof fn a_traced_dispatch_is_described(
    d: DispatchMeasurement,
    source: Seq<char>,
    status: Seq<char>,
    zone: Seq<char>,
)
    requires
        d.source matches Some(n) ==> source == decimal(n as nat),
        d.source is None ==> source == "null"@,
        d.zone matches Some(text) ==> zone == json_quoted(text@),
        d.zone is None ==> zone == "null"@,
        status == if d.errored {
            "error"@
        } else {
            "ok"@
        },
    ensures
        dispatch_args(d) == "{\"event_loop_us\":"@ + decimal(d.event_loop_us as nat)
            + ",\"execute_us\":"@ + decimal(d.execute_us as nat) + ",\"kind\":"@ + json_quoted(
            kind_name(d.kind),
        ) + ",\"resource\":"@ + json_quoted(d.resource@) + ",\"source\":"@ + source
            + ",\"status\":"@ + json_quoted(status) + ",\"zone\":"@ + zone + "}"@,
{
}

/// What a trace says of a native call: that it was one, of which resource, to whom, and
/// whether it was answered, failed or timed out.
pub proof fn a_traced_call_is_described(r: RoundtripModel, status: Seq<char>)
    requires
        r.timed_out ==> status == "timeout"@,
        !r.timed_out && r.errored ==> status == "error"@,
        !r.timed_out && !r.errored ==> status == "ok"@,
    ensures
        roundtrip_args(r) == "{\"kind\":"@ + json_quoted("NativeRoundtrip"@) + ",\"resource\":"@
            + json_quoted(r.resource) + ",\"source\":"@ + decimal(r.source as nat)
            + ",\"status\":"@ + json_quoted(status) + "}"@,
{
}

/// A traced event is a complete one of the trace viewer: its details, its category, how long
/// it took, its name, its thread and when it began; and a trace is the list of them in the
/// order of time.
pub proof fn a_trace_is_written_for_the_viewer(
    e: TraceModel,
    category: Seq<char>,
    events: Seq<TraceModel>,
)
    requires
        e.native ==> category == "native"@,
        !e.native ==> category == "script"@,
    ensures
        event_text(e) == "{\"args\":"@ + e.args + ",\"cat\":"@ + json_quoted(category)
            + ",\"dur\":"@ + decimal(e.dur as nat) + ",\"name\":"@ + json_quoted(e.name)
            + ",\"ph\":\"X\",\"pid\":1,\"tid\":"@ + decimal(e.tid as nat) + ",\"ts\":"@ + decimal(
            e.ts as nat,
        ) + "}"@,
        trace_text(events) == "{\"traceEvents\":"@ + json_text(
            array_of(
                in_time_order(events).map_values(
                    |one: TraceModel| JsonModel::Nested(event_text(one)),
                ),
            ),
        ) + "}"@,
{
    let mine = |one: TraceModel| JsonModel::Nested(event_text(one));
    let list = in_time_order(events);
    assert(trace_text(events) == "{\"traceEvents\":"@ + json_text(
        array_of(list.map_values(mine)),
    ) + "}"@);
}

/// What a runtime is told of a change: which handler it is for, what changed in which bag,
/// under which version, whether it goes out to the network, and who changed it.
pub proof fn a_change_is_written_for_its_handler(
    d: DeliveryModel,
    resource: Seq<char>,
    player: Seq<char>,
    replicated: Seq<char>,
)
    requires
        d.change.source.resource matches Some(name) ==> resource == json_quoted(name),
        d.change.source.resource is None ==> resource == "null"@,
        d.change.source.player matches Some(n) ==> player == decimal(n as nat),
        d.change.source.player is None ==> player == "null"@,
        replicated == if d.change.replicated {
            "true"@
        } else {
            "false"@
        },
    ensures
        ({
            let c = d.change;
            &&& source_text(c.source) == "{\"resource\":"@ + resource + ",\"player\":"@ + player
                + "}"@
            &&& change_text(c) == "{\"bag\":"@ + json_quoted(c.bag) + ",\"key\":"@ + json_quoted(
                c.key,
            ) + ",\"value\":"@ + json_text(c.value) + ",\"version\":"@ + decimal(c.version as nat)
                + ",\"replicated\":"@ + replicated + ",\"source\":"@ + source_text(c.source)
                + "}"@
            &&& delivery_json(d) == JsonModel::Nested(
                "{\"callback_id\":"@ + decimal(d.callback_id as nat) + ",\"change\":"@
                    + change_text(c) + "}"@,
            )
        }),
{
}

/// A runtime is told of at most 4096 changes at once, the oldest ones.
pub proof fn a_runtime_is_told_so_much_at_once(queue: Seq<DeliveryModel>)
    ensures
        queue.len() <= 4096 ==> polled(queue) == queue,
        queue.len() > 4096 ==> polled(queue) == queue.subrange(0, 4096),
{
    if queue.len() > 4096 {
        assert(queue.take(4096) =~= queue.subrange(0, 4096));
    }
}

/// A snapshot is of the gateway, tells for how many whole seconds it has run, and has one
/// entry for each resource, in the order of their names.
pub proof fn a_snapshot_shows_every_resource(
    snapshot: ResMonSnapshot,
    m: ObsModel,
    now_us: u64,
    names: Seq<Seq<char>>,
    i: int,
)
    requires
        shows(snapshot, m, now_us),
        crate::named::lists_names(names, m.resources.dom()),
    ensures
        snapshot.scope@ == "gateway"@,
        now_us >= m.started_us ==> snapshot.uptime_secs == (now_us - m.started_us) / 1_000_000,
        now_us < m.started_us ==> snapshot.uptime_secs == 0,
        snapshot.resources@.len() == names.len(),
        0 <= i < names.len() ==> snapshot.resources@[i].resource@ == names[i]
            && snapshot.resources@[i].dispatch_count == m.resources[names[i]].dispatch.count,
{
    crate::named::lemma_names_in_order(names, m.resources.dom());
    if 0 <= i < names.len() {
        assert(crate::observability::perf_of(
            snapshot.resources@[i],
            names[i],
            m.resources[names[i]],
        ));
    }
}

/// The handlers of a kind are shown in the order of their names, each with its count, its
/// total, two percentiles and its errors.
pub proof fn the_handlers_of_a_kind_are_shown(
    resource: Seq<char>,
    kind: DispatchKind,
    map: Map<Seq<char>, crate::observability::BucketModel>,
    names: Seq<Seq<char>>,
    i: int,
)
    requires
        crate::named::lists_names(names, map.dom()),
        0 <= i < names.len(),
    ensures
        ({
            let shown = of_kind(resource, kind, map);
            &&& shown.len() == names.len()
            &&& shown[i].resource == resource && shown[i].kind == kind && shown[i].name == names[i]
            &&& shown[i].count == map[names[i]].count
            &&& shown[i].total_us == map[names[i]].total_us
            &&& shown[i].errors == map[names[i]].errors
            &&& shown[i].p95_us == crate::observability::percentile_of(map[names[i]].samples, 95)
            &&& shown[i].p99_us == crate::observability::percentile_of(map[names[i]].samples, 99)
        }),
{
    crate::named::lemma_names_in_order(names, map.dom());
}

/// What keeps a resource from starting is told in words: the script that no runtime takes,
/// or the runtime that this build lacks and the bundle that has it.
pub proof fn missing_runtimes_are_told_in_words(path: Seq<char>)
    ensures
        label_of(Engine::Js) == "js"@ && label_of(Engine::Lua) == "lua"@,
        bundle_of(Engine::Js) == "js (or full)"@ && bundle_of(Engine::Lua) == "lua (or full)"@,
        no_runtime_text(path) == "server script \""@ + (path
            + "\" has no runtime\n  → BASTON runs .js/.mjs/.cjs and .lua server scripts"@),
        not_in_build_text(Engine::Lua) == "this build has no "@ + ("lua"@
            + (" runtime\n  → it ships in bundle "@ + ("lua (or full)"@
            + "\n  → run `baston-gateway --modules` to see what this binary contains"@))),
{
    assert(no_runtime_text(path) =~= "server script \""@ + (path
        + "\" has no runtime\n  → BASTON runs .js/.mjs/.cjs and .lua server scripts"@));
    assert(not_in_build_text(Engine::Lua) =~= "this build has no "@ + ("lua"@
        + (" runtime\n  → it ships in bundle "@ + ("lua (or full)"@
        + "\n  → run `baston-gateway --modules` to see what this binary contains"@))));
}

} // verus!
