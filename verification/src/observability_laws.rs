//! What is measured, kept, shown and recorded of the scripts that run.
use crate::observability::{
    after_dispatch, after_roundtrip, ascending_order, ascending_order_is_one, dispatch_trace,
    event_slot, expired, in_time_order, kind_name, kind_rank, label_for, labels_after, limit_of,
    over, percentile_of, perf_of, recorded, roundtrip_trace, stats_of, stops_at, traced,
    BucketModel, DispatchKind, DispatchMeasurement, Moment, ObsModel, RecordingModel,
    ResourcePerfStats, RoundtripModel, StatsModel, TraceModel,
};
use vstd::prelude::*;

verus! {

// --- durations ---

/// A duration that is measured is counted once, is the last one, adds to the total, and
/// raises the maximum if it is longer than all before. Only an error is counted as one. The
/// latest 512 durations are kept, oldest first.
pub proof fn a_duration_is_taken_in(b: BucketModel, us: u64, errored: bool)
    ensures
        ({
            let after = recorded(b, us, errored);
            &&& b.count < u64::MAX ==> after.count == b.count + 1
            &&& b.total_us + us <= u64::MAX ==> after.total_us == b.total_us + us
            &&& b.total_us + us > u64::MAX ==> after.total_us == u64::MAX
            &&& after.last_us == us
            &&& after.max_us >= us && after.max_us >= b.max_us
            &&& after.max_us == us || after.max_us == b.max_us
            &&& !errored ==> after.errors == b.errors
            &&& errored && b.errors < u64::MAX ==> after.errors == b.errors + 1
            &&& b.samples.len() < 512 ==> after.samples == b.samples.push(us)
            &&& b.samples.len() == 512 ==> after.samples == b.samples.subrange(1, 512).push(us)
        }),
{
    if b.samples.len() == 512 {
        assert(b.samples.skip(1) =~= b.samples.subrange(1, 512));
    }
}

/// A percentile is one of the durations: put in ascending order, the first whose place is
/// not before the given part of the way from the shortest to the longest.
pub proof fn a_percentile_is_found_by_its_place(
    samples: Seq<u64>,
    sorted: Seq<u64>,
    percent: int,
    place: int,
)
    requires
        samples.len() > 0,
        0 <= percent <= 100,
        sorted.to_multiset() == samples.to_multiset(),
        forall|i: int, j: int| 0 <= i < j < sorted.len() ==> sorted[i] <= sorted[j],
        percent * (samples.len() - 1) <= 100 * place < percent * (samples.len() - 1) + 100,
    ensures
        percentile_of(samples, percent) == sorted[place],
{
    ascending_order_is_one(samples);
    let leq = |a: u64, b: u64| a <= b;
    let mine = ascending_order(samples);
    vstd::seq_lib::lemma_sorted_unique(sorted, mine, leq);
    let scaled = percent * (samples.len() - 1);
    assert((scaled + 99) / 100 == place);
}

/// Nothing measured is zero; otherwise the hundredth percentile is the longest duration and
/// the zeroth the shortest.
pub proof fn percentiles_reach_from_shortest_to_longest(samples: Seq<u64>, i: int)
    ensures
        samples.len() == 0 ==> percentile_of(samples, 95) == 0,
        0 <= i < samples.len() ==> percentile_of(samples, 0) <= samples[i] <= percentile_of(
            samples,
            100,
        ),
{
    if 0 <= i < samples.len() {
        ascending_order_is_one(samples);
        let mine = ascending_order(samples);
        samples.to_multiset_ensures();
        mine.to_multiset_ensures();
        assert(samples.contains(samples[i]));
        assert(mine.to_multiset().count(samples[i]) > 0);
        assert(mine.contains(samples[i]));
        let j = choose|j: int| 0 <= j < mine.len() && mine[j] == samples[i];
        assert(mine[0] <= mine[j] <= mine[mine.len() - 1]);
    }
}

// --- who is measured ---

/// No two kinds of dispatch share their books, and each has the name it is shown under.
pub proof fn kinds_keep_their_own_books(a: DispatchKind, b: DispatchKind)
    ensures
        kind_rank(a) == kind_rank(b) ==> a == b,
        0 <= kind_rank(a) < 7,
        kind_name(DispatchKind::LoadScript) == "LoadScript"@,
        kind_name(DispatchKind::Event) == "Event"@,
        kind_name(DispatchKind::NetEvent) == "NetEvent"@,
        kind_name(DispatchKind::PlayerConnecting) == "PlayerConnecting"@,
        kind_name(DispatchKind::ZoneTransferState) == "ZoneTransferState"@,
        kind_name(DispatchKind::NativeRoundtrip) == "NativeRoundtrip"@,
        kind_name(DispatchKind::Command) == "Command"@,
{
}

proof fn lemma_traced(m: ObsModel, event: TraceModel, monotonic_us: u64)
    ensures
        traced(m, event, monotonic_us).resources == m.resources,
        traced(m, event, monotonic_us).labels == m.labels,
        traced(m, event, monotonic_us).resmon == m.resmon,
        traced(m, event, monotonic_us).started_us == m.started_us,
{
}

/// A dispatch is put into the books of its resource: the whole time it took, once for the
/// resource and once for its kind and name, and there for no other. A dispatch that the
/// watchdog ended is counted, and the latest memory is remembered. Other resources are left
/// alone, and so are the books of native calls.
pub proof fn a_dispatch_is_booked(
    m: ObsModel,
    d: DispatchMeasurement,
    at: Moment,
    other: Seq<char>,
    kind: DispatchKind,
    name: Seq<char>,
)
    requires
        m.resources.contains_key(d.resource@),
        m.resources[d.resource@].handlers.len() == 7,
    ensures
        ({
            let was = m.resources[d.resource@];
            let after = after_dispatch(m, d, at);
            let now = after.resources[d.resource@];
            &&& after.resources.dom() =~= m.resources.dom()
            &&& other != d.resource@ ==> after.resources[other] == m.resources[other]
            &&& now.dispatch == recorded(was.dispatch, d.total_us, d.errored)
            &&& now.native == was.native && now.native_timeouts == was.native_timeouts
            &&& kind != d.kind ==> now.handlers[kind_rank(kind)] == was.handlers[kind_rank(kind)]
            &&& kind == d.kind && name != d.name@ ==> now.handlers[kind_rank(kind)][name]
                == was.handlers[kind_rank(kind)][name]
            &&& was.handlers[kind_rank(d.kind)].contains_key(d.name@)
                ==> now.handlers[kind_rank(d.kind)][d.name@] == recorded(
                was.handlers[kind_rank(d.kind)][d.name@],
                d.total_us,
                d.errored,
            )
            &&& !was.handlers[kind_rank(d.kind)].contains_key(d.name@) ==> {
                let fresh = now.handlers[kind_rank(d.kind)][d.name@];
                &&& now.handlers[kind_rank(d.kind)].contains_key(d.name@)
                &&& fresh.count == 1
                &&& fresh.total_us == d.total_us && fresh.last_us == d.total_us && fresh.max_us
                    == d.total_us
                &&& fresh.errors == if d.errored {
                    1u64
                } else {
                    0u64
                }
                &&& fresh.samples == seq![d.total_us]
            }
            &&& !d.watchdog_fired ==> now.watchdog_terminations == was.watchdog_terminations
            &&& d.watchdog_fired && was.watchdog_terminations < u64::MAX
                ==> now.watchdog_terminations == was.watchdog_terminations + 1
            &&& d.memory is Some ==> now.memory == d.memory
            &&& d.memory is None ==> now.memory == was.memory
        }),
{
    kinds_keep_their_own_books(kind, d.kind);
    let m1 = ObsModel {
        labels: labels_after(m.labels, d.name@),
        resources: m.resources.insert(
            d.resource@,
            crate::observability::dispatched(stats_of(m, d.resource@), d),
        ),
        ..m
    };
    lemma_traced(m1, dispatch_trace(d, at), at.monotonic_us);
    assert(Seq::<u64>::empty().push(d.total_us) =~= seq![d.total_us]);
}

/// A native call to a client is put into the books of its resource, as a failure if it
/// failed or timed out, and under its hash; a timeout is counted as one too. The books of
/// dispatches stay.
pub proof fn a_roundtrip_is_booked(
    m: ObsModel,
    r: RoundtripModel,
    at: Moment,
    other: Seq<char>,
    kind: DispatchKind,
)
    requires
        m.resources.contains_key(r.resource),
        m.resources[r.resource].handlers.len() == 7,
    ensures
        ({
            let was = m.resources[r.resource];
            let after = after_roundtrip(m, r, at);
            let now = after.resources[r.resource];
            let failed = r.errored || r.timed_out;
            &&& other != r.resource ==> after.resources[other] == m.resources[other]
            &&& after.labels == m.labels
            &&& now.native == recorded(was.native, r.duration_us, failed)
            &&& now.dispatch == was.dispatch && now.watchdog_terminations
                == was.watchdog_terminations && now.memory == was.memory
            &&& !r.timed_out ==> now.native_timeouts == was.native_timeouts
            &&& r.timed_out && was.native_timeouts < u64::MAX ==> now.native_timeouts
                == was.native_timeouts + 1
            &&& !(kind is NativeRoundtrip) ==> now.handlers[kind_rank(kind)]
                == was.handlers[kind_rank(kind)]
            &&& now.handlers[kind_rank(DispatchKind::NativeRoundtrip)].contains_key(
                crate::observability::hash_label(r.hash),
            )
        }),
{
    kinds_keep_their_own_books(kind, DispatchKind::NativeRoundtrip);
    let m1 = ObsModel {
        resources: m.resources.insert(
            r.resource,
            crate::observability::roundtripped(stats_of(m, r.resource), r),
        ),
        ..m
    };
    lemma_traced(m1, roundtrip_trace(r, at), at.monotonic_us);
}

/// The first dispatch of a resource opens its books.
pub proof fn the_first_dispatch_opens_the_books(m: ObsModel, d: DispatchMeasurement, at: Moment)
    requires
        !m.resources.contains_key(d.resource@),
    ensures
        ({
            let now = after_dispatch(m, d, at).resources[d.resource@];
            &&& after_dispatch(m, d, at).resources.contains_key(d.resource@)
            &&& now.dispatch.count == 1 && now.dispatch.total_us == d.total_us
            &&& now.dispatch.samples == seq![d.total_us]
            &&& now.native.count == 0 && now.native_timeouts == 0
            &&& now.handlers.len() == 7
            &&& now.memory == d.memory
        }),
{
    let m1 = ObsModel {
        labels: labels_after(m.labels, d.name@),
        resources: m.resources.insert(
            d.resource@,
            crate::observability::dispatched(stats_of(m, d.resource@), d),
        ),
        ..m
    };
    lemma_traced(m1, dispatch_trace(d, at), at.monotonic_us);
    assert(Seq::<u64>::empty().push(d.total_us) =~= seq![d.total_us]);
}

/// What is shown of a resource is what its books say: the middle, the 95th and the 99th
/// percentile of its dispatches, and the 95th of its native calls.
pub proof fn what_is_shown_is_what_was_booked(
    perf: ResourcePerfStats,
    resource: Seq<char>,
    stats: StatsModel,
)
    requires
        perf_of(perf, resource, stats),
    ensures
        perf.resource@ == resource,
        perf.dispatch_count == stats.dispatch.count,
        perf.dispatch_cpu_total_us == stats.dispatch.total_us,
        perf.dispatch_cpu_p50_us == percentile_of(stats.dispatch.samples, 50),
        perf.dispatch_cpu_p95_us == percentile_of(stats.dispatch.samples, 95),
        perf.dispatch_cpu_p99_us == percentile_of(stats.dispatch.samples, 99),
        perf.last_dispatch_us == stats.dispatch.last_us,
        perf.max_dispatch_us == stats.dispatch.max_us,
        perf.watchdog_terminations == stats.watchdog_terminations,
        perf.native_calls == stats.native.count,
        perf.native_timeout_count == stats.native_timeouts,
        perf.native_p95_us == percentile_of(stats.native.samples, 95),
        stats.memory is Some ==> perf.memory_used_bytes == Some(stats.memory->0.used_bytes)
            && perf.memory_total_bytes == Some(stats.memory->0.total_bytes)
            && perf.memory_external_bytes == Some(stats.memory->0.external_bytes),
        stats.memory is None ==> perf.memory_used_bytes is None,
{
}

// --- labels ---

/// Events are told apart by their names, up to 128 of them and as long as a name has no more
/// than eighty bytes; all others share one label. A label once given stays.
pub proof fn labels_are_limited(labels: Seq<Seq<char>>, event: Seq<char>, known: Seq<char>)
    ensures
        ({
            let long = vstd::utf8::encode_utf8(event).len() > 80;
            let after = labels_after(labels, event);
            &&& long ==> label_for(labels, event) == "__other"@ && after == labels
            &&& !long && labels.contains(event) ==> label_for(labels, event) == event && after
                == labels
            &&& !long && !labels.contains(event) && labels.len() >= 128 ==> label_for(labels, event)
                == "__other"@ && after == labels
            &&& !long && !labels.contains(event) && labels.len() < 128 ==> label_for(labels, event)
                == event && after == labels.push(event)
            &&& labels.contains(known) ==> after.contains(known)
        }),
{
    if labels.contains(known) {
        let i = choose|i: int| 0 <= i < labels.len() && labels[i] == known;
        assert(labels.push(event)[i] == known);
    }
}

// --- recordings ---

/// Without a recording nothing is recorded.
pub proof fn nothing_is_recorded_unasked(m: ObsModel, event: TraceModel, now_us: u64)
    requires
        m.active is None,
    ensures
        traced(m, event, now_us) == m,
{
}

/// A recording is over when its seconds have passed, and then holds what it held; one
/// without a time goes on.
pub proof fn a_recording_ends_in_time(m: ObsModel, event: TraceModel, now_us: u64)
    requires
        m.active is Some,
    ensures
        over(m.active->0, now_us) <==> (m.active->0.seconds is Some && now_us
            >= m.active->0.started_us + m.active->0.seconds->0 * 1_000_000),
        over(m.active->0, now_us) ==> traced(m, event, now_us).active is None && traced(
            m,
            event,
            now_us,
        ).latest == m.active->0.events && expired(m, now_us) == traced(m, event, now_us),
        !over(m.active->0, now_us) ==> expired(m, now_us) == m,
{
}

/// While a recording runs every event is added at its end, except that native calls are left
/// out unless they were asked for; and the event that fills it ends it.
pub proof fn a_recording_takes_events_until_full(m: ObsModel, event: TraceModel, now_us: u64)
    requires
        m.active is Some,
        !over(m.active->0, now_us),
        m.active->0.events.len() < m.active->0.limit_events,
    ensures
        ({
            let was = m.active->0;
            let after = traced(m, event, now_us);
            let wanted = !event.native || was.include_native_calls;
            &&& !wanted ==> after == m
            &&& wanted && was.events.len() + 1 < was.limit_events ==> after.active == Some(
                RecordingModel { events: was.events.push(event), ..was },
            ) && after.latest == m.latest
            &&& wanted && was.events.len() + 1 == was.limit_events ==> after.active is None
                && after.latest == was.events.push(event)
            &&& after.resources == m.resources && after.labels == m.labels
        }),
{
}

/// What is recorded of a dispatch and of a native call is when it was, on which thread, how
/// long it took, and its name: that of the handler, or the hash of the native.
pub proof fn a_recorded_event_says_what_ran(
    d: DispatchMeasurement,
    r: RoundtripModel,
    at: Moment,
)
    ensures
        !dispatch_trace(d, at).native,
        dispatch_trace(d, at).name == d.name@,
        dispatch_trace(d, at).ts == at.wall_us,
        dispatch_trace(d, at).dur == d.total_us,
        dispatch_trace(d, at).tid == at.thread,
        roundtrip_trace(r, at).native,
        roundtrip_trace(r, at).name == crate::observability::hash_label(r.hash),
        roundtrip_trace(r, at).ts == at.wall_us,
        roundtrip_trace(r, at).dur == r.duration_us,
        roundtrip_trace(r, at).tid == at.thread,
{
}

/// A recording holds as many events as it was asked for, but at least one and at most 4096,
/// and 4096 where nothing was asked.
pub proof fn recordings_are_limited(frames: usize)
    ensures
        limit_of(None) == 4096,
        1 <= frames <= 4096 ==> limit_of(Some(frames)) == frames,
        frames == 0 ==> limit_of(Some(frames)) == 1,
        frames > 4096 ==> limit_of(Some(frames)) == 4096,
{
}

/// A recording stops as many seconds after its start as it was given.
pub proof fn a_recording_says_when_it_stops(recording: RecordingModel)
    requires
        recording.seconds is Some ==> recording.started_ms + recording.seconds->0 * 1000
            <= u64::MAX,
    ensures
        recording.seconds is None ==> stops_at(recording) is None,
        recording.seconds is Some ==> stops_at(recording) is Some && stops_at(recording)->0
            == recording.started_ms + recording.seconds->0 * 1000,
{
}

proof fn lemma_event_slot(s: Seq<TraceModel>, ts: u64, i: int)
    requires
        0 <= i <= s.len(),
        forall|a: int, b: int| 0 <= a < b < s.len() ==> (#[trigger] s[a]).ts <= (#[trigger] s[b]).ts,
        forall|a: int| 0 <= a < i ==> (#[trigger] s[a]).ts <= ts,
    ensures
        i <= event_slot(s, ts, i) <= s.len(),
        forall|a: int| 0 <= a < event_slot(s, ts, i) ==> (#[trigger] s[a]).ts <= ts,
        forall|a: int| event_slot(s, ts, i) <= a < s.len() ==> (#[trigger] s[a]).ts > ts,
    decreases s.len() - i,
{
    if i < s.len() && s[i].ts <= ts {
        lemma_event_slot(s, ts, i + 1);
    }
}

/// A recording is handed out in the order of time: the same events, none later than the one
/// that follows it.
pub proof fn a_recording_is_in_time_order(s: Seq<TraceModel>)
    ensures
        in_time_order(s).len() == s.len(),
        in_time_order(s).to_multiset() =~= s.to_multiset(),
        forall|a: int, b: int|
            0 <= a < b < s.len() ==> (#[trigger] in_time_order(s)[a]).ts <= (
            #[trigger] in_time_order(s)[b]).ts,
    decreases s.len(),
{
    if s.len() > 0 {
        let head = s.drop_last();
        a_recording_is_in_time_order(head);
        let before = in_time_order(head);
        lemma_event_slot(before, s.last().ts, 0);
        let at = event_slot(before, s.last().ts, 0);
        before.insert_ensures(at, s.last());
        vstd::seq_lib::to_multiset_insert(before, at, s.last());
        assert(head.push(s.last()) =~= s);
        head.to_multiset_ensures();
        let after = in_time_order(s);
        assert forall|a: int, b: int| 0 <= a < b < s.len() implies (#[trigger] after[a]).ts <= (
        #[trigger] after[b]).ts by {
            assert(after[a] == if a < at {
                before[a]
            } else if a == at {
                s.last()
            } else {
                before[a - 1]
            });
            assert(after[b] == if b < at {
                before[b]
            } else if b == at {
                s.last()
            } else {
                before[b - 1]
            });
        }
    } else {
        assert(in_time_order(s) =~= s);
    }
}

} // verus!
