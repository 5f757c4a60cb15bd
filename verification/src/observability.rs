//! Runtime performance collection for ResMon and bounded Chrome Trace export.
//!
//! Time is handed in with each measurement.
use crate::json::{
    array_of, json_quoted, json_text, models, quote, Json, JsonModel,
};
use crate::named::{lemma_names_in_order, lists_names, names_in_order, names_of, TextMap};
use crate::routing::bumped;
use crate::state_bag::optional;
use crate::slots::NamedSlots;
use crate::text::{decimal, print_decimal, same};
use vstd::prelude::*;
use vstd::string::StringExecFns;

verus! {

/// How many samples a percentile is taken from.
pub const DEFAULT_SAMPLE_CAP: usize = 512;

/// How many trace events a recording holds at most.
pub const DEFAULT_TRACE_CAP: usize = 4096;

/// How many event names become labels of their own.
pub const MAX_PROM_EVENT_LABELS: usize = 128;

#[derive(Debug, Clone, Copy, PartialEq, Eq, Hash, Structural)]
pub enum DispatchKind {
    LoadScript,
    Event,
    NetEvent,
    PlayerConnecting,
    ZoneTransferState,
    NativeRoundtrip,
    Command,
}

/// The name of a kind.
pub open spec fn kind_name(kind: DispatchKind) -> Seq<char> {
    match kind {
        DispatchKind::LoadScript => "LoadScript"@,
        DispatchKind::Event => "Event"@,
        DispatchKind::NetEvent => "NetEvent"@,
        DispatchKind::PlayerConnecting => "PlayerConnecting"@,
        DispatchKind::ZoneTransferState => "ZoneTransferState"@,
        DispatchKind::NativeRoundtrip => "NativeRoundtrip"@,
        DispatchKind::Command => "Command"@,
    }
}

/// The place of a kind among the kinds in the order of their names.
pub open spec fn kind_rank(kind: DispatchKind) -> int {
    match kind {
        DispatchKind::Command => 0,
        DispatchKind::Event => 1,
        DispatchKind::LoadScript => 2,
        DispatchKind::NativeRoundtrip => 3,
        DispatchKind::NetEvent => 4,
        DispatchKind::PlayerConnecting => 5,
        DispatchKind::ZoneTransferState => 6,
    }
}

/// The kind at a place.
pub open spec fn kind_at(rank: int) -> DispatchKind {
    if rank <= 0 {
        DispatchKind::Command
    } else if rank == 1 {
        DispatchKind::Event
    } else if rank == 2 {
        DispatchKind::LoadScript
    } else if rank == 3 {
        DispatchKind::NativeRoundtrip
    } else if rank == 4 {
        DispatchKind::NetEvent
    } else if rank == 5 {
        DispatchKind::PlayerConnecting
    } else {
        DispatchKind::ZoneTransferState
    }
}

/// Kinds are ranked in the order of their names.
pub proof fn kinds_are_ranked_by_name(rank: int)
    requires
        0 <= rank < 6,
    ensures
        kind_rank(kind_at(rank)) == rank,
        crate::named::precedes(kind_name(kind_at(rank)), kind_name(kind_at(rank + 1))),
{
    reveal_strlit("LoadScript");
    reveal_strlit("Event");
    reveal_strlit("NetEvent");
    reveal_strlit("PlayerConnecting");
    reveal_strlit("ZoneTransferState");
    reveal_strlit("NativeRoundtrip");
    reveal_strlit("Command");
    reveal_with_fuel(crate::named::precedes, 3);
}

impl DispatchKind {
    pub fn as_str(self) -> (name: &'static str)
        ensures
            name@ == kind_name(self),
    {
        match self {
            DispatchKind::LoadScript => "LoadScript",
            DispatchKind::Event => "Event",
            DispatchKind::NetEvent => "NetEvent",
            DispatchKind::PlayerConnecting => "PlayerConnecting",
            DispatchKind::ZoneTransferState => "ZoneTransferState",
            DispatchKind::NativeRoundtrip => "NativeRoundtrip",
            DispatchKind::Command => "Command",
        }
    }

    fn rank(self) -> (rank: usize)
        ensures
            rank == kind_rank(self),
            rank < 7,
    {
        match self {
            DispatchKind::Command => 0,
            DispatchKind::Event => 1,
            DispatchKind::LoadScript => 2,
            DispatchKind::NativeRoundtrip => 3,
            DispatchKind::NetEvent => 4,
            DispatchKind::PlayerConnecting => 5,
            DispatchKind::ZoneTransferState => 6,
        }
    }

    fn at(rank: usize) -> (kind: Self)
        ensures
            kind == kind_at(rank as int),
    {
        match rank {
            0 => DispatchKind::Command,
            1 => DispatchKind::Event,
            2 => DispatchKind::LoadScript,
            3 => DispatchKind::NativeRoundtrip,
            4 => DispatchKind::NetEvent,
            5 => DispatchKind::PlayerConnecting,
            _ => DispatchKind::ZoneTransferState,
        }
    }
}

/// When something happened, and where.
#[derive(Debug, Clone, Copy)]
pub struct Moment {
    /// Microseconds on a clock that never goes back.
    pub monotonic_us: u64,
    /// Microseconds since the epoch.
    pub wall_us: u64,
    /// The thread.
    pub thread: u64,
}

/// How much memory a runtime uses.
#[derive(Clone, Copy, Debug, PartialEq, Eq)]
pub struct V8MemoryStats {
    pub used_bytes: u64,
    pub total_bytes: u64,
    pub external_bytes: u64,
}

/// One dispatch into a runtime.
#[derive(Clone, Debug)]
pub struct DispatchMeasurement {
    pub resource: String,
    pub kind: DispatchKind,
    pub name: String,
    pub execute_us: u64,
    pub event_loop_us: u64,
    pub total_us: u64,
    pub errored: bool,
    pub watchdog_fired: bool,
    pub memory: Option<V8MemoryStats>,
    pub source: Option<u32>,
    pub zone: Option<String>,
}

// --- percentiles ---

/// Where `x` goes among ascending numbers: behind everything that is not larger.
pub open spec fn slot(s: Seq<u64>, x: u64, i: int) -> int
    decreases s.len() - i,
{
    if 0 <= i < s.len() && s[i] <= x {
        slot(s, x, i + 1)
    } else {
        i
    }
}

/// The numbers in ascending order.
pub open spec fn ascending_order(s: Seq<u64>) -> Seq<u64>
    decreases s.len(),
{
    if s.len() == 0 {
        Seq::empty()
    } else {
        let before = ascending_order(s.drop_last());
        before.insert(slot(before, s.last(), 0), s.last())
    }
}

/// The position in `n` ordered samples that a percentage stands for, rounded up.
pub open spec fn rank_of(n: int, percent: int) -> int {
    (percent * (n - 1) + 99) / 100
}

/// A percentile of samples; zero where there is none.
pub open spec fn percentile_of(samples: Seq<u64>, percent: int) -> u64 {
    if samples.len() == 0 {
        0
    } else {
        ascending_order(samples)[rank_of(samples.len() as int, percent)]
    }
}

proof fn lemma_slot(s: Seq<u64>, x: u64, i: int)
    requires
        0 <= i <= s.len(),
        forall|a: int, b: int| 0 <= a < b < s.len() ==> s[a] <= s[b],
        forall|a: int| 0 <= a < i ==> s[a] <= x,
    ensures
        i <= slot(s, x, i) <= s.len(),
        forall|a: int| 0 <= a < slot(s, x, i) ==> s[a] <= x,
        forall|a: int| slot(s, x, i) <= a < s.len() ==> s[a] > x,
    decreases s.len() - i,
{
    if i < s.len() && s[i] <= x {
        lemma_slot(s, x, i + 1);
    }
}

/// Ordering keeps every sample and puts it in ascending order.
pub proof fn ascending_order_is_one(s: Seq<u64>)
    ensures
        ascending_order(s).len() == s.len(),
        ascending_order(s).to_multiset() =~= s.to_multiset(),
        forall|a: int, b: int|
            0 <= a < b < s.len() ==> ascending_order(s)[a] <= ascending_order(s)[b],
    decreases s.len(),
{
    if s.len() > 0 {
        ascending_order_is_one(s.drop_last());
        let before = ascending_order(s.drop_last());
        lemma_slot(before, s.last(), 0);
        let at = slot(before, s.last(), 0);
        broadcast use vstd::seq_lib::group_to_multiset_ensures;

        let t = before.insert(at, s.last());
        assert(t[at] == s.last());
        assert(t.contains(s.last()));
        assert(t.remove(at) =~= before);
        vstd::seq_lib::to_multiset_remove(t, at);
        t.to_multiset_ensures();
        assert(t.to_multiset() =~= before.to_multiset().insert(s.last()));
        assert(s =~= s.drop_last().push(s.last()));
        assert(s.to_multiset() =~= s.drop_last().to_multiset().insert(s.last()));
    } else {
        assert(s =~= Seq::empty());
    }
}

fn percentile(samples: &Vec<u64>, percent: usize) -> (value: u64)
    requires
        percent <= 100,
        samples@.len() <= DEFAULT_SAMPLE_CAP,
    ensures
        value == percentile_of(samples@, percent as int),
{
    if samples.len() == 0 {
        return 0;
    }
    let mut sorted: Vec<u64> = Vec::new();
    let mut i: usize = 0;
    assert(samples@.take(0) =~= Seq::empty());
    while i < samples.len()
        invariant
            i <= samples@.len(),
            sorted@ == ascending_order(samples@.take(i as int)),
        decreases samples@.len() - i,
    {
        let x: u64 = samples[i];
        let mut at: usize = 0;
        proof {
            ascending_order_is_one(samples@.take(i as int));
            lemma_slot(sorted@, x, 0);
            assert(samples@.take(i + 1).drop_last() =~= samples@.take(i as int));
        }
        while at < sorted.len() && sorted[at] <= x
            invariant
                at <= sorted@.len(),
                slot(sorted@, x, 0) == slot(sorted@, x, at as int),
            decreases sorted@.len() - at,
        {
            at = at + 1;
        }
        sorted.insert(at, x);
        i = i + 1;
    }
    assert(samples@.take(i as int) =~= samples@);
    proof {
        ascending_order_is_one(samples@);
    }
    let n: usize = samples.len();
    assert(0 <= percent * (n - 1) <= 100 * (n - 1)) by (nonlinear_arith)
        requires
            percent <= 100,
            n >= 1,
    ;
    let rank: usize = (percent * (n - 1) + 99) / 100;
    sorted[rank]
}

/// What was measured of one thing.
#[verifier::ext_equal]
pub struct BucketModel {
    pub count: u64,
    pub total_us: u64,
    pub last_us: u64,
    pub max_us: u64,
    pub errors: u64,
    /// The latest durations, oldest first.
    pub samples: Seq<u64>,
}

#[derive(Debug)]
struct StatBucket {
    count: u64,
    total_us: u64,
    last_us: u64,
    max_us: u64,
    errors: u64,
    samples: Vec<u64>,
}

pub open spec fn empty_bucket() -> BucketModel {
    BucketModel {
        count: 0,
        total_us: 0,
        last_us: 0,
        max_us: 0,
        errors: 0,
        samples: Seq::empty(),
    }
}

/// A bucket after one more measurement: the total stops at the largest number, and the
/// oldest sample makes room for the newest.
pub open spec fn recorded(b: BucketModel, duration_us: u64, errored: bool) -> BucketModel {
    BucketModel {
        count: bumped(b.count),
        total_us: if b.total_us + duration_us > u64::MAX {
            u64::MAX
        } else {
            (b.total_us + duration_us) as u64
        },
        last_us: duration_us,
        max_us: if b.max_us > duration_us {
            b.max_us
        } else {
            duration_us
        },
        errors: if errored {
            bumped(b.errors)
        } else {
            b.errors
        },
        samples: (if b.samples.len() == DEFAULT_SAMPLE_CAP {
            b.samples.skip(1)
        } else {
            b.samples
        }).push(duration_us),
    }
}

fn bump(n: u64) -> (m: u64)
    ensures
        m == bumped(n),
{
    if n == u64::MAX {
        0
    } else {
        n + 1
    }
}

impl StatBucket {
    spec fn model(&self) -> BucketModel {
        BucketModel {
            count: self.count,
            total_us: self.total_us,
            last_us: self.last_us,
            max_us: self.max_us,
            errors: self.errors,
            samples: self.samples@,
        }
    }

    spec fn wf(&self) -> bool {
        self.samples@.len() <= DEFAULT_SAMPLE_CAP
    }

    fn new() -> (bucket: Self)
        ensures
            bucket.wf(),
            bucket.model() == empty_bucket(),
    {
        let bucket = StatBucket {
            count: 0,
            total_us: 0,
            last_us: 0,
            max_us: 0,
            errors: 0,
            samples: Vec::new(),
        };
        assert(bucket.model().samples =~= Seq::empty());
        bucket
    }

    fn record(&mut self, duration_us: u64, errored: bool)
        requires
            old(self).wf(),
        ensures
            final(self).wf(),
            final(self).model() == recorded(old(self).model(), duration_us, errored),
    {
        self.count = bump(self.count);
        self.total_us = if duration_us > u64::MAX - self.total_us {
            u64::MAX
        } else {
            self.total_us + duration_us
        };
        self.last_us = duration_us;
        if self.max_us <= duration_us {
            self.max_us = duration_us;
        }
        if errored {
            self.errors = bump(self.errors);
        }
        if self.samples.len() == DEFAULT_SAMPLE_CAP {
            self.samples.remove(0);
            assert(self.samples@ =~= old(self).samples@.skip(1));
        }
        self.samples.push(duration_us);
    }
}

/// What was measured of a resource.
pub struct StatsModel {
    pub dispatch: BucketModel,
    /// Per kind, in the order of the kinds' names, and per handler name.
    pub handlers: Seq<Map<Seq<char>, BucketModel>>,
    pub native: BucketModel,
    pub native_timeouts: u64,
    pub watchdog_terminations: u64,
    pub memory: Option<V8MemoryStats>,
}

#[derive(Debug)]
struct ResourceStats {
    dispatch: StatBucket,
    handlers: Vec<TextMap<StatBucket>>,
    native: StatBucket,
    native_timeouts: u64,
    watchdog_terminations: u64,
    memory: Option<V8MemoryStats>,
}

spec fn bucket_models(map: Map<Seq<char>, StatBucket>) -> Map<Seq<char>, BucketModel> {
    map.map_values(|b: StatBucket| b.model())
}

spec fn handler_maps(list: Seq<TextMap<StatBucket>>) -> Seq<Map<Seq<char>, BucketModel>> {
    list.map_values(|m: TextMap<StatBucket>| bucket_models(m@))
}

pub open spec fn no_stats() -> StatsModel {
    StatsModel {
        dispatch: empty_bucket(),
        handlers: Seq::new(7, |i: int| Map::empty()),
        native: empty_bucket(),
        native_timeouts: 0,
        watchdog_terminations: 0,
        memory: None,
    }
}

/// The handler buckets after one more measurement of a handler.
pub open spec fn handler_recorded(
    handlers: Seq<Map<Seq<char>, BucketModel>>,
    kind: DispatchKind,
    name: Seq<char>,
    duration_us: u64,
    errored: bool,
) -> Seq<Map<Seq<char>, BucketModel>> {
    let map = handlers[kind_rank(kind)];
    let before = if map.contains_key(name) {
        map[name]
    } else {
        empty_bucket()
    };
    handlers.update(kind_rank(kind), map.insert(name, recorded(before, duration_us, errored)))
}

impl ResourceStats {
    spec fn model(&self) -> StatsModel {
        StatsModel {
            dispatch: self.dispatch.model(),
            handlers: handler_maps(self.handlers@),
            native: self.native.model(),
            native_timeouts: self.native_timeouts,
            watchdog_terminations: self.watchdog_terminations,
            memory: self.memory,
        }
    }

    spec fn wf(&self) -> bool {
        &&& self.dispatch.wf()
        &&& self.native.wf()
        &&& self.handlers@.len() == 7
        &&& forall|k: int|
            0 <= k < 7 ==> (#[trigger] self.handlers@[k]).wf() && buckets_wf(self.handlers@[k]@)
    }

    fn new() -> (stats: Self)
        ensures
            stats.wf(),
            stats.model() == no_stats(),
    {
        let mut handlers: Vec<TextMap<StatBucket>> = Vec::new();
        let mut i: usize = 0;
        while i < 7
            invariant
                i <= 7,
                handlers@.len() == i,
                forall|k: int|
                    0 <= k < i ==> (#[trigger] handlers@[k]).wf() && handlers@[k]@ == Map::<
                        Seq<char>,
                        StatBucket,
                    >::empty(),
            decreases 7 - i,
        {
            handlers.push(TextMap::new());
            i = i + 1;
        }
        proof {
            assert forall|k: int| 0 <= k < 7 implies #[trigger] handler_maps(handlers@)[k]
                == Map::<Seq<char>, BucketModel>::empty() by {
                assert(bucket_models(handlers@[k]@) =~= Map::<Seq<char>, BucketModel>::empty());
            }
            assert(handler_maps(handlers@) =~= no_stats().handlers);
        }
        ResourceStats {
            dispatch: StatBucket::new(),
            handlers,
            native: StatBucket::new(),
            native_timeouts: 0,
            watchdog_terminations: 0,
            memory: None,
        }
    }

    fn record_handler(&mut self, kind: DispatchKind, name: &str, duration_us: u64, errored: bool)
        requires
            old(self).wf(),
        ensures
            final(self).wf(),
            final(self).model() == (StatsModel {
                handlers: handler_recorded(
                    old(self).model().handlers,
                    kind,
                    name@,
                    duration_us,
                    errored,
                ),
                ..old(self).model()
            }),
    {
        let rank: usize = kind.rank();
        let ghost before = self.handlers@;
        let mut map = self.handlers.remove(rank);
        let ghost outer = map@;
        let mut bucket = match map.remove(name) {
            Some(bucket) => bucket,
            None => StatBucket::new(),
        };
        bucket.record(duration_us, errored);
        map.insert(name.to_owned(), bucket);
        proof {
            assert(bucket_models(map@) =~= bucket_models(outer).insert(name@, bucket.model()));
        }
        let ghost changed = bucket_models(map@);
        self.handlers.insert(rank, map);
        proof {
            assert(self.handlers@ =~= before.update(rank as int, map));
            assert(handler_maps(self.handlers@) =~= handler_maps(before).update(
                rank as int,
                changed,
            ));
        }
    }
}

spec fn buckets_wf(map: Map<Seq<char>, StatBucket>) -> bool {
    forall|name: Seq<char>| #[trigger] map.contains_key(name) ==> map[name].wf()
}

// --- traces ---

/// One entry of a trace.
#[derive(Debug, Clone)]
struct TraceEvent {
    name: String,
    native: bool,
    ts: u64,
    dur: u64,
    tid: u64,
    /// The details, as a JSON object.
    args: String,
}

/// What a trace entry says.
#[verifier::ext_equal]
pub struct TraceModel {
    pub name: Seq<char>,
    /// Whether it is of a native call rather than of a script.
    pub native: bool,
    pub ts: u64,
    pub dur: u64,
    pub tid: u64,
    pub args: Seq<char>,
}

impl TraceEvent {
    spec fn model(&self) -> TraceModel {
        TraceModel {
            name: self.name@,
            native: self.native,
            ts: self.ts,
            dur: self.dur,
            tid: self.tid,
            args: self.args@,
        }
    }
}

spec fn trace_models(list: Seq<TraceEvent>) -> Seq<TraceModel> {
    list.map_values(|e: TraceEvent| e.model())
}

#[derive(Debug)]
struct ActiveRecording {
    events: Vec<TraceEvent>,
    limit_events: usize,
    started_us: u64,
    started_ms: u64,
    seconds: Option<u64>,
    scope: String,
    include_native_calls: bool,
}

/// A recording in progress.
#[verifier::ext_equal]
pub struct RecordingModel {
    pub events: Seq<TraceModel>,
    pub limit_events: usize,
    pub started_us: u64,
    pub started_ms: u64,
    pub seconds: Option<u64>,
    pub scope: Seq<char>,
    pub include_native_calls: bool,
}

impl ActiveRecording {
    spec fn model(&self) -> RecordingModel {
        RecordingModel {
            events: trace_models(self.events@),
            limit_events: self.limit_events,
            started_us: self.started_us,
            started_ms: self.started_ms,
            seconds: self.seconds,
            scope: self.scope@,
            include_native_calls: self.include_native_calls,
        }
    }
}

/// The collector's content.
pub struct ObsModel {
    pub started_us: u64,
    pub resources: Map<Seq<char>, StatsModel>,
    pub active: Option<RecordingModel>,
    /// The latest finished recording.
    pub latest: Seq<TraceModel>,
    /// The event names that are labels of their own.
    pub labels: Seq<Seq<char>>,
    pub resmon: bool,
}

/// Whether a recording's time is over.
pub open spec fn over(recording: RecordingModel, monotonic_us: u64) -> bool {
    match recording.seconds {
        Some(seconds) => monotonic_us - recording.started_us >= seconds * 1_000_000,
        None => false,
    }
}

/// The collector after its recording ended.
pub open spec fn finished(m: ObsModel) -> ObsModel {
    match m.active {
        Some(recording) => ObsModel { active: None, latest: recording.events, ..m },
        None => m,
    }
}

/// The collector after a recording whose time is over was ended.
pub open spec fn expired(m: ObsModel, monotonic_us: u64) -> ObsModel {
    match m.active {
        Some(recording) => if over(recording, monotonic_us) {
            finished(m)
        } else {
            m
        },
        None => m,
    }
}

/// The collector after an event came in. A recording takes native calls only where it
/// was asked to, and ends when it is full.
pub open spec fn traced(m: ObsModel, event: TraceModel, monotonic_us: u64) -> ObsModel {
    let m1 = expired(m, monotonic_us);
    match m1.active {
        None => m1,
        Some(recording) => if event.native && !recording.include_native_calls {
            m1
        } else {
            let room = if recording.events.len() == recording.limit_events {
                recording.events.skip(1)
            } else {
                recording.events
            };
            let events = room.push(event);
            let m2 = ObsModel { active: Some(RecordingModel { events, ..recording }), ..m1 };
            if events.len() >= recording.limit_events {
                finished(m2)
            } else {
                m2
            }
        },
    }
}

/// The label of an event name: long names, and names beyond the number of labels, share
/// one.
pub open spec fn label_for(labels: Seq<Seq<char>>, event: Seq<char>) -> Seq<char> {
    if vstd::utf8::encode_utf8(event).len() > 80 {
        "__other"@
    } else if labels.contains(event) {
        event
    } else if labels.len() >= MAX_PROM_EVENT_LABELS {
        "__other"@
    } else {
        event
    }
}

/// The labels after an event name was looked up.
pub open spec fn labels_after(labels: Seq<Seq<char>>, event: Seq<char>) -> Seq<Seq<char>> {
    if vstd::utf8::encode_utf8(event).len() > 80 || labels.contains(event) || labels.len()
        >= MAX_PROM_EVENT_LABELS {
        labels
    } else {
        labels.push(event)
    }
}

/// What was measured of a resource so far.
pub open spec fn stats_of(m: ObsModel, resource: Seq<char>) -> StatsModel {
    if m.resources.contains_key(resource) {
        m.resources[resource]
    } else {
        no_stats()
    }
}

/// A resource's measurements after a dispatch.
pub open spec fn dispatched(stats: StatsModel, d: DispatchMeasurement) -> StatsModel {
    StatsModel {
        dispatch: recorded(stats.dispatch, d.total_us, d.errored),
        handlers: handler_recorded(stats.handlers, d.kind, d.name@, d.total_us, d.errored),
        watchdog_terminations: if d.watchdog_fired {
            bumped(stats.watchdog_terminations)
        } else {
            stats.watchdog_terminations
        },
        memory: match d.memory {
            Some(memory) => Some(memory),
            None => stats.memory,
        },
        ..stats
    }
}

pub open spec fn status_name(errored: bool) -> Seq<char> {
    if errored {
        "error"@
    } else {
        "ok"@
    }
}

/// An optional number as JSON.
pub open spec fn optional_number(n: Option<u32>) -> JsonModel {
    match n {
        Some(n) => JsonModel::Unsigned(n as u64),
        None => JsonModel::Null,
    }
}

pub open spec fn optional_text(s: Option<Seq<char>>) -> JsonModel {
    match s {
        Some(s) => JsonModel::Text(s),
        None => JsonModel::Null,
    }
}

/// The details of a dispatch.
pub open spec fn dispatch_args(d: DispatchMeasurement) -> Seq<char> {
    "{\"event_loop_us\":"@ + decimal(d.event_loop_us as nat) + ",\"execute_us\":"@ + decimal(
        d.execute_us as nat,
    ) + ",\"kind\":"@ + json_quoted(kind_name(d.kind)) + ",\"resource\":"@ + json_quoted(
        d.resource@,
    ) + ",\"source\":"@ + json_text(optional_number(d.source)) + ",\"status\":"@ + json_quoted(
        status_name(d.errored),
    ) + ",\"zone\":"@ + json_text(optional_text(optional(d.zone))) + "}"@
}

/// The trace entry of a dispatch.
pub open spec fn dispatch_trace(d: DispatchMeasurement, at: Moment) -> TraceModel {
    TraceModel {
        name: d.name@,
        native: false,
        ts: at.wall_us,
        dur: d.total_us,
        tid: at.thread,
        args: dispatch_args(d),
    }
}

/// The collector after a dispatch.
pub open spec fn after_dispatch(m: ObsModel, d: DispatchMeasurement, at: Moment) -> ObsModel {
    traced(
        ObsModel {
            labels: labels_after(m.labels, d.name@),
            resources: m.resources.insert(d.resource@, dispatched(stats_of(m, d.resource@), d)),
            ..m
        },
        dispatch_trace(d, at),
        at.monotonic_us,
    )
}

/// One native call to a client and back.
pub struct NativeRoundtrip {
    pub resource: String,
    /// The native's hash.
    pub hash: u64,
    pub source: u32,
    pub duration_us: u64,
    pub timed_out: bool,
    pub errored: bool,
}

/// What a [`NativeRoundtrip`] says.
#[verifier::ext_equal]
pub struct RoundtripModel {
    pub resource: Seq<char>,
    pub hash: u64,
    pub source: u32,
    pub duration_us: u64,
    pub timed_out: bool,
    pub errored: bool,
}

impl View for NativeRoundtrip {
    type V = RoundtripModel;

    open spec fn view(&self) -> RoundtripModel {
        RoundtripModel {
            resource: self.resource@,
            hash: self.hash,
            source: self.source,
            duration_us: self.duration_us,
            timed_out: self.timed_out,
            errored: self.errored,
        }
    }
}

pub open spec fn roundtrip_status(r: RoundtripModel) -> Seq<char> {
    if r.timed_out {
        "timeout"@
    } else if r.errored {
        "error"@
    } else {
        "ok"@
    }
}

/// A resource's measurements after a native call.
pub open spec fn roundtripped(stats: StatsModel, r: RoundtripModel) -> StatsModel {
    let failed = r.errored || r.timed_out;
    StatsModel {
        native: recorded(stats.native, r.duration_us, failed),
        native_timeouts: if r.timed_out {
            bumped(stats.native_timeouts)
        } else {
            stats.native_timeouts
        },
        handlers: handler_recorded(
            stats.handlers,
            DispatchKind::NativeRoundtrip,
            hash_label(r.hash),
            r.duration_us,
            failed,
        ),
        ..stats
    }
}

pub open spec fn roundtrip_args(r: RoundtripModel) -> Seq<char> {
    "{\"kind\":"@ + json_quoted(kind_name(DispatchKind::NativeRoundtrip)) + ",\"resource\":"@
        + json_quoted(r.resource) + ",\"source\":"@ + decimal(r.source as nat) + ",\"status\":"@
        + json_quoted(roundtrip_status(r)) + "}"@
}

pub open spec fn roundtrip_trace(r: RoundtripModel, at: Moment) -> TraceModel {
    TraceModel {
        name: hash_label(r.hash),
        native: true,
        ts: at.wall_us,
        dur: r.duration_us,
        tid: at.thread,
        args: roundtrip_args(r),
    }
}

/// The collector after a native call.
pub open spec fn after_roundtrip(m: ObsModel, r: RoundtripModel, at: Moment) -> ObsModel {
    traced(
        ObsModel {
            resources: m.resources.insert(
                r.resource,
                roundtripped(stats_of(m, r.resource), r),
            ),
            ..m
        },
        roundtrip_trace(r, at),
        at.monotonic_us,
    )
}

// --- hash labels ---

pub open spec fn hex_digit(d: int) -> char {
    if d < 10 {
        (48 + d) as char
    } else {
        (55 + d) as char
    }
}

/// The last `n` hexadecimal digits of a number, in upper case.
pub open spec fn hex_digits(value: nat, n: nat) -> Seq<char>
    decreases n,
{
    if n == 0 {
        Seq::empty()
    } else {
        hex_digits(value / 16, (n - 1) as nat).push(hex_digit((value % 16) as int))
    }
}

/// How a native's hash is shown: sixteen digits behind `0x`.
pub open spec fn hash_label(hash: u64) -> Seq<char> {
    "0x"@ + hex_digits(hash as nat, 16)
}

fn digits_text(value: u64, n: usize) -> (s: String)
    ensures
        s@ == hex_digits(value as nat, n as nat),
    decreases n,
{
    if n == 0 {
        let s = String::new();
        assert(s@ =~= Seq::empty());
        s
    } else {
        let mut s = digits_text(value / 16, n - 1);
        let d: u8 = (value % 16) as u8;
        let code: u8 = if d < 10 {
            48 + d
        } else {
            55 + d
        };
        s.push(code as char);
        s
    }
}

/// How a native's hash is shown.
pub fn print_hash(hash: u64) -> (label: String)
    ensures
        label@ == hash_label(hash),
{
    crate::text::joined("0x", digits_text(hash, 16).as_str())
}

// --- what ResMon shows ---

/// How a resource performs.
#[derive(Debug, Clone)]
pub struct ResourcePerfStats {
    pub resource: String,
    pub dispatch_count: u64,
    pub dispatch_cpu_total_us: u64,
    pub dispatch_cpu_p50_us: u64,
    pub dispatch_cpu_p95_us: u64,
    pub dispatch_cpu_p99_us: u64,
    pub last_dispatch_us: u64,
    pub max_dispatch_us: u64,
    pub watchdog_terminations: u64,
    pub native_calls: u64,
    pub native_timeout_count: u64,
    pub native_p95_us: u64,
    pub memory_used_bytes: Option<u64>,
    pub memory_total_bytes: Option<u64>,
    pub memory_external_bytes: Option<u64>,
}

/// Whether `perf` is what the measurements of a resource come to.
pub open spec fn perf_of(perf: ResourcePerfStats, resource: Seq<char>, stats: StatsModel) -> bool {
    &&& perf.resource@ == resource
    &&& perf.dispatch_count == stats.dispatch.count
    &&& perf.dispatch_cpu_total_us == stats.dispatch.total_us
    &&& perf.dispatch_cpu_p50_us == percentile_of(stats.dispatch.samples, 50)
    &&& perf.dispatch_cpu_p95_us == percentile_of(stats.dispatch.samples, 95)
    &&& perf.dispatch_cpu_p99_us == percentile_of(stats.dispatch.samples, 99)
    &&& perf.last_dispatch_us == stats.dispatch.last_us
    &&& perf.max_dispatch_us == stats.dispatch.max_us
    &&& perf.watchdog_terminations == stats.watchdog_terminations
    &&& perf.native_calls == stats.native.count
    &&& perf.native_timeout_count == stats.native_timeouts
    &&& perf.native_p95_us == percentile_of(stats.native.samples, 95)
    &&& match stats.memory {
        Some(memory) => perf.memory_used_bytes == Some(memory.used_bytes) && perf.memory_total_bytes
            == Some(memory.total_bytes) && perf.memory_external_bytes == Some(
            memory.external_bytes,
        ),
        None => perf.memory_used_bytes is None && perf.memory_total_bytes is None
            && perf.memory_external_bytes is None,
    }
}

/// How a handler performs.
#[derive(Debug, Clone)]
pub struct HandlerPerfStats {
    pub resource: String,
    pub kind: DispatchKind,
    pub name: String,
    pub count: u64,
    pub total_us: u64,
    pub p95_us: u64,
    pub p99_us: u64,
    pub errors: u64,
}

/// What a [`HandlerPerfStats`] says.
#[verifier::ext_equal]
pub struct HandlerPerfModel {
    pub resource: Seq<char>,
    pub kind: DispatchKind,
    pub name: Seq<char>,
    pub count: u64,
    pub total_us: u64,
    pub p95_us: u64,
    pub p99_us: u64,
    pub errors: u64,
}

impl View for HandlerPerfStats {
    type V = HandlerPerfModel;

    open spec fn view(&self) -> HandlerPerfModel {
        HandlerPerfModel {
            resource: self.resource@,
            kind: self.kind,
            name: self.name@,
            count: self.count,
            total_us: self.total_us,
            p95_us: self.p95_us,
            p99_us: self.p99_us,
            errors: self.errors,
        }
    }
}

pub open spec fn handler_views(list: Seq<HandlerPerfStats>) -> Seq<HandlerPerfModel> {
    list.map_values(|h: HandlerPerfStats| h@)
}

pub open spec fn handler_perf(
    resource: Seq<char>,
    kind: DispatchKind,
    name: Seq<char>,
    bucket: BucketModel,
) -> HandlerPerfModel {
    HandlerPerfModel {
        resource,
        kind,
        name,
        count: bucket.count,
        total_us: bucket.total_us,
        p95_us: percentile_of(bucket.samples, 95),
        p99_us: percentile_of(bucket.samples, 99),
        errors: bucket.errors,
    }
}

/// The handlers of one kind, in the order of their names.
pub open spec fn of_kind(
    resource: Seq<char>,
    kind: DispatchKind,
    map: Map<Seq<char>, BucketModel>,
) -> Seq<HandlerPerfModel> {
    names_in_order(map.dom()).map_values(
        |name: Seq<char>| handler_perf(resource, kind, name, map[name]),
    )
}

/// The handlers of the first `k` kinds.
pub open spec fn of_kinds(resource: Seq<char>, stats: StatsModel, k: int) -> Seq<HandlerPerfModel>
    decreases k,
{
    if k <= 0 {
        Seq::empty()
    } else {
        of_kinds(resource, stats, k - 1) + of_kind(
            resource,
            kind_at(k - 1),
            stats.handlers[k - 1],
        )
    }
}

/// The handlers of the first `n` resources.
pub open spec fn of_resources(m: Map<Seq<char>, StatsModel>, n: int) -> Seq<HandlerPerfModel>
    decreases n,
{
    if n <= 0 {
        Seq::empty()
    } else {
        let name = names_in_order(m.dom())[n - 1];
        of_resources(m, n - 1) + of_kinds(name, m[name], 7)
    }
}

#[derive(Debug, Clone)]
pub struct ResMonSnapshot {
    pub uptime_secs: u64,
    pub scope: String,
    pub resources: Vec<ResourcePerfStats>,
    pub handlers: Vec<HandlerPerfStats>,
}

/// Whether a snapshot shows the collector: resources in the order of their names, and
/// handlers in the order of resource, kind and name.
pub open spec fn shows(snapshot: ResMonSnapshot, m: ObsModel, monotonic_us: u64) -> bool {
    let names = names_in_order(m.resources.dom());
    &&& lists_names(names, m.resources.dom())
    &&& snapshot.uptime_secs == if monotonic_us >= m.started_us {
        (monotonic_us - m.started_us) / 1_000_000
    } else {
        0
    }
    &&& snapshot.scope@ == "gateway"@
    &&& snapshot.resources@.len() == names.len()
    &&& forall|i: int|
        0 <= i < names.len() ==> perf_of(
            #[trigger] snapshot.resources@[i],
            names[i],
            m.resources[names[i]],
        )
    &&& handler_views(snapshot.handlers@) == of_resources(
        m.resources,
        names.len() as int,
    )
}

#[derive(Debug, Clone)]
pub struct ProfilerStatus {
    pub active: bool,
    pub scope: String,
    pub recorded_events: usize,
    pub limit_events: usize,
    pub started_ms: Option<u64>,
    pub stops_at_ms: Option<u64>,
    pub latest_events: usize,
}

/// When a recording stops.
pub open spec fn stops_at(recording: RecordingModel) -> Option<u64> {
    match recording.seconds {
        Some(seconds) => Some(
            ((recording.started_ms + seconds * 1000) % 0x1_0000_0000_0000_0000) as u64,
        ),
        None => None,
    }
}

/// Whether a status is that of the collector.
pub open spec fn status_of(status: ProfilerStatus, m: ObsModel) -> bool {
    &&& status.latest_events == m.latest.len()
    &&& match m.active {
        Some(recording) => {
            &&& status.active
            &&& status.scope@ == recording.scope
            &&& status.recorded_events == recording.events.len()
            &&& status.limit_events == recording.limit_events
            &&& status.started_ms == Some(recording.started_ms)
            &&& status.stops_at_ms == stops_at(recording)
        },
        None => {
            &&& !status.active
            &&& status.scope@ == "gateway"@
            &&& status.recorded_events == 0
            &&& status.limit_events == DEFAULT_TRACE_CAP
            &&& status.started_ms is None
            &&& status.stops_at_ms is None
        },
    }
}

#[derive(Debug, Clone)]
pub struct ProfilerRecordOptions {
    pub frames: Option<usize>,
    pub seconds: Option<u64>,
    pub scope: String,
    pub include_native_calls: bool,
}

/// How many events a recording holds: what was asked for, between one and the maximum.
pub open spec fn limit_of(frames: Option<usize>) -> usize {
    match frames {
        Some(n) => if n < 1 {
            1
        } else if n > DEFAULT_TRACE_CAP {
            DEFAULT_TRACE_CAP
        } else {
            n
        },
        None => DEFAULT_TRACE_CAP,
    }
}

// --- the trace as JSON ---

/// Where an event goes among events in order of time: behind everything that is not
/// later.
pub open spec fn event_slot(s: Seq<TraceModel>, ts: u64, i: int) -> int
    decreases s.len() - i,
{
    if 0 <= i < s.len() && s[i].ts <= ts {
        event_slot(s, ts, i + 1)
    } else {
        i
    }
}

/// Events in the order of their times; those of the same time keep their order.
pub open spec fn in_time_order(s: Seq<TraceModel>) -> Seq<TraceModel>
    decreases s.len(),
{
    if s.len() == 0 {
        Seq::empty()
    } else {
        let before = in_time_order(s.drop_last());
        before.insert(event_slot(before, s.last().ts, 0), s.last())
    }
}

/// A trace entry as JSON.
pub open spec fn event_text(e: TraceModel) -> Seq<char> {
    "{\"args\":"@ + e.args + ",\"cat\":"@ + json_quoted(
        if e.native {
            "native"@
        } else {
            "script"@
        },
    ) + ",\"dur\":"@ + decimal(e.dur as nat) + ",\"name\":"@ + json_quoted(e.name)
        + ",\"ph\":\"X\",\"pid\":1,\"tid\":"@ + decimal(e.tid as nat) + ",\"ts\":"@ + decimal(
        e.ts as nat,
    ) + "}"@
}

/// A trace as JSON.
pub open spec fn trace_text(events: Seq<TraceModel>) -> Seq<char> {
    let list = in_time_order(events).map_values(|e: TraceModel| JsonModel::Nested(event_text(e)));
    "{\"traceEvents\":"@ + json_text(array_of(list)) + "}"@
}

impl TraceEvent {
    fn text(&self) -> (text: String)
        ensures
            text@ == event_text(self.model()),
    {
        let mut text = "{\"args\":".to_owned();
        text.append(self.args.as_str());
        text.append(",\"cat\":");
        let cat = if self.native {
            "native"
        } else {
            "script"
        };
        text.append(quote(cat).as_str());
        text.append(",\"dur\":");
        text.append(print_decimal(self.dur).as_str());
        text.append(",\"name\":");
        text.append(quote(self.name.as_str()).as_str());
        text.append(",\"ph\":\"X\",\"pid\":1,\"tid\":");
        text.append(print_decimal(self.tid).as_str());
        text.append(",\"ts\":");
        text.append(print_decimal(self.ts).as_str());
        text.append("}");
        text
    }

    fn copy(&self) -> (event: Self)
        ensures
            event.model() == self.model(),
    {
        TraceEvent {
            name: self.name.clone(),
            native: self.native,
            ts: self.ts,
            dur: self.dur,
            tid: self.tid,
            args: self.args.clone(),
        }
    }
}

proof fn lemma_event_slot(s: Seq<TraceModel>, ts: u64, i: int)
    requires
        0 <= i <= s.len(),
    ensures
        i <= event_slot(s, ts, i) <= s.len(),
    decreases s.len() - i,
{
    if i < s.len() && s[i].ts <= ts {
        lemma_event_slot(s, ts, i + 1);
    }
}

proof fn lemma_time_order_len(s: Seq<TraceModel>)
    ensures
        in_time_order(s).len() == s.len(),
    decreases s.len(),
{
    if s.len() > 0 {
        lemma_time_order_len(s.drop_last());
        lemma_event_slot(in_time_order(s.drop_last()), s.last().ts, 0);
    }
}

// --- the collector ---

/// The collector that every resource runtime reports to.
#[derive(Debug)]
pub struct Observability {
    started_us: u64,
    resources: NamedSlots<ResourceStats>,
    active: Option<ActiveRecording>,
    latest: Vec<TraceEvent>,
    labels: Vec<String>,
    resmon: bool,
}

/// A collector that has seen nothing yet.
pub open spec fn no_observations(monotonic_us: u64) -> ObsModel {
    ObsModel {
        started_us: monotonic_us,
        resources: Map::empty(),
        active: None,
        latest: Seq::empty(),
        labels: Seq::empty(),
        resmon: false,
    }
}

spec fn stats_models(map: Map<Seq<char>, ResourceStats>) -> Map<Seq<char>, StatsModel> {
    map.map_values(|s: ResourceStats| s.model())
}

impl View for Observability {
    type V = ObsModel;

    closed spec fn view(&self) -> ObsModel {
        ObsModel {
            started_us: self.started_us,
            resources: stats_models(self.resources@),
            active: match self.active {
                Some(recording) => Some(recording.model()),
                None => None,
            },
            latest: trace_models(self.latest@),
            labels: crate::engine::texts(self.labels@),
            resmon: self.resmon,
        }
    }
}

impl Observability {
    pub closed spec fn wf(&self) -> bool {
        &&& self.resources.wf()
        &&& forall|name: Seq<char>| #[trigger]
            self.resources@.contains_key(name) ==> self.resources@[name].wf()
        &&& self.labels@.len() <= MAX_PROM_EVENT_LABELS
        &&& self.active matches Some(recording) ==> recording.events@.len()
            <= recording.limit_events <= DEFAULT_TRACE_CAP && recording.limit_events >= 1
        &&& self.latest@.len() <= DEFAULT_TRACE_CAP
    }

    /// The labels stay bounded, and so does every recording.
    pub proof fn lemma_bounded(&self)
        requires
            self.wf(),
        ensures
            self@.labels.len() <= MAX_PROM_EVENT_LABELS,
            self@.active matches Some(recording) ==> recording.events.len()
                <= recording.limit_events <= DEFAULT_TRACE_CAP,
            self@.latest.len() <= DEFAULT_TRACE_CAP,
    {
    }

    /// There are finitely many resources, and finitely many handlers of each.
    pub proof fn lemma_finite(&self, name: Seq<char>, k: int)
        requires
            self.wf(),
        ensures
            self@.resources.dom().finite(),
            self@.resources.contains_key(name) && 0 <= k < 7
                ==> self@.resources[name].handlers[k].dom().finite(),
    {
        self.resources.lemma_finite();
        assert(self@.resources.dom() =~= self.resources@.dom());
        if self@.resources.contains_key(name) && 0 <= k < 7 {
            let stats = self.resources@[name];
            stats.handlers@[k].lemma_listing();
            assert(stats.model().handlers[k].dom() =~= stats.handlers@[k]@.dom());
        }
    }

    pub fn new(monotonic_us: u64) -> (obs: Self)
        ensures
            obs.wf(),
            obs@ == no_observations(monotonic_us),
    {
        let obs = Observability {
            started_us: monotonic_us,
            resources: NamedSlots::new(),
            active: None,
            latest: Vec::new(),
            labels: Vec::new(),
            resmon: false,
        };
        proof {
            assert(obs@.resources =~= Map::empty());
            assert(obs@.latest =~= Seq::empty());
            assert(obs@.labels =~= Seq::empty());
        }
        obs
    }

    /// Count a dispatch, and trace it while a recording runs. Returns the label under
    /// which the event goes into the metrics.
    pub fn record_dispatch(&mut self, measurement: DispatchMeasurement, at: Moment) -> (label:
        String)
        requires
            old(self).wf(),
        ensures
            final(self).wf(),
            label@ == label_for(old(self)@.labels, measurement.name@),
            final(self)@ == after_dispatch(old(self)@, measurement, at),
    {
        let label = self.prom_event_label(measurement.name.as_str());
        let mut stats = self.take_stats(measurement.resource.as_str());
        stats.dispatch.record(measurement.total_us, measurement.errored);
        stats.record_handler(
            measurement.kind,
            measurement.name.as_str(),
            measurement.total_us,
            measurement.errored,
        );
        if measurement.watchdog_fired {
            stats.watchdog_terminations = bump(stats.watchdog_terminations);
        }
        if let Some(memory) = measurement.memory {
            stats.memory = Some(memory);
        }
        let args = args_of_dispatch(&measurement);
        assert(stats.model() == dispatched(
            stats_of(old(self)@, measurement.resource@),
            measurement,
        ));
        self.put_stats(measurement.resource.as_str(), stats);
        assert(self@.resources =~= old(self)@.resources.insert(
            measurement.resource@,
            stats.model(),
        ));
        let event = TraceEvent {
            name: measurement.name.clone(),
            native: false,
            ts: at.wall_us,
            dur: measurement.total_us,
            tid: at.thread,
            args,
        };
        assert(event.model() == dispatch_trace(measurement, at));
        self.push_trace(event, at.monotonic_us);
        label
    }

    /// Count a native call, and trace it while a recording runs.
    pub fn record_native_roundtrip(&mut self, roundtrip: &NativeRoundtrip, at: Moment)
        requires
            old(self).wf(),
        ensures
            final(self).wf(),
            final(self)@ == after_roundtrip(old(self)@, roundtrip@, at),
    {
        let failed = roundtrip.errored || roundtrip.timed_out;
        let label = print_hash(roundtrip.hash);
        let mut stats = self.take_stats(roundtrip.resource.as_str());
        stats.native.record(roundtrip.duration_us, failed);
        if roundtrip.timed_out {
            stats.native_timeouts = bump(stats.native_timeouts);
        }
        stats.record_handler(
            DispatchKind::NativeRoundtrip,
            label.as_str(),
            roundtrip.duration_us,
            failed,
        );
        assert(stats.model() == roundtripped(
            stats_of(old(self)@, roundtrip.resource@),
            roundtrip@,
        ));
        self.put_stats(roundtrip.resource.as_str(), stats);
        assert(self@.resources =~= old(self)@.resources.insert(
            roundtrip.resource@,
            stats.model(),
        ));
        let event = TraceEvent {
            name: label,
            native: true,
            ts: at.wall_us,
            dur: roundtrip.duration_us,
            tid: at.thread,
            args: args_of_roundtrip(roundtrip),
        };
        assert(event.model() == roundtrip_trace(roundtrip@, at));
        self.push_trace(event, at.monotonic_us);
    }

    /// Take a resource's measurements out, to be put back.
    fn take_stats(&mut self, resource: &str) -> (stats: ResourceStats)
        requires
            old(self).wf(),
        ensures
            final(self).wf(),
            stats.wf(),
            stats.model() == stats_of(old(self)@, resource@),
            final(self)@ == (ObsModel {
                resources: old(self)@.resources.remove(resource@),
                ..old(self)@
            }),
    {
        let stats = match self.resources.remove(resource) {
            Some(stats) => stats,
            None => ResourceStats::new(),
        };
        assert(self@.resources =~= old(self)@.resources.remove(resource@));
        stats
    }

    fn put_stats(&mut self, resource: &str, stats: ResourceStats)
        requires
            old(self).wf(),
            stats.wf(),
        ensures
            final(self).wf(),
            final(self)@ == (ObsModel {
                resources: old(self)@.resources.insert(resource@, stats.model()),
                ..old(self)@
            }),
    {
        let ghost model = stats.model();
        self.resources.insert(resource.to_owned(), stats);
        assert(self@.resources =~= old(self)@.resources.insert(resource@, model));
    }

    /// The label that a dispatch of `event` is exported under. Only so many names get a
    /// label of their own; the rest share one.
    pub fn prom_event_label(&mut self, event: &str) -> (label: String)
        requires
            old(self).wf(),
        ensures
            final(self).wf(),
            label@ == label_for(old(self)@.labels, event@),
            final(self)@ == (ObsModel {
                labels: labels_after(old(self)@.labels, event@),
                ..old(self)@
            }),
    {
        if event.as_bytes().len() > 80 {
            return "__other".to_owned();
        }
        let ghost labels = self@.labels;
        let mut i: usize = 0;
        let mut known = false;
        while i < self.labels.len() && !known
            invariant
                i <= self.labels@.len(),
                labels == crate::engine::texts(self.labels@),
                known ==> labels.contains(event@),
                !known ==> forall|j: int| 0 <= j < i ==> #[trigger] labels[j] != event@,
            decreases self.labels@.len() - i,
        {
            assert(labels[i as int] == self.labels@[i as int]@);
            if same(self.labels[i].as_str(), event) {
                known = true;
            }
            i = i + 1;
        }
        if known {
            return event.to_owned();
        }
        assert(!labels.contains(event@));
        if self.labels.len() >= MAX_PROM_EVENT_LABELS {
            return "__other".to_owned();
        }
        self.labels.push(event.to_owned());
        assert(crate::engine::texts(self.labels@) =~= labels.push(event@));
        event.to_owned()
    }

    fn push_trace(&mut self, event: TraceEvent, monotonic_us: u64)
        requires
            old(self).wf(),
        ensures
            final(self).wf(),
            final(self)@ == traced(old(self)@, event.model(), monotonic_us),
    {
        self.expire_recording(monotonic_us);
        let ghost m1 = self@;
        let mut current: Option<ActiveRecording> = None;
        std::mem::swap(&mut current, &mut self.active);
        if let Some(recording) = current {
            let mut recording = recording;
            if event.native && !recording.include_native_calls {
                self.active = Some(recording);
                return ;
            }
            let ghost before = recording.events@;
            let ghost model = event.model();
            if recording.events.len() == recording.limit_events {
                recording.events.remove(0);
                assert(trace_models(recording.events@) =~= trace_models(before).skip(1));
            }
            let ghost room = recording.events@;
            recording.events.push(event);
            assert(trace_models(recording.events@) =~= trace_models(room).push(model));
            let full = recording.events.len() >= recording.limit_events;
            self.active = Some(recording);
            if full {
                self.finish_recording();
            }
        }
    }

    fn expire_recording(&mut self, monotonic_us: u64)
        requires
            old(self).wf(),
        ensures
            final(self).wf(),
            final(self)@ == expired(old(self)@, monotonic_us),
    {
        let done = match &self.active {
            Some(recording) => match recording.seconds {
                Some(seconds) => monotonic_us >= recording.started_us && (monotonic_us
                    - recording.started_us) as u128 >= seconds as u128 * 1_000_000,
                None => false,
            },
            None => false,
        };
        if done {
            self.finish_recording();
        }
    }

    fn finish_recording(&mut self)
        requires
            old(self).active is None || old(self).active->0.events@.len() <= DEFAULT_TRACE_CAP,
            old(self).resources.wf(),
            forall|name: Seq<char>| #[trigger]
                old(self).resources@.contains_key(name) ==> old(self).resources@[name].wf(),
            old(self).labels@.len() <= MAX_PROM_EVENT_LABELS,
            old(self).latest@.len() <= DEFAULT_TRACE_CAP,
        ensures
            final(self).wf(),
            final(self)@ == finished(old(self)@),
    {
        let mut current: Option<ActiveRecording> = None;
        std::mem::swap(&mut current, &mut self.active);
        if let Some(recording) = current {
            self.latest = recording.events;
        }
    }

    /// What ResMon shows.
    pub fn snapshot(&self, monotonic_us: u64) -> (snapshot: ResMonSnapshot)
        requires
            self.wf(),
        ensures
            shows(snapshot, self@, monotonic_us),
    {
        let listed = self.resources.names();
        let ghost names = names_in_order(self@.resources.dom());
        proof {
            assert(self@.resources.dom() =~= self.resources@.dom());
            assert(listed@.map_values(|s: String| s@).len() == listed@.len());
        }
        let mut resources: Vec<ResourcePerfStats> = Vec::new();
        let mut handlers: Vec<HandlerPerfStats> = Vec::new();
        let mut i: usize = 0;
        assert(handler_views(handlers@) =~= of_resources(self@.resources, 0));
        while i < listed.len()
            invariant
                self.wf(),
                i <= names.len() == listed@.len(),
                names == names_in_order(self@.resources.dom()),
                names == listed@.map_values(|s: String| s@),
                lists_names(names, self@.resources.dom()),
                resources@.len() == i,
                forall|j: int|
                    0 <= j < i ==> perf_of(
                        #[trigger] resources@[j],
                        names[j],
                        self@.resources[names[j]],
                    ),
                handler_views(handlers@) == of_resources(
                    self@.resources,
                    i as int,
                ),
            decreases names.len() - i,
        {
            let name = listed[i].as_str();
            assert(names[i as int] == name@);
            assert(names.contains(name@));
            if let Some(stats) = self.resources.get(name) {
                assert(self@.resources[name@] == stats.model());
                resources.push(stats.perf(name));
                stats.list_handlers(name, &mut handlers);
            }
            i = i + 1;
        }
        let uptime_secs: u64 = if monotonic_us >= self.started_us {
            (monotonic_us - self.started_us) / 1_000_000
        } else {
            0
        };
        ResMonSnapshot { uptime_secs, scope: "gateway".to_owned(), resources, handlers }
    }

    pub fn set_resmon_enabled(&mut self, enabled: bool)
        requires
            old(self).wf(),
        ensures
            final(self).wf(),
            final(self)@ == (ObsModel { resmon: enabled, ..old(self)@ }),
    {
        self.resmon = enabled;
    }

    pub fn resmon_enabled(&self) -> (yes: bool)
        ensures
            yes == self@.resmon,
    {
        self.resmon
    }

    /// How one resource performs, if anything was measured of it.
    pub fn resource_snapshot(&self, name: &str) -> (perf: Option<ResourcePerfStats>)
        requires
            self.wf(),
        ensures
            match perf {
                Some(p) => self@.resources.contains_key(name@) && perf_of(
                    p,
                    name@,
                    self@.resources[name@],
                ),
                None => !self@.resources.contains_key(name@),
            },
    {
        match self.resources.get(name) {
            Some(stats) => Some(stats.perf(name)),
            None => None,
        }
    }

    /// Start a recording; one in progress is dropped.
    pub fn start_profiler(&mut self, options: ProfilerRecordOptions, at: Moment) -> (status:
        ProfilerStatus)
        requires
            old(self).wf(),
        ensures
            final(self).wf(),
            final(self)@ == (ObsModel {
                active: Some(
                    RecordingModel {
                        events: Seq::empty(),
                        limit_events: limit_of(options.frames),
                        started_us: at.monotonic_us,
                        started_ms: at.wall_us / 1000,
                        seconds: options.seconds,
                        scope: options.scope@,
                        include_native_calls: options.include_native_calls,
                    },
                ),
                ..old(self)@
            }),
            status_of(status, final(self)@),
    {
        let limit_events: usize = match options.frames {
            Some(n) => {
                if n < 1 {
                    1
                } else if n > DEFAULT_TRACE_CAP {
                    DEFAULT_TRACE_CAP
                } else {
                    n
                }
            },
            None => DEFAULT_TRACE_CAP,
        };
        let recording = ActiveRecording {
            events: Vec::new(),
            limit_events,
            started_us: at.monotonic_us,
            started_ms: at.wall_us / 1000,
            seconds: options.seconds,
            scope: options.scope,
            include_native_calls: options.include_native_calls,
        };
        assert(recording.model().events =~= Seq::empty());
        self.active = Some(recording);
        self.status()
    }

    /// End the recording, if one is in progress.
    pub fn stop_profiler(&mut self) -> (status: ProfilerStatus)
        requires
            old(self).wf(),
        ensures
            final(self).wf(),
            final(self)@ == finished(old(self)@),
            status_of(status, final(self)@),
    {
        self.finish_recording();
        self.status()
    }

    pub fn profiler_status(&mut self, monotonic_us: u64) -> (status: ProfilerStatus)
        requires
            old(self).wf(),
        ensures
            final(self).wf(),
            final(self)@ == expired(old(self)@, monotonic_us),
            status_of(status, final(self)@),
    {
        self.expire_recording(monotonic_us);
        self.status()
    }

    fn status(&self) -> (status: ProfilerStatus)
        requires
            self.wf(),
        ensures
            status_of(status, self@),
    {
        match &self.active {
            Some(recording) => {
                let stops_at_ms: Option<u64> = match recording.seconds {
                    Some(seconds) => Some(
                        ((recording.started_ms as u128 + seconds as u128 * 1000)
                            % 0x1_0000_0000_0000_0000) as u64,
                    ),
                    None => None,
                };
                ProfilerStatus {
                    active: true,
                    scope: recording.scope.clone(),
                    recorded_events: recording.events.len(),
                    limit_events: recording.limit_events,
                    started_ms: Some(recording.started_ms),
                    stops_at_ms,
                    latest_events: self.latest.len(),
                }
            },
            None => ProfilerStatus {
                active: false,
                scope: "gateway".to_owned(),
                recorded_events: 0,
                limit_events: DEFAULT_TRACE_CAP,
                started_ms: None,
                stops_at_ms: None,
                latest_events: self.latest.len(),
            },
        }
    }

    /// The latest finished recording as a Chrome trace.
    pub fn latest_trace_json(&self) -> (trace: Json)
        ensures
            trace@ == JsonModel::Nested(trace_text(self@.latest)),
    {
        let ghost all = trace_models(self.latest@);
        let mut sorted: Vec<TraceEvent> = Vec::new();
        let mut i: usize = 0;
        assert(all.take(0) =~= Seq::empty());
        assert(trace_models(sorted@) =~= in_time_order(all.take(0)));
        while i < self.latest.len()
            invariant
                i <= self.latest@.len(),
                all == trace_models(self.latest@),
                trace_models(sorted@) == in_time_order(all.take(i as int)),
            decreases self.latest@.len() - i,
        {
            let event = self.latest[i].copy();
            let ghost before = trace_models(sorted@);
            let mut at: usize = 0;
            while at < sorted.len() && sorted[at].ts <= event.ts
                invariant
                    at <= sorted@.len(),
                    before == trace_models(sorted@),
                    event_slot(before, event.ts, 0) == event_slot(before, event.ts, at as int),
                decreases sorted@.len() - at,
            {
                assert(before[at as int].ts == sorted@[at as int].ts);
                at = at + 1;
            }
            proof {
                assert(all.take(i + 1).drop_last() =~= all.take(i as int));
                assert(all.take(i + 1).last() == event.model());
                if at < sorted@.len() {
                    assert(before[at as int].ts == sorted@[at as int].ts);
                }
            }
            let ghost model = event.model();
            sorted.insert(at, event);
            assert(trace_models(sorted@) =~= before.insert(at as int, model));
            i = i + 1;
        }
        assert(all.take(i as int) =~= all);
        let mut list: Vec<Json> = Vec::new();
        let mut j: usize = 0;
        while j < sorted.len()
            invariant
                j <= sorted@.len(),
                list@.len() == j,
                forall|k: int|
                    0 <= k < j ==> (#[trigger] list@[k])@ == JsonModel::Nested(
                        event_text(sorted@[k].model()),
                    ),
            decreases sorted@.len() - j,
        {
            list.push(Json::Nested(sorted[j].text()));
            j = j + 1;
        }
        assert(models(list@) =~= in_time_order(all).map_values(
            |e: TraceModel| JsonModel::Nested(event_text(e)),
        ));
        let mut text = "{\"traceEvents\":".to_owned();
        text.append(Json::array(&list).to_json().as_str());
        text.append("}");
        Json::Nested(text)
    }
}

impl ResourceStats {
    fn perf(&self, resource: &str) -> (perf: ResourcePerfStats)
        requires
            self.wf(),
        ensures
            perf_of(perf, resource@, self.model()),
    {
        let (used, whole, external): (Option<u64>, Option<u64>, Option<u64>) = match self.memory {
            Some(memory) => (
                Some(memory.used_bytes),
                Some(memory.total_bytes),
                Some(memory.external_bytes),
            ),
            None => (None, None, None),
        };
        ResourcePerfStats {
            resource: resource.to_owned(),
            dispatch_count: self.dispatch.count,
            dispatch_cpu_total_us: self.dispatch.total_us,
            dispatch_cpu_p50_us: percentile(&self.dispatch.samples, 50),
            dispatch_cpu_p95_us: percentile(&self.dispatch.samples, 95),
            dispatch_cpu_p99_us: percentile(&self.dispatch.samples, 99),
            last_dispatch_us: self.dispatch.last_us,
            max_dispatch_us: self.dispatch.max_us,
            watchdog_terminations: self.watchdog_terminations,
            native_calls: self.native.count,
            native_timeout_count: self.native_timeouts,
            native_p95_us: percentile(&self.native.samples, 95),
            memory_used_bytes: used,
            memory_total_bytes: whole,
            memory_external_bytes: external,
        }
    }

    /// Append how each handler performs.
    fn list_handlers(&self, resource: &str, list: &mut Vec<HandlerPerfStats>)
        requires
            self.wf(),
        ensures
            handler_views(final(list)@) == handler_views(old(list)@) + of_kinds(resource@, self.model(), 7),
    {
        let ghost start = handler_views(list@);
        let mut k: usize = 0;
        assert(start + of_kinds(resource@, self.model(), 0) =~= start);
        while k < 7
            invariant
                k <= 7,
                self.wf(),
                handler_views(list@) == start + of_kinds(
                    resource@,
                    self.model(),
                    k as int,
                ),
            decreases 7 - k,
        {
            let map = &self.handlers[k];
            let kind = DispatchKind::at(k);
            let ghost before = handler_views(list@);
            let ghost buckets = bucket_models(map@);
            let ghost part = of_kind(resource@, kind, buckets);
            proof {
                map.lemma_listing();
                lemma_names_in_order(names_of(map.listing()), map@.dom());
                assert(buckets.dom() =~= map@.dom());
                assert(self.model().handlers[k as int] == buckets);
            }
            let mut i: usize = 0;
            assert(before + part.take(0) =~= before);
            while i < map.len()
                invariant
                    map.wf(),
                    buckets_wf(map@),
                    i <= part.len() == map.listing().len(),
                    buckets == bucket_models(map@),
                    names_in_order(buckets.dom()) == names_of(map.listing()),
                    part == of_kind(resource@, kind, buckets),
                    handler_views(list@) == before + part.take(i as int),
                decreases part.len() - i,
            {
                let (name, bucket) = map.entry_at(i);
                let item = HandlerPerfStats {
                    resource: resource.to_owned(),
                    kind,
                    name: name.clone(),
                    count: bucket.count,
                    total_us: bucket.total_us,
                    p95_us: percentile(&bucket.samples, 95),
                    p99_us: percentile(&bucket.samples, 99),
                    errors: bucket.errors,
                };
                proof {
                    assert(names_of(map.listing())[i as int] == name@);
                    assert(part[i as int] == item@);
                }
                let ghost so_far = list@;
                list.push(item);
                assert(handler_views(list@) =~= handler_views(so_far).push(item@));
                assert(handler_views(list@) =~= before + part.take(i + 1));
                i = i + 1;
            }
            proof {
                assert(part.take(i as int) =~= part);
                assert(start + of_kinds(resource@, self.model(), k as int) + part =~= start
                    + of_kinds(resource@, self.model(), k + 1));
            }
            k = k + 1;
        }
    }
}

fn args_of_dispatch(d: &DispatchMeasurement) -> (args: String)
    ensures
        args@ == dispatch_args(*d),
{
    let mut text = "{\"event_loop_us\":".to_owned();
    text.append(print_decimal(d.event_loop_us).as_str());
    text.append(",\"execute_us\":");
    text.append(print_decimal(d.execute_us).as_str());
    text.append(",\"kind\":");
    text.append(quote(d.kind.as_str()).as_str());
    text.append(",\"resource\":");
    text.append(quote(d.resource.as_str()).as_str());
    text.append(",\"source\":");
    let source = match d.source {
        Some(n) => Json::Unsigned(n as u64),
        None => Json::Null,
    };
    text.append(source.to_json().as_str());
    text.append(",\"status\":");
    let status = if d.errored {
        "error"
    } else {
        "ok"
    };
    text.append(quote(status).as_str());
    text.append(",\"zone\":");
    let zone = match &d.zone {
        Some(s) => Json::Text(s.clone()),
        None => Json::Null,
    };
    text.append(zone.to_json().as_str());
    text.append("}");
    text
}

fn args_of_roundtrip(r: &NativeRoundtrip) -> (args: String)
    ensures
        args@ == roundtrip_args(r@),
{
    let mut text = "{\"kind\":".to_owned();
    text.append(quote(DispatchKind::NativeRoundtrip.as_str()).as_str());
    text.append(",\"resource\":");
    text.append(quote(r.resource.as_str()).as_str());
    text.append(",\"source\":");
    text.append(print_decimal(r.source as u64).as_str());
    text.append(",\"status\":");
    let status = if r.timed_out {
        "timeout"
    } else if r.errored {
        "error"
    } else {
        "ok"
    };
    text.append(quote(status).as_str());
    text.append("}");
    text
}

/// A recording never holds more events than it was limited to.
pub proof fn recording_stays_bounded(m: ObsModel, event: TraceModel, monotonic_us: u64)
    requires
        m.active matches Some(recording) ==> recording.events.len() <= recording.limit_events,
    ensures
        traced(m, event, monotonic_us).active matches Some(recording) ==> recording.events.len()
            <= recording.limit_events,
{
}

} // verus!
