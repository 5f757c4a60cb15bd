//! What a script runtime decides, whichever engine it drives: when a dispatch has run
//! for too long, what becomes of its outcome, and what goes into the measurements.
use crate::client_calls::{error_json, print_error};
use crate::engine::texts;
use crate::error::{ErrorModel, ScriptError};
use crate::json::{
    array_of, json_array, json_quoted, json_text, models, parse_array, quote, Json, JsonModel,
};
use crate::observability::{
    after_dispatch, DispatchKind, DispatchMeasurement, Moment, ObsModel, Observability,
};
use crate::text::{decimal, joined3, print_decimal};
use vstd::prelude::*;
use vstd::string::StringExecFns;

verus! {

/// Wall-clock budget for a single dispatch, in milliseconds. Generous on purpose:
/// legitimate handlers finish in milliseconds, so this only fires on a genuinely runaway
/// script.
pub const DISPATCH_BUDGET_MS: u64 = 10_000;

/// How often a watchdog that runs inside the engine looks at the clock, in instructions.
pub const WATCHDOG_INSTRUCTIONS: u32 = 100_000;

// --- a watchdog inside the engine ---

/// Interrupts a runaway script from inside the engine: a hook runs every so many
/// instructions, and unwinds the script once the dispatch has overrun its budget.
#[derive(Debug)]
pub struct Watchdog {
    /// Milliseconds since the host started; zero means disarmed.
    pub deadline_ms: u64,
    /// Set when a dispatch was actually terminated.
    pub fired: bool,
    /// How long one dispatch may run.
    pub budget_ms: u64,
}

/// The deadline of a dispatch that starts now. Zero is not one.
pub open spec fn deadline_after(now_ms: u64, budget_ms: u64) -> u64 {
    let sum = ((now_ms + budget_ms) % 0x1_0000_0000_0000_0000) as u64;
    if sum == 0 {
        1
    } else {
        sum
    }
}

fn add_budget(now_ms: u64, budget_ms: u64) -> (deadline: u64)
    ensures
        deadline == deadline_after(now_ms, budget_ms),
{
    let sum: u64 = now_ms.wrapping_add(budget_ms);
    if sum == 0 {
        1
    } else {
        sum
    }
}

/// Whether a dispatch has overrun.
pub open spec fn overrun(deadline_ms: u64, now_ms: u64) -> bool {
    deadline_ms != 0 && now_ms >= deadline_ms
}

impl Watchdog {
    pub fn new(budget_ms: u64) -> (watchdog: Self)
        ensures
            watchdog == (Watchdog { deadline_ms: 0, fired: false, budget_ms }),
    {
        Watchdog { deadline_ms: 0, fired: false, budget_ms }
    }

    /// Arm for one dispatch.
    pub fn arm(&mut self, now_ms: u64)
        ensures
            *final(self) == (Watchdog {
                deadline_ms: deadline_after(now_ms, old(self).budget_ms),
                fired: false,
                budget_ms: old(self).budget_ms,
            }),
    {
        self.fired = false;
        self.deadline_ms = add_budget(now_ms, self.budget_ms);
    }

    /// The dispatch returned.
    pub fn disarm(&mut self)
        ensures
            *final(self) == (Watchdog { deadline_ms: 0, ..*old(self) }),
    {
        self.deadline_ms = 0;
    }

    /// The hook: whether the script has to be unwound. The watchdog disarms first: the
    /// unwind runs script code too, and firing again there would mask the original site.
    pub fn interrupts(&mut self, now_ms: u64) -> (yes: bool)
        ensures
            yes == overrun(old(self).deadline_ms, now_ms),
            *final(self) == if yes {
                Watchdog { deadline_ms: 0, fired: true, ..*old(self) }
            } else {
                *old(self)
            },
    {
        if self.deadline_ms == 0 || now_ms < self.deadline_ms {
            return false;
        }
        self.deadline_ms = 0;
        self.fired = true;
        true
    }

    /// Whether the dispatch that just ran was terminated.
    pub fn took_fired(&mut self) -> (fired: bool)
        ensures
            fired == old(self).fired,
            *final(self) == (Watchdog { fired: false, ..*old(self) }),
    {
        let fired = self.fired;
        self.fired = false;
        fired
    }
}

/// A dispatch within its budget is never interrupted, and one that is not is.
pub proof fn only_overruns_are_interrupted(started_ms: u64, budget_ms: u64, now_ms: u64)
    requires
        0 < started_ms + budget_ms <= u64::MAX,
    ensures
        overrun(deadline_after(started_ms, budget_ms), now_ms) <==> now_ms >= started_ms + budget_ms,
        !overrun(0, now_ms),
{
}

// --- a watchdog outside the engine ---

/// What a watchdog on another thread sees of the runtime.
#[derive(Debug, Clone, Copy)]
pub struct WatchedFlags {
    /// Milliseconds since the host started; zero means disarmed.
    pub deadline_ms: u64,
    /// Goes up with every dispatch, so that dispatches can be told apart.
    pub generation: u64,
    /// The runtime is going away.
    pub stop: bool,
}

/// What the watchdog thread is at.
#[derive(Debug, Clone, Copy, PartialEq, Eq, Structural)]
pub enum WatchPhase {
    /// Looking at the clock now and then.
    Watching,
    /// A dispatch of this generation has overrun; once more, to be sure.
    Confirming(u64),
    /// A dispatch was terminated, and has not unwound yet.
    Unwinding,
}

/// What the watchdog thread does next.
#[derive(Debug, Clone, Copy, PartialEq, Eq, Structural)]
pub enum WatchAction {
    /// Sleep for so many milliseconds, and look again.
    Sleep(u64),
    /// Terminate the dispatch, and look again.
    Terminate,
    Exit,
}

/// Whether the dispatch in flight has to be terminated: it has overrun, and it is still
/// the one that had overrun a moment ago.
pub open spec fn terminates(phase: WatchPhase, flags: WatchedFlags) -> bool {
    !flags.stop && flags.deadline_ms != 0 && phase == WatchPhase::Confirming(flags.generation)
}

/// What the watchdog thread does next.
pub open spec fn watch_step(phase: WatchPhase, flags: WatchedFlags, now_ms: u64) -> (
    WatchPhase,
    WatchAction,
) {
    if phase == WatchPhase::Watching && overrun(flags.deadline_ms, now_ms) {
        (WatchPhase::Confirming(flags.generation), WatchAction::Sleep(20))
    } else if terminates(phase, flags) {
        (WatchPhase::Unwinding, WatchAction::Terminate)
    } else if flags.stop {
        (WatchPhase::Watching, WatchAction::Exit)
    } else if phase == WatchPhase::Unwinding && flags.deadline_ms != 0 {
        (WatchPhase::Unwinding, WatchAction::Sleep(20))
    } else {
        (WatchPhase::Watching, WatchAction::Sleep(50))
    }
}

/// What the watchdog thread does next.
pub fn watch(phase: WatchPhase, flags: WatchedFlags, now_ms: u64) -> (next: (
    WatchPhase,
    WatchAction,
))
    ensures
        next == watch_step(phase, flags, now_ms),
{
    match phase {
        WatchPhase::Watching => {
            if flags.deadline_ms != 0 && now_ms >= flags.deadline_ms {
                return (WatchPhase::Confirming(flags.generation), WatchAction::Sleep(20));
            }
        },
        WatchPhase::Confirming(generation) => {
            if !flags.stop && flags.deadline_ms != 0 && flags.generation == generation {
                return (WatchPhase::Unwinding, WatchAction::Terminate);
            }
        },
        WatchPhase::Unwinding => {
            if !flags.stop && flags.deadline_ms != 0 {
                return (WatchPhase::Unwinding, WatchAction::Sleep(20));
            }
        },
    }
    if flags.stop {
        (WatchPhase::Watching, WatchAction::Exit)
    } else {
        (WatchPhase::Watching, WatchAction::Sleep(50))
    }
}

/// Nothing is terminated but a dispatch that was seen to overrun and is still running:
/// a termination follows a look at which the deadline of that same generation had
/// passed.
pub proof fn only_a_confirmed_overrun_is_terminated(
    before: WatchPhase,
    seen: WatchedFlags,
    seen_at_ms: u64,
    phase: WatchPhase,
    flags: WatchedFlags,
    now_ms: u64,
)
    requires
        !(before is Confirming),
        watch_step(before, seen, seen_at_ms).0 == phase,
        watch_step(phase, flags, now_ms).1 == WatchAction::Terminate,
    ensures
        overrun(seen.deadline_ms, seen_at_ms),
        flags.deadline_ms != 0,
        flags.generation == seen.generation,
{
}

// --- what is run ---

/// The script that dispatches an event.
pub open spec fn event_script(event: Seq<char>, args_json: Seq<char>) -> Seq<char> {
    "globalThis.__baston.dispatch("@ + json_quoted(event) + ", "@ + json_quoted(args_json) + ");"@
}

pub fn print_event_script(event: &str, args_json: &str) -> (code: String)
    ensures
        code@ == event_script(event@, args_json@),
{
    let mut code = joined3("globalThis.__baston.dispatch(", quote(event).as_str(), ", ");
    code.append(quote(args_json).as_str());
    code.append(");");
    code
}

/// The script that dispatches an event of a client.
pub open spec fn net_event_script(event: Seq<char>, source: u32, args_json: Seq<char>) -> Seq<char> {
    "globalThis.__baston.dispatchWithSource("@ + json_quoted(event) + ", "@ + decimal(source as nat)
        + ", "@ + json_quoted(args_json) + ");"@
}

pub fn print_net_event_script(event: &str, source: u32, args_json: &str) -> (code: String)
    ensures
        code@ == net_event_script(event@, source, args_json@),
{
    let mut code = joined3("globalThis.__baston.dispatchWithSource(", quote(event).as_str(), ", ");
    code.append(print_decimal(source as u64).as_str());
    code.append(", ");
    code.append(quote(args_json).as_str());
    code.append(");");
    code
}

/// The script that dispatches `playerConnecting`.
pub open spec fn connecting_script(source: u32, player_name: Seq<char>) -> Seq<char> {
    "globalThis.__baston.dispatchPlayerConnecting("@ + decimal(source as nat) + ", "@ + json_quoted(
        player_name,
    ) + ");"@
}

pub fn print_connecting_script(source: u32, player_name: &str) -> (code: String)
    ensures
        code@ == connecting_script(source, player_name@),
{
    let mut code = joined3(
        "globalThis.__baston.dispatchPlayerConnecting(",
        print_decimal(source as u64).as_str(),
        ", ",
    );
    code.append(quote(player_name).as_str());
    code.append(");");
    code
}

/// The script that runs a command.
pub open spec fn command_script(
    command: Seq<char>,
    source: u32,
    args: Seq<Seq<char>>,
    raw: Seq<char>,
) -> Seq<char> {
    "globalThis.__baston.dispatchCommand("@ + json_quoted(command) + ", "@ + decimal(source as nat)
        + ", "@ + json_text(array_of(args.map_values(|arg: Seq<char>| JsonModel::Text(arg))))
        + ", "@ + json_quoted(raw) + ");"@
}

pub fn print_command_script(command: &str, source: u32, args: &Vec<String>, raw: &str) -> (code:
    String)
    ensures
        code@ == command_script(command@, source, texts(args@), raw@),
{
    let mut code = joined3("globalThis.__baston.dispatchCommand(", quote(command).as_str(), ", ");
    code.append(print_decimal(source as u64).as_str());
    code.append(", ");
    proof {
        assert(args@.map_values(|s: String| JsonModel::Text(s@)) =~= texts(args@).map_values(
            |arg: Seq<char>| JsonModel::Text(arg),
        ));
    }
    code.append(Json::texts(args).to_json().as_str());
    code.append(", ");
    code.append(quote(raw).as_str());
    code.append(");");
    code
}

/// The script that collects the state a handoff carries.
pub open spec fn transfer_script(source: u32) -> Seq<char> {
    "globalThis.__baston.collectZoneTransferState("@ + decimal(source as nat) + ");"@
}

pub fn print_transfer_script(source: u32) -> (code: String)
    ensures
        code@ == transfer_script(source),
{
    joined3(
        "globalThis.__baston.collectZoneTransferState(",
        print_decimal(source as u64).as_str(),
        ");",
    )
}

/// The name that a script file runs under.
pub open spec fn script_name(resource: Seq<char>, path: Seq<char>) -> Seq<char> {
    "baston:"@ + resource + "/"@ + path
}

pub fn print_script_name(resource: &str, path: &str) -> (name: String)
    ensures
        name@ == script_name(resource@, path@),
{
    let mut name = joined3("baston:", resource, "/");
    name.append(path);
    name
}

// --- what comes of it ---

/// A script that failed.
pub open spec fn failed(resource: Seq<char>, script: Seq<char>, message: Seq<char>) -> ErrorModel {
    ErrorModel::Execute { resource, script, message }
}

/// What an outcome says.
pub open spec fn outcome_view<T>(outcome: Result<T, ScriptError>) -> Result<T, ErrorModel> {
    match outcome {
        Ok(value) => Ok(value),
        Err(e) => Err(e@),
    }
}

/// What engine errors say.
pub open spec fn engine_view<T>(outcome: Result<T, String>) -> Result<T, Seq<char>> {
    match outcome {
        Ok(value) => Ok(value),
        Err(e) => Err(e@),
    }
}

/// The outcome of a script that was run and then left to its event loop. The loop runs
/// only where the script itself succeeded.
pub open spec fn run_outcome(
    resource: Seq<char>,
    script: Seq<char>,
    run: Result<(), Seq<char>>,
    event_loop: Result<(), Seq<char>>,
) -> Result<(), ErrorModel> {
    match run {
        Err(message) => Err(failed(resource, script, message)),
        Ok(_) => match event_loop {
            Err(message) => Err(failed(resource, "<event loop>"@, message)),
            Ok(_) => Ok(()),
        },
    }
}

/// The outcome of a script that was run and then left to its event loop.
pub fn finish_run(
    resource: &str,
    script: &str,
    run: Result<(), String>,
    event_loop: Result<(), String>,
) -> (outcome: Result<(), ScriptError>)
    ensures
        outcome_view(outcome) == run_outcome(
            resource@,
            script@,
            engine_view(run),
            engine_view(event_loop),
        ),
{
    match run {
        Err(message) => Err(
            ScriptError::Execute {
                resource: resource.to_owned(),
                script: script.to_owned(),
                message,
            },
        ),
        Ok(_) => match event_loop {
            Err(message) => Err(
                ScriptError::Execute {
                    resource: resource.to_owned(),
                    script: "<event loop>".to_owned(),
                    message,
                },
            ),
            Ok(_) => Ok(()),
        },
    }
}

/// Whether a measurement is that of a dispatch in an engine without an event loop: a
/// script runs to completion, so every microsecond is execute time.
pub open spec fn measures(
    d: DispatchMeasurement,
    resource: Seq<char>,
    kind: DispatchKind,
    name: Seq<char>,
    elapsed_us: u64,
    errored: bool,
    watchdog_fired: bool,
    source: Option<u32>,
) -> bool {
    &&& d.resource@ == resource
    &&& d.kind == kind
    &&& d.name@ == name
    &&& d.execute_us == elapsed_us
    &&& d.event_loop_us == 0
    &&& d.total_us == elapsed_us
    &&& d.errored == errored
    &&& d.watchdog_fired == watchdog_fired
    &&& d.memory is None
    &&& d.source == source
    &&& d.zone is None
}

/// What is known of a dispatch that has run.
#[derive(Debug, Clone, Copy)]
pub struct DispatchRun {
    pub kind: DispatchKind,
    pub source: Option<u32>,
    pub watchdog_fired: bool,
    pub elapsed_us: u64,
    pub at: Moment,
}

/// Whether `after` is the collector after a dispatch was measured.
pub open spec fn measured(
    before: ObsModel,
    resource: Seq<char>,
    name: Seq<char>,
    run: DispatchRun,
    errored: bool,
    after: ObsModel,
) -> bool {
    exists|d: DispatchMeasurement| #[trigger]
        measures(
            d,
            resource,
            run.kind,
            name,
            run.elapsed_us,
            errored,
            run.watchdog_fired,
            run.source,
        ) && after == after_dispatch(before, d, run.at)
}

fn measure(observability: &mut Observability, resource: &str, name: &str, run: DispatchRun, errored:
    bool)
    requires
        old(observability).wf(),
    ensures
        final(observability).wf(),
        measured(old(observability)@, resource@, name@, run, errored, final(observability)@),
{
    let measurement = DispatchMeasurement {
        resource: resource.to_owned(),
        kind: run.kind,
        name: name.to_owned(),
        execute_us: run.elapsed_us,
        event_loop_us: 0,
        total_us: run.elapsed_us,
        errored,
        watchdog_fired: run.watchdog_fired,
        memory: None,
        source: run.source,
        zone: None,
    };
    assert(measures(
        measurement,
        resource@,
        run.kind,
        name@,
        run.elapsed_us,
        errored,
        run.watchdog_fired,
        run.source,
    ));
    observability.record_dispatch(measurement, run.at);
}

/// A script file was loaded: measure it, whether it succeeded or not.
pub fn finish_load(
    observability: &mut Observability,
    resource: &str,
    path: &str,
    outcome: Result<(), String>,
    run: DispatchRun,
) -> (result: Result<(), ScriptError>)
    requires
        old(observability).wf(),
    ensures
        final(observability).wf(),
        measured(
            old(observability)@,
            resource@,
            path@,
            run,
            outcome is Err,
            final(observability)@,
        ),
        outcome_view(result) == match outcome {
            Ok(_) => Ok(()),
            Err(message) => Err(failed(resource@, path@, message@)),
        },
{
    measure(observability, resource, path, run, outcome.is_err());
    match outcome {
        Ok(_) => Ok(()),
        Err(message) => Err(
            ScriptError::Execute { resource: resource.to_owned(), script: path.to_owned(), message },
        ),
    }
}

/// A dispatch came back with the number of handlers that threw. A dispatch that could not
/// be run at all is not measured.
pub fn finish_dispatch(
    observability: &mut Observability,
    resource: &str,
    name: &str,
    outcome: Result<u32, String>,
    run: DispatchRun,
) -> (result: Result<(), ScriptError>)
    requires
        old(observability).wf(),
    ensures
        final(observability).wf(),
        match outcome {
            Ok(errors) => {
                &&& result == Ok::<(), ScriptError>(())
                &&& measured(
                    old(observability)@,
                    resource@,
                    name@,
                    run,
                    errors > 0 || run.watchdog_fired,
                    final(observability)@,
                )
            },
            Err(message) => {
                &&& outcome_view(result) == Err::<(), _>(failed(resource@, name@, message@))
                &&& final(observability)@ == old(observability)@
            },
        },
{
    match outcome {
        Ok(errors) => {
            measure(observability, resource, name, run, errors > 0 || run.watchdog_fired);
            Ok(())
        },
        Err(message) => Err(
            ScriptError::Execute { resource: resource.to_owned(), script: name.to_owned(), message },
        ),
    }
}

/// Whether an event is dispatched at all. An event of a client reaches a resource only
/// where that resource opted in: it must not receive traffic it never asked for.
pub fn delivers(source: Option<u32>, accepts: bool) -> (yes: bool)
    ensures
        yes == (source is None || accepts),
{
    source.is_none() || accepts
}

/// How long a runtime that is driven by ticks sleeps before the next one, from what it
/// asked for: at least one and at most fifty milliseconds. One that failed to say sleeps
/// longest.
pub fn idle_ms(asked: Option<i64>) -> (ms: u64)
    ensures
        ms == match asked {
            Some(n) => if n < 1 {
                1int
            } else if n > 50 {
                50int
            } else {
                n as int
            },
            None => 50int,
        },
{
    match asked {
        Some(n) => {
            if n < 1 {
                1
            } else if n > 50 {
                50
            } else {
                n as u64
            }
        },
        None => 50,
    }
}

// --- promises ---

/// What has become of the promise that a dispatch left behind.
#[derive(Debug)]
pub enum PromiseOutcome {
    Pending,
    Fulfilled,
    Rejected(String),
}

/// What a dispatch does with its promise.
#[derive(Debug)]
pub enum Settled {
    /// Look again when the event loop has made progress.
    Wait,
    Finished,
    Failed(String),
}

#[verifier::ext_equal]
pub enum SettledModel {
    Wait,
    Finished,
    Failed(Seq<char>),
}

impl View for Settled {
    type V = SettledModel;

    open spec fn view(&self) -> SettledModel {
        match self {
            Settled::Wait => SettledModel::Wait,
            Settled::Finished => SettledModel::Finished,
            Settled::Failed(message) => SettledModel::Failed(message@),
        }
    }
}

/// Settle a dispatch. A promise still pending once the event loop has drained since the
/// dispatch started is dangling: nothing left can resolve it, and it counts as complete.
pub fn settle(outcome: PromiseOutcome, idle_count: u64, since_idle: u64) -> (settled: Settled)
    ensures
        settled@ == match outcome {
            PromiseOutcome::Pending => if idle_count > since_idle {
                SettledModel::Finished
            } else {
                SettledModel::Wait
            },
            PromiseOutcome::Fulfilled => SettledModel::Finished,
            PromiseOutcome::Rejected(message) => SettledModel::Failed(message@),
        },
{
    match outcome {
        PromiseOutcome::Pending => {
            if idle_count > since_idle {
                Settled::Finished
            } else {
                Settled::Wait
            }
        },
        PromiseOutcome::Fulfilled => Settled::Finished,
        PromiseOutcome::Rejected(message) => Settled::Failed(message),
    }
}

/// The error of a dispatch whose promise was rejected.
pub fn rejected(resource: &str, message: String) -> (error: ScriptError)
    ensures
        error@ == failed(resource@, "<dispatch>"@, message@),
{
    ScriptError::Execute {
        resource: resource.to_owned(),
        script: "<dispatch>".to_owned(),
        message,
    }
}

// --- the database ---

/// The parameters of a query: a JSON array, and none where the text is no array.
pub fn db_params(params_json: &str) -> (params: Vec<Json>)
    ensures
        models(params@) == match json_array(params_json@) {
            Ok(items) => items,
            Err(_) => Seq::empty(),
        },
{
    match parse_array(params_json) {
        Ok(items) => items,
        Err(_) => {
            let none: Vec<Json> = Vec::new();
            assert(models(none@) =~= Seq::empty());
            none
        },
    }
}

/// What a script gets for a query: an id to collect it by, or what went wrong. Without a
/// database it is told why, rather than handed an empty result it would read as no rows.
pub fn db_submitted(submitted: Option<Result<u64, String>>) -> (answer: (
    Option<u64>,
    Option<String>,
))
    ensures
        answer.0 == match submitted {
            Some(Ok(id)) => Some(id),
            _ => None,
        },
        crate::state_bag::optional(answer.1) == match submitted {
            Some(Ok(_)) => None,
            Some(Err(message)) => Some(message@),
            None => Some("the db module is disabled — add \"db\" to [modules] enable"@),
        },
{
    match submitted {
        Some(Ok(id)) => (Some(id), None),
        Some(Err(message)) => (None, Some(message)),
        None => (
            None,
            Some("the db module is disabled — add \"db\" to [modules] enable".to_owned()),
        ),
    }
}

/// What a script gets when it collects a query: whether it is ready, and the JSON text. A
/// query that legitimately returns nothing must not read as still running.
pub fn db_collected(collected: Option<Option<Result<String, String>>>) -> (answer: (bool, String))
    ensures
        answer.0 == !(collected == Some(None::<Result<String, String>>)),
        answer.1@ == match collected {
            None => error_json("db module disabled"@),
            Some(None) => Seq::empty(),
            Some(Some(Ok(value))) => value@,
            Some(Some(Err(message))) => error_json(message@),
        },
{
    match collected {
        None => (true, print_error("db module disabled")),
        Some(None) => {
            let nothing = String::new();
            assert(nothing@ =~= Seq::empty());
            (false, nothing)
        },
        Some(Some(Ok(value))) => (true, value),
        Some(Some(Err(message))) => (true, print_error(message.as_str())),
    }
}

} // verus!
