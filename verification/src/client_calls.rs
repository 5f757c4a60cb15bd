//! Native calls from the server to one client that wait for an answer.
//!
//! A runtime with an event loop awaits the answer; a runtime without one keeps the call
//! in [`ClientCalls`] and the script polls it from a coroutine.
use crate::json::{json_array, json_quoted, models, parse_array, quote, Json, JsonModel};
use crate::natives::{Natives, NativesModel};
use crate::net_bridge::{net_sent, net_takes};
use crate::observability::{
    after_roundtrip, hash_label, hex_digit, hex_digits, print_hash, Moment, NativeRoundtrip,
    ObsModel, Observability, RoundtripModel,
};
use crate::resource_control::ResourceControl;
use crate::routing::{bumped, RoutingControl};
use crate::rpc::{call_message, queue_native_call};
use crate::text::{chars_of, joined, joined3};
use std::collections::BTreeMap;
use vstd::prelude::*;
use vstd::string::StringExecFns;

verus! {

/// How long a native call to a client may wait for its result, in milliseconds. Low
/// enough to bound what a slow or hostile client can hold up, but above realistic round
/// trips, so that legitimate results are not dropped.
pub const NATIVE_CALL_TIMEOUT_MS: u64 = 1000;

// --- hashes ---

/// Why a text is no hash.
#[derive(Debug, Clone, Copy, PartialEq, Eq, Structural)]
pub enum HashFault {
    Empty,
    InvalidDigit,
    TooLarge,
}

pub open spec fn fault_text(fault: HashFault) -> Seq<char> {
    match fault {
        HashFault::Empty => "cannot parse integer from empty string"@,
        HashFault::InvalidDigit => "invalid digit found in string"@,
        HashFault::TooLarge => "number too large to fit in target type"@,
    }
}

impl HashFault {
    pub fn message(self) -> (text: &'static str)
        ensures
            text@ == fault_text(self),
    {
        match self {
            HashFault::Empty => "cannot parse integer from empty string",
            HashFault::InvalidDigit => "invalid digit found in string",
            HashFault::TooLarge => "number too large to fit in target type",
        }
    }
}

/// The value of a hexadecimal digit.
pub open spec fn nibble(c: char) -> Option<u64> {
    if '0' <= c && c <= '9' {
        Some((c as u64 - 48) as u64)
    } else if 'a' <= c && c <= 'f' {
        Some((c as u64 - 87) as u64)
    } else if 'A' <= c && c <= 'F' {
        Some((c as u64 - 55) as u64)
    } else {
        None
    }
}

/// The number that hexadecimal digits continue; the first thing wrong with them counts.
pub open spec fn hex_value(digits: Seq<char>, so_far: u64) -> Result<u64, HashFault>
    decreases digits.len(),
{
    if digits.len() == 0 {
        Ok(so_far)
    } else {
        match nibble(digits[0]) {
            None => Err(HashFault::InvalidDigit),
            Some(d) => if so_far * 16 + d > u64::MAX {
                Err(HashFault::TooLarge)
            } else {
                hex_value(digits.skip(1), (so_far * 16 + d) as u64)
            },
        }
    }
}

/// A text without the `0x` that it starts with, however often.
pub open spec fn unprefixed(text: Seq<char>) -> Seq<char>
    decreases text.len(),
{
    if text.len() >= 2 && text[0] == '0' && text[1] == 'x' {
        unprefixed(text.skip(2))
    } else {
        text
    }
}

/// The hash that a text stands for: hexadecimal, with or without `0x`.
pub open spec fn hash_of(text: Seq<char>) -> Result<u64, HashFault> {
    let body = unprefixed(text);
    if body.len() == 0 {
        Err(HashFault::Empty)
    } else if body.len() > 1 && body[0] == '+' {
        hex_value(body.skip(1), 0)
    } else {
        hex_value(body, 0)
    }
}

fn read_nibble(c: char) -> (value: Option<u64>)
    ensures
        value == nibble(c),
{
    if '0' <= c && c <= '9' {
        Some(c as u64 - 48)
    } else if 'a' <= c && c <= 'f' {
        Some(c as u64 - 87)
    } else if 'A' <= c && c <= 'F' {
        Some(c as u64 - 55)
    } else {
        None
    }
}

fn read_digits(chars: &Vec<char>, from: usize) -> (hash: Result<u64, HashFault>)
    requires
        from <= chars@.len(),
    ensures
        hash == hex_value(chars@.skip(from as int), 0),
{
    let mut hash: u64 = 0;
    let mut i: usize = from;
    while i < chars.len()
        invariant
            from <= i <= chars@.len(),
            hex_value(chars@.skip(from as int), 0) == hex_value(chars@.skip(i as int), hash),
        decreases chars@.len() - i,
    {
        assert(chars@.skip(i as int)[0] == chars@[i as int]);
        assert(chars@.skip(i as int).skip(1) =~= chars@.skip(i + 1));
        match read_nibble(chars[i]) {
            None => {
                return Err(HashFault::InvalidDigit);
            },
            Some(d) => {
                if hash > 0x0FFF_FFFF_FFFF_FFFF {
                    return Err(HashFault::TooLarge);
                }
                hash = hash * 16 + d;
            },
        }
        i = i + 1;
    }
    Ok(hash)
}

/// The hash that a text stands for: hexadecimal, with or without `0x`.
pub fn parse_hash(text: &str) -> (hash: Result<u64, HashFault>)
    ensures
        hash == hash_of(text@),
{
    let chars = chars_of(text);
    let n: usize = chars.len();
    let mut at: usize = 0;
    assert(chars@.skip(0) =~= chars@);
    while n - at >= 2 && chars[at] == '0' && chars[at + 1] == 'x'
        invariant
            n == chars@.len(),
            at <= n,
            unprefixed(chars@) == unprefixed(chars@.skip(at as int)),
        decreases n - at,
    {
        assert(chars@.skip(at as int).skip(2) =~= chars@.skip(at + 2));
        at = at + 2;
    }
    assert(unprefixed(chars@) =~= chars@.skip(at as int));
    if at == n {
        Err(HashFault::Empty)
    } else if n - at > 1 && chars[at] == '+' {
        assert(chars@.skip(at as int).skip(1) =~= chars@.skip(at + 1));
        read_digits(&chars, at + 1)
    } else {
        read_digits(&chars, at)
    }
}

// --- what a script asks for ---

/// A native call that a script asked for.
#[derive(Debug)]
pub struct ClientCall {
    pub hash: u64,
    pub args: Vec<Json>,
}

/// What is wrong with a hash.
pub open spec fn bad_hash(hash_hex: Seq<char>, fault: HashFault) -> Seq<char> {
    "invalid native hash "@ + hash_hex + ": "@ + fault_text(fault)
}

/// The call that two texts stand for, or what is wrong with them.
pub open spec fn call_of(hash_hex: Seq<char>, args: Result<Seq<JsonModel>, Seq<char>>) -> Result<
    (u64, Seq<JsonModel>),
    Seq<char>,
> {
    match hash_of(hash_hex) {
        Err(fault) => Err(bad_hash(hash_hex, fault)),
        Ok(hash) => match args {
            Ok(args) => Ok((hash, args)),
            Err(e) => Err("invalid native args: "@ + e),
        },
    }
}

/// What a call holds, or what is wrong.
pub open spec fn call_model(call: Result<ClientCall, String>) -> Result<
    (u64, Seq<JsonModel>),
    Seq<char>,
> {
    match call {
        Ok(c) => Ok((c.hash, models(c.args@))),
        Err(e) => Err(e@),
    }
}

/// Put a call together from a hash and the arguments that were read.
pub fn build_call(hash_hex: &str, args: Result<Vec<Json>, String>) -> (call: Result<
    ClientCall,
    String,
>)
    ensures
        call_model(call) == call_of(
            hash_hex@,
            match args {
                Ok(a) => Ok(models(a@)),
                Err(e) => Err(e@),
            },
        ),
{
    match parse_hash(hash_hex) {
        Err(fault) => {
            let mut text = joined3("invalid native hash ", hash_hex, ": ");
            text.append(fault.message());
            assert(text@ =~= bad_hash(hash_hex@, fault));
            Err(text)
        },
        Ok(hash) => match args {
            Ok(args) => Ok(ClientCall { hash, args }),
            Err(e) => Err(joined("invalid native args: ", e.as_str())),
        },
    }
}

/// Read a call as a script writes it: a hash in hexadecimal, and a JSON array.
pub fn read_call(hash_hex: &str, args_json: &str) -> (call: Result<ClientCall, String>)
    ensures
        call_model(call) == call_of(hash_hex@, json_array(args_json@)),
{
    build_call(hash_hex, parse_array(args_json))
}

/// How an error is handed to a script: as an object, so that it can throw.
pub open spec fn error_json(message: Seq<char>) -> Seq<char> {
    "{\"__error\":"@ + json_quoted(message) + "}"@
}

/// How an error is handed to a script.
pub fn print_error(message: &str) -> (text: String)
    ensures
        text@ == error_json(message@),
{
    joined3("{\"__error\":", quote(message).as_str(), "}")
}

// --- sending ---

/// How a call starts.
#[derive(Debug)]
pub enum Started {
    /// It did not: the message says why.
    Refused(String),
    /// It went out, and nobody waits for it.
    Sent,
    /// It went out, and the caller waits for the answer.
    Waiting(u64),
}

#[verifier::ext_equal]
pub enum StartedModel {
    Refused(Seq<char>),
    Sent,
    Waiting(u64),
}

impl View for Started {
    type V = StartedModel;

    open spec fn view(&self) -> StartedModel {
        match self {
            Started::Refused(message) => StartedModel::Refused(message@),
            Started::Sent => StartedModel::Sent,
            Started::Waiting(id) => StartedModel::Waiting(*id),
        }
    }
}

pub open spec fn bridge_refused() -> Seq<char> {
    "net bridge full or closed"@
}

/// A round trip of the calling resource.
pub open spec fn trip(
    m: NativesModel,
    hash: u64,
    source: u32,
    duration_us: u64,
    timed_out: bool,
    errored: bool,
) -> RoundtripModel {
    RoundtripModel { resource: m.resource, hash, source, duration_us, timed_out, errored }
}

/// How a call starts, and what is left behind.
pub open spec fn start_step(
    m: NativesModel,
    obs: ObsModel,
    source: u32,
    call: (u64, Seq<JsonModel>),
    verdict: Option<Seq<char>>,
    expects_return: bool,
    duration_us: u64,
    at: Moment,
) -> (NativesModel, ObsModel, StartedModel) {
    match verdict {
        Some(message) => (m, obs, StartedModel::Refused(message)),
        None => {
            let id = m.next_call;
            let sent = NativesModel {
                net: net_sent(m.net, call_message(source, id, call.0, call.1)),
                next_call: bumped(m.next_call),
                ..m
            };
            if !net_takes(m.net) {
                (
                    sent,
                    after_roundtrip(obs, trip(m, call.0, source, duration_us, false, true), at),
                    StartedModel::Refused(bridge_refused()),
                )
            } else if expects_return {
                (sent, obs, StartedModel::Waiting(id))
            } else {
                (
                    sent,
                    after_roundtrip(obs, trip(m, call.0, source, duration_us, false, false), at),
                    StartedModel::Sent,
                )
            }
        },
    }
}

impl<R: RoutingControl, C: ResourceControl> Natives<R, C> {
    /// Send a native call to `source`'s client. `verdict` is what the native registry
    /// says against the call: a bogus hash or arity must not reach a client.
    pub fn start_client_call(
        &mut self,
        observability: &mut Observability,
        source: u32,
        call: &ClientCall,
        verdict: Option<String>,
        expects_return: bool,
        duration_us: u64,
        at: Moment,
    ) -> (started: Started)
        requires
            old(self).wf(),
            old(observability).wf(),
        ensures
            final(self).wf(),
            final(observability).wf(),
            (final(self)@, final(observability)@, started@) == start_step(
                old(self)@,
                old(observability)@,
                source,
                (call.hash, models(call.args@)),
                crate::state_bag::optional(verdict),
                expects_return,
                duration_us,
                at,
            ),
    {
        if let Some(message) = verdict {
            return Started::Refused(message);
        }
        let id: u64 = self.next_call;
        let sent = queue_native_call(&mut self.net, source, id, call.hash, &call.args);
        self.next_call = if id == u64::MAX {
            0
        } else {
            id + 1
        };
        if sent && expects_return {
            return Started::Waiting(id);
        }
        let roundtrip = NativeRoundtrip {
            resource: self.resource.clone(),
            hash: call.hash,
            source,
            duration_us,
            timed_out: false,
            errored: !sent,
        };
        observability.record_native_roundtrip(&roundtrip, at);
        if sent {
            Started::Sent
        } else {
            Started::Refused("net bridge full or closed".to_owned())
        }
    }
}

/// How an awaited call ends.
#[derive(Debug)]
pub enum CallOutcome {
    /// The client answered with this JSON text.
    Answered(String),
    /// Nobody can answer any more.
    Closed,
    TimedOut,
}

#[verifier::ext_equal]
pub enum OutcomeModel {
    Answered(Seq<char>),
    Closed,
    TimedOut,
}

impl View for CallOutcome {
    type V = OutcomeModel;

    open spec fn view(&self) -> OutcomeModel {
        match self {
            CallOutcome::Answered(value) => OutcomeModel::Answered(value@),
            CallOutcome::Closed => OutcomeModel::Closed,
            CallOutcome::TimedOut => OutcomeModel::TimedOut,
        }
    }
}

/// What the script gets from an awaited call.
pub open spec fn outcome_text(hash: u64, outcome: OutcomeModel) -> Seq<char> {
    match outcome {
        OutcomeModel::Answered(value) => value,
        OutcomeModel::Closed => error_json("native result channel closed"@),
        OutcomeModel::TimedOut => error_json("native call "@ + hash_label(hash) + " timed out"@),
    }
}

/// Settle an awaited call: what the script gets, and what is measured.
pub fn settle_client_call(
    observability: &mut Observability,
    resource: &str,
    source: u32,
    hash: u64,
    outcome: CallOutcome,
    duration_us: u64,
    at: Moment,
) -> (text: String)
    requires
        old(observability).wf(),
    ensures
        final(observability).wf(),
        text@ == outcome_text(hash, outcome@),
        final(observability)@ == after_roundtrip(
            old(observability)@,
            RoundtripModel {
                resource: resource@,
                hash,
                source,
                duration_us,
                timed_out: outcome is TimedOut,
                errored: !(outcome is Answered),
            },
            at,
        ),
{
    let (text, timed_out, errored) = match outcome {
        CallOutcome::Answered(value) => (value, false, false),
        CallOutcome::Closed => (print_error("native result channel closed"), false, true),
        CallOutcome::TimedOut => {
            let message = joined3("native call ", print_hash(hash).as_str(), " timed out");
            (print_error(message.as_str()), true, true)
        },
    };
    let roundtrip = NativeRoundtrip {
        resource: resource.to_owned(),
        hash,
        source,
        duration_us,
        timed_out,
        errored,
    };
    observability.record_native_roundtrip(&roundtrip, at);
    text
}

// --- polling ---

/// A call whose answer a script polls for.
#[derive(Debug, Clone, Copy)]
pub struct PendingClientNative {
    pub started_us: u64,
    pub hash: u64,
    pub source: u32,
}

/// What has come in for a call.
#[derive(Debug)]
pub enum Arrival {
    /// The client answered with this JSON text.
    Answered(String),
    /// Nothing yet.
    Nothing,
    /// Nobody can answer any more.
    Closed,
}

/// The calls that a runtime is waiting on.
#[derive(Debug)]
pub struct ClientCalls {
    pending: BTreeMap<u64, PendingClientNative>,
}

impl View for ClientCalls {
    type V = Map<u64, PendingClientNative>;

    closed spec fn view(&self) -> Map<u64, PendingClientNative> {
        self.pending@
    }
}

/// The microseconds since a call went out.
pub open spec fn waited_us(call: PendingClientNative, now_us: u64) -> u64 {
    if now_us < call.started_us {
        0
    } else {
        (now_us - call.started_us) as u64
    }
}

/// Whether a call has had its time.
pub open spec fn overdue(call: PendingClientNative, now_us: u64) -> bool {
    waited_us(call, now_us) >= NATIVE_CALL_TIMEOUT_MS * 1000
}

/// What a poll answers; nothing where the call is still in flight.
pub open spec fn poll_answer(
    pending: Map<u64, PendingClientNative>,
    id: u64,
    arrival: Arrival,
    now_us: u64,
) -> Option<Seq<char>> {
    if !pending.contains_key(id) {
        Some(error_json("unknown native call"@))
    } else {
        match arrival {
            Arrival::Answered(value) => Some(value@),
            Arrival::Nothing => if overdue(pending[id], now_us) {
                Some(error_json("client did not answer in time"@))
            } else {
                None
            },
            Arrival::Closed => Some(error_json("native result channel closed"@)),
        }
    }
}

/// Whether a poll ends a call.
pub open spec fn poll_ends(
    pending: Map<u64, PendingClientNative>,
    id: u64,
    arrival: Arrival,
    now_us: u64,
) -> bool {
    pending.contains_key(id) && (arrival is Nothing ==> overdue(pending[id], now_us))
}

impl ClientCalls {
    pub fn new() -> (calls: Self)
        ensures
            calls@ == Map::<u64, PendingClientNative>::empty(),
    {
        ClientCalls { pending: BTreeMap::new() }
    }

    /// Wait for the answer to a call that went out.
    pub fn wait_for(&mut self, id: u64, call: PendingClientNative)
        ensures
            final(self)@ == old(self)@.insert(id, call),
    {
        self.pending.insert(id, call);
    }

    /// Look whether a call has come back; `None` means that it is still in flight, and
    /// the caller yields.
    pub fn poll(
        &mut self,
        observability: &mut Observability,
        resource: &str,
        id: u64,
        arrival: Arrival,
        at: Moment,
    ) -> (answer: Option<String>)
        requires
            old(observability).wf(),
        ensures
            final(observability).wf(),
            crate::state_bag::optional(answer) == poll_answer(
                old(self)@,
                id,
                arrival,
                at.monotonic_us,
            ),
            if poll_ends(old(self)@, id, arrival, at.monotonic_us) {
                let call = old(self)@[id];
                &&& final(self)@ == old(self)@.remove(id)
                &&& final(observability)@ == after_roundtrip(
                    old(observability)@,
                    RoundtripModel {
                        resource: resource@,
                        hash: call.hash,
                        source: call.source,
                        duration_us: waited_us(call, at.monotonic_us),
                        timed_out: !(arrival is Answered),
                        errored: !(arrival is Answered),
                    },
                    at,
                )
            } else {
                final(self)@ == old(self)@ && final(observability)@ == old(observability)@
            },
    {
        let call: PendingClientNative = match self.pending.get(&id) {
            None => {
                // Already collected, or never registered.
                return Some(print_error("unknown native call"));
            },
            Some(call) => *call,
        };
        let waited: u64 = if at.monotonic_us < call.started_us {
            0
        } else {
            at.monotonic_us - call.started_us
        };
        let (answer, failed) = match arrival {
            Arrival::Answered(value) => (value, false),
            Arrival::Nothing => {
                if waited < NATIVE_CALL_TIMEOUT_MS * 1000 {
                    return None;
                }
                (print_error("client did not answer in time"), true)
            },
            Arrival::Closed => (print_error("native result channel closed"), true),
        };
        self.pending.remove(&id);
        let roundtrip = NativeRoundtrip {
            resource: resource.to_owned(),
            hash: call.hash,
            source: call.source,
            duration_us: waited,
            timed_out: failed,
            errored: failed,
        };
        observability.record_native_roundtrip(&roundtrip, at);
        Some(answer)
    }
}

// --- the call as a script makes it ---

/// What a script that awaits a call gets at once.
#[derive(Debug)]
pub enum Invoked {
    /// The JSON text it gets; an object with an error, so that it can throw.
    Done(String),
    /// The answer to this call.
    Await(u64),
}

#[verifier::ext_equal]
pub enum InvokedModel {
    Done(Seq<char>),
    Await(u64),
}

impl View for Invoked {
    type V = InvokedModel;

    open spec fn view(&self) -> InvokedModel {
        match self {
            Invoked::Done(text) => InvokedModel::Done(text@),
            Invoked::Await(id) => InvokedModel::Await(*id),
        }
    }
}

/// What a script that awaits a call gets at once, from how the call started.
pub open spec fn invoked_of(started: StartedModel) -> InvokedModel {
    match started {
        StartedModel::Refused(message) => InvokedModel::Done(error_json(message)),
        StartedModel::Sent => InvokedModel::Done("null"@),
        StartedModel::Waiting(id) => InvokedModel::Await(id),
    }
}

/// What a script that polls for a call gets: the id to poll for, or what went wrong.
pub open spec fn polled_of(started: StartedModel) -> (Option<u64>, Option<Seq<char>>) {
    match started {
        StartedModel::Refused(message) => (None, Some(message)),
        StartedModel::Sent => (None, None),
        StartedModel::Waiting(id) => (Some(id), None),
    }
}

/// How a call starts that a script wrote down, and what is left behind: one that cannot
/// be read leaves everything as it was.
pub open spec fn invoke_step(
    m: NativesModel,
    obs: ObsModel,
    source: u32,
    call: Result<(u64, Seq<JsonModel>), Seq<char>>,
    verdict: Option<Seq<char>>,
    expects_return: bool,
    duration_us: u64,
    at: Moment,
) -> (NativesModel, ObsModel, StartedModel) {
    match call {
        Err(message) => (m, obs, StartedModel::Refused(message)),
        Ok(call) => start_step(m, obs, source, call, verdict, expects_return, duration_us, at),
    }
}

impl<R: RoutingControl, C: ResourceControl> Natives<R, C> {
    /// Send a native call to a client for a script that awaits it. `call` is what
    /// [`read_call`] made of the script's texts, and `verdict` what the native registry
    /// says against it.
    pub fn invoke_native_on_client(
        &mut self,
        observability: &mut Observability,
        source: u32,
        call: Result<ClientCall, String>,
        verdict: Option<String>,
        expects_return: bool,
        duration_us: u64,
        at: Moment,
    ) -> (invoked: Invoked)
        requires
            old(self).wf(),
            old(observability).wf(),
        ensures
            final(self).wf(),
            final(observability).wf(),
            ({
                let step = invoke_step(
                    old(self)@,
                    old(observability)@,
                    source,
                    call_model(call),
                    crate::state_bag::optional(verdict),
                    expects_return,
                    duration_us,
                    at,
                );
                (final(self)@, final(observability)@, invoked@) == (
                    step.0,
                    step.1,
                    invoked_of(step.2),
                )
            }),
    {
        match call {
            Err(message) => Invoked::Done(print_error(message.as_str())),
            Ok(call) => match self.start_client_call(
                observability,
                source,
                &call,
                verdict,
                expects_return,
                duration_us,
                at,
            ) {
                Started::Refused(message) => Invoked::Done(print_error(message.as_str())),
                Started::Sent => Invoked::Done("null".to_owned()),
                Started::Waiting(id) => Invoked::Await(id),
            },
        }
    }

    /// Send a native call to a client for a script that polls for the answer. A script
    /// that cannot await would otherwise stop the very loop that delivers the answer.
    pub fn invoke_client_native(
        &mut self,
        calls: &mut ClientCalls,
        observability: &mut Observability,
        source: u32,
        call: Result<ClientCall, String>,
        verdict: Option<String>,
        expects_return: bool,
        duration_us: u64,
        at: Moment,
    ) -> (answer: (Option<u64>, Option<String>))
        requires
            old(self).wf(),
            old(observability).wf(),
        ensures
            final(self).wf(),
            final(observability).wf(),
            ({
                let step = invoke_step(
                    old(self)@,
                    old(observability)@,
                    source,
                    call_model(call),
                    crate::state_bag::optional(verdict),
                    expects_return,
                    duration_us,
                    at,
                );
                &&& (final(self)@, final(observability)@) == (step.0, step.1)
                &&& (answer.0, crate::state_bag::optional(answer.1)) == polled_of(step.2)
                &&& final(calls)@ == match (call, step.2) {
                    (Ok(c), StartedModel::Waiting(id)) => old(calls)@.insert(
                        id,
                        PendingClientNative { started_us: at.monotonic_us, hash: c.hash, source },
                    ),
                    _ => old(calls)@,
                }
            }),
    {
        match call {
            Err(message) => (None, Some(message)),
            Ok(call) => match self.start_client_call(
                observability,
                source,
                &call,
                verdict,
                expects_return,
                duration_us,
                at,
            ) {
                Started::Refused(message) => (None, Some(message)),
                Started::Sent => (None, None),
                Started::Waiting(id) => {
                    calls.wait_for(
                        id,
                        PendingClientNative { started_us: at.monotonic_us, hash: call.hash, source },
                    );
                    (Some(id), None)
                },
            },
        }
    }
}

/// No call waits for ever: once its time is over, a poll answers whatever has come in,
/// and the call is gone.
pub proof fn every_call_ends(
    pending: Map<u64, PendingClientNative>,
    id: u64,
    arrival: Arrival,
    now_us: u64,
)
    requires
        pending.contains_key(id),
        overdue(pending[id], now_us),
    ensures
        poll_answer(pending, id, arrival, now_us) is Some,
        poll_ends(pending, id, arrival, now_us),
{
}

/// The way a hash is shown is one of the ways it can be written.
pub proof fn a_shown_hash_reads_back(hash: u64)
    ensures
        hash_of(hash_label(hash)) == Ok::<u64, HashFault>(hash),
{
    reveal_strlit("0x");
    let digits = hex_digits(hash as nat, 16);
    lemma_digits(hash as nat, 16);
    reveal_with_fuel(sixteen_to, 17);
    lemma_reads(hash as nat, 16);
    assert(hash_label(hash).skip(2) =~= digits);
    assert(digits.len() == 16);
    assert(unprefixed(digits) == digits) by {
        assert(nibble(digits[1]) is Some);
    }
    assert(digits[0] != '+');
}

proof fn lemma_digits(value: nat, n: nat)
    ensures
        hex_digits(value, n).len() == n,
        forall|i: int|
            0 <= i < n ==> nibble(#[trigger] hex_digits(value, n)[i]) is Some,
    decreases n,
{
    if n > 0 {
        lemma_digits(value / 16, (n - 1) as nat);
    }
}

spec fn sixteen_to(n: nat) -> nat
    decreases n,
{
    if n == 0 {
        1
    } else {
        16 * sixteen_to((n - 1) as nat)
    }
}

pub(crate) proof fn lemma_one_more(digits: Seq<char>, c: char, so_far: u64)
    ensures
        hex_value(digits.push(c), so_far) == match hex_value(digits, so_far) {
            Ok(value) => hex_value(seq![c], value),
            Err(fault) => Err(fault),
        },
    decreases digits.len(),
{
    if digits.len() == 0 {
        assert(digits.push(c) =~= seq![c]);
    } else {
        assert(digits.push(c).skip(1) =~= digits.skip(1).push(c));
        assert(digits.push(c)[0] == digits[0]);
        if let Some(d) = nibble(digits[0]) {
            if so_far * 16 + d <= u64::MAX {
                lemma_one_more(digits.skip(1), c, (so_far * 16 + d) as u64);
            }
        }
    }
}

proof fn lemma_reads(value: nat, n: nat)
    requires
        value < sixteen_to(n),
        value <= u64::MAX,
    ensures
        hex_value(hex_digits(value, n), 0) == Ok::<u64, HashFault>(
            value as u64,
        ),
    decreases n,
{
    if n > 0 {
        lemma_reads(value / 16, (n - 1) as nat);
        let c = hex_digit((value % 16) as int);
        lemma_one_more(hex_digits(value / 16, (n - 1) as nat), c, 0);
        assert(nibble(c) == Some((value % 16) as u64));
        assert(seq![c].skip(1) =~= Seq::empty());
        assert(hex_value(seq![c].skip(1), value as u64) == Ok::<u64, HashFault>(value as u64));
    }
}

} // verus!
