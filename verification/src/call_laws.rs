//! What becomes of a native call to a client, and of what natives leave for the host to do.
use crate::bindings::{after_calls, served_id, tabbed, without_calls, without_world, world_commands};
use crate::client_calls::{
    call_of, hash_of, hex_value, invoke_step, invoked_of, lemma_one_more, outcome_text, poll_answer,
    poll_ends, polled_of, start_step, waited_us, Arrival, HashFault, InvokedModel, OutcomeModel,
    PendingClientNative, StartedModel,
};
use crate::json::{json_quoted, JsonModel};
use crate::native_state::{elapsed, ContextModel};
use crate::natives::{EffectModel, NativesModel};
use crate::net_bridge::{EventTarget, OutboundModel};
use crate::observability::{after_roundtrip, hash_label, Moment, ObsModel, RoundtripModel};
use crate::rpc::call_text;
use vstd::prelude::*;

verus! {

// --- hashes ---

/// A hash is read digit by digit: each one adds its value to sixteen times what was read.
/// What is no digit is refused, and so is what fits no hash.
pub proof fn a_hash_is_read_digit_by_digit(digits: Seq<char>, c: char, value: u64)
    requires
        hex_value(digits, 0) == Ok::<u64, HashFault>(value),
    ensures
        ({
            let digit = if '0' <= c && c <= '9' {
                c as int - '0' as int
            } else if 'a' <= c && c <= 'f' {
                c as int - 'a' as int + 10
            } else if 'A' <= c && c <= 'F' {
                c as int - 'A' as int + 10
            } else {
                -1
            };
            let read = hex_value(digits.push(c), 0);
            &&& digit < 0 ==> read == Err::<u64, HashFault>(HashFault::InvalidDigit)
            &&& digit >= 0 && value * 16 + digit <= u64::MAX ==> read == Ok::<u64, HashFault>(
                (value * 16 + digit) as u64,
            )
            &&& digit >= 0 && value * 16 + digit > u64::MAX ==> read == Err::<u64, HashFault>(
                HashFault::TooLarge,
            )
        }),
        hex_value(Seq::empty(), 0) == Ok::<u64, HashFault>(0),
{
    lemma_one_more(digits, c, 0);
    reveal_with_fuel(hex_value, 3);
    let one = seq![c];
    assert(one.skip(1) =~= Seq::empty());
}

/// A hash may be written with `0x` before it or without; nothing is no hash.
pub proof fn a_hash_may_have_a_prefix(text: Seq<char>)
    ensures
        hash_of(seq!['0', 'x'] + text) == hash_of(text),
        hash_of(Seq::empty()) == Err::<u64, HashFault>(HashFault::Empty),
        text.len() > 0 && text[0] != '0' && text[0] != '+' ==> hash_of(text) == hex_value(text, 0),
{
    let longer = seq!['0', 'x'] + text;
    assert(longer.skip(2) =~= text);
    assert(longer[0] == '0' && longer[1] == 'x');
}

/// A call whose hash or arguments cannot be read is refused with the reason; any other is
/// the hash with the arguments.
pub proof fn a_call_is_read(
    hash_hex: Seq<char>,
    args: Seq<JsonModel>,
    why: Seq<char>,
)
    ensures
        hash_of(hash_hex) matches Ok(hash) ==> call_of(hash_hex, Ok(args)) == Ok::<
            (u64, Seq<JsonModel>),
            Seq<char>,
        >((hash, args)),
        hash_of(hash_hex) is Ok ==> call_of(hash_hex, Err(why)) == Err::<
            (u64, Seq<JsonModel>),
            Seq<char>,
        >("invalid native args: "@ + why),
        hash_of(hash_hex) == Err::<u64, HashFault>(HashFault::InvalidDigit) ==> call_of(
            hash_hex,
            Ok(args),
        ) == Err::<(u64, Seq<JsonModel>), Seq<char>>(
            "invalid native hash "@ + hash_hex + ": "@ + "invalid digit found in string"@,
        ),
        hash_of(hash_hex) == Err::<u64, HashFault>(HashFault::Empty) ==> call_of(hash_hex, Ok(args))
            == Err::<(u64, Seq<JsonModel>), Seq<char>>(
            "invalid native hash "@ + hash_hex + ": "@ + "cannot parse integer from empty string"@,
        ),
{
}

// --- sending ---

/// A call that is not vetoed goes out once, to the client that it names, under the next
/// call's number, behind what already waits. Whoever wants the answer gets that number;
/// otherwise the call is booked as done. Where nothing more can wait it is refused, booked
/// as a failure, and its number is used up.
pub proof fn a_call_goes_out_once(
    m: NativesModel,
    obs: ObsModel,
    source: u32,
    hash: u64,
    args: Seq<JsonModel>,
    expects: bool,
    us: u64,
    at: Moment,
)
    requires
        m.next_call < u64::MAX,
    ensures
        ({
            let (after, books, started) = start_step(
                m,
                obs,
                source,
                (hash, args),
                None,
                expects,
                us,
                at,
            );
            let room = m.net.open && m.net.queue.len() < 2048;
            let booked = |failed: bool|
                after_roundtrip(
                    obs,
                    RoundtripModel {
                        resource: m.resource,
                        hash,
                        source,
                        duration_us: us,
                        timed_out: false,
                        errored: failed,
                    },
                    at,
                );
            &&& after.next_call == m.next_call + 1
            &&& room ==> after.net.queue == m.net.queue.push(
                OutboundModel::ClientEvent {
                    target: EventTarget::One(source),
                    event: "__baston:invokeNative"@,
                    args_json: call_text(m.next_call, hash, args),
                },
            )
            &&& !room ==> after.net == m.net
            &&& room && expects ==> started == StartedModel::Waiting(m.next_call) && books == obs
            &&& room && !expects ==> started == StartedModel::Sent && books == booked(false)
            &&& !room ==> started == StartedModel::Refused("net bridge full or closed"@) && books
                == booked(true)
            &&& after == (NativesModel { net: after.net, next_call: after.next_call, ..m })
        }),
{
}

/// A call that is vetoed, or that could not be read, is refused with the reason and leaves
/// no trace.
pub proof fn a_refused_call_leaves_no_trace(
    m: NativesModel,
    obs: ObsModel,
    source: u32,
    call: (u64, Seq<JsonModel>),
    why: Seq<char>,
    expects: bool,
    us: u64,
    at: Moment,
)
    ensures
        start_step(m, obs, source, call, Some(why), expects, us, at) == (
            m,
            obs,
            StartedModel::Refused(why),
        ),
        invoke_step(m, obs, source, Err(why), None, expects, us, at) == (
            m,
            obs,
            StartedModel::Refused(why),
        ),
        invoke_step(m, obs, source, Ok(call), None, expects, us, at) == start_step(
            m,
            obs,
            source,
            call,
            None,
            expects,
            us,
            at,
        ),
{
}

/// What a call says to the client: its arguments, the hash, and the number to answer under.
pub proof fn a_call_says_what_to_invoke(id: u64, hash: u64, args: Seq<JsonModel>)
    ensures
        call_text(id, hash, args) == "[{\"args\":"@ + crate::json::json_text(
            crate::json::array_of(args),
        ) + ",\"hash\":"@ + json_quoted(hash_label(hash)) + ",\"id\":"@ + crate::text::decimal(
            id as nat,
        ) + "}]"@,
{
}

// --- answers ---

/// What a script gets that waited: the client's answer, or an error that says that the
/// connection or the time ran out, and for which native.
pub proof fn a_waiting_script_gets_an_answer(hash: u64, value: Seq<char>)
    ensures
        outcome_text(hash, OutcomeModel::Answered(value)) == value,
        outcome_text(hash, OutcomeModel::Closed) == "{\"__error\":"@ + json_quoted(
            "native result channel closed"@,
        ) + "}"@,
        outcome_text(hash, OutcomeModel::TimedOut) == "{\"__error\":"@ + json_quoted(
            "native call "@ + hash_label(hash) + " timed out"@,
        ) + "}"@,
{
}

/// A call that a script polls for is over when it is answered, when nobody can answer any
/// more, or when a second has passed; until then there is no answer. A call that nobody
/// made is an error.
pub proof fn a_polled_call_is_over_in_time(
    pending: Map<u64, PendingClientNative>,
    id: u64,
    value: String,
    now_us: u64,
)
    ensures
        !pending.contains_key(id) ==> poll_answer(pending, id, Arrival::Nothing, now_us) == Some(
            "{\"__error\":"@ + json_quoted("unknown native call"@) + "}"@,
        ) && !poll_ends(pending, id, Arrival::Nothing, now_us),
        pending.contains_key(id) ==> {
            let late = now_us >= pending[id].started_us + 1_000_000;
            &&& poll_answer(pending, id, Arrival::Answered(value), now_us) == Some(value@)
            &&& poll_ends(pending, id, Arrival::Answered(value), now_us)
            &&& poll_ends(pending, id, Arrival::Closed, now_us)
            &&& poll_answer(pending, id, Arrival::Closed, now_us) == Some(
                "{\"__error\":"@ + json_quoted("native result channel closed"@) + "}"@,
            )
            &&& poll_ends(pending, id, Arrival::Nothing, now_us) <==> late
            &&& !late ==> poll_answer(pending, id, Arrival::Nothing, now_us) is None
            &&& late ==> poll_answer(pending, id, Arrival::Nothing, now_us) == Some(
                "{\"__error\":"@ + json_quoted("client did not answer in time"@) + "}"@,
            )
            &&& now_us >= pending[id].started_us ==> waited_us(pending[id], now_us) == now_us
                - pending[id].started_us
        },
{
}

/// A refused call throws its reason, one that nobody waits for is null at once, and one
/// that is waited for is found again by its number.
pub proof fn a_started_call_is_reported(why: Seq<char>, id: u64)
    ensures
        invoked_of(StartedModel::Refused(why)) == InvokedModel::Done(
            "{\"__error\":"@ + json_quoted(why) + "}"@,
        ),
        invoked_of(StartedModel::Sent) == InvokedModel::Done("null"@),
        invoked_of(StartedModel::Waiting(id)) == InvokedModel::Await(id),
        polled_of(StartedModel::Refused(why)) == (None::<u64>, Some(why)),
        polled_of(StartedModel::Sent) == (None::<u64>, None::<Seq<char>>),
        polled_of(StartedModel::Waiting(id)) == (Some(id), None::<Seq<char>>),
{
}

// --- what is left to the host ---

/// The host takes the calls out of what natives left behind, and books each that had
/// somebody to go to, as a failure if it did not go out; everything else stays in order.
pub proof fn calls_are_taken_out_and_booked(
    obs: ObsModel,
    resource: Seq<char>,
    effects: Seq<EffectModel>,
    e: EffectModel,
    us: u64,
    at: Moment,
)
    ensures
        without_calls(Seq::empty()).len() == 0,
        e is Called ==> without_calls(effects.push(e)) == without_calls(effects),
        !(e is Called) ==> without_calls(effects.push(e)) == without_calls(effects).push(e)
            && after_calls(obs, resource, effects.push(e), us, at) == after_calls(
            obs,
            resource,
            effects,
            us,
            at,
        ),
        e matches EffectModel::Called { hash, target, outcome, .. } ==> {
            let before = after_calls(obs, resource, effects, us, at);
            let after = after_calls(obs, resource, effects.push(e), us, at);
            &&& target is None ==> after == before
            &&& target is Some ==> after == after_roundtrip(
                before,
                RoundtripModel {
                    resource,
                    hash,
                    source: target->0,
                    duration_us: us,
                    timed_out: false,
                    errored: outcome is Err,
                },
                at,
            )
        },
        after_calls(obs, resource, Seq::empty(), us, at) == obs,
{
    assert(effects.push(e).drop_last() =~= effects);
}

/// The commands to the world are handed over in the order in which they were given, each
/// once, and what is no command to the world stays.
pub proof fn world_commands_are_handed_over_in_order(
    effects: Seq<EffectModel>,
    e: EffectModel,
)
    ensures
        e matches EffectModel::World(command) ==> world_commands(effects.push(e))
            == world_commands(effects).push(command) && without_world(effects.push(e))
            == without_world(effects),
        !(e is World) ==> world_commands(effects.push(e)) == world_commands(effects)
            && without_world(effects.push(e)) == without_world(effects).push(e),
        world_commands(Seq::empty()).len() == 0 && without_world(Seq::empty()).len() == 0,
{
    assert(effects.push(e).drop_last() =~= effects);
}

/// An id is asked for only where none is held, and never handed out twice.
pub proof fn an_id_is_handed_out_once(
    held: Option<u32>,
    exhausted: bool,
    out: Seq<u32>,
    after: Option<u32>,
    out_after: Seq<u32>,
)
    requires
        served_id(held, exhausted, out, after, out_after),
    ensures
        held is Some ==> after == held && out_after == out,
        held is None && exhausted ==> after is None && out_after == out,
        held is None && !exhausted ==> after is Some && !out.contains(after->0) && out_after
            == out.push(after->0),
{
}

/// The parts of a printed line are set apart by tabs.
pub proof fn printed_parts_are_set_apart(a: Seq<Seq<char>>, b: Seq<Seq<char>>, one: Seq<char>)
    requires
        a.len() > 0,
        b.len() > 0,
    ensures
        tabbed(a + b) == tabbed(a) + seq!['\t'] + tabbed(b),
        tabbed(seq![one]) == one,
        tabbed(Seq::empty()).len() == 0,
    decreases b.len(),
{
    reveal_strlit("\t");
    assert("\t"@ =~= seq!['\t']);
    assert((a + b).last() == b.last());
    assert((a + b).drop_last() =~= a + b.drop_last());
    if b.len() == 1 {
        assert(a + b.drop_last() =~= a);
        assert(b[0] == b.last());
    } else {
        printed_parts_are_set_apart(a, b.drop_last(), one);
        assert(tabbed(a + b) =~= tabbed(a) + seq!['\t'] + tabbed(b));
    }
}

/// The game timer counts the milliseconds since the host started.
pub proof fn the_timer_counts_from_the_start(m: ContextModel, now_ms: u64)
    ensures
        now_ms >= m.host_started_ms ==> elapsed(m, now_ms) == now_ms - m.host_started_ms,
        now_ms < m.host_started_ms ==> elapsed(m, now_ms) == 0,
{
}

} // verus!
