//! How values are read: the arguments of natives, console variables, and what is written
//! as JSON or text.
use crate::args::{
    arg_any, arg_bool, arg_handle, arg_i64, arg_netid, arg_real, arg_target, arg_text,
};
use crate::cfx_lua::{is_space, trim, trim_end, trim_start};
use crate::console::{lines_text, logged};
use crate::convars::{affirmative, convar, convar_int};
use crate::deferrals::{changed, decided, pending, DeferralModel};
use crate::http_bridge::{next_token, request_of};
use crate::http_handler::{header_value, headers_of, next_id, separated, status_of};
use crate::json::{comma_separated, json_array, json_float, json_text, member_of, JsonModel};
use crate::natives::{hash_upto, latin1, rage_hash};
use crate::net_bridge::{net_sent, EventTarget, NetModel, OutboundModel};
use crate::routing::{lockdown_of, RoutingLockdownMode};
use crate::text::{
    ascii_lower, ascii_upper, decimal, decimal_int, decimal_int_reads_back, decimal_reads_back,
};
use vstd::prelude::*;

verus! {

// --- arguments ---

/// A missing argument counts as nothing: an empty text, zero, no, or null.
pub proof fn a_missing_argument_is_neutral(args: Seq<JsonModel>, i: int)
    requires
        i < 0 || i >= args.len(),
    ensures
        arg_text(args, i).len() == 0,
        arg_i64(args, i) == 0,
        arg_handle(args, i) == 0,
        arg_netid(args, i) == 0,
        !arg_bool(args, i),
        arg_real(args, i) == "0.0"@,
        arg_target(args, i) == EventTarget::One(0),
        arg_any(args, i) == JsonModel::Null,
{
    assert((0i64 as u32) == 0u32) by (bit_vector);
}

/// An argument of the wrong kind counts as nothing too: what is no text has no letters,
/// and what is no number is zero.
pub proof fn an_unsuitable_argument_is_neutral(args: Seq<JsonModel>, i: int)
    requires
        0 <= i < args.len(),
    ensures
        !(args[i] is Text) ==> arg_text(args, i).len() == 0,
        args[i] is Null || args[i] is Bool || args[i] is Nested ==> arg_i64(args, i) == 0
            && arg_handle(args, i) == 0 && arg_netid(args, i) == 0 && arg_real(args, i) == "0.0"@
            && arg_target(args, i) == EventTarget::One(0),
        args[i] is Text || args[i] is Real ==> arg_i64(args, i) == 0 && !arg_bool(args, i),
        args[i] is Text ==> arg_real(args, i) == "0.0"@,
        args[i] is Signed || args[i] is Real ==> arg_netid(args, i) == 0,
        args[i] is Null || args[i] is Nested ==> !arg_bool(args, i),
        arg_any(args, i) == args[i],
{
    assert((0i64 as u32) == 0u32) by (bit_vector);
}

/// A text argument is read letter by letter, a flag as it is set, and a real number as it
/// is written.
pub proof fn a_suitable_argument_is_read(args: Seq<JsonModel>, i: int)
    requires
        0 <= i < args.len(),
    ensures
        args[i] matches JsonModel::Text(s) ==> arg_text(args, i) == s,
        args[i] matches JsonModel::Bool(b) ==> arg_bool(args, i) == b,
        args[i] matches JsonModel::Real(s) ==> arg_real(args, i) == s,
        args[i] matches JsonModel::Signed(n) ==> arg_i64(args, i) == n && arg_bool(args, i) == (n
            != 0) && arg_real(args, i) == json_float(decimal_int(n as int)),
        args[i] matches JsonModel::Unsigned(n) ==> {
            &&& n <= 0x7fff_ffff_ffff_ffff ==> arg_i64(args, i) == n && arg_bool(args, i) == (n
                != 0)
            &&& n > 0x7fff_ffff_ffff_ffff ==> arg_i64(args, i) == 0
            &&& n <= 0xffff_ffff ==> arg_handle(args, i) == n && arg_netid(args, i) == n
                && arg_target(args, i) == EventTarget::One(n as u32)
            &&& n > 0xffff_ffff ==> arg_target(args, i) == EventTarget::All
            &&& arg_real(args, i) == json_float(decimal(n as nat))
        },
        args[i] matches JsonModel::Signed(n) ==> n < 0 ==> arg_target(args, i) == EventTarget::All,
{
    if let JsonModel::Unsigned(n) = args[i] {
        if n <= 0xffff_ffff {
            assert(((n as i64) as u32) as u64 == n) by (bit_vector)
                requires
                    n <= 0xffff_ffffu64,
            ;
        }
    }
}

/// Blanks round a number.
pub open spec fn blank(s: Seq<char>) -> bool {
    forall|i: int| 0 <= i < s.len() ==> #[trigger] s[i] == ' ' || s[i] == '\t'
}

proof fn lemma_trim_start(before: Seq<char>, core: Seq<char>)
    requires
        blank(before),
        core.len() > 0,
        !is_space(core[0]),
    ensures
        trim_start(before + core) == core,
    decreases before.len(),
{
    if before.len() == 0 {
        assert(before + core =~= core);
    } else {
        let rest = before.skip(1);
        assert forall|i: int| 0 <= i < rest.len() implies #[trigger] rest[i] == ' ' || rest[i]
            == '\t' by {
            assert(rest[i] == before[i + 1]);
        }
        assert((before + core)[0] == before[0]);
        assert((before + core).skip(1) =~= rest + core);
        lemma_trim_start(rest, core);
    }
}

proof fn lemma_trim_ends(core: Seq<char>, after: Seq<char>)
    requires
        blank(after),
        core.len() > 0,
        !is_space(core.last()),
    ensures
        trim_end(core + after) == core,
    decreases after.len(),
{
    if after.len() == 0 {
        assert(core + after =~= core);
    } else {
        let rest = after.drop_last();
        assert forall|i: int| 0 <= i < rest.len() implies #[trigger] rest[i] == ' ' || rest[i]
            == '\t' by {
            assert(rest[i] == after[i]);
        }
        assert((core + after).last() == after[after.len() - 1]);
        assert((core + after).drop_last() =~= core + rest);
        lemma_trim_ends(core, rest);
    }
}

/// White space round a word is passed over.
pub proof fn blanks_are_passed_over(before: Seq<char>, core: Seq<char>, after: Seq<char>)
    requires
        blank(before),
        blank(after),
        core.len() > 0,
        !is_space(core[0]),
        !is_space(core.last()),
    ensures
        trim(before + core + after) == core,
{
    assert((before + core).last() == core.last());
    lemma_trim_ends(before + core, after);
    lemma_trim_start(before, core);
}

/// A net id is the same whether a script writes it as a number or as text, with or without
/// blanks round it; and so is the target of an event, where a negative number stands for
/// everyone.
pub proof fn numbers_may_be_written_as_text(
    args: Seq<JsonModel>,
    i: int,
    before: Seq<char>,
    n: u32,
    after: Seq<char>,
    k: i64,
)
    requires
        0 <= i < args.len(),
        blank(before),
        blank(after),
        k < 0,
    ensures
        args[i] == JsonModel::Text(before + decimal(n as nat) + after) ==> arg_netid(args, i) == n
            && arg_target(args, i) == EventTarget::One(n),
        args[i] == JsonModel::Text(before + decimal_int(k as int) + after) ==> arg_target(args, i)
            == EventTarget::All && arg_netid(args, i) == 0,
{
    decimal_reads_back(n as nat, u32::MAX as nat);
    decimal_int_reads_back(n as int, i64::MIN as int, i64::MAX as int);
    decimal_int_reads_back(k as int, i64::MIN as int, i64::MAX as int);
    let d = decimal(n as nat);
    assert(d.len() > 0);
    assert(crate::text::is_digit(d[0]) && crate::text::is_digit(d[d.len() - 1]));
    blanks_are_passed_over(before, d, after);
    let e = decimal((-k) as nat);
    decimal_reads_back((-k) as nat, (-k) as nat);
    assert(crate::text::is_digit(e[e.len() - 1]));
    let m = decimal_int(k as int);
    assert(m.last() == e.last());
    assert(m[0] == '-');
    blanks_are_passed_over(before, m, after);
}

// --- words in any case ---

/// The word is written with small or capital letters, in any mixture.
pub open spec fn spelt(word: Seq<char>, small: Seq<char>, capital: Seq<char>) -> bool {
    &&& word.len() == small.len()
    &&& forall|i: int| 0 <= i < word.len() ==> #[trigger] word[i] == small[i] || word[i]
        == capital[i]
}

pub(crate) proof fn lemma_lower(word: Seq<char>, small: Seq<char>, capital: Seq<char>)
    requires
        small.len() == capital.len(),
        forall|i: int|
            0 <= i < small.len() ==> ({
                ||| 'a' <= #[trigger] small[i] && small[i] <= 'z' && capital[i] as int + 32
                    == small[i] as int
                ||| capital[i] == small[i] && !('a' <= small[i] && small[i] <= 'z') && !('A'
                    <= small[i] && small[i] <= 'Z')
            }),
    ensures
        ascii_lower(word) == small <==> spelt(word, small, capital),
{
    if spelt(word, small, capital) {
        assert forall|i: int| 0 <= i < word.len() implies ascii_lower(word)[i] == #[trigger] small[i]
            by {
            assert(word[i] == small[i] || word[i] == capital[i]);
        }
        assert(ascii_lower(word) =~= small);
    }
    if ascii_lower(word) == small {
        assert forall|i: int| 0 <= i < word.len() implies #[trigger] word[i] == small[i] || word[i]
            == capital[i] by {
            assert(ascii_lower(word)[i] == small[i]);
        }
    }
}

/// A value means yes if it is one of four words, in whatever case it is written.
pub proof fn four_words_mean_yes(value: Seq<char>)
    ensures
        affirmative(value) <==> {
            ||| spelt(value, seq!['t', 'r', 'u', 'e'], seq!['T', 'R', 'U', 'E'])
            ||| spelt(value, seq!['y', 'e', 's'], seq!['Y', 'E', 'S'])
            ||| spelt(value, seq!['o', 'n'], seq!['O', 'N'])
            ||| value == seq!['1']
        },
{
    reveal_strlit("true");
    reveal_strlit("1");
    reveal_strlit("yes");
    reveal_strlit("on");
    assert("true"@ =~= seq!['t', 'r', 'u', 'e']);
    assert("yes"@ =~= seq!['y', 'e', 's']);
    assert("on"@ =~= seq!['o', 'n']);
    assert("1"@ =~= seq!['1']);
    lemma_lower(value, seq!['t', 'r', 'u', 'e'], seq!['T', 'R', 'U', 'E']);
    lemma_lower(value, seq!['y', 'e', 's'], seq!['Y', 'E', 'S']);
    lemma_lower(value, seq!['o', 'n'], seq!['O', 'N']);
    lemma_lower(value, seq!['1'], seq!['1']);
    if spelt(value, seq!['1'], seq!['1']) {
        assert(value =~= seq!['1']);
    }
}

/// A lockdown policy is named by its word, in whatever case; anything else names none.
pub proof fn lockdown_policies_are_named(word: Seq<char>)
    ensures
        lockdown_of(word) == Some(RoutingLockdownMode::Inactive) <==> spelt(
            word,
            "inactive"@,
            "INACTIVE"@,
        ),
        lockdown_of(word) == Some(RoutingLockdownMode::Relaxed) <==> spelt(
            word,
            "relaxed"@,
            "RELAXED"@,
        ),
        lockdown_of(word) == Some(RoutingLockdownMode::Strict) <==> spelt(
            word,
            "strict"@,
            "STRICT"@,
        ),
{
    reveal_strlit("inactive");
    reveal_strlit("relaxed");
    reveal_strlit("strict");
    reveal_strlit("INACTIVE");
    reveal_strlit("RELAXED");
    reveal_strlit("STRICT");
    assert("inactive"@ != "relaxed"@ && "inactive"@ != "strict"@ && "relaxed"@ != "strict"@) by {
        assert("inactive"@.len() == 8 && "relaxed"@.len() == 7 && "strict"@.len() == 6);
    }
    lemma_lower(word, "inactive"@, "INACTIVE"@);
    lemma_lower(word, "relaxed"@, "RELAXED"@);
    lemma_lower(word, "strict"@, "STRICT"@);
}

// --- console variables ---

/// A variable that was set is read as it was set, as a number where it spells one. One that
/// was not set, or spells none, is the default.
pub proof fn a_variable_or_its_default(
    all: Map<Seq<char>, Seq<char>>,
    name: Seq<char>,
    n: i32,
    default: i32,
    text: Seq<char>,
)
    ensures
        convar(all.insert(name, text), name, "x"@) == text,
        convar(all.remove(name), name, text) == text,
        convar_int(all.insert(name, decimal_int(n as int)), name, default) == n,
        convar_int(all.remove(name), name, default) == default,
        convar_int(all.insert(name, Seq::empty()), name, default) == default,
        text.len() > 1 && !('0' <= text.last() && text.last() <= '9') ==> convar_int(
            all.insert(name, text),
            name,
            default,
        ) == default,
{
    decimal_int_reads_back(n as int, i32::MIN as int, i32::MAX as int);
    if text.len() > 1 && !('0' <= text.last() && text.last() <= '9') {
        let body = text.skip(1);
        assert(body[body.len() - 1] == text.last());
        assert(text[text.len() - 1] == text.last());
    }
}

// --- deferrals ---

/// A connection is let in by a decision without a reason or with an empty one, and kept out
/// for the reason that was given. Only a decision that was not taken yet is taken, only of
/// the connection that it is about, and only connections that are known can be decided.
pub proof fn a_connection_is_decided(
    all: Map<u32, DeferralModel>,
    source: u32,
    reason: Option<Seq<char>>,
    other: u32,
)
    requires
        pending(all, source),
    ensures
        ({
            let after = changed(all, source, decided(all[source], reason));
            let now = after[source];
            &&& after.dom() =~= all.dom()
            &&& !pending(after, source)
            &&& reason is None ==> now.outcome == Some(Ok::<(), Seq<char>>(()))
            &&& reason is Some && reason->0.len() == 0 ==> now.outcome == Some(
                Ok::<(), Seq<char>>(()),
            )
            &&& reason is Some && reason->0.len() > 0 ==> now.outcome == Some(
                Err::<(), Seq<char>>(reason->0),
            )
            &&& now.deferred == all[source].deferred
            &&& now.kick_reason == all[source].kick_reason
            &&& now.last_update == all[source].last_update
            &&& other != source ==> after[other] == all[other]
        }),
{
}

/// A connection that nobody registered stays unknown, whatever is said of it.
pub proof fn an_unknown_connection_stays_unknown(
    all: Map<u32, DeferralModel>,
    source: u32,
    entry: DeferralModel,
)
    requires
        !all.contains_key(source),
    ensures
        changed(all, source, entry) == all,
        !pending(all, source),
{
}

// --- JSON ---

/// The items of a list are written one after the other, with commas between them.
pub proof fn lists_are_joined_by_commas(a: Seq<JsonModel>, b: Seq<JsonModel>)
    requires
        a.len() > 0,
        b.len() > 0,
    ensures
        comma_separated(a + b) == comma_separated(a) + seq![','] + comma_separated(b),
    decreases b.len(),
{
    assert((a + b).last() == b.last());
    assert((a + b).drop_last() =~= a + b.drop_last());
    if b.len() == 1 {
        assert(a + b.drop_last() =~= a);
        assert(b[0] == b.last());
    } else {
        lists_are_joined_by_commas(a, b.drop_last());
        assert(comma_separated(a + b) =~= comma_separated(a) + seq![','] + comma_separated(b));
    }
}

/// What has no letters of its own is written by its JSON word or its digits.
pub proof fn plain_values_are_written(n: u64, k: i64, s: Seq<char>)
    ensures
        json_text(JsonModel::Null) == "null"@,
        json_text(JsonModel::Bool(true)) == "true"@,
        json_text(JsonModel::Bool(false)) == "false"@,
        json_text(JsonModel::Unsigned(n)) == decimal(n as nat),
        k < 0 ==> json_text(JsonModel::Signed(k)) == seq!['-'] + decimal((-k) as nat),
        json_text(JsonModel::Real(s)) == s,
        json_text(JsonModel::Nested(s)) == s,
        comma_separated(seq![JsonModel::Real(s)]) == s,
        comma_separated(Seq::empty()).len() == 0,
{
}

/// Of several members with one name the last one counts, and a name that no member has is
/// not found.
pub proof fn the_last_member_counts(
    before: Seq<(Seq<char>, JsonModel)>,
    key: Seq<char>,
    value: JsonModel,
    after: Seq<(Seq<char>, JsonModel)>,
)
    requires
        forall|i: int| 0 <= i < after.len() ==> (#[trigger] after[i]).0 != key,
    ensures
        member_of(before.push((key, value)) + after, key) == Some(value),
        member_of(after, key) is None,
    decreases after.len(),
{
    let all = before.push((key, value)) + after;
    if after.len() == 0 {
        assert(all =~= before.push((key, value)));
    } else {
        let rest = after.drop_last();
        assert(all.drop_last() =~= before.push((key, value)) + rest);
        assert(all.last() == after[after.len() - 1]);
        assert forall|i: int| 0 <= i < rest.len() implies (#[trigger] rest[i]).0 != key by {
            assert(rest[i] == after[i]);
        }
        the_last_member_counts(before, key, value, rest);
    }
}

// --- requests over HTTP ---

/// A request needs a URL. It is a GET unless it says otherwise, and what it says is taken
/// letter by letter in capitals; its body is the text that came with it, or the JSON of
/// what else came, or nothing; its headers keep their order.
pub proof fn a_request_is_put_together(
    resource: Seq<char>,
    url: Seq<char>,
    method: Option<JsonModel>,
    data: Option<JsonModel>,
    headers: Option<Seq<(Seq<char>, JsonModel)>>,
    i: int,
)
    ensures
        request_of(resource, None, method, data, headers) is None,
        ({
            let made = request_of(resource, Some(JsonModel::Text(url)), method, data, headers);
            &&& made is Some
            &&& made->0.resource == resource
            &&& made->0.url == url
            &&& method is None ==> made->0.method == "GET"@
            &&& method matches Some(JsonModel::Text(word)) ==> {
                &&& made->0.method.len() == word.len()
                &&& 0 <= i < word.len() && 'a' <= word[i] && word[i] <= 'z'
                    ==> made->0.method[i] as int == word[i] as int - 32
                &&& 0 <= i < word.len() && !('a' <= word[i] && word[i] <= 'z')
                    ==> made->0.method[i] == word[i]
            }
            &&& data is None ==> made->0.body.len() == 0
            &&& data matches Some(JsonModel::Text(text)) ==> made->0.body == text
            &&& data is Some && !(data->0 is Text) ==> made->0.body == json_text(data->0)
            &&& headers is None ==> made->0.headers.len() == 0
            &&& headers matches Some(pairs) ==> {
                &&& made->0.headers.len() == pairs.len()
                &&& 0 <= i < pairs.len() ==> made->0.headers[i].0 == pairs[i].0
                &&& 0 <= i < pairs.len() && pairs[i].1 is Text ==> Some(made->0.headers[i].1)
                    == match pairs[i].1 {
                    JsonModel::Text(text) => Some(text),
                    _ => None,
                }
                &&& 0 <= i < pairs.len() && !(pairs[i].1 is Text) ==> made->0.headers[i].1
                    == json_text(pairs[i].1)
            }
        }),
{
    reveal_strlit("GET");
    assert(ascii_upper("GET"@) =~= "GET"@);
}

/// Anything but a text is no URL.
pub proof fn only_a_text_is_a_url(
    resource: Seq<char>,
    url: JsonModel,
    method: Option<JsonModel>,
    data: Option<JsonModel>,
    headers: Option<Seq<(Seq<char>, JsonModel)>>,
)
    requires
        !(url is Text),
    ensures
        request_of(resource, Some(url), method, data, headers) is None,
{
}

/// Tokens and ids count up by one and never reach zero; a status that is none is an error
/// of the server.
pub proof fn ids_count_up(token: u32, status: u32)
    ensures
        token < 0xffff_ffff ==> next_token(token) == token + 1 && next_id(token) == token + 1,
        next_token(0xffff_ffff) == 1 && next_id(0xffff_ffff) == 1,
        status <= 0xffff ==> status_of(status) == status,
        status > 0xffff ==> status_of(status) == 500,
{
}

/// The values of a header that has several are written one after the other, with commas
/// and blanks between them.
pub proof fn header_values_are_joined(a: Seq<Seq<char>>, b: Seq<Seq<char>>, one: Seq<char>)
    requires
        a.len() > 0,
        b.len() > 0,
    ensures
        separated(a + b) == separated(a) + ", "@ + separated(b),
        separated(seq![one]) == one,
        separated(Seq::empty()).len() == 0,
    decreases b.len(),
{
    assert((a + b).last() == b.last());
    assert((a + b).drop_last() =~= a + b.drop_last());
    if b.len() == 1 {
        assert(a + b.drop_last() =~= a);
        assert(b[0] == b.last());
    } else {
        header_values_are_joined(a, b.drop_last(), one);
        assert(separated(a + b) =~= separated(a) + ", "@ + separated(b));
    }
}

/// A header is taken with its name; a text as it is, a list joined, anything else by its
/// JSON.
pub proof fn headers_keep_their_names(pairs: Seq<(Seq<char>, JsonModel)>, i: int)
    requires
        0 <= i < pairs.len(),
    ensures
        headers_of(Some(pairs)).len() == pairs.len(),
        headers_of(Some(pairs))[i].0 == pairs[i].0,
        headers_of(Some(pairs))[i].1 == header_value(pairs[i].1),
        headers_of(None).len() == 0,
        pairs[i].1 matches JsonModel::Text(text) ==> headers_of(Some(pairs))[i].1 == text,
        pairs[i].1 matches JsonModel::Unsigned(n) ==> headers_of(Some(pairs))[i].1 == decimal(
            n as nat,
        ),
        pairs[i].1 matches JsonModel::Nested(text) ==> json_array(text) is Err ==> headers_of(
            Some(pairs),
        )[i].1 == text,
{
}

// --- queues of text ---

/// A message to the gateway waits behind those that were there, as long as there is a
/// gateway and fewer than 2048 wait; otherwise it is dropped and the others stay.
pub proof fn messages_wait_in_order(m: NetModel, message: OutboundModel)
    ensures
        net_sent(m, message).open == m.open,
        m.open && m.queue.len() < 2048 ==> net_sent(m, message).queue == m.queue.push(message),
        !m.open || m.queue.len() >= 2048 ==> net_sent(m, message).queue == m.queue,
{
}

/// The console keeps the last 512 lines.
pub proof fn the_console_keeps_its_last_lines(lines: Seq<Seq<char>>, line: Seq<char>)
    ensures
        lines.len() < 512 ==> logged(lines, line) == lines.push(line),
        lines.len() == 512 ==> logged(lines, line) == lines.subrange(1, 512).push(line),
{
    if lines.len() == 512 {
        assert(lines.skip(1) =~= lines.subrange(1, 512));
    }
}

/// The lines of the console are handed out oldest first, one to a line.
pub proof fn lines_are_put_below_each_other(a: Seq<Seq<char>>, b: Seq<Seq<char>>, one: Seq<char>)
    requires
        a.len() > 0,
        b.len() > 0,
    ensures
        lines_text(a + b) == lines_text(a) + seq!['\n'] + lines_text(b),
        lines_text(seq![one]) == one,
        lines_text(Seq::empty()).len() == 0,
    decreases b.len(),
{
    reveal_strlit("\n");
    assert("\n"@ =~= seq!['\n']);
    assert((a + b).last() == b.last());
    assert((a + b).drop_last() =~= a + b.drop_last());
    if b.len() == 1 {
        assert(a + b.drop_last() =~= a);
        assert(b[0] == b.last());
    } else {
        lines_are_put_below_each_other(a, b.drop_last(), one);
        assert(lines_text(a + b) =~= lines_text(a) + seq!['\n'] + lines_text(b));
    }
}

/// A packed payload is taken byte by byte; what fits no byte is left out.
pub proof fn payloads_are_taken_by_the_byte(a: Seq<char>, c: char)
    ensures
        latin1(Seq::empty()).len() == 0,
        c as u32 <= 0xff ==> latin1(a.push(c)).len() == latin1(a).len() + 1 && latin1(
            a.push(c),
        ).last() as int == c as int,
        c as u32 > 0xff ==> latin1(a.push(c)) == latin1(a),
        forall|i: int| 0 <= i < latin1(a).len() ==> latin1(a.push(c))[i] == #[trigger] latin1(a)[i],
{
    assert(a.push(c).drop_last() =~= a);
}

// --- the hash of names ---

proof fn lemma_shifted_sum(x: u32)
    by (bit_vector)
    ensures
        (x << 10u32) % 1024u32 == 0u32,
        (x << 10u32) / 1024u32 == x % 0x40_0000u32,
        (x << 3u32) % 8u32 == 0u32,
        (x << 3u32) / 8u32 == x % 0x2000_0000u32,
        (x << 15u32) % 32768u32 == 0u32,
        (x << 15u32) / 32768u32 == x % 0x2_0000u32,
        (x >> 6u32) == x / 64u32,
        (x >> 11u32) == x / 2048u32,
{
}

/// The hash of a text takes in its bytes one by one: each is added, the sum multiplied by
/// 1025, and its upper bits laid over it.
#[verifier::spinoff_prover]
#[verifier::rlimit(40)]
pub proof fn a_hash_takes_in_each_byte(bytes: Seq<u8>, n: int)
    requires
        0 <= n < bytes.len(),
    ensures
        hash_upto(bytes, 0) == 0,
        ({
            let sum = (hash_upto(bytes, n) + bytes[n]) % 0x1_0000_0000;
            let mixed = ((sum * 1025) % 0x1_0000_0000) as u32;
            hash_upto(bytes, n + 1) == mixed ^ (mixed / 64)
        }),
{
    let h = hash_upto(bytes, n);
    let a = h.wrapping_add(bytes[n] as u32);
    assert(a == (h + bytes[n]) % 0x1_0000_0000);
    lemma_shifted_sum(a);
    let b = a.wrapping_add(a << 10u32);
    assert(b == (a * 1025) % 0x1_0000_0000);
    lemma_shifted_sum(b);
}

/// The hash of a text is that of its bytes, multiplied by nine, with its upper bits laid
/// over it, and multiplied by 32769.
#[verifier::spinoff_prover]
#[verifier::rlimit(40)]
pub proof fn a_hash_is_mixed_at_the_end(text: Seq<char>)
    ensures
        ({
            let bytes = vstd::utf8::encode_utf8(text);
            let taken = hash_upto(bytes, bytes.len() as int);
            let nine = ((taken * 9) % 0x1_0000_0000) as u32;
            let mixed = nine ^ (nine / 2048);
            rage_hash(text) == (mixed * 32769) % 0x1_0000_0000
        }),
{
    let bytes = vstd::utf8::encode_utf8(text);
    let a = hash_upto(bytes, bytes.len() as int);
    lemma_times_nine(a);
    let b = a.wrapping_add(a << 3u32);
    lemma_shifted_sum(b);
    lemma_times_32769(b ^ (b >> 11u32));
}

proof fn lemma_wraps(a: int, b: int, q: int)
    requires
        0 <= a < 0x1_0000_0000,
        0 <= b < 0x1_0000_0000,
    ensures
        (q * 0x1_0000_0000 + (a + b)) % 0x1_0000_0000 == if a + b >= 0x1_0000_0000 {
            a + b - 0x1_0000_0000
        } else {
            a + b
        },
{
    if a + b >= 0x1_0000_0000 {
        vstd::arithmetic::div_mod::lemma_fundamental_div_mod_converse(
            q * 0x1_0000_0000 + (a + b),
            0x1_0000_0000,
            q + 1,
            a + b - 0x1_0000_0000,
        );
    } else {
        vstd::arithmetic::div_mod::lemma_fundamental_div_mod_converse(
            q * 0x1_0000_0000 + (a + b),
            0x1_0000_0000,
            q,
            a + b,
        );
    }
}

#[verifier::spinoff_prover]
#[verifier::rlimit(40)]
proof fn lemma_times_nine(x: u32)
    ensures
        x.wrapping_add(x << 3u32) == (x * 9) % 0x1_0000_0000,
{
    lemma_shifted_sum(x);
    let r = x % 0x2000_0000;
    let q = x / 0x2000_0000;
    assert(x == q * 0x2000_0000 + r);
    assert((x << 3u32) == 8 * r);
    lemma_wraps(x as int, 8 * r as int, q as int);
}

#[verifier::spinoff_prover]
#[verifier::rlimit(40)]
proof fn lemma_times_32769(x: u32)
    ensures
        x.wrapping_add(x << 15u32) == (x * 32769) % 0x1_0000_0000,
{
    lemma_shifted_sum(x);
    let r = x % 0x2_0000;
    let q = x / 0x2_0000;
    assert(x == q * 0x2_0000 + r);
    assert((x << 15u32) == 32768 * r);
    lemma_wraps(x as int, 32768 * r as int, q as int);
}

} // verus!
