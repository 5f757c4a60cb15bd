//! What the natives do that reach beyond entities and state bags: lifecycle commands, console
//! variables, events to clients, voice, storage, and the answers that are always the same.
use crate::args::{arg_bool, arg_handle, arg_netid, arg_real, arg_target};
use crate::entity_world::Point;
use crate::json::{array_of, JsonModel};
use crate::kvp::{flat, stored, KvpModel};
use crate::native_names::lemma_names_differ;
use crate::natives::{
    creation_step, entity_answer, kvp_step, native_step, neutral, player_step, rage_hash, rpc_step,
    script_answer, server_answer, service_step, shared_step, update_step, voice_step, EffectModel,
    NativesModel, VoiceModel,
};
use crate::net_bridge::{EventTarget, OutboundModel};
use crate::resource_control::CommandModel;
use crate::rpc::{RpcContext, SkipReason};
use crate::text::{ascii_lower, decimal_int};
use crate::value_laws::{lemma_lower, spelt};
use vstd::prelude::*;

verus! {

/// The natives that hand something to another part of the server.
pub open spec fn hands_over(name: Seq<char>) -> bool {
    ||| name == "PERFORM_HTTP_REQUEST_INTERNAL"@
    ||| name == "PERFORM_HTTP_REQUEST_INTERNAL_EX"@
    ||| name == "GET_CONSOLE_BUFFER"@
    ||| name == "TRIGGER_CLIENT_EVENT_INTERNAL"@
    ||| name == "TRIGGER_LATENT_CLIENT_EVENT_INTERNAL"@
    ||| name == "START_RESOURCE"@
    ||| name == "STOP_RESOURCE"@
    ||| name == "SCAN_RESOURCE_ROOT"@
    ||| name == "SET_GAME_TYPE"@
    ||| name == "SET_MAP_NAME"@
    ||| name == "FLAG_SERVER_AS_PRIVATE"@
    ||| name == "ENABLE_ENHANCED_HOST_SUPPORT"@
    ||| name == "GET_PASSWORD_HASH"@
}

proof fn lemma_not_shared(m: NativesModel, name: Seq<char>, args: Seq<JsonModel>)
    requires
        hands_over(name),
    ensures
        shared_step(m, name, args, m, None),
{
    lemma_names_differ();
}

proof fn lemma_no_entity(m: NativesModel, name: Seq<char>, args: Seq<JsonModel>)
    requires
        hands_over(name),
    ensures
        creation_step(m, name, args) is None,
        entity_answer(m, name, args) is None,
        update_step(m, name, args) is None,
{
    lemma_names_differ();
}

proof fn lemma_no_player(
    m: NativesModel,
    voice: Option<VoiceModel>,
    name: Seq<char>,
    args: Seq<JsonModel>,
)
    requires
        hands_over(name),
    ensures
        player_step(m, name, args) is None,
        server_answer(name, args) is None,
        voice_step(m, voice, name, args) is None,
{
    lemma_names_differ();
}

proof fn lemma_not_passed_on(m: NativesModel, name: Seq<char>, args: Seq<JsonModel>)
    requires
        hands_over(name),
    ensures
        !service_step(m, name, args, m, None),
{
    lemma_names_differ();
}

proof fn lemma_handed_over(
    m: NativesModel,
    voice: Option<VoiceModel>,
    name: Seq<char>,
    kind: Seq<char>,
    args: Seq<JsonModel>,
    after: NativesModel,
    value: JsonModel,
)
    requires
        hands_over(name),
        native_step(m, voice, name, kind, args, after, value),
    ensures
        service_step(m, name, args, after, Some(value)),
{
    lemma_not_shared(m, name, args);
    lemma_no_entity(m, name, args);
    lemma_no_player(m, voice, name, args);
    lemma_not_passed_on(m, name, args);
}

/// A script that starts, stops or scans for resources gets told whether the command was
/// accepted, and exactly an accepted command waits for the host, under the name that the
/// script gave.
pub proof fn lifecycle_commands_wait_for_the_host(
    m: NativesModel,
    voice: Option<VoiceModel>,
    name: Seq<char>,
    kind: Seq<char>,
    args: Seq<JsonModel>,
    after: NativesModel,
    value: JsonModel,
    resource: Seq<char>,
    command: CommandModel,
)
    requires
        args.len() > 0,
        args[0] == JsonModel::Text(resource),
        ({
            ||| name == "START_RESOURCE"@ && command == CommandModel::Start(resource)
            ||| name == "STOP_RESOURCE"@ && command == CommandModel::Stop(resource)
            ||| name == "SCAN_RESOURCE_ROOT"@ && command == CommandModel::ScanRoot(resource)
        }),
        native_step(m, voice, name, kind, args, after, value),
    ensures
        value == JsonModel::Bool(m.accepts),
        m.accepts ==> after.accepted == m.accepted.push(command),
        !m.accepts ==> after.accepted == m.accepted,
        after == (NativesModel { accepted: after.accepted, accepts: after.accepts, ..m }),
{
    lemma_handed_over(m, voice, name, kind, args, after, value);
    lemma_names_differ();
}

/// What a script says of the server is kept in the variable that the server list reads: the
/// game type and the map by their names, and two flags as `true` or `false`. Every other
/// variable stays.
pub proof fn the_server_is_described_by_variables(
    m: NativesModel,
    voice: Option<VoiceModel>,
    name: Seq<char>,
    kind: Seq<char>,
    args: Seq<JsonModel>,
    after: NativesModel,
    value: JsonModel,
    variable: Seq<char>,
    text: Seq<char>,
    other: Seq<char>,
)
    requires
        args.len() > 0,
        ({
            ||| name == "SET_GAME_TYPE"@ && variable == "sv_gametype"@ && args[0]
                == JsonModel::Text(text)
            ||| name == "SET_MAP_NAME"@ && variable == "sv_mapname"@ && args[0] == JsonModel::Text(
                text,
            )
            ||| name == "FLAG_SERVER_AS_PRIVATE"@ && variable == "sv_private"@ && ((args[0]
                == JsonModel::Bool(true) && text == "true"@) || (args[0] == JsonModel::Bool(false)
                && text == "false"@))
            ||| name == "ENABLE_ENHANCED_HOST_SUPPORT"@ && variable == "sv_enhancedHostSupport"@
                && ((args[0] == JsonModel::Bool(true) && text == "true"@) || (args[0]
                == JsonModel::Bool(false) && text == "false"@))
        }),
        native_step(m, voice, name, kind, args, after, value),
    ensures
        value == JsonModel::Null,
        after.convars.contains_key(variable),
        after.convars[variable] == text,
        other != variable ==> (after.convars.contains_key(other) <==> m.convars.contains_key(
            other,
        )) && after.convars[other] == m.convars[other],
        after == (NativesModel { convars: after.convars, ..m }),
{
    lemma_handed_over(m, voice, name, kind, args, after, value);
    lemma_names_differ();
}

/// An event that a script packed goes out once, to whom the second argument names, with the
/// name that the first one gives and the bytes of the third, behind what already waits.
pub proof fn a_packed_event_goes_out(
    m: NativesModel,
    voice: Option<VoiceModel>,
    name: Seq<char>,
    kind: Seq<char>,
    args: Seq<JsonModel>,
    after: NativesModel,
    value: JsonModel,
    event: Seq<char>,
    bytes: Seq<u8>,
)
    requires
        name == "TRIGGER_CLIENT_EVENT_INTERNAL"@ || name
            == "TRIGGER_LATENT_CLIENT_EVENT_INTERNAL"@,
        args.len() > 2,
        args[0] == JsonModel::Text(event),
        args[2] == JsonModel::Text(bytes.map_values(|b: u8| b as char)),
        m.net.open,
        m.net.queue.len() < 2048,
        native_step(m, voice, name, kind, args, after, value),
    ensures
        value == JsonModel::Null,
        after.net.queue == m.net.queue.push(
            OutboundModel::ClientEventRaw {
                target: arg_target(args, 1),
                event,
                payload: bytes,
            },
        ),
        after.net.open,
        after == (NativesModel { net: after.net, ..m }),
{
    lemma_handed_over(m, voice, name, kind, args, after, value);
    lemma_names_differ();
    crate::script_laws::a_packed_payload_is_forwarded_verbatim(bytes);
    assert(crate::script_laws::binary_text(bytes) =~= bytes.map_values(|b: u8| b as char));
}

/// A password hash that a script asks for verifies against the password and no native call
/// changes anything by it.
pub proof fn a_password_hash_verifies(
    m: NativesModel,
    voice: Option<VoiceModel>,
    kind: Seq<char>,
    args: Seq<JsonModel>,
    after: NativesModel,
    hash: Seq<char>,
    password: Seq<char>,
    later: Seq<JsonModel>,
    end: NativesModel,
    answer: JsonModel,
)
    requires
        args.len() > 0,
        args[0] == JsonModel::Text(password),
        native_step(
            m,
            voice,
            "GET_PASSWORD_HASH"@,
            kind,
            args,
            after,
            JsonModel::Text(hash),
        ),
        hash.len() > 0,
        later.len() > 1,
        later[0] == JsonModel::Text(password),
        later[1] == JsonModel::Text(hash),
        native_step(after, voice, "VERIFY_PASSWORD_HASH"@, kind, later, end, answer),
    ensures
        after == m,
        end == m,
        hash.len() == 60,
        answer == JsonModel::Bool(true),
{
    lemma_handed_over(m, voice, "GET_PASSWORD_HASH"@, kind, args, after, JsonModel::Text(hash));
    lemma_names_differ();
}

// --- voice ---

/// With a voice server, a script's wishes reach it: the channel that the first argument
/// names is made, the player that it names is muted or heard again, or is placed where the
/// next three arguments say, or no longer. Without one nothing happens.
pub proof fn wishes_reach_the_voice_server(
    m: NativesModel,
    voice: Option<VoiceModel>,
    name: Seq<char>,
    kind: Seq<char>,
    args: Seq<JsonModel>,
    after: NativesModel,
    value: JsonModel,
    wish: EffectModel,
)
    requires
        ({
            ||| name == "MUMBLE_CREATE_CHANNEL"@ && wish == EffectModel::CreateChannel(
                arg_handle(args, 0),
            )
            ||| name == "MUMBLE_SET_PLAYER_MUTED"@ && wish == EffectModel::MutePlayer(
                arg_netid(args, 0),
                arg_bool(args, 1),
            )
            ||| name == "NETWORK_SET_VOICE_PROXIMITY_OVERRIDE_FOR_PLAYER"@ && wish
                == EffectModel::PlaceVoice(
                arg_netid(args, 0),
                Some(
                    Point {
                        x: arg_real(args, 1),
                        y: arg_real(args, 2),
                        z: arg_real(args, 3),
                    },
                ),
            )
            ||| name == "NETWORK_CLEAR_VOICE_PROXIMITY_OVERRIDE_FOR_PLAYER"@ && wish
                == EffectModel::PlaceVoice(arg_netid(args, 0), None)
        }),
        native_step(m, voice, name, kind, args, after, value),
    ensures
        value == JsonModel::Null,
        voice is Some ==> after.effects == m.effects.push(wish),
        voice is None ==> after.effects == m.effects,
        after == (NativesModel { effects: after.effects, ..m }),
{
    lemma_names_differ();
}

/// What a script asks of the voice server is what it answers; without one there is no
/// channel, nobody is muted, and nobody is anywhere but at the origin.
pub proof fn the_voice_server_is_asked(
    m: NativesModel,
    voice: Option<VoiceModel>,
    kind: Seq<char>,
    args: Seq<JsonModel>,
    after: NativesModel,
    value: JsonModel,
)
    ensures
        native_step(m, voice, "MUMBLE_DOES_CHANNEL_EXIST"@, kind, args, after, value) ==> after == m
            && value == JsonModel::Bool(voice is Some && voice->0.channel_exists),
        native_step(m, voice, "MUMBLE_IS_PLAYER_MUTED"@, kind, args, after, value) ==> after == m
            && value == JsonModel::Bool(voice is Some && voice->0.player_muted),
        native_step(
            m,
            voice,
            "NETWORK_GET_VOICE_PROXIMITY_OVERRIDE_FOR_PLAYER"@,
            kind,
            args,
            after,
            value,
        ) ==> after == m && value == array_of(
            if voice is Some {
                seq![
                    JsonModel::Real(voice->0.proximity.x),
                    JsonModel::Real(voice->0.proximity.y),
                    JsonModel::Real(voice->0.proximity.z),
                ]
            } else {
                seq![
                    JsonModel::Real("0.0"@),
                    JsonModel::Real("0.0"@),
                    JsonModel::Real("0.0"@),
                ]
            },
        ),
{
    lemma_names_differ();
}

// --- answers that are always the same ---

/// The natives that do nothing here.
pub open spec fn does_nothing(name: Seq<char>) -> bool {
    ||| name == "CANCEL_EVENT"@
    ||| name == "END_FIND_KVP"@
    ||| name == "PROFILER_ENTER_SCOPE"@
    ||| name == "PROFILER_EXIT_SCOPE"@
    ||| name == "REGISTER_RESOURCE_AS_EVENT_HANDLER"@
    ||| name == "REMOVE_CONVAR_CHANGE_LISTENER"@
    ||| name == "TRIGGER_EVENT_INTERNAL"@
    ||| name == "DELETE_FUNCTION_REFERENCE"@
    ||| name == "EXECUTE_COMMAND"@
    ||| name == "PRINT_STRUCTURED_TRACE"@
    ||| name == "LOAD_PLAYER_COMMERCE_DATA"@
    ||| name == "LOAD_PLAYER_COMMERCE_DATA_EXT"@
    ||| name == "REQUEST_PLAYER_COMMERCE_SESSION"@
    ||| name == "SET_HTTP_HANDLER"@
    ||| name == "REGISTER_CONSOLE_LISTENER"@
    ||| name == "SCHEDULE_RESOURCE_TICK"@
    ||| name == "REGISTER_RESOURCE_BUILD_TASK_FACTORY"@
}

/// The natives that say no.
pub open spec fn says_no(name: Seq<char>) -> bool {
    ||| name == "IS_ACE_ALLOWED"@
    ||| name == "IS_PRINCIPAL_ACE_ALLOWED"@
    ||| name == "PROFILER_IS_RECORDING"@
    ||| name == "WAS_EVENT_CANCELED"@
    ||| name == "GET_PLAYER_INVINCIBLE"@
    ||| name == "HAS_ENTITY_BEEN_MARKED_AS_NO_LONGER_NEEDED"@
    ||| name == "IS_PLAYER_ACE_ALLOWED"@
    ||| name == "IS_PLAYER_USING_SUPER_JUMP"@
    ||| name == "CAN_PLAYER_START_COMMERCE_SESSION"@
    ||| name == "DOES_PLAYER_OWN_SKU"@
    ||| name == "DOES_PLAYER_OWN_SKU_EXT"@
    ||| name == "IS_PLAYER_COMMERCE_INFO_LOADED"@
    ||| name == "IS_PLAYER_COMMERCE_INFO_LOADED_EXT"@
    ||| name == "IS_PED_ON_MOUNT"@
}

/// The natives that answer zero.
pub open spec fn says_zero(name: Seq<char>) -> bool {
    ||| name == "ADD_CONVAR_CHANGE_LISTENER"@
    ||| name == "GET_GAME_BUILD_NUMBER"@
    ||| name == "GET_INSTANCE_ID"@
    ||| name == "GET_PLAYER_LAST_MSG"@
    ||| name == "GET_PLAYER_TIME_IN_PURSUIT"@
    ||| name == "GET_PLAYER_WANTED_LEVEL"@
    ||| name == "GET_MOUNT"@
}

/// The natives that answer an empty list.
pub open spec fn says_none(name: Seq<char>) -> bool {
    ||| name == "GET_ENTITIES_IN_RADIUS"@
    ||| name == "GET_GAME_POOL"@
    ||| name == "GET_REGISTERED_COMMANDS"@
    ||| name == "GET_RESOURCE_COMMANDS"@
}

proof fn lemma_does_nothing(
    m: NativesModel,
    voice: Option<VoiceModel>,
    name: Seq<char>,
    kind: Seq<char>,
    args: Seq<JsonModel>,
    after: NativesModel,
    value: JsonModel,
)
    requires
        native_step(m, voice, name, kind, args, after, value),
    ensures
        does_nothing(name) ==> after == m && value == JsonModel::Null,
{
    lemma_names_differ();
}

proof fn lemma_says_no(
    m: NativesModel,
    voice: Option<VoiceModel>,
    name: Seq<char>,
    kind: Seq<char>,
    args: Seq<JsonModel>,
    after: NativesModel,
    value: JsonModel,
)
    requires
        native_step(m, voice, name, kind, args, after, value),
    ensures
        says_no(name) ==> after == m && value == JsonModel::Bool(false),
{
    lemma_names_differ();
}

proof fn lemma_says_zero(
    m: NativesModel,
    voice: Option<VoiceModel>,
    name: Seq<char>,
    kind: Seq<char>,
    args: Seq<JsonModel>,
    after: NativesModel,
    value: JsonModel,
)
    requires
        native_step(m, voice, name, kind, args, after, value),
    ensures
        says_zero(name) ==> after == m && value == JsonModel::Unsigned(0),
        says_none(name) ==> after == m && value == array_of(Seq::empty()),
{
    lemma_names_differ();
}

proof fn lemma_says_else(
    m: NativesModel,
    voice: Option<VoiceModel>,
    name: Seq<char>,
    kind: Seq<char>,
    args: Seq<JsonModel>,
    after: NativesModel,
    value: JsonModel,
)
    requires
        native_step(m, voice, name, kind, args, after, value),
    ensures
        name == "GET_HOST_ID"@ || name == "REGISTER_RESOURCE_ASSET"@ ==> after == m && value
            == JsonModel::Text(""@),
        name == "IS_DUPLICITY_VERSION"@ ==> after == m && value == JsonModel::Bool(true),
        name == "GET_GAME_NAME"@ ==> after == m && value == JsonModel::Text("gta5"@),
        name == "GET_INVOKING_RESOURCE"@ ==> after == m && value == JsonModel::Text(m.resource),
{
    lemma_names_differ();
}

/// Whatever the state of the server, these natives change nothing and give one answer, by
/// their names alone: it is a server, it runs the game it runs, and what it does not keep
/// it answers neutrally.
pub proof fn some_answers_are_always_the_same(
    m: NativesModel,
    voice: Option<VoiceModel>,
    name: Seq<char>,
    kind: Seq<char>,
    args: Seq<JsonModel>,
    after: NativesModel,
    value: JsonModel,
)
    requires
        native_step(m, voice, name, kind, args, after, value),
    ensures
        does_nothing(name) ==> after == m && value == JsonModel::Null,
        says_no(name) ==> after == m && value == JsonModel::Bool(false),
        says_zero(name) ==> after == m && value == JsonModel::Unsigned(0),
        says_none(name) ==> after == m && value == array_of(Seq::empty()),
        name == "GET_HOST_ID"@ || name == "REGISTER_RESOURCE_ASSET"@ ==> after == m && value
            == JsonModel::Text(""@),
        name == "IS_DUPLICITY_VERSION"@ ==> after == m && value == JsonModel::Bool(true),
        name == "GET_GAME_NAME"@ ==> after == m && value == JsonModel::Text("gta5"@),
        name == "GET_INVOKING_RESOURCE"@ ==> after == m && value == JsonModel::Text(m.resource),
{
    lemma_does_nothing(m, voice, name, kind, args, after, value);
    lemma_says_no(m, voice, name, kind, args, after, value);
    lemma_says_zero(m, voice, name, kind, args, after, value);
    lemma_says_else(m, voice, name, kind, args, after, value);
}

/// A function reference and a stack trace come back as they went in, and a name is hashed
/// letter by letter as it stands.
pub proof fn some_answers_repeat_the_question(
    m: NativesModel,
    voice: Option<VoiceModel>,
    name: Seq<char>,
    kind: Seq<char>,
    args: Seq<JsonModel>,
    after: NativesModel,
    value: JsonModel,
    text: Seq<char>,
)
    requires
        args.len() > 0,
        args[0] == JsonModel::Text(text),
        native_step(m, voice, name, kind, args, after, value),
    ensures
        name == "DUPLICATE_FUNCTION_REFERENCE"@ || name == "FORMAT_STACK_TRACE"@ ==> after == m
            && value == JsonModel::Text(text),
        name == "GET_HASH_KEY"@ ==> after == m && value == JsonModel::Unsigned(
            rage_hash(text) as u64,
        ),
{
    lemma_names_differ();
}

proof fn lemma_zeros()
    ensures
        crate::natives::zeros(0) == array_of(Seq::empty()),
        crate::natives::zeros(2) == array_of(
            seq![JsonModel::Real("0.0"@), JsonModel::Real("0.0"@)],
        ),
        crate::natives::zeros(3) == array_of(
            seq![JsonModel::Real("0.0"@), JsonModel::Real("0.0"@), JsonModel::Real("0.0"@)],
        ),
        crate::natives::zeros(4) == array_of(
            seq![
                JsonModel::Real("0.0"@),
                JsonModel::Real("0.0"@),
                JsonModel::Real("0.0"@),
                JsonModel::Real("0.0"@),
            ],
        ),
{
    let zero = JsonModel::Real("0.0"@);
    assert(Seq::new(0, |i: int| zero) =~= Seq::empty());
    assert(Seq::new(2, |i: int| zero) =~= seq![zero, zero]);
    assert(Seq::new(3, |i: int| zero) =~= seq![zero, zero, zero]);
    assert(Seq::new(4, |i: int| zero) =~= seq![zero, zero, zero, zero]);
}

/// What a native answers when it has nothing to answer is the value of its kind that means
/// nothing, in whatever case the kind is written: null, no, an empty text, zero, or as many
/// zeros as a vector has parts. A kind that is none of these is a number.
#[verifier::rlimit(40)]
pub proof fn every_kind_has_a_neutral_value(kind: Seq<char>)
    ensures
        spelt(kind, "void"@, "VOID"@) ==> neutral(kind) == JsonModel::Null,
        spelt(kind, "bool"@, "BOOL"@) ==> neutral(kind) == JsonModel::Bool(false),
        spelt(kind, "boolean"@, "BOOLEAN"@) ==> neutral(kind) == JsonModel::Bool(false),
        spelt(kind, "char*"@, "CHAR*"@) ==> neutral(kind) == JsonModel::Text(""@),
        spelt(kind, "const char*"@, "CONST CHAR*"@) ==> neutral(kind) == JsonModel::Text(""@),
        spelt(kind, "string"@, "STRING"@) ==> neutral(kind) == JsonModel::Text(""@),
        spelt(kind, "float"@, "FLOAT"@) ==> neutral(kind) == JsonModel::Real("0.0"@),
        spelt(kind, "double"@, "DOUBLE"@) ==> neutral(kind) == JsonModel::Real("0.0"@),
        spelt(kind, "object"@, "OBJECT"@) ==> neutral(kind) == array_of(Seq::empty()),
        spelt(kind, "vector2"@, "VECTOR2"@) ==> neutral(kind) == array_of(seq![JsonModel::Real("0.0"@), JsonModel::Real("0.0"@)]),
        spelt(kind, "vector3"@, "VECTOR3"@) ==> neutral(kind) == array_of(seq![JsonModel::Real("0.0"@), JsonModel::Real("0.0"@), JsonModel::Real("0.0"@)]),
        spelt(kind, "vector4"@, "VECTOR4"@) ==> neutral(kind) == array_of(seq![JsonModel::Real("0.0"@), JsonModel::Real("0.0"@), JsonModel::Real("0.0"@), JsonModel::Real("0.0"@)]),
        !spelt(kind, "void"@, "VOID"@) && !spelt(kind, "bool"@, "BOOL"@) && !spelt(kind, "boolean"@, "BOOLEAN"@) && !spelt(kind, "char*"@, "CHAR*"@) && !spelt(kind, "const char*"@, "CONST CHAR*"@) && !spelt(kind, "string"@, "STRING"@) && !spelt(kind, "float"@, "FLOAT"@) && !spelt(kind, "double"@, "DOUBLE"@) && !spelt(kind, "object"@, "OBJECT"@) && !spelt(kind, "vector2"@, "VECTOR2"@) && !spelt(kind, "vector3"@, "VECTOR3"@) && !spelt(kind, "vector4"@, "VECTOR4"@) ==> neutral(kind) == JsonModel::Unsigned(0),
{
    lemma_zeros();
    lemma_kinds(kind);
}

proof fn lemma_kinds(kind: Seq<char>)
    ensures
        ascii_lower(kind) == "void"@ <==> spelt(kind, "void"@, "VOID"@),
        ascii_lower(kind) == "bool"@ <==> spelt(kind, "bool"@, "BOOL"@),
        ascii_lower(kind) == "boolean"@ <==> spelt(kind, "boolean"@, "BOOLEAN"@),
        ascii_lower(kind) == "char*"@ <==> spelt(kind, "char*"@, "CHAR*"@),
        ascii_lower(kind) == "const char*"@ <==> spelt(kind, "const char*"@, "CONST CHAR*"@),
        ascii_lower(kind) == "string"@ <==> spelt(kind, "string"@, "STRING"@),
        ascii_lower(kind) == "float"@ <==> spelt(kind, "float"@, "FLOAT"@),
        ascii_lower(kind) == "double"@ <==> spelt(kind, "double"@, "DOUBLE"@),
        ascii_lower(kind) == "object"@ <==> spelt(kind, "object"@, "OBJECT"@),
        ascii_lower(kind) == "vector2"@ <==> spelt(kind, "vector2"@, "VECTOR2"@),
        ascii_lower(kind) == "vector3"@ <==> spelt(kind, "vector3"@, "VECTOR3"@),
        ascii_lower(kind) == "vector4"@ <==> spelt(kind, "vector4"@, "VECTOR4"@),
        "void"@.len() == 4 && "void"@[0] == 'v' && "void"@.last() == 'd',
        "bool"@.len() == 4 && "bool"@[0] == 'b' && "bool"@.last() == 'l',
        "boolean"@.len() == 7 && "boolean"@[0] == 'b' && "boolean"@.last() == 'n',
        "char*"@.len() == 5 && "char*"@[0] == 'c' && "char*"@.last() == '*',
        "const char*"@.len() == 11 && "const char*"@[0] == 'c' && "const char*"@.last() == '*',
        "string"@.len() == 6 && "string"@[0] == 's' && "string"@.last() == 'g',
        "float"@.len() == 5 && "float"@[0] == 'f' && "float"@.last() == 't',
        "double"@.len() == 6 && "double"@[0] == 'd' && "double"@.last() == 'e',
        "object"@.len() == 6 && "object"@[0] == 'o' && "object"@.last() == 't',
        "vector2"@.len() == 7 && "vector2"@[0] == 'v' && "vector2"@.last() == '2',
        "vector3"@.len() == 7 && "vector3"@[0] == 'v' && "vector3"@.last() == '3',
        "vector4"@.len() == 7 && "vector4"@[0] == 'v' && "vector4"@.last() == '4',
{
    reveal_strlit("void");
    reveal_strlit("VOID");
    reveal_strlit("bool");
    reveal_strlit("BOOL");
    reveal_strlit("boolean");
    reveal_strlit("BOOLEAN");
    reveal_strlit("char*");
    reveal_strlit("CHAR*");
    reveal_strlit("const char*");
    reveal_strlit("CONST CHAR*");
    reveal_strlit("string");
    reveal_strlit("STRING");
    reveal_strlit("float");
    reveal_strlit("FLOAT");
    reveal_strlit("double");
    reveal_strlit("DOUBLE");
    reveal_strlit("object");
    reveal_strlit("OBJECT");
    reveal_strlit("vector2");
    reveal_strlit("VECTOR2");
    reveal_strlit("vector3");
    reveal_strlit("VECTOR3");
    reveal_strlit("vector4");
    reveal_strlit("VECTOR4");
    lemma_lower(kind, "void"@, "VOID"@);
    lemma_lower(kind, "bool"@, "BOOL"@);
    lemma_lower(kind, "boolean"@, "BOOLEAN"@);
    lemma_lower(kind, "char*"@, "CHAR*"@);
    lemma_lower(kind, "const char*"@, "CONST CHAR*"@);
    lemma_lower(kind, "string"@, "STRING"@);
    lemma_lower(kind, "float"@, "FLOAT"@);
    lemma_lower(kind, "double"@, "DOUBLE"@);
    lemma_lower(kind, "object"@, "OBJECT"@);
    lemma_lower(kind, "vector2"@, "VECTOR2"@);
    lemma_lower(kind, "vector3"@, "VECTOR3"@);
    lemma_lower(kind, "vector4"@, "VECTOR4"@);
}

// --- storage ---

/// A value that is stored, or deleted, changes what is stored under the resource and the
/// key, and nothing else. It is written out at once unless the call asked not to sync, and
/// then what is written reads back as all that is stored.
pub proof fn storing_writes_unless_told_not_to(
    m: NativesModel,
    voice: Option<VoiceModel>,
    name: Seq<char>,
    kind: Seq<char>,
    args: Seq<JsonModel>,
    after: NativesModel,
    value: JsonModel,
    key: Seq<char>,
    sync: bool,
)
    requires
        args.len() > 0,
        args[0] == JsonModel::Text(key),
        ({
            ||| sync && (name == "SET_RESOURCE_KVP"@ || name == "SET_RESOURCE_KVP_INT"@ || name
                == "SET_RESOURCE_KVP_FLOAT"@ || name == "DELETE_RESOURCE_KVP"@)
            ||| !sync && (name == "SET_RESOURCE_KVP_NO_SYNC"@ || name
                == "SET_RESOURCE_KVP_INT_NO_SYNC"@ || name == "SET_RESOURCE_KVP_FLOAT_NO_SYNC"@
                || name == "DELETE_RESOURCE_KVP_NO_SYNC"@)
        }),
        native_step(m, voice, name, kind, args, after, value),
    ensures
        value == JsonModel::Null,
        after.kvp.persistent == m.kvp.persistent,
        !sync ==> after.kvp.dirty && after.effects == m.effects,
        sync ==> !after.kvp.dirty,
        sync && !m.kvp.persistent ==> after.effects == m.effects,
        sync && m.kvp.persistent ==> after.effects.len() == m.effects.len() + 1 && (
        after.effects.last() matches EffectModel::WriteKvp(text) && stored(text)
            == after.kvp.entries),
        name == "DELETE_RESOURCE_KVP"@ || name == "DELETE_RESOURCE_KVP_NO_SYNC"@
            ==> after.kvp.entries == m.kvp.entries.remove(flat(m.resource, key)),
        forall|f: Seq<char>|
            f != flat(m.resource, key) ==> (#[trigger] after.kvp.entries.contains_key(f)
                <==> m.kvp.entries.contains_key(f)) && after.kvp.entries[f] == m.kvp.entries[f],
        name == "SET_RESOURCE_KVP"@ || name == "SET_RESOURCE_KVP_NO_SYNC"@ ==> args.len() > 1 ==> (
        args[1] matches JsonModel::Text(text) ==> after.kvp.entries.contains_key(
            flat(m.resource, key),
        ) && after.kvp.entries[flat(m.resource, key)] == text),
        name == "SET_RESOURCE_KVP_INT"@ || name == "SET_RESOURCE_KVP_INT_NO_SYNC"@ ==> args.len()
            > 1 ==> (args[1] matches JsonModel::Signed(n) ==> after.kvp.entries.contains_key(
            flat(m.resource, key),
        ) && after.kvp.entries[flat(m.resource, key)] == decimal_int(n as int)),
        after == (NativesModel { kvp: after.kvp, effects: after.effects, ..m }),
{
    lemma_names_differ();
    assert(kvp_step(m, name, args, after, Some(value)));
}

/// A store is written out on request, if anything in it changed since it last was.
pub proof fn a_flush_writes_what_changed(
    m: NativesModel,
    voice: Option<VoiceModel>,
    kind: Seq<char>,
    args: Seq<JsonModel>,
    after: NativesModel,
    value: JsonModel,
)
    requires
        native_step(m, voice, "FLUSH_RESOURCE_KVP"@, kind, args, after, value),
    ensures
        value == JsonModel::Null,
        after.kvp == (KvpModel { dirty: false, ..m.kvp }),
        m.kvp.persistent && m.kvp.dirty ==> after.effects.len() == m.effects.len() + 1 && (
        after.effects.last() matches EffectModel::WriteKvp(text) && stored(text) == m.kvp.entries),
        !m.kvp.persistent || !m.kvp.dirty ==> after == (NativesModel { kvp: after.kvp, ..m }),
{
    lemma_names_differ();
    assert(kvp_step(m, "FLUSH_RESOURCE_KVP"@, args, after, Some(value)));
}

/// What was stored as text is read as text, and null where nothing was; a number that is
/// no number is zero.
pub proof fn a_stored_value_is_read_by_its_kind(
    m: NativesModel,
    voice: Option<VoiceModel>,
    kind: Seq<char>,
    args: Seq<JsonModel>,
    after: NativesModel,
    value: JsonModel,
    key: Seq<char>,
)
    requires
        args.len() > 0,
        args[0] == JsonModel::Text(key),
    ensures
        ({
            let there = m.kvp.entries.contains_key(flat(m.resource, key));
            let text = m.kvp.entries[flat(m.resource, key)];
            &&& native_step(m, voice, "GET_RESOURCE_KVP_STRING"@, kind, args, after, value)
                ==> after == m && value == if there {
                JsonModel::Text(text)
            } else {
                JsonModel::Null
            }
            &&& native_step(m, voice, "GET_RESOURCE_KVP_INT"@, kind, args, after, value) && !there
                ==> after == m && value == JsonModel::Unsigned(0)
            &&& native_step(m, voice, "GET_RESOURCE_KVP_FLOAT"@, kind, args, after, value)
                && !there ==> after == m && value == JsonModel::Real("0.0"@)
            &&& native_step(m, voice, "GET_RESOURCE_KVP_INT"@, kind, args, after, value) && there
                && text.len() == 0 ==> value == JsonModel::Unsigned(0)
        }),
{
    lemma_names_differ();
}

/// A request over HTTP that can be read is handed to the worker under the next token, which
/// is the answer, as long as there is a worker and fewer than 1024 wait; otherwise it is
/// counted as lost and answered with zero, as one that cannot be read is.
pub proof fn a_request_gets_its_token(
    m: NativesModel,
    voice: Option<VoiceModel>,
    name: Seq<char>,
    kind: Seq<char>,
    args: Seq<JsonModel>,
    after: NativesModel,
    value: JsonModel,
    raw: Seq<char>,
)
    requires
        name == "PERFORM_HTTP_REQUEST_INTERNAL"@ || name == "PERFORM_HTTP_REQUEST_INTERNAL_EX"@,
        args.len() > 0,
        args[0] == JsonModel::Text(raw),
        m.http is Some,
        native_step(m, voice, name, kind, args, after, value),
    ensures
        ({
            let bridge = m.http->0;
            let request = crate::http_bridge::parsed_request(m.resource, raw);
            let room = bridge.open && bridge.queue.len() < 1024;
            &&& request is None ==> after == m && value == JsonModel::Unsigned(0)
            &&& request is Some && room ==> value == JsonModel::Unsigned(bridge.next_token as u64)
                && after.http is Some && after.http->0.queue == bridge.queue.push(
                (request->0, bridge.next_token),
            ) && after.http->0.dropped == bridge.dropped
            &&& request is Some && !room ==> value == JsonModel::Unsigned(0) && after.http is Some
                && after.http->0.queue == bridge.queue && (bridge.dropped < u64::MAX
                ==> after.http->0.dropped == bridge.dropped + 1)
            &&& request is Some && bridge.next_token < u32::MAX ==> after.http->0.next_token
                == bridge.next_token + 1
            &&& after == (NativesModel { http: after.http, ..m })
        }),
{
    lemma_handed_over(m, voice, name, kind, args, after, value);
    lemma_names_differ();
}

/// A script reads the console as it stands, its lines below each other.
pub proof fn a_script_reads_the_console(
    m: NativesModel,
    voice: Option<VoiceModel>,
    kind: Seq<char>,
    args: Seq<JsonModel>,
    after: NativesModel,
    value: JsonModel,
)
    requires
        native_step(m, voice, "GET_CONSOLE_BUFFER"@, kind, args, after, value),
    ensures
        after == m,
        value == JsonModel::Text(crate::console::lines_text(m.console)),
{
    lemma_handed_over(m, voice, "GET_CONSOLE_BUFFER"@, kind, args, after, value);
    lemma_names_differ();
}

/// The members of a request are found by their names: where to, how, with what, and with
/// which headers.
pub proof fn a_request_is_read_by_its_members(
    resource: Seq<char>,
    raw: Seq<char>,
    pairs: Seq<(Seq<char>, JsonModel)>,
)
    requires
        crate::json::json_pairs(raw) == Some(pairs),
    ensures
        crate::http_bridge::parsed_request(resource, raw) == crate::http_bridge::request_of(
            resource,
            crate::json::member_of(pairs, "url"@),
            crate::json::member_of(pairs, "method"@),
            crate::json::member_of(pairs, "data"@),
            match crate::json::member_of(pairs, "headers"@) {
                Some(JsonModel::Nested(text)) => crate::json::json_pairs(text),
                _ => None,
            },
        ),
{
}

/// A search finds, in order, the keys of the resource that begin with what was asked for,
/// and no others.
pub proof fn a_search_finds_the_keys_of_the_resource(
    m: NativesModel,
    voice: Option<VoiceModel>,
    kind: Seq<char>,
    args: Seq<JsonModel>,
    after: NativesModel,
    value: JsonModel,
    prefix: Seq<char>,
    keys: Seq<Seq<char>>,
)
    requires
        args.len() > 0,
        args[0] == JsonModel::Text(prefix),
        crate::kvp::plain(m.resource),
        native_step(m, voice, "FIND_KVP"@, kind, args, after, value),
        crate::named::in_order(keys),
        forall|k: Seq<char>| #[trigger]
            keys.contains(k) <==> m.kvp.entries.contains_key(flat(m.resource, k))
                && crate::text::starts_with(k, prefix),
    ensures
        after == m,
        value == array_of(keys.map_values(|k: Seq<char>| JsonModel::Text(k))),
{
    lemma_names_differ();
    assert(kvp_step(m, "FIND_KVP"@, args, after, Some(value)));
    let set = crate::kvp::keys_under(m.kvp.entries, m.resource, prefix);
    assert forall|k: Seq<char>| #[trigger] keys.contains(k) <==> set.contains(k) by {
        crate::kvp::search_is_scoped(m.kvp.entries, m.resource, prefix, k);
    }
    crate::named::lemma_names_in_order(keys, set);
}

/// A real number is stored as it is displayed, and read as what it spells: a number, null
/// where that has no JSON, and zero where it spells none.
pub proof fn a_stored_real_is_read(
    m: NativesModel,
    voice: Option<VoiceModel>,
    name: Seq<char>,
    kind: Seq<char>,
    args: Seq<JsonModel>,
    after: NativesModel,
    value: JsonModel,
    key: Seq<char>,
    written: Seq<char>,
)
    requires
        args.len() > 1,
        args[0] == JsonModel::Text(key),
        args[1] == JsonModel::Real(written),
        native_step(m, voice, name, kind, args, after, value),
    ensures
        name == "SET_RESOURCE_KVP_FLOAT"@ || name == "SET_RESOURCE_KVP_FLOAT_NO_SYNC"@
            ==> after.kvp.entries.contains_key(flat(m.resource, key))
            && after.kvp.entries[flat(m.resource, key)] == crate::json::float_display(written),
        name == "GET_RESOURCE_KVP_FLOAT"@ && m.kvp.entries.contains_key(flat(m.resource, key)) ==> {
            let read = crate::json::float_read(m.kvp.entries[flat(m.resource, key)]);
            &&& after == m
            &&& read matches Some(Some(number)) ==> value == JsonModel::Real(number)
            &&& read matches Some(None) ==> value == JsonModel::Null
            &&& read is None ==> value == JsonModel::Real("0.0"@)
        },
{
    lemma_names_differ();
    if name == "SET_RESOURCE_KVP_FLOAT"@ || name == "SET_RESOURCE_KVP_FLOAT_NO_SYNC"@ || name
        == "GET_RESOURCE_KVP_FLOAT"@ {
        assert(kvp_step(m, name, args, after, Some(value)));
    }
}

// --- calls to clients ---

/// A native that is routed to a client goes to the owner of the entity, or to the player,
/// that its argument names, and is recorded either way. It is not sent with the wrong
/// number of arguments, without anyone to send it to, or where nothing more can wait.
pub proof fn a_routed_native_goes_where_its_argument_says(
    m: NativesModel,
    name: Seq<char>,
    args: Seq<JsonModel>,
)
    requires
        m.routes.contains_key(name),
    ensures
        ({
            let route = m.routes[name];
            let after = rpc_step(m, name, args);
            let named = match route.context {
                RpcContext::Entity { idx } => {
                    let id = arg_netid(args, idx as int);
                    if m.world.entities.contains_key(id) {
                        m.world.entities[id].owner
                    } else {
                        0
                    }
                },
                RpcContext::Player { idx } => arg_netid(args, idx as int),
                _ => 0,
            };
            let routable = route.context is Entity || route.context is Player;
            let room = m.net.open && m.net.queue.len() < 2048;
            let outcome = if args.len() != route.arg_count {
                Err(SkipReason::BadArity)
            } else if !routable {
                Err(SkipReason::UnsupportedContext)
            } else if named == 0 && route.context is Entity {
                Err(SkipReason::NoOwner)
            } else if named == 0 {
                Err(SkipReason::NoTarget)
            } else if !room {
                Err(SkipReason::BridgeFull)
            } else {
                Ok(named)
            };
            let target = if args.len() == route.arg_count && routable && named != 0 {
                Some(named)
            } else {
                None
            };
            &&& after is Some
            &&& after->0.effects == m.effects.push(
                EffectModel::Called { native: name, hash: route.hash, target, outcome },
            )
            &&& outcome is Ok ==> after->0.net.queue.len() == m.net.queue.len() + 1 && (
            after->0.net.queue.last() matches OutboundModel::ClientEvent { target: to, event, .. }
                && to == EventTarget::One(named) && event == "__baston:invokeNative"@)
            &&& outcome is Ok ==> after->0.net.queue.drop_last() == m.net.queue
            &&& outcome is Err ==> after->0.net == m.net
            &&& target is Some && m.next_call < u64::MAX ==> after->0.next_call == m.next_call + 1
            &&& target is None ==> after->0.next_call == m.next_call
            &&& after->0 == (NativesModel {
                effects: after->0.effects,
                net: after->0.net,
                next_call: after->0.next_call,
                ..m
            })
        }),
{
    let after = rpc_step(m, name, args);
    if after->0.net != m.net {
        assert(after->0.net.queue.drop_last() =~= m.net.queue);
    }
}

/// The resource whose script made an entity is the loaded one whose name has the hash that
/// the entity carries; without an entity, a hash or such a resource there is none.
pub proof fn an_entity_names_its_script(
    m: NativesModel,
    args: Seq<JsonModel>,
    i: int,
)
    ensures
        ({
            let id = arg_netid(args, 0);
            let answer = script_answer(m, "GET_ENTITY_SCRIPT"@, args);
            &&& answer is Some
            &&& !m.world.entities.contains_key(id) ==> answer == Some(
                JsonModel::Text(Seq::empty()),
            )
            &&& m.world.entities.contains_key(id) && 0 <= i < m.loaded.len()
                && m.world.entities[id].sync.script_hash == Some(rage_hash(m.loaded[i])) && (
            forall|j: int|
                0 <= j < i ==> rage_hash(#[trigger] m.loaded[j]) != rage_hash(m.loaded[i]))
                ==> answer == Some(JsonModel::Text(m.loaded[i]))
            &&& m.world.entities.contains_key(id) && m.world.entities[id].sync.script_hash is None
                ==> answer == Some(JsonModel::Text(Seq::empty()))
        }),
{
    if 0 <= i < m.loaded.len() && (forall|j: int|
        0 <= j < i ==> rage_hash(#[trigger] m.loaded[j]) != rage_hash(m.loaded[i])) {
        lemma_named_by(m.loaded, i);
    }
}

proof fn lemma_named_by(loaded: Seq<Seq<char>>, i: int)
    requires
        0 <= i < loaded.len(),
        forall|j: int| 0 <= j < i ==> rage_hash(#[trigger] loaded[j]) != rage_hash(loaded[i]),
    ensures
        crate::natives::named_by(loaded, rage_hash(loaded[i])) == loaded[i],
    decreases i,
{
    if i > 0 {
        let rest = loaded.skip(1);
        assert forall|j: int| 0 <= j < i - 1 implies rage_hash(#[trigger] rest[j]) != rage_hash(
            rest[i - 1],
        ) by {
            assert(rest[j] == loaded[j + 1]);
        }
        assert(rest[i - 1] == loaded[i]);
        assert(rage_hash(loaded[0]) != rage_hash(loaded[i]));
        lemma_named_by(rest, i - 1);
    }
}

} // verus!
