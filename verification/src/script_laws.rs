//! What scripts can rely on across calls of the natives: what one call stored, another
//! reads back.
use crate::args::{arg_any, arg_handle, arg_i64, arg_netid, arg_real, arg_text};
use crate::json::JsonModel;
use crate::kvp::{flat, plain, values_are_scoped};
use crate::natives::{
    arg_point, bag_step, creation_step, entity_answer, kvp_step, kvp_value, kvp_with, kvp_without,
    latin1, missed, neutral, player_step, point_json, requested, rpc_step, script_answer,
    server_step, service_step, settled_step, shared_answer, shared_step, update_step, NativesModel,
    VoiceModel,
};
use crate::natives_world::{int_json, world_answer};
use crate::rpc::{routed, RpcContext};
use crate::text::{decimal_int, decimal_int_reads_back};
use vstd::prelude::*;

verus! {

proof fn lemma_creation_names(m: NativesModel, name: Seq<char>, args: Seq<JsonModel>)
    requires
        creation_step(m, name, args) is Some,
    ensures
        name.len() > 2,
        name[0] == 'C' || (name[0] == 'D' && name[1] == 'E'),
{
    reveal_strlit("CREATE_OBJECT");
    reveal_strlit("CREATE_OBJECT_NO_OFFSET");
    reveal_strlit("CREATE_PED");
    reveal_strlit("CREATE_PED_INSIDE_VEHICLE");
    reveal_strlit("CREATE_VEHICLE");
    reveal_strlit("CREATE_VEHICLE_SERVER_SETTER");
    reveal_strlit("DELETE_ENTITY");
    reveal_strlit("DELETE_TRAIN");
}

proof fn lemma_reader_names(m: NativesModel, name: Seq<char>, args: Seq<JsonModel>)
    requires
        entity_answer(m, name, args) is Some,
    ensures
        name.len() > 2,
        name[0] != 'S',
{
    reveal_strlit("DOES_ENTITY_EXIST");
    reveal_strlit("GET_ALL_OBJECTS");
    reveal_strlit("GET_ALL_PEDS");
    reveal_strlit("GET_ALL_VEHICLES");
    reveal_strlit("GET_ENTITY_COORDS");
    reveal_strlit("GET_ENTITY_VELOCITY");
    reveal_strlit("NETWORK_GET_NETWORK_ID_FROM_ENTITY");
    reveal_strlit("NETWORK_GET_ENTITY_FROM_NETWORK_ID");
    reveal_strlit("GET_PLAYER_PED");
    reveal_strlit("GET_ENTITY_HEADING");
    reveal_strlit("GET_ENTITY_HEALTH");
    reveal_strlit("GET_ENTITY_MODEL");
    reveal_strlit("GET_ENTITY_ROUTING_BUCKET");
    reveal_strlit("GET_ENTITY_TYPE");
    reveal_strlit("NETWORK_GET_ENTITY_OWNER");
}

/// The natives that create an entity.
pub open spec fn creates(name: Seq<char>) -> bool {
    ||| name == "CREATE_OBJECT"@
    ||| name == "CREATE_OBJECT_NO_OFFSET"@
    ||| name == "CREATE_PED"@
    ||| name == "CREATE_PED_INSIDE_VEHICLE"@
    ||| name == "CREATE_VEHICLE"@
    ||| name == "CREATE_VEHICLE_SERVER_SETTER"@
}

proof fn lemma_exists_answer(
    m: NativesModel,
    voice: Option<VoiceModel>,
    kind: Seq<char>,
    args: Seq<JsonModel>,
    after: NativesModel,
    value: JsonModel,
)
    requires
        server_step(m, voice, "DOES_ENTITY_EXIST"@, kind, args, after, value),
    ensures
        after == m,
        value == JsonModel::Bool(crate::natives::known(m, arg_handle(args, 0))),
{
    let name = "DOES_ENTITY_EXIST"@;
    reveal_strlit("DOES_ENTITY_EXIST");
    assert(name[0] == 'D' && name[1] == 'O');
    if creation_step(m, name, args) is Some {
        lemma_creation_names(m, name, args);
    }
}

/// A handle that a script got for the entity it created is one of an entity that exists.
pub proof fn a_created_entity_exists(
    m: NativesModel,
    voice: Option<VoiceModel>,
    name: Seq<char>,
    kind: Seq<char>,
    args: Seq<JsonModel>,
    after: NativesModel,
    handle: JsonModel,
    later_voice: Option<VoiceModel>,
    later_kind: Seq<char>,
    end: NativesModel,
    answer: JsonModel,
)
    requires
        creates(name),
        server_step(m, voice, name, kind, args, after, handle),
        server_step(
            after,
            later_voice,
            "DOES_ENTITY_EXIST"@,
            later_kind,
            seq![handle],
            end,
            answer,
        ),
    ensures
        answer == JsonModel::Bool(true),
{
    lemma_exists_answer(after, later_voice, later_kind, seq![handle], end, answer);
    let id = choose|id: u32|
        handle == JsonModel::Unsigned(id as u64) && #[trigger] after.synthetic.contains_key(id);
    assert(creation_step(m, name, args) == Some((after, handle)));
    assert(exists|id: u32|
        handle == JsonModel::Unsigned(id as u64) && #[trigger] after.synthetic.contains_key(id)) by {
        match handle {
            JsonModel::Unsigned(n) => {
                assert(after.synthetic.contains_key(n as u32));
            },
            _ => {},
        }
    }
    assert(arg_i64(seq![handle], 0) == id as i64);
    assert((id as i64) as u32 == id) by (bit_vector);
}

/// An entity that a script deleted no longer exists, unless the world has it.
pub proof fn a_deleted_entity_is_gone(
    m: NativesModel,
    voice: Option<VoiceModel>,
    kind: Seq<char>,
    args: Seq<JsonModel>,
    after: NativesModel,
    value: JsonModel,
    later_voice: Option<VoiceModel>,
    later_kind: Seq<char>,
    later_args: Seq<JsonModel>,
    end: NativesModel,
    answer: JsonModel,
)
    requires
        arg_handle(later_args, 0) == arg_handle(args, 0),
        server_step(m, voice, "DELETE_ENTITY"@, kind, args, after, value),
        server_step(
            after,
            later_voice,
            "DOES_ENTITY_EXIST"@,
            later_kind,
            later_args,
            end,
            answer,
        ),
    ensures
        answer == JsonModel::Bool(m.world.entities.contains_key(arg_handle(args, 0))),
{
    lemma_exists_answer(after, later_voice, later_kind, later_args, end, answer);
    reveal_strlit("CREATE_OBJECT");
    reveal_strlit("CREATE_OBJECT_NO_OFFSET");
    reveal_strlit("CREATE_PED");
    reveal_strlit("CREATE_PED_INSIDE_VEHICLE");
    reveal_strlit("CREATE_VEHICLE");
    reveal_strlit("CREATE_VEHICLE_SERVER_SETTER");
    reveal_strlit("DELETE_ENTITY");
    assert("DELETE_ENTITY"@[0] == 'D');
}

/// An entity that a script created, and that the world has not taken over, is where the
/// script put it.
pub proof fn a_moved_entity_is_where_it_was_put(
    m: NativesModel,
    voice: Option<VoiceModel>,
    kind: Seq<char>,
    args: Seq<JsonModel>,
    after: NativesModel,
    value: JsonModel,
    later_voice: Option<VoiceModel>,
    later_kind: Seq<char>,
    later_args: Seq<JsonModel>,
    end: NativesModel,
    answer: JsonModel,
)
    requires
        m.synthetic.contains_key(arg_handle(args, 0)),
        !m.world.entities.contains_key(arg_handle(args, 0)),
        arg_handle(later_args, 0) == arg_handle(args, 0),
        server_step(m, voice, "SET_ENTITY_COORDS"@, kind, args, after, value),
        server_step(
            after,
            later_voice,
            "GET_ENTITY_COORDS"@,
            later_kind,
            later_args,
            end,
            answer,
        ),
    ensures
        answer == point_json(arg_point(args, 1)),
{
    let set = "SET_ENTITY_COORDS"@;
    let get = "GET_ENTITY_COORDS"@;
    reveal_strlit("SET_ENTITY_COORDS");
    reveal_strlit("GET_ENTITY_COORDS");
    assert(set[0] == 'S' && get[0] == 'G');
    if creation_step(m, set, args) is Some {
        lemma_creation_names(m, set, args);
    }
    if entity_answer(m, set, args) is Some {
        lemma_reader_names(m, set, args);
    }
    if creation_step(after, get, later_args) is Some {
        lemma_creation_names(after, get, later_args);
    }
    reveal_strlit("DOES_ENTITY_EXIST");
    reveal_strlit("GET_ALL_OBJECTS");
    reveal_strlit("GET_ALL_PEDS");
    reveal_strlit("GET_ALL_VEHICLES");
    assert(get[5] == 'N');
}

proof fn lemma_entity_read(
    m: NativesModel,
    voice: Option<VoiceModel>,
    name: Seq<char>,
    kind: Seq<char>,
    args: Seq<JsonModel>,
    after: NativesModel,
    value: JsonModel,
)
    requires
        name.len() > 0,
        name[0] == 'G',
        entity_answer(m, name, args) is Some,
        server_step(m, voice, name, kind, args, after, value),
    ensures
        after == m,
        Some(value) == entity_answer(m, name, args),
{
    if creation_step(m, name, args) is Some {
        lemma_creation_names(m, name, args);
    }
}

proof fn lemma_entity_change(
    m: NativesModel,
    voice: Option<VoiceModel>,
    name: Seq<char>,
    kind: Seq<char>,
    args: Seq<JsonModel>,
    after: NativesModel,
    value: JsonModel,
)
    requires
        name.len() > 0,
        name[0] == 'S',
        update_step(m, name, args) is Some,
        server_step(m, voice, name, kind, args, after, value),
    ensures
        Some((after, value)) == update_step(m, name, args),
{
    if creation_step(m, name, args) is Some {
        lemma_creation_names(m, name, args);
    }
    if entity_answer(m, name, args) is Some {
        lemma_reader_names(m, name, args);
    }
}

/// The heading that a script gave its entity is read back.
pub proof fn a_heading_is_read_back(
    m: NativesModel,
    voice: Option<VoiceModel>,
    kind: Seq<char>,
    args: Seq<JsonModel>,
    after: NativesModel,
    value: JsonModel,
    later_voice: Option<VoiceModel>,
    later_kind: Seq<char>,
    later_args: Seq<JsonModel>,
    end: NativesModel,
    answer: JsonModel,
)
    requires
        m.synthetic.contains_key(arg_handle(args, 0)),
        arg_handle(later_args, 0) == arg_handle(args, 0),
        server_step(m, voice, "SET_ENTITY_HEADING"@, kind, args, after, value),
        server_step(
            after,
            later_voice,
            "GET_ENTITY_HEADING"@,
            later_kind,
            later_args,
            end,
            answer,
        ),
    ensures
        answer == JsonModel::Real(arg_real(args, 1)),
{
    let set = "SET_ENTITY_HEADING"@;
    reveal_strlit("SET_ENTITY_HEADING");
    reveal_strlit("SET_ENTITY_COORDS");
    assert(set[0] == 'S' && set[11] == 'H' && "SET_ENTITY_COORDS"@[11] == 'C');
    lemma_entity_change(m, voice, set, kind, args, after, value);
    let get = "GET_ENTITY_HEADING"@;
    reveal_strlit("GET_ENTITY_HEADING");
    assert(get[0] == 'G' && get[4] == 'E' && get.len() == 18);
    reveal_strlit("DOES_ENTITY_EXIST");
    reveal_strlit("GET_ALL_OBJECTS");
    reveal_strlit("GET_ALL_PEDS");
    reveal_strlit("GET_ALL_VEHICLES");
    reveal_strlit("GET_ENTITY_COORDS");
    reveal_strlit("GET_ENTITY_VELOCITY");
    reveal_strlit("NETWORK_GET_NETWORK_ID_FROM_ENTITY");
    reveal_strlit("NETWORK_GET_ENTITY_FROM_NETWORK_ID");
    reveal_strlit("GET_PLAYER_PED");
    lemma_entity_read(after, later_voice, get, later_kind, later_args, end, answer);
}

/// The health that a script gave its entity is read back.
pub proof fn a_health_is_read_back(
    m: NativesModel,
    voice: Option<VoiceModel>,
    kind: Seq<char>,
    args: Seq<JsonModel>,
    after: NativesModel,
    value: JsonModel,
    later_voice: Option<VoiceModel>,
    later_kind: Seq<char>,
    later_args: Seq<JsonModel>,
    end: NativesModel,
    answer: JsonModel,
)
    requires
        m.synthetic.contains_key(arg_handle(args, 0)),
        arg_handle(later_args, 0) == arg_handle(args, 0),
        server_step(m, voice, "SET_ENTITY_HEALTH"@, kind, args, after, value),
        server_step(
            after,
            later_voice,
            "GET_ENTITY_HEALTH"@,
            later_kind,
            later_args,
            end,
            answer,
        ),
    ensures
        answer == int_json(arg_i64(args, 1) as int),
{
    let set = "SET_ENTITY_HEALTH"@;
    reveal_strlit("SET_ENTITY_HEALTH");
    reveal_strlit("SET_ENTITY_COORDS");
    reveal_strlit("SET_ENTITY_HEADING");
    assert(set[0] == 'S' && set[11] == 'H' && "SET_ENTITY_COORDS"@[11] == 'C');
    assert("SET_ENTITY_HEADING"@.len() == 18 && set.len() == 17);
    assert(set != "SET_ENTITY_HEADING"@);
    assert(set != "SET_ENTITY_COORDS"@);
    lemma_entity_change(m, voice, set, kind, args, after, value);
    let get = "GET_ENTITY_HEALTH"@;
    reveal_strlit("GET_ENTITY_HEALTH");
    assert(get[0] == 'G' && get[4] == 'E' && get[11] == 'H' && get.len() == 17);
    reveal_strlit("DOES_ENTITY_EXIST");
    reveal_strlit("GET_ALL_OBJECTS");
    reveal_strlit("GET_ALL_PEDS");
    reveal_strlit("GET_ALL_VEHICLES");
    reveal_strlit("GET_ENTITY_COORDS");
    reveal_strlit("GET_ENTITY_VELOCITY");
    reveal_strlit("NETWORK_GET_NETWORK_ID_FROM_ENTITY");
    reveal_strlit("NETWORK_GET_ENTITY_FROM_NETWORK_ID");
    reveal_strlit("GET_PLAYER_PED");
    reveal_strlit("GET_ENTITY_HEADING");
    assert("GET_ENTITY_COORDS"@[11] == 'C');
    assert("DOES_ENTITY_EXIST"@[0] == 'D');
    lemma_entity_read(after, later_voice, get, later_kind, later_args, end, answer);
}

/// The bucket that a script put an entity into is read back.
pub proof fn an_entity_bucket_is_read_back(
    m: NativesModel,
    voice: Option<VoiceModel>,
    kind: Seq<char>,
    args: Seq<JsonModel>,
    after: NativesModel,
    value: JsonModel,
    later_voice: Option<VoiceModel>,
    later_kind: Seq<char>,
    later_args: Seq<JsonModel>,
    end: NativesModel,
    answer: JsonModel,
)
    requires
        arg_netid(later_args, 0) == arg_netid(args, 0),
        server_step(m, voice, "SET_ENTITY_ROUTING_BUCKET"@, kind, args, after, value),
        server_step(
            after,
            later_voice,
            "GET_ENTITY_ROUTING_BUCKET"@,
            later_kind,
            later_args,
            end,
            answer,
        ),
    ensures
        answer == JsonModel::Unsigned(arg_netid(args, 1) as u64),
{
    let set = "SET_ENTITY_ROUTING_BUCKET"@;
    reveal_strlit("SET_ENTITY_ROUTING_BUCKET");
    reveal_strlit("SET_ENTITY_COORDS");
    reveal_strlit("SET_ENTITY_HEADING");
    reveal_strlit("SET_ENTITY_HEALTH");
    assert(set[0] == 'S' && set.len() == 25);
    lemma_entity_change(m, voice, set, kind, args, after, value);
    let get = "GET_ENTITY_ROUTING_BUCKET"@;
    reveal_strlit("GET_ENTITY_ROUTING_BUCKET");
    assert(get[0] == 'G' && get.len() == 25);
    reveal_strlit("DOES_ENTITY_EXIST");
    reveal_strlit("GET_ALL_OBJECTS");
    reveal_strlit("GET_ALL_PEDS");
    reveal_strlit("GET_ALL_VEHICLES");
    reveal_strlit("GET_ENTITY_COORDS");
    reveal_strlit("GET_ENTITY_VELOCITY");
    reveal_strlit("NETWORK_GET_NETWORK_ID_FROM_ENTITY");
    reveal_strlit("NETWORK_GET_ENTITY_FROM_NETWORK_ID");
    reveal_strlit("GET_PLAYER_PED");
    reveal_strlit("GET_ENTITY_HEADING");
    reveal_strlit("GET_ENTITY_HEALTH");
    reveal_strlit("GET_ENTITY_MODEL");
    lemma_entity_read(after, later_voice, get, later_kind, later_args, end, answer);
}

/// The bucket that a script put a player into is read back.
pub proof fn a_player_bucket_is_read_back(
    m: NativesModel,
    voice: Option<VoiceModel>,
    kind: Seq<char>,
    args: Seq<JsonModel>,
    after: NativesModel,
    value: JsonModel,
    later_voice: Option<VoiceModel>,
    later_kind: Seq<char>,
    later_args: Seq<JsonModel>,
    end: NativesModel,
    answer: JsonModel,
)
    requires
        arg_netid(later_args, 0) == arg_netid(args, 0),
        server_step(m, voice, "SET_PLAYER_ROUTING_BUCKET"@, kind, args, after, value),
        server_step(
            after,
            later_voice,
            "GET_PLAYER_ROUTING_BUCKET"@,
            later_kind,
            later_args,
            end,
            answer,
        ),
    ensures
        answer == JsonModel::Unsigned(arg_netid(args, 1) as u64),
{
    let set = "SET_PLAYER_ROUTING_BUCKET"@;
    let get = "GET_PLAYER_ROUTING_BUCKET"@;
    reveal_strlit("SET_PLAYER_ROUTING_BUCKET");
    reveal_strlit("GET_PLAYER_ROUTING_BUCKET");
    assert(set[0] == 'S' && set[4] == 'P' && set.len() == 25);
    assert(get[0] == 'G' && get[4] == 'P' && get.len() == 25);
    if creation_step(m, set, args) is Some {
        lemma_creation_names(m, set, args);
    }
    if entity_answer(m, set, args) is Some {
        lemma_reader_names(m, set, args);
    }
    if creation_step(after, get, later_args) is Some {
        lemma_creation_names(after, get, later_args);
    }
    reveal_strlit("SET_ENTITY_COORDS");
    reveal_strlit("SET_ENTITY_HEADING");
    reveal_strlit("SET_ENTITY_HEALTH");
    reveal_strlit("SET_ENTITY_ROUTING_BUCKET");
    assert("SET_ENTITY_ROUTING_BUCKET"@[4] == 'E');
    reveal_strlit("DROP_PLAYER");
    reveal_strlit("TEMP_BAN_PLAYER");
    reveal_strlit("GET_NUM_PLAYER_INDICES");
    assert(update_step(m, set, args) is None);
    assert(Some((after, value)) == player_step(m, set, args));
    reveal_strlit("DOES_ENTITY_EXIST");
    reveal_strlit("GET_ALL_OBJECTS");
    reveal_strlit("GET_ALL_PEDS");
    reveal_strlit("GET_ALL_VEHICLES");
    reveal_strlit("GET_ENTITY_COORDS");
    reveal_strlit("GET_ENTITY_VELOCITY");
    reveal_strlit("NETWORK_GET_NETWORK_ID_FROM_ENTITY");
    reveal_strlit("NETWORK_GET_ENTITY_FROM_NETWORK_ID");
    reveal_strlit("GET_PLAYER_PED");
    reveal_strlit("GET_ENTITY_HEADING");
    reveal_strlit("GET_ENTITY_HEALTH");
    reveal_strlit("GET_ENTITY_MODEL");
    reveal_strlit("GET_ENTITY_ROUTING_BUCKET");
    reveal_strlit("GET_ENTITY_TYPE");
    reveal_strlit("NETWORK_GET_ENTITY_OWNER");
    assert("GET_ENTITY_ROUTING_BUCKET"@[4] == 'E');
    assert(entity_answer(after, get, later_args) is None);
    assert(update_step(after, get, later_args) is None);
    assert(Some((end, answer)) == player_step(after, get, later_args));
}

proof fn lemma_bag_names(m: NativesModel, name: Seq<char>, args: Seq<JsonModel>)
    requires
        bag_step(m, name, args) is Some,
    ensures
        name.len() > 5,
        name[0] == 'S' || name[0] == 'G' ==> name[4] != 'R',
        name[0] != 'D',
{
    reveal_strlit("ADD_STATE_BAG_CHANGE_HANDLER");
    reveal_strlit("ENSURE_ENTITY_STATE_BAG");
    reveal_strlit("REMOVE_STATE_BAG_CHANGE_HANDLER");
    reveal_strlit("GET_STATE_BAG_KEYS");
    reveal_strlit("GET_ENTITY_FROM_STATE_BAG_NAME");
    reveal_strlit("GET_PLAYER_FROM_STATE_BAG_NAME");
    reveal_strlit("GET_STATE_BAG_VALUE");
    reveal_strlit("STATE_BAG_HAS_KEY");
    reveal_strlit("SET_STATE_BAG_VALUE");
}

proof fn lemma_constant_names(resource: Seq<char>, name: Seq<char>, args: Seq<JsonModel>)
    requires
        shared_answer(resource, name, args) is Some,
    ensures
        name.len() > 10,
        name[0] != 'S',
        name[0] == 'G' && name.len() > 15 ==> name[13] != 'K',
        name[0] == 'D' && name[1] == 'E' ==> name[7] == 'F',
{
    reveal_strlit("CANCEL_EVENT");
    reveal_strlit("END_FIND_KVP");
    reveal_strlit("PROFILER_ENTER_SCOPE");
    reveal_strlit("PROFILER_EXIT_SCOPE");
    reveal_strlit("REGISTER_RESOURCE_AS_EVENT_HANDLER");
    reveal_strlit("REMOVE_CONVAR_CHANGE_LISTENER");
    reveal_strlit("TRIGGER_EVENT_INTERNAL");
    reveal_strlit("DELETE_FUNCTION_REFERENCE");
    reveal_strlit("EXECUTE_COMMAND");
    reveal_strlit("ADD_CONVAR_CHANGE_LISTENER");
    reveal_strlit("GET_GAME_BUILD_NUMBER");
    reveal_strlit("GET_INSTANCE_ID");
    reveal_strlit("DUPLICATE_FUNCTION_REFERENCE");
    reveal_strlit("FORMAT_STACK_TRACE");
    reveal_strlit("GET_ENTITIES_IN_RADIUS");
    reveal_strlit("GET_GAME_POOL");
    reveal_strlit("GET_REGISTERED_COMMANDS");
    reveal_strlit("GET_RESOURCE_COMMANDS");
    reveal_strlit("GET_GAME_NAME");
    reveal_strlit("GET_INVOKING_RESOURCE");
    reveal_strlit("IS_ACE_ALLOWED");
    reveal_strlit("IS_PRINCIPAL_ACE_ALLOWED");
    reveal_strlit("PROFILER_IS_RECORDING");
    reveal_strlit("WAS_EVENT_CANCELED");
    reveal_strlit("IS_DUPLICITY_VERSION");
}

/// A read gives a resource back the text that it stored under the key, whether or not the
/// write was to be flushed at once.
pub proof fn a_stored_text_is_read_back(
    m: NativesModel,
    sync: bool,
    args: Seq<JsonModel>,
    after: NativesModel,
    value: Option<JsonModel>,
    later_args: Seq<JsonModel>,
    end: NativesModel,
    answer: Option<JsonModel>,
)
    requires
        arg_text(later_args, 0) == arg_text(args, 0),
        shared_step(
            m,
            if sync {
                "SET_RESOURCE_KVP"@
            } else {
                "SET_RESOURCE_KVP_NO_SYNC"@
            },
            args,
            after,
            value,
        ),
        shared_step(after, "GET_RESOURCE_KVP_STRING"@, later_args, end, answer),
    ensures
        answer == Some(JsonModel::Text(arg_text(args, 1))),
{
    let set = if sync {
        "SET_RESOURCE_KVP"@
    } else {
        "SET_RESOURCE_KVP_NO_SYNC"@
    };
    let get = "GET_RESOURCE_KVP_STRING"@;
    reveal_strlit("SET_RESOURCE_KVP");
    reveal_strlit("SET_RESOURCE_KVP_NO_SYNC");
    reveal_strlit("GET_RESOURCE_KVP_STRING");
    lemma_kvp_call(m, set, args, after, value);
    lemma_kvp_call(after, get, later_args, end, answer);
    reveal_strlit("DELETE_RESOURCE_KVP");
    reveal_strlit("DELETE_RESOURCE_KVP_NO_SYNC");
    reveal_strlit("FIND_KVP");
    reveal_strlit("FLUSH_RESOURCE_KVP");
    reveal_strlit("GET_RESOURCE_KVP_FLOAT");
    reveal_strlit("GET_RESOURCE_KVP_INT");
    assert(set[0] == 'S' && get[0] == 'G');
    assert("DELETE_RESOURCE_KVP"@[0] == 'D' && "DELETE_RESOURCE_KVP_NO_SYNC"@[0] == 'D');
    assert("FIND_KVP"@[0] == 'F' && "FLUSH_RESOURCE_KVP"@[0] == 'F');
    assert(get.len() == 23 && "GET_RESOURCE_KVP_FLOAT"@.len() == 22);
    assert(get != "GET_RESOURCE_KVP_FLOAT"@ && get != "GET_RESOURCE_KVP_INT"@);
    assert(after.kvp.entries == kvp_with(m, arg_text(args, 0), arg_text(args, 1)).entries);
}

proof fn lemma_kvp_call(
    m: NativesModel,
    name: Seq<char>,
    args: Seq<JsonModel>,
    after: NativesModel,
    value: Option<JsonModel>,
)
    requires
        name.len() > 15,
        name[0] == 'S' || name[0] == 'G',
        name[4] == 'R',
        name[13] == 'K',
        shared_step(m, name, args, after, value),
    ensures
        kvp_step(m, name, args, after, value),
{
    if bag_step(m, name, args) is Some {
        lemma_bag_names(m, name, args);
    }
    if shared_answer(m.resource, name, args) is Some {
        lemma_constant_names(m.resource, name, args);
    }
}

/// A read gives a resource back the whole number that it stored under the key.
pub proof fn a_stored_number_is_read_back(
    m: NativesModel,
    sync: bool,
    args: Seq<JsonModel>,
    after: NativesModel,
    value: Option<JsonModel>,
    later_args: Seq<JsonModel>,
    end: NativesModel,
    answer: Option<JsonModel>,
)
    requires
        arg_text(later_args, 0) == arg_text(args, 0),
        shared_step(
            m,
            if sync {
                "SET_RESOURCE_KVP_INT"@
            } else {
                "SET_RESOURCE_KVP_INT_NO_SYNC"@
            },
            args,
            after,
            value,
        ),
        shared_step(after, "GET_RESOURCE_KVP_INT"@, later_args, end, answer),
    ensures
        answer == Some(int_json(arg_i64(args, 1) as int)),
{
    let set = if sync {
        "SET_RESOURCE_KVP_INT"@
    } else {
        "SET_RESOURCE_KVP_INT_NO_SYNC"@
    };
    let get = "GET_RESOURCE_KVP_INT"@;
    reveal_strlit("SET_RESOURCE_KVP_INT");
    reveal_strlit("SET_RESOURCE_KVP_INT_NO_SYNC");
    reveal_strlit("GET_RESOURCE_KVP_INT");
    lemma_kvp_call(m, set, args, after, value);
    lemma_kvp_call(after, get, later_args, end, answer);
    reveal_strlit("DELETE_RESOURCE_KVP");
    reveal_strlit("DELETE_RESOURCE_KVP_NO_SYNC");
    reveal_strlit("FIND_KVP");
    reveal_strlit("FLUSH_RESOURCE_KVP");
    reveal_strlit("GET_RESOURCE_KVP_FLOAT");
    reveal_strlit("GET_RESOURCE_KVP_STRING");
    reveal_strlit("SET_RESOURCE_KVP");
    reveal_strlit("SET_RESOURCE_KVP_NO_SYNC");
    reveal_strlit("SET_RESOURCE_KVP_FLOAT");
    reveal_strlit("SET_RESOURCE_KVP_FLOAT_NO_SYNC");
    assert(set[0] == 'S' && get[0] == 'G');
    assert("DELETE_RESOURCE_KVP"@[0] == 'D' && "DELETE_RESOURCE_KVP_NO_SYNC"@[0] == 'D');
    assert("FIND_KVP"@[0] == 'F' && "FLUSH_RESOURCE_KVP"@[0] == 'F');
    assert("GET_RESOURCE_KVP_STRING"@[0] == 'G' && "GET_RESOURCE_KVP_FLOAT"@[0] == 'G');
    assert(get.len() == 20 && "GET_RESOURCE_KVP_FLOAT"@.len() == 22);
    assert(get != "GET_RESOURCE_KVP_FLOAT"@);
    assert("SET_RESOURCE_KVP_INT"@.len() == 20 && "SET_RESOURCE_KVP_INT_NO_SYNC"@.len() == 28);
    assert(set != "SET_RESOURCE_KVP"@ && set != "SET_RESOURCE_KVP_NO_SYNC"@);
    assert(set != "SET_RESOURCE_KVP_FLOAT"@ && set != "SET_RESOURCE_KVP_FLOAT_NO_SYNC"@);
    assert(after.kvp.entries == kvp_with(
        m,
        arg_text(args, 0),
        decimal_int(arg_i64(args, 1) as int),
    ).entries);
    decimal_int_reads_back(arg_i64(args, 1) as int, i64::MIN as int, i64::MAX as int);
}

/// What a resource stores or deletes under one key leaves what it stored under every
/// other key, and what every other resource stored, as it was.
pub proof fn other_values_stay(
    m: NativesModel,
    key: Seq<char>,
    value: Seq<char>,
    resource: Seq<char>,
    other: Seq<char>,
)
    requires
        plain(m.resource),
        plain(resource),
        resource != m.resource || other != key,
    ensures
        kvp_value(
            NativesModel { resource, kvp: kvp_with(m, key, value), ..m },
            other,
        ) == kvp_value(NativesModel { resource, ..m }, other),
        kvp_value(
            NativesModel { resource, kvp: kvp_without(m, key), ..m },
            other,
        ) == kvp_value(NativesModel { resource, ..m }, other),
{
    if flat(resource, other) == flat(m.resource, key) {
        values_are_scoped(resource, other, m.resource, key);
    }
}

/// A deleted value is not read back: the answer is null.
pub proof fn a_deleted_value_is_gone(
    m: NativesModel,
    sync: bool,
    args: Seq<JsonModel>,
    after: NativesModel,
    value: Option<JsonModel>,
    later_args: Seq<JsonModel>,
    end: NativesModel,
    answer: Option<JsonModel>,
)
    requires
        arg_text(later_args, 0) == arg_text(args, 0),
        shared_step(
            m,
            if sync {
                "DELETE_RESOURCE_KVP"@
            } else {
                "DELETE_RESOURCE_KVP_NO_SYNC"@
            },
            args,
            after,
            value,
        ),
        shared_step(after, "GET_RESOURCE_KVP_STRING"@, later_args, end, answer),
    ensures
        answer == Some(JsonModel::Null),
{
    let delete = if sync {
        "DELETE_RESOURCE_KVP"@
    } else {
        "DELETE_RESOURCE_KVP_NO_SYNC"@
    };
    let get = "GET_RESOURCE_KVP_STRING"@;
    reveal_strlit("DELETE_RESOURCE_KVP");
    reveal_strlit("DELETE_RESOURCE_KVP_NO_SYNC");
    reveal_strlit("GET_RESOURCE_KVP_STRING");
    assert(delete[0] == 'D' && delete[1] == 'E' && delete[7] == 'R');
    if bag_step(m, delete, args) is Some {
        lemma_bag_names(m, delete, args);
    }
    if shared_answer(m.resource, delete, args) is Some {
        lemma_constant_names(m.resource, delete, args);
    }
    lemma_kvp_call(after, get, later_args, end, answer);
    reveal_strlit("FIND_KVP");
    reveal_strlit("FLUSH_RESOURCE_KVP");
    reveal_strlit("GET_RESOURCE_KVP_FLOAT");
    reveal_strlit("GET_RESOURCE_KVP_INT");
    assert(get[0] == 'G');
    assert("DELETE_RESOURCE_KVP"@[0] == 'D' && "DELETE_RESOURCE_KVP_NO_SYNC"@[0] == 'D');
    assert("FIND_KVP"@[0] == 'F' && "FLUSH_RESOURCE_KVP"@[0] == 'F');
    assert(get.len() == 23 && "GET_RESOURCE_KVP_FLOAT"@.len() == 22);
    assert(get != "GET_RESOURCE_KVP_FLOAT"@ && get != "GET_RESOURCE_KVP_INT"@);
    assert(after.kvp.entries == kvp_without(m, arg_text(args, 0)).entries);
}

/// A script reads back the value that it put into a state bag.
pub proof fn a_bag_value_is_read_back(
    m: NativesModel,
    args: Seq<JsonModel>,
    after: NativesModel,
    value: Option<JsonModel>,
    later_args: Seq<JsonModel>,
    end: NativesModel,
    answer: Option<JsonModel>,
)
    requires
        arg_text(later_args, 0) == arg_text(args, 0),
        arg_text(later_args, 1) == arg_text(args, 1),
        shared_step(m, "SET_STATE_BAG_VALUE"@, args, after, value),
        shared_step(after, "GET_STATE_BAG_VALUE"@, later_args, end, answer),
    ensures
        end == after,
        answer == Some(arg_any(args, 2)),
{
    let set = "SET_STATE_BAG_VALUE"@;
    let get = "GET_STATE_BAG_VALUE"@;
    reveal_strlit("ADD_STATE_BAG_CHANGE_HANDLER");
    reveal_strlit("ENSURE_ENTITY_STATE_BAG");
    reveal_strlit("REMOVE_STATE_BAG_CHANGE_HANDLER");
    reveal_strlit("GET_STATE_BAG_KEYS");
    reveal_strlit("GET_ENTITY_FROM_STATE_BAG_NAME");
    reveal_strlit("GET_PLAYER_FROM_STATE_BAG_NAME");
    reveal_strlit("GET_STATE_BAG_VALUE");
    reveal_strlit("STATE_BAG_HAS_KEY");
    reveal_strlit("SET_STATE_BAG_VALUE");
    assert(set[0] == 'S' && get[0] == 'G');
    assert(set.len() == 19 && get.len() == 19);
    assert(set != "STATE_BAG_HAS_KEY"@ && get != "GET_STATE_BAG_KEYS"@);
}

/// A script can predict where a native that is routed by an entity will land: the client
/// that `NETWORK_GET_ENTITY_OWNER` names, or none where it names none.
pub proof fn the_owner_native_predicts_the_target(
    m: NativesModel,
    voice: Option<VoiceModel>,
    kind: Seq<char>,
    args: Seq<JsonModel>,
    after: NativesModel,
    answer: JsonModel,
)
    requires
        arg_handle(args, 0) == arg_netid(args, 0),
        server_step(m, voice, "NETWORK_GET_ENTITY_OWNER"@, kind, args, after, answer),
    ensures
        after == m,
        answer == JsonModel::Unsigned(
            match routed(m.world, RpcContext::Entity { idx: 0 }, args) {
                Ok(target) => target as u64,
                Err(_) => 0,
            },
        ),
{
    let name = "NETWORK_GET_ENTITY_OWNER"@;
    reveal_strlit("NETWORK_GET_ENTITY_OWNER");
    assert(name[0] == 'N' && name.len() == 24);
    if creation_step(m, name, args) is Some {
        lemma_creation_names(m, name, args);
    }
    reveal_strlit("DOES_ENTITY_EXIST");
    reveal_strlit("GET_ALL_OBJECTS");
    reveal_strlit("GET_ALL_PEDS");
    reveal_strlit("GET_ALL_VEHICLES");
    reveal_strlit("GET_ENTITY_COORDS");
    reveal_strlit("GET_ENTITY_VELOCITY");
    reveal_strlit("NETWORK_GET_NETWORK_ID_FROM_ENTITY");
    reveal_strlit("NETWORK_GET_ENTITY_FROM_NETWORK_ID");
    reveal_strlit("GET_PLAYER_PED");
    reveal_strlit("GET_ENTITY_HEADING");
    reveal_strlit("GET_ENTITY_HEALTH");
    reveal_strlit("GET_ENTITY_MODEL");
    reveal_strlit("GET_ENTITY_ROUTING_BUCKET");
    reveal_strlit("GET_ENTITY_TYPE");
}

/// A native that is routed by an entity without an owner stays on the server: nobody
/// could execute it.
pub proof fn an_unowned_call_stays_on_the_server(
    m: NativesModel,
    name: Seq<char>,
    args: Seq<JsonModel>,
)
    requires
        m.routes.contains_key(name),
        routed(m.world, m.routes[name].context, args) is Err,
    ensures
        rpc_step(m, name, args) matches Some(after) && after.net == m.net,
{
}

/// Without a worker a request is refused and reported, rather than answered with a token
/// that nobody will ever resolve.
pub proof fn requests_without_a_worker_are_refused(m: NativesModel, raw: Seq<char>)
    requires
        m.http is None,
    ensures
        requested(m, raw) == (
            missed(m, "PERFORM_HTTP_REQUEST_INTERNAL"@, "int"@),
            JsonModel::Unsigned(0),
        ),
{
}

/// A server native that there is none of is answered with the neutral value of its kind,
/// and the host is told: nothing else changes.
pub proof fn unimplemented_natives_degrade_visibly(
    m: NativesModel,
    voice: Option<VoiceModel>,
    name: Seq<char>,
    kind: Seq<char>,
    args: Seq<JsonModel>,
    after: NativesModel,
    value: JsonModel,
)
    requires
        settled_step(m, voice, name, args) is None,
        service_step(m, name, args, m, None),
        script_answer(m, name, args) is None,
        world_answer(m.world, name, args) is None,
        rpc_step(m, name, args) is None,
        server_step(m, voice, name, kind, args, after, value),
    ensures
        after == missed(m, name, kind),
        value == neutral(kind),
{
}

/// The text that carries bytes, one character for each.
pub open spec fn binary_text(bytes: Seq<u8>) -> Seq<char> {
    bytes.map_values(|b: u8| b as char)
}

/// A payload that a script packed reaches the transport byte for byte.
pub proof fn a_packed_payload_is_forwarded_verbatim(bytes: Seq<u8>)
    ensures
        latin1(binary_text(bytes)) == bytes,
    decreases bytes.len(),
{
    if bytes.len() > 0 {
        a_packed_payload_is_forwarded_verbatim(bytes.drop_last());
        assert(binary_text(bytes).drop_last() =~= binary_text(bytes.drop_last()));
        let b = bytes.last();
        assert(binary_text(bytes).last() == b as char);
        assert(bytes =~= bytes.drop_last().push(b));
    } else {
        assert(latin1(binary_text(bytes)) =~= bytes);
    }
}

} // verus!
