//! What scripts can rely on of the entities that they create, change and read: each native
//! uses the arguments that stand in its places, and no others.
use crate::args::{arg_bool, arg_handle, arg_i64, arg_netid, arg_real};
use crate::entity_world::{Point, ScriptEntityType, WorldCommandModel};
use crate::json::{array_of, numbers, JsonModel};
use crate::native_names::lemma_names_differ;
use crate::natives::{
    creation_step, entity_answer, native_step, player_step, rpc_step, update_step, EffectModel,
    NativesModel, VoiceModel,
};
use crate::ordered::lists;
use crate::text::decimal;
use vstd::prelude::*;

verus! {

/// The natives that create an entity at a place.
pub open spec fn creates_at_a_place(name: Seq<char>) -> bool {
    ||| name == "CREATE_OBJECT"@
    ||| name == "CREATE_OBJECT_NO_OFFSET"@
    ||| name == "CREATE_PED"@
    ||| name == "CREATE_VEHICLE"@
    ||| name == "CREATE_VEHICLE_SERVER_SETTER"@
}

/// The natives that read an entity.
pub open spec fn reads_entities(name: Seq<char>) -> bool {
    ||| name == "DOES_ENTITY_EXIST"@
    ||| name == "GET_ALL_OBJECTS"@
    ||| name == "GET_ALL_PEDS"@
    ||| name == "GET_ALL_VEHICLES"@
    ||| name == "GET_ENTITY_COORDS"@
    ||| name == "GET_ENTITY_VELOCITY"@
    ||| name == "NETWORK_GET_NETWORK_ID_FROM_ENTITY"@
    ||| name == "NETWORK_GET_ENTITY_FROM_NETWORK_ID"@
    ||| name == "GET_PLAYER_PED"@
    ||| name == "GET_ENTITY_HEADING"@
    ||| name == "GET_ENTITY_HEALTH"@
    ||| name == "GET_ENTITY_MODEL"@
    ||| name == "GET_ENTITY_ROUTING_BUCKET"@
    ||| name == "GET_ENTITY_TYPE"@
    ||| name == "NETWORK_GET_ENTITY_OWNER"@
}

proof fn lemma_created(
    m: NativesModel,
    voice: Option<VoiceModel>,
    name: Seq<char>,
    kind: Seq<char>,
    args: Seq<JsonModel>,
    after: NativesModel,
    value: JsonModel,
)
    requires
        creates_at_a_place(name) || name == "CREATE_PED_INSIDE_VEHICLE"@ || name
            == "DELETE_ENTITY"@ || name == "DELETE_TRAIN"@,
        native_step(m, voice, name, kind, args, after, value),
    ensures
        creation_step(m, name, args) == Some((after, value)),
{
    lemma_names_differ();
}

proof fn lemma_read(
    m: NativesModel,
    voice: Option<VoiceModel>,
    name: Seq<char>,
    kind: Seq<char>,
    args: Seq<JsonModel>,
    after: NativesModel,
    value: JsonModel,
)
    requires
        reads_entities(name),
        native_step(m, voice, name, kind, args, after, value),
    ensures
        after == m,
        entity_answer(m, name, args) == Some(value),
{
    lemma_names_differ();
}

proof fn lemma_changed(
    m: NativesModel,
    voice: Option<VoiceModel>,
    name: Seq<char>,
    kind: Seq<char>,
    args: Seq<JsonModel>,
    after: NativesModel,
    value: JsonModel,
)
    requires
        name == "SET_ENTITY_COORDS"@ || name == "SET_ENTITY_HEADING"@ || name
            == "SET_ENTITY_HEALTH"@ || name == "SET_ENTITY_ROUTING_BUCKET"@,
        native_step(m, voice, name, kind, args, after, value),
    ensures
        update_step(m, name, args) == Some((after, value)),
{
    lemma_names_differ();
}

proof fn lemma_players(
    m: NativesModel,
    voice: Option<VoiceModel>,
    name: Seq<char>,
    kind: Seq<char>,
    args: Seq<JsonModel>,
    after: NativesModel,
    value: JsonModel,
)
    requires
        name == "DROP_PLAYER"@ || name == "TEMP_BAN_PLAYER"@ || name == "GET_NUM_PLAYER_INDICES"@
            || name == "GET_PLAYER_ROUTING_BUCKET"@ || name == "SET_PLAYER_ROUTING_BUCKET"@ || name
            == "SET_ROUTING_BUCKET_ENTITY_LOCKDOWN_MODE"@ || name
            == "SET_ROUTING_BUCKET_POPULATION_ENABLED"@,
        native_step(m, voice, name, kind, args, after, value),
    ensures
        player_step(m, name, args) == Some((after, value)),
{
    lemma_names_differ();
}

proof fn lemma_handle(id: u32)
    ensures
        arg_handle(seq![JsonModel::Unsigned(id as u64)], 0) == id,
        arg_netid(seq![JsonModel::Unsigned(id as u64)], 0) == id,
{
    assert(((id as u64) as i64) as u32 == id) by (bit_vector);
}

/// An entity that a script created is where the call put it, with the heading that the
/// call gave it, as long as the world does not know it better: the three arguments from
/// `first` on are its place, and the one behind them its heading. An object has none.
pub proof fn a_created_entity_is_where_it_was_put(
    m: NativesModel,
    voice: Option<VoiceModel>,
    name: Seq<char>,
    kind: Seq<char>,
    args: Seq<JsonModel>,
    after: NativesModel,
    id: u32,
    later_voice: Option<VoiceModel>,
    later_kind: Seq<char>,
    end: NativesModel,
    answer: JsonModel,
    first: int,
)
    requires
        ({
            ||| name == "CREATE_OBJECT"@ && first == 1
            ||| name == "CREATE_OBJECT_NO_OFFSET"@ && first == 1
            ||| name == "CREATE_VEHICLE"@ && first == 1
            ||| name == "CREATE_PED"@ && first == 2
            ||| name == "CREATE_VEHICLE_SERVER_SETTER"@ && first == 2
        }),
        native_step(m, voice, name, kind, args, after, JsonModel::Unsigned(id as u64)),
        !m.world.entities.contains_key(id),
    ensures
        native_step(
            after,
            later_voice,
            "GET_ENTITY_COORDS"@,
            later_kind,
            seq![JsonModel::Unsigned(id as u64)],
            end,
            answer,
        ) ==> answer == array_of(
            seq![
                JsonModel::Real(arg_real(args, first)),
                JsonModel::Real(arg_real(args, first + 1)),
                JsonModel::Real(arg_real(args, first + 2)),
            ],
        ),
        native_step(
            after,
            later_voice,
            "GET_ENTITY_HEADING"@,
            later_kind,
            seq![JsonModel::Unsigned(id as u64)],
            end,
            answer,
        ) ==> answer == JsonModel::Real(
            if name == "CREATE_OBJECT"@ || name == "CREATE_OBJECT_NO_OFFSET"@ {
                "0.0"@
            } else {
                arg_real(args, first + 3)
            },
        ),
{
    let later = seq![JsonModel::Unsigned(id as u64)];
    lemma_created(m, voice, name, kind, args, after, JsonModel::Unsigned(id as u64));
    lemma_handle(id);
    if native_step(after, later_voice, "GET_ENTITY_COORDS"@, later_kind, later, end, answer) {
        lemma_read(after, later_voice, "GET_ENTITY_COORDS"@, later_kind, later, end, answer);
    }
    if native_step(after, later_voice, "GET_ENTITY_HEADING"@, later_kind, later, end, answer) {
        lemma_read(after, later_voice, "GET_ENTITY_HEADING"@, later_kind, later, end, answer);
    }
    lemma_names_differ();
}

/// An entity that a script created has the model that the call named, is of the kind that
/// the native creates, and starts with the health of its kind, in bucket zero: a ped is 1
/// and has 200, a vehicle is 2 and has 1000, an object is 3 and has 1000.
pub proof fn a_created_entity_is_what_was_asked_for(
    m: NativesModel,
    voice: Option<VoiceModel>,
    name: Seq<char>,
    kind: Seq<char>,
    args: Seq<JsonModel>,
    after: NativesModel,
    id: u32,
    later_voice: Option<VoiceModel>,
    later_kind: Seq<char>,
    end: NativesModel,
    answer: JsonModel,
    model: int,
    number: u64,
    health: u64,
)
    requires
        ({
            ||| name == "CREATE_OBJECT"@ && model == 0 && number == 3 && health == 1000
            ||| name == "CREATE_OBJECT_NO_OFFSET"@ && model == 0 && number == 3 && health == 1000
            ||| name == "CREATE_VEHICLE"@ && model == 0 && number == 2 && health == 1000
            ||| name == "CREATE_VEHICLE_SERVER_SETTER"@ && model == 0 && number == 2 && health
                == 1000
            ||| name == "CREATE_PED"@ && model == 1 && number == 1 && health == 200
            ||| name == "CREATE_PED_INSIDE_VEHICLE"@ && model == 2 && number == 1 && health == 200
        }),
        native_step(m, voice, name, kind, args, after, JsonModel::Unsigned(id as u64)),
        !m.world.entities.contains_key(id),
    ensures
        native_step(
            after,
            later_voice,
            "GET_ENTITY_MODEL"@,
            later_kind,
            seq![JsonModel::Unsigned(id as u64)],
            end,
            answer,
        ) ==> answer == (if arg_i64(args, model) < 0 {
            JsonModel::Signed(arg_i64(args, model))
        } else {
            JsonModel::Unsigned(arg_i64(args, model) as u64)
        }),
        native_step(
            after,
            later_voice,
            "GET_ENTITY_TYPE"@,
            later_kind,
            seq![JsonModel::Unsigned(id as u64)],
            end,
            answer,
        ) ==> answer == JsonModel::Unsigned(number),
        native_step(
            after,
            later_voice,
            "GET_ENTITY_HEALTH"@,
            later_kind,
            seq![JsonModel::Unsigned(id as u64)],
            end,
            answer,
        ) ==> answer == JsonModel::Unsigned(health),
        native_step(
            after,
            later_voice,
            "GET_ENTITY_ROUTING_BUCKET"@,
            later_kind,
            seq![JsonModel::Unsigned(id as u64)],
            end,
            answer,
        ) ==> answer == JsonModel::Unsigned(0),
{
    let later = seq![JsonModel::Unsigned(id as u64)];
    lemma_created(m, voice, name, kind, args, after, JsonModel::Unsigned(id as u64));
    lemma_handle(id);
    if native_step(after, later_voice, "GET_ENTITY_MODEL"@, later_kind, later, end, answer) {
        lemma_read(after, later_voice, "GET_ENTITY_MODEL"@, later_kind, later, end, answer);
    }
    if native_step(after, later_voice, "GET_ENTITY_TYPE"@, later_kind, later, end, answer) {
        lemma_read(after, later_voice, "GET_ENTITY_TYPE"@, later_kind, later, end, answer);
    }
    if native_step(after, later_voice, "GET_ENTITY_HEALTH"@, later_kind, later, end, answer) {
        lemma_read(after, later_voice, "GET_ENTITY_HEALTH"@, later_kind, later, end, answer);
    }
    if native_step(
        after,
        later_voice,
        "GET_ENTITY_ROUTING_BUCKET"@,
        later_kind,
        later,
        end,
        answer,
    ) {
        lemma_read(after, later_voice, "GET_ENTITY_ROUTING_BUCKET"@, later_kind, later, end, answer);
    }
    lemma_names_differ();
}

/// With an id that the world has reserved, a new entity gets that id, and the world is
/// asked to spawn it under it: with the model, the place and the heading of the call. Only
/// an object can be dynamic, where its sixth argument says so. Without one, the entity gets
/// the next made-up handle, and the world is asked nothing.
pub proof fn a_new_entity_is_spawned_under_its_reserved_id(
    m: NativesModel,
    voice: Option<VoiceModel>,
    name: Seq<char>,
    kind: Seq<char>,
    args: Seq<JsonModel>,
    after: NativesModel,
    id: u32,
    model: int,
    first: int,
)
    requires
        ({
            ||| name == "CREATE_OBJECT"@ && model == 0 && first == 1
            ||| name == "CREATE_OBJECT_NO_OFFSET"@ && model == 0 && first == 1
            ||| name == "CREATE_VEHICLE"@ && model == 0 && first == 1
            ||| name == "CREATE_PED"@ && model == 1 && first == 2
            ||| name == "CREATE_VEHICLE_SERVER_SETTER"@ && model == 0 && first == 2
        }),
        native_step(m, voice, name, kind, args, after, JsonModel::Unsigned(id as u64)),
    ensures
        after.reserved is None,
        after.synthetic.contains_key(id),
        after.synthetic.remove(id) == m.synthetic.remove(id),
        m.reserved is None ==> id == m.next_synthetic && after.effects == m.effects
            && after.next_synthetic != m.next_synthetic,
        m.reserved is Some ==> id == m.reserved->0 && after.next_synthetic == m.next_synthetic
            && after.effects.len() == m.effects.len() + 1 && (after.effects.last() matches
            EffectModel::World(WorldCommandModel::Spawn {
            network_id,
            entity_type,
            model: spawned,
            position,
            heading,
            dynamic,
        }) && network_id == id && spawned == arg_handle(args, model) && position.x == arg_real(
            args,
            first,
        ) && position.y == arg_real(args, first + 1) && position.z == arg_real(args, first + 2)
            && (name == "CREATE_OBJECT"@ || name == "CREATE_OBJECT_NO_OFFSET"@ ==> entity_type
            == ScriptEntityType::Object && dynamic == arg_bool(args, 5) && heading == "0.0"@) && (
        name == "CREATE_PED"@ ==> entity_type == ScriptEntityType::Ped && !dynamic && heading
            == arg_real(args, 5)) && (name == "CREATE_VEHICLE"@ ==> entity_type
            == ScriptEntityType::Vehicle && !dynamic && heading == arg_real(args, 4)) && (name
            == "CREATE_VEHICLE_SERVER_SETTER"@ ==> entity_type == ScriptEntityType::Vehicle
            && !dynamic && heading == arg_real(args, 5))),
{
    lemma_created(m, voice, name, kind, args, after, JsonModel::Unsigned(id as u64));
    lemma_names_differ();
    assert(after.synthetic.remove(id) =~= m.synthetic.remove(id));
}

/// A ped that a script puts into a vehicle never asks the world for anything: it gets a
/// made-up handle and keeps its vehicle and its seat, the first and the fourth argument.
pub proof fn a_ped_in_a_vehicle_keeps_its_seat(
    m: NativesModel,
    voice: Option<VoiceModel>,
    kind: Seq<char>,
    args: Seq<JsonModel>,
    after: NativesModel,
    id: u32,
)
    requires
        native_step(
            m,
            voice,
            "CREATE_PED_INSIDE_VEHICLE"@,
            kind,
            args,
            after,
            JsonModel::Unsigned(id as u64),
        ),
    ensures
        id == m.next_synthetic,
        after.reserved == m.reserved,
        after.effects == m.effects,
        after.synthetic.contains_key(id),
        after.synthetic[id].vehicle == Some((arg_i64(args, 0), arg_i64(args, 3))),
{
    lemma_created(
        m,
        voice,
        "CREATE_PED_INSIDE_VEHICLE"@,
        kind,
        args,
        after,
        JsonModel::Unsigned(id as u64),
    );
    lemma_names_differ();
}

/// Deleting an entity asks the world to despawn it, and takes its record, its bucket and
/// its state bag away; every other entity keeps its own.
pub proof fn a_deleted_entity_leaves_nothing(
    m: NativesModel,
    voice: Option<VoiceModel>,
    train: bool,
    kind: Seq<char>,
    id: u32,
    after: NativesModel,
    value: JsonModel,
)
    requires
        native_step(
            m,
            voice,
            if train {
                "DELETE_TRAIN"@
            } else {
                "DELETE_ENTITY"@
            },
            kind,
            seq![JsonModel::Unsigned(id as u64)],
            after,
            value,
        ),
    ensures
        value == JsonModel::Null,
        after.synthetic == m.synthetic.remove(id),
        after.routing.entities == m.routing.entities.remove(id),
        after.routing.players == m.routing.players,
        after.bags.bags == m.bags.bags.remove("entity:"@ + decimal(id as nat)),
        after.effects == m.effects.push(
            EffectModel::World(WorldCommandModel::Despawn { network_id: id }),
        ),
        after.world == m.world,
{
    let name = if train {
        "DELETE_TRAIN"@
    } else {
        "DELETE_ENTITY"@
    };
    lemma_created(m, voice, name, kind, seq![JsonModel::Unsigned(id as u64)], after, value);
    lemma_handle(id);
    lemma_names_differ();
}

/// What the world knows of an entity goes before what a script made of it: its place, its
/// speed, its kind and its owner are those that were published.
pub proof fn the_world_knows_best(
    m: NativesModel,
    voice: Option<VoiceModel>,
    kind: Seq<char>,
    id: u32,
    after: NativesModel,
    answer: JsonModel,
)
    requires
        m.world.entities.contains_key(id),
    ensures
        ({
            let args = seq![JsonModel::Unsigned(id as u64)];
            let entity = m.world.entities[id];
            &&& native_step(m, voice, "GET_ENTITY_COORDS"@, kind, args, after, answer) ==> answer
                == array_of(
                seq![
                    JsonModel::Real(entity.position@[0]@),
                    JsonModel::Real(entity.position@[1]@),
                    JsonModel::Real(entity.position@[2]@),
                ],
            )
            &&& native_step(m, voice, "GET_ENTITY_VELOCITY"@, kind, args, after, answer) ==> answer
                == array_of(
                seq![
                    JsonModel::Real(entity.velocity@[0]@),
                    JsonModel::Real(entity.velocity@[1]@),
                    JsonModel::Real(entity.velocity@[2]@),
                ],
            )
            &&& native_step(m, voice, "GET_ENTITY_TYPE"@, kind, args, after, answer) ==> answer
                == JsonModel::Unsigned(
                match entity.entity_type {
                    ScriptEntityType::Ped => 1,
                    ScriptEntityType::Vehicle => 2,
                    ScriptEntityType::Object => 3,
                },
            )
            &&& native_step(m, voice, "NETWORK_GET_ENTITY_OWNER"@, kind, args, after, answer)
                ==> answer == JsonModel::Unsigned(entity.owner as u64)
            &&& native_step(m, voice, "DOES_ENTITY_EXIST"@, kind, args, after, answer) ==> answer
                == JsonModel::Bool(true)
            &&& native_step(
                m,
                voice,
                "NETWORK_GET_NETWORK_ID_FROM_ENTITY"@,
                kind,
                args,
                after,
                answer,
            ) ==> answer == JsonModel::Unsigned(id as u64)
            &&& native_step(
                m,
                voice,
                "NETWORK_GET_ENTITY_FROM_NETWORK_ID"@,
                kind,
                args,
                after,
                answer,
            ) ==> answer == JsonModel::Unsigned(id as u64)
        }),
{
    let args = seq![JsonModel::Unsigned(id as u64)];
    lemma_handle(id);
    lemma_names_differ();
    if native_step(m, voice, "GET_ENTITY_COORDS"@, kind, args, after, answer) {
        lemma_read(m, voice, "GET_ENTITY_COORDS"@, kind, args, after, answer);
    }
    if native_step(m, voice, "GET_ENTITY_VELOCITY"@, kind, args, after, answer) {
        lemma_read(m, voice, "GET_ENTITY_VELOCITY"@, kind, args, after, answer);
    }
    if native_step(m, voice, "GET_ENTITY_TYPE"@, kind, args, after, answer) {
        lemma_read(m, voice, "GET_ENTITY_TYPE"@, kind, args, after, answer);
    }
    if native_step(m, voice, "NETWORK_GET_ENTITY_OWNER"@, kind, args, after, answer) {
        lemma_read(m, voice, "NETWORK_GET_ENTITY_OWNER"@, kind, args, after, answer);
    }
    if native_step(m, voice, "DOES_ENTITY_EXIST"@, kind, args, after, answer) {
        lemma_read(m, voice, "DOES_ENTITY_EXIST"@, kind, args, after, answer);
    }
    if native_step(m, voice, "NETWORK_GET_NETWORK_ID_FROM_ENTITY"@, kind, args, after, answer) {
        lemma_read(m, voice, "NETWORK_GET_NETWORK_ID_FROM_ENTITY"@, kind, args, after, answer);
    }
    if native_step(m, voice, "NETWORK_GET_ENTITY_FROM_NETWORK_ID"@, kind, args, after, answer) {
        lemma_read(m, voice, "NETWORK_GET_ENTITY_FROM_NETWORK_ID"@, kind, args, after, answer);
    }
}

/// A handle that means nothing is answered neutrally: it exists nowhere, stands at the
/// origin, and has neither kind, model, health, heading nor owner.
pub proof fn an_unknown_handle_is_answered_neutrally(
    m: NativesModel,
    voice: Option<VoiceModel>,
    name: Seq<char>,
    kind: Seq<char>,
    id: u32,
    after: NativesModel,
    answer: JsonModel,
)
    requires
        !m.world.entities.contains_key(id),
        !m.synthetic.contains_key(id),
        native_step(m, voice, name, kind, seq![JsonModel::Unsigned(id as u64)], after, answer),
    ensures
        name == "DOES_ENTITY_EXIST"@ ==> answer == JsonModel::Bool(false),
        name == "GET_ENTITY_COORDS"@ || name == "GET_ENTITY_VELOCITY"@ ==> answer == array_of(
            seq![JsonModel::Real("0.0"@), JsonModel::Real("0.0"@), JsonModel::Real("0.0"@)],
        ),
        name == "GET_ENTITY_TYPE"@ || name == "GET_ENTITY_MODEL"@ || name == "GET_ENTITY_HEALTH"@
            || name == "NETWORK_GET_ENTITY_OWNER"@ || name == "NETWORK_GET_NETWORK_ID_FROM_ENTITY"@
            || name == "NETWORK_GET_ENTITY_FROM_NETWORK_ID"@ ==> answer == JsonModel::Unsigned(0),
        name == "GET_ENTITY_HEADING"@ ==> answer == JsonModel::Real("0.0"@),
{
    lemma_handle(id);
    if reads_entities(name) {
        lemma_read(m, voice, name, kind, seq![JsonModel::Unsigned(id as u64)], after, answer);
    }
    lemma_names_differ();
}

/// Each of the natives that change an entity changes the one thing that it names, of the
/// entity that it names, where a script created that entity; all the rest of it and all
/// other entities stay as they were.
pub proof fn a_change_is_confined_to_what_it_names(
    m: NativesModel,
    voice: Option<VoiceModel>,
    name: Seq<char>,
    kind: Seq<char>,
    args: Seq<JsonModel>,
    id: u32,
    after: NativesModel,
    value: JsonModel,
    other: u32,
)
    requires
        args.len() > 0,
        args[0] == JsonModel::Unsigned(id as u64),
        native_step(m, voice, name, kind, args, after, value),
        name == "SET_ENTITY_COORDS"@ || name == "SET_ENTITY_HEADING"@ || name
            == "SET_ENTITY_HEALTH"@ || name == "SET_ENTITY_ROUTING_BUCKET"@,
    ensures
        value == JsonModel::Null,
        after.synthetic.dom() == m.synthetic.dom(),
        after.world == m.world,
        other != id && m.synthetic.contains_key(other) ==> after.synthetic[other]
            == m.synthetic[other],
        m.synthetic.contains_key(id) ==> {
            let old = m.synthetic[id];
            let new = after.synthetic[id];
            &&& new.entity_type == old.entity_type
            &&& new.model == old.model
            &&& new.vehicle == old.vehicle
            &&& name == "SET_ENTITY_COORDS"@ ==> new.coords == (Point {
                x: arg_real(args, 1),
                y: arg_real(args, 2),
                z: arg_real(args, 3),
            })
            &&& name != "SET_ENTITY_COORDS"@ ==> new.coords == old.coords
            &&& name == "SET_ENTITY_HEADING"@ ==> new.heading == arg_real(args, 1)
            &&& name != "SET_ENTITY_HEADING"@ ==> new.heading == old.heading
            &&& name == "SET_ENTITY_HEALTH"@ ==> new.health == arg_i64(args, 1)
            &&& name != "SET_ENTITY_HEALTH"@ ==> new.health == old.health
            &&& name == "SET_ENTITY_ROUTING_BUCKET"@ ==> new.routing_bucket == arg_netid(args, 1)
            &&& name != "SET_ENTITY_ROUTING_BUCKET"@ ==> new.routing_bucket == old.routing_bucket
        },
        name != "SET_ENTITY_ROUTING_BUCKET"@ ==> after.routing == m.routing,
        name == "SET_ENTITY_ROUTING_BUCKET"@ ==> after.routing.players == m.routing.players && (
        other != id ==> (after.routing.entities.contains_key(other)
            == m.routing.entities.contains_key(other)) && (m.routing.entities.contains_key(other)
            ==> after.routing.entities[other] == m.routing.entities[other])),
{
    assert(((id as u64) as i64) as u32 == id) by (bit_vector);
    lemma_changed(m, voice, name, kind, args, after, value);
    lemma_names_differ();
    assert(after.synthetic.dom() =~= m.synthetic.dom());
}

/// Moving or turning an entity is told to the client that owns it, where the native is
/// routed at all; changing its health or its bucket is told to nobody.
pub proof fn only_movement_is_told_to_the_owner(
    m: NativesModel,
    voice: Option<VoiceModel>,
    name: Seq<char>,
    kind: Seq<char>,
    args: Seq<JsonModel>,
    after: NativesModel,
    value: JsonModel,
)
    requires
        native_step(m, voice, name, kind, args, after, value),
    ensures
        name == "SET_ENTITY_HEALTH"@ || name == "SET_ENTITY_ROUTING_BUCKET"@ ==> after.net == m.net
            && after.effects == m.effects,
        name == "SET_ENTITY_COORDS"@ || name == "SET_ENTITY_HEADING"@ ==> match rpc_step(
            m,
            name,
            args,
        ) {
            Some(sent) => after.net == sent.net && after.effects == sent.effects && after.next_call
                == sent.next_call,
            None => after.net == m.net && after.effects == m.effects,
        },
{
    if name == "SET_ENTITY_COORDS"@ || name == "SET_ENTITY_HEADING"@ || name
        == "SET_ENTITY_HEALTH"@ || name == "SET_ENTITY_ROUTING_BUCKET"@ {
        lemma_changed(m, voice, name, kind, args, after, value);
        lemma_names_differ();
    }
}

/// A script that asks for all entities of a kind gets each one that the world or a script
/// has, once, in ascending order, and none of another kind.
pub proof fn all_entities_of_a_kind_are_listed(
    m: NativesModel,
    voice: Option<VoiceModel>,
    name: Seq<char>,
    kind: Seq<char>,
    args: Seq<JsonModel>,
    after: NativesModel,
    answer: JsonModel,
    entity_type: ScriptEntityType,
    ids: Seq<u32>,
)
    requires
        ({
            ||| name == "GET_ALL_OBJECTS"@ && entity_type == ScriptEntityType::Object
            ||| name == "GET_ALL_PEDS"@ && entity_type == ScriptEntityType::Ped
            ||| name == "GET_ALL_VEHICLES"@ && entity_type == ScriptEntityType::Vehicle
        }),
        native_step(m, voice, name, kind, args, after, answer),
        forall|i: int, j: int| 0 <= i < j < ids.len() ==> ids[i] < ids[j],
        forall|id: u32| #[trigger]
            ids.contains(id) <==> (m.world.entities.contains_key(id)
                && m.world.entities[id].entity_type == entity_type) || (m.synthetic.contains_key(id)
                && m.synthetic[id].entity_type == entity_type),
    ensures
        answer == array_of(ids.map_values(|id: u32| JsonModel::Unsigned(id as u64))),
{
    lemma_read(m, voice, name, kind, args, after, answer);
    lemma_names_differ();
    let set = crate::entity_world::of_type(m.world.entities, entity_type).union(
        crate::natives::synthetic_of_type(m.synthetic, entity_type),
    );
    assert(lists(ids, set)) by {
        assert forall|x: u32| #[trigger] ids.contains(x) <==> set.contains(x) by {}
    }
    crate::ordered::lemma_is_listing(ids, set);
    assert(numbers(ids) =~= ids.map_values(|id: u32| JsonModel::Unsigned(id as u64)));
}

/// The ped of a player is the one that was published for that player, and zero where none
/// was.
pub proof fn a_player_is_found_by_its_ped(
    m: NativesModel,
    voice: Option<VoiceModel>,
    kind: Seq<char>,
    player: u32,
    after: NativesModel,
    answer: JsonModel,
)
    requires
        native_step(
            m,
            voice,
            "GET_PLAYER_PED"@,
            kind,
            seq![JsonModel::Unsigned(player as u64)],
            after,
            answer,
        ),
    ensures
        m.world.player_peds.contains_key(player) ==> answer == JsonModel::Unsigned(
            m.world.player_peds[player] as u64,
        ),
        !m.world.player_peds.contains_key(player) ==> answer == JsonModel::Unsigned(0),
{
    lemma_handle(player);
    lemma_read(
        m,
        voice,
        "GET_PLAYER_PED"@,
        kind,
        seq![JsonModel::Unsigned(player as u64)],
        after,
        answer,
    );
    lemma_names_differ();
}

/// Dropping a player and banning one for a while both have the host drop the player that
/// is named, and do nothing else.
pub proof fn dropping_a_player_is_left_to_the_host(
    m: NativesModel,
    voice: Option<VoiceModel>,
    ban: bool,
    kind: Seq<char>,
    args: Seq<JsonModel>,
    player: u32,
    after: NativesModel,
    value: JsonModel,
)
    requires
        args.len() > 0,
        args[0] == JsonModel::Unsigned(player as u64),
        native_step(
            m,
            voice,
            if ban {
                "TEMP_BAN_PLAYER"@
            } else {
                "DROP_PLAYER"@
            },
            kind,
            args,
            after,
            value,
        ),
    ensures
        value == JsonModel::Null,
        after == (NativesModel { effects: m.effects.push(EffectModel::DropPlayer(player)), ..m }),
{
    assert(((player as u64) as i64) as u32 == player) by (bit_vector);
    let name = if ban {
        "TEMP_BAN_PLAYER"@
    } else {
        "DROP_PLAYER"@
    };
    lemma_players(m, voice, name, kind, args, after, value);
    lemma_names_differ();
}

/// A script learns how many players there are, and what a bucket is set to goes to that
/// bucket alone.
pub proof fn buckets_are_set_one_by_one(
    m: NativesModel,
    voice: Option<VoiceModel>,
    name: Seq<char>,
    kind: Seq<char>,
    args: Seq<JsonModel>,
    bucket: u32,
    after: NativesModel,
    value: JsonModel,
)
    requires
        args.len() > 1,
        args[0] == JsonModel::Unsigned(bucket as u64),
        native_step(m, voice, name, kind, args, after, value),
    ensures
        name == "GET_NUM_PLAYER_INDICES"@ ==> after == m && value == JsonModel::Unsigned(
            m.players as u64,
        ),
        name == "SET_ROUTING_BUCKET_POPULATION_ENABLED"@ ==> after.routing.population
            == m.routing.population.insert(bucket, arg_bool(args, 1)) && after.routing.lockdown
            == m.routing.lockdown && after.routing.players == m.routing.players
            && after.routing.entities == m.routing.entities,
        name == "SET_ROUTING_BUCKET_ENTITY_LOCKDOWN_MODE"@ ==> after.routing.population
            == m.routing.population && after.routing.players == m.routing.players
            && after.routing.entities == m.routing.entities && (forall|other: u32|
            other != bucket ==> (#[trigger] after.routing.lockdown.contains_key(other)
                == m.routing.lockdown.contains_key(other)) && (m.routing.lockdown.contains_key(other)
                ==> after.routing.lockdown[other] == m.routing.lockdown[other])),
        name == "SET_ROUTING_BUCKET_ENTITY_LOCKDOWN_MODE"@ && args[1] == JsonModel::Text("strict"@)
            ==> after.routing.lockdown.contains_key(bucket) && after.routing.lockdown[bucket]
            == crate::routing::RoutingLockdownMode::Strict,
        name == "SET_ROUTING_BUCKET_ENTITY_LOCKDOWN_MODE"@ && args[1] == JsonModel::Text("relaxed"@)
            ==> after.routing.lockdown.contains_key(bucket) && after.routing.lockdown[bucket]
            == crate::routing::RoutingLockdownMode::Relaxed,
        name == "SET_ROUTING_BUCKET_ENTITY_LOCKDOWN_MODE"@ && args[1] == JsonModel::Text(
            "inactive"@,
        ) ==> after.routing.lockdown.contains_key(bucket) && after.routing.lockdown[bucket]
            == crate::routing::RoutingLockdownMode::Inactive,
{
    if name == "GET_NUM_PLAYER_INDICES"@ || name == "SET_ROUTING_BUCKET_ENTITY_LOCKDOWN_MODE"@ || name
        == "SET_ROUTING_BUCKET_POPULATION_ENABLED"@ {
        lemma_players(m, voice, name, kind, args, after, value);
        lemma_names_differ();
        reveal_strlit("inactive");
        reveal_strlit("relaxed");
        reveal_strlit("strict");
        assert(crate::text::ascii_lower("inactive"@) =~= "inactive"@);
        assert(crate::text::ascii_lower("relaxed"@) =~= "relaxed"@);
        assert(crate::text::ascii_lower("strict"@) =~= "strict"@);
    }
}

/// A player is put into the bucket that is named, and no other player and no entity moves.
pub proof fn only_the_named_player_changes_bucket(
    m: NativesModel,
    voice: Option<VoiceModel>,
    kind: Seq<char>,
    player: u32,
    bucket: u32,
    after: NativesModel,
    value: JsonModel,
    other: u32,
)
    requires
        native_step(
            m,
            voice,
            "SET_PLAYER_ROUTING_BUCKET"@,
            kind,
            seq![JsonModel::Unsigned(player as u64), JsonModel::Unsigned(bucket as u64)],
            after,
            value,
        ),
    ensures
        after.routing.entities == m.routing.entities,
        bucket != 0 ==> after.routing.players.contains_key(player) && after.routing.players[player]
            == bucket,
        bucket == 0 ==> !after.routing.players.contains_key(player),
        other != player ==> after.routing.players.contains_key(other)
            == m.routing.players.contains_key(other) && (m.routing.players.contains_key(other)
            ==> after.routing.players[other] == m.routing.players[other]),
{
    let args = seq![JsonModel::Unsigned(player as u64), JsonModel::Unsigned(bucket as u64)];
    lemma_players(m, voice, "SET_PLAYER_ROUTING_BUCKET"@, kind, args, after, value);
    lemma_names_differ();
}

} // verus!
