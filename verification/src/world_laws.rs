//! What the natives answer of the entities that the world has published, field by field.
use crate::entity_world::{
    EntitySummary, PedGameState, PedMovement, PedTasks, VehicleAppearance, VehicleDamage,
    VehicleGameState, VehicleHealth, WorldModel,
};
use crate::json::{array_of, json_float, JsonModel};
use crate::native_names::lemma_names_differ;
use crate::natives_world::world_answer;
use crate::text::decimal_int;
use vstd::prelude::*;

verus! {

/// The call names the entity `e` of the world.
pub open spec fn names_entity(w: WorldModel, args: Seq<JsonModel>, id: u32, e: EntitySummary) -> bool {
    args.len() > 0 && args[0] == JsonModel::Unsigned(id as u64) && w.entities.contains_key(id)
        && w.entities[id] == e
}

/// The second argument of the call is the number `k`.
pub open spec fn then_number(args: Seq<JsonModel>, k: int) -> bool {
    args.len() > 1 && 0 <= k <= 0x7fff_ffff && args[1] == JsonModel::Unsigned(k as u64)
}

/// Bytes as a list of numbers.
pub open spec fn three(a: u8, b: u8, c: u8) -> JsonModel {
    array_of(
        seq![
            JsonModel::Unsigned(a as u64),
            JsonModel::Unsigned(b as u64),
            JsonModel::Unsigned(c as u64),
        ],
    )
}

proof fn lemma_bytes(a: u8, b: u8, c: u8)
    ensures
        crate::natives_world::byte_array(seq![a, b, c]) == three(a, b, c),
        crate::natives_world::byte_array(seq![a, b]) == array_of(
            seq![JsonModel::Unsigned(a as u64), JsonModel::Unsigned(b as u64)],
        ),
{
    let f = |b: u8| JsonModel::Unsigned(b as u64);
    assert(seq![a, b, c].map_values(f) =~= seq![
        JsonModel::Unsigned(a as u64),
        JsonModel::Unsigned(b as u64),
        JsonModel::Unsigned(c as u64),
    ]);
    assert(seq![a, b].map_values(f) =~= seq![
        JsonModel::Unsigned(a as u64),
        JsonModel::Unsigned(b as u64),
    ]);
}

/// What a script reads of the state of a vehicle is what the vehicle last said of itself.
pub proof fn a_vehicle_state_is_read(
    w: WorldModel,
    args: Seq<JsonModel>,
    id: u32,
    e: EntitySummary,
    v: VehicleGameState,
)
    requires
        names_entity(w, args, id, e),
        e.sync.vehicle_game_state == Some(v),
    ensures
        world_answer(w, "GET_IS_VEHICLE_ENGINE_RUNNING"@, args) == Some(JsonModel::Bool(v.engine_on)),
        world_answer(w, "IS_VEHICLE_ENGINE_STARTING"@, args) == Some(JsonModel::Bool(v.engine_starting)),
        world_answer(w, "IS_VEHICLE_SIREN_ON"@, args) == Some(JsonModel::Bool(v.siren_on)),
        world_answer(w, "GET_VEHICLE_DOOR_LOCK_STATUS"@, args) == Some(JsonModel::Unsigned(v.lock_status as u64)),
        world_answer(w, "GET_VEHICLE_DOORS_LOCKED_FOR_PLAYER"@, args) == Some(JsonModel::Bool(v.has_lock && v.locked_players == -1)),
        world_answer(w, "GET_VEHICLE_LIGHTS_STATE"@, args) == Some(array_of(seq![JsonModel::Bool(true), JsonModel::Bool(v.lights_on), JsonModel::Bool(v.highbeams_on)])),
        v.default_headlights ==> world_answer(w, "GET_VEHICLE_HEADLIGHTS_COLOUR"@, args) == Some(JsonModel::Unsigned(0)),
        !v.default_headlights ==> world_answer(w, "GET_VEHICLE_HEADLIGHTS_COLOUR"@, args) == Some(JsonModel::Unsigned(v.headlights_colour as u64)),
        world_answer(w, "GET_VEHICLE_RADIO_STATION_INDEX"@, args) == Some(JsonModel::Unsigned(v.radio_station as u64)),
        world_answer(w, "HAS_VEHICLE_BEEN_OWNED_BY_PLAYER"@, args) == Some(JsonModel::Bool(v.has_been_owned_by_player)),
{
    lemma_names_differ();
}

/// A door that is open is as far open as the vehicle said of that door; a vehicle whose doors
/// are all shut, and a door that there is none of, is shut.
pub proof fn a_door_is_read(
    w: WorldModel,
    args: Seq<JsonModel>,
    id: u32,
    e: EntitySummary,
    v: VehicleGameState,
    k: int,
)
    requires
        names_entity(w, args, id, e),
        e.sync.vehicle_game_state == Some(v),
        then_number(args, k),
    ensures
        v.doors_open != 0 && k < v.door_positions@.len() ==> world_answer(w, "GET_VEHICLE_DOOR_STATUS"@, args) == Some(JsonModel::Unsigned(v.door_positions@[k] as u64)),
        v.doors_open == 0 || k >= v.door_positions@.len() ==> world_answer(w, "GET_VEHICLE_DOOR_STATUS"@, args) == Some(JsonModel::Unsigned(0)),
{
    lemma_names_differ();
}

/// The health of a vehicle and of its parts is read as a real number.
pub proof fn a_vehicle_health_is_read(
    w: WorldModel,
    args: Seq<JsonModel>,
    id: u32,
    e: EntitySummary,
    v: VehicleHealth,
)
    requires
        names_entity(w, args, id, e),
        e.sync.vehicle_health == Some(v),
    ensures
        world_answer(w, "GET_VEHICLE_BODY_HEALTH"@, args) == Some(JsonModel::Real(json_float(decimal_int(v.body_health as int)))),
        world_answer(w, "GET_VEHICLE_ENGINE_HEALTH"@, args) == Some(JsonModel::Real(json_float(decimal_int(v.engine_health as int)))),
        world_answer(w, "GET_VEHICLE_PETROL_TANK_HEALTH"@, args) == Some(JsonModel::Real(json_float(decimal_int(v.petrol_tank_health as int)))),
        world_answer(w, "GET_VEHICLE_TOTAL_REPAIRS"@, args) == Some(JsonModel::Unsigned(v.total_repairs as u64)),
{
    lemma_names_differ();
}

/// A tyre is burst if its status says so: one for a burst one, two for one that is gone, and
/// which of them is asked for the third argument says. Where all tyres are fine none is.
pub proof fn a_tyre_is_read(
    w: WorldModel,
    args: Seq<JsonModel>,
    id: u32,
    e: EntitySummary,
    v: VehicleHealth,
    k: int,
    completely: bool,
)
    requires
        names_entity(w, args, id, e),
        e.sync.vehicle_health == Some(v),
        then_number(args, k),
        args.len() > 2,
        args[2] == JsonModel::Bool(completely),
    ensures
        v.tyres_fine ==> world_answer(w, "IS_VEHICLE_TYRE_BURST"@, args) == Some(JsonModel::Bool(false)),
        !v.tyres_fine && k < v.tyre_status@.len() && completely ==> world_answer(w, "IS_VEHICLE_TYRE_BURST"@, args) == Some(JsonModel::Bool(v.tyre_status@[k] == 2)),
        !v.tyres_fine && k < v.tyre_status@.len() && !completely ==> world_answer(w, "IS_VEHICLE_TYRE_BURST"@, args) == Some(JsonModel::Bool(v.tyre_status@[k] == 1)),
        k >= v.tyre_status@.len() ==> world_answer(w, "IS_VEHICLE_TYRE_BURST"@, args) == Some(JsonModel::Bool(false)),
{
    lemma_names_differ();
}

/// The colours of a vehicle are read from its paint: body, pearl and wheels in pairs, custom
/// colours by red, green and blue.
pub proof fn the_colours_of_a_vehicle_are_read(
    w: WorldModel,
    args: Seq<JsonModel>,
    id: u32,
    e: EntitySummary,
    v: VehicleAppearance,
)
    requires
        names_entity(w, args, id, e),
        e.sync.vehicle_appearance == Some(v),
    ensures
        world_answer(w, "GET_VEHICLE_COLOURS"@, args) == Some(array_of(seq![JsonModel::Unsigned(v.primary_colour as u64), JsonModel::Unsigned(v.secondary_colour as u64)])),
        world_answer(w, "GET_VEHICLE_EXTRA_COLOURS"@, args) == Some(array_of(seq![JsonModel::Unsigned(v.pearl_colour as u64), JsonModel::Unsigned(v.wheel_colour as u64)])),
        world_answer(w, "GET_VEHICLE_INTERIOR_COLOUR"@, args) == Some(JsonModel::Unsigned(v.interior_colour as u64)),
        world_answer(w, "GET_VEHICLE_DASHBOARD_COLOUR"@, args) == Some(JsonModel::Unsigned(v.dashboard_colour as u64)),
        world_answer(w, "GET_IS_VEHICLE_PRIMARY_COLOUR_CUSTOM"@, args) == Some(JsonModel::Bool(v.is_primary_colour_rgb)),
        world_answer(w, "GET_IS_VEHICLE_SECONDARY_COLOUR_CUSTOM"@, args) == Some(JsonModel::Bool(v.is_secondary_colour_rgb)),
        world_answer(w, "GET_VEHICLE_CUSTOM_PRIMARY_COLOUR"@, args) == Some(three(v.primary_rgb@[0], v.primary_rgb@[1], v.primary_rgb@[2])),
        world_answer(w, "GET_VEHICLE_CUSTOM_SECONDARY_COLOUR"@, args) == Some(three(v.secondary_rgb@[0], v.secondary_rgb@[1], v.secondary_rgb@[2])),
{
    lemma_names_differ();
    lemma_bytes(v.primary_colour, v.secondary_colour, 0);
    lemma_bytes(v.pearl_colour, v.wheel_colour, 0);
    lemma_bytes(v.primary_rgb@[0], v.primary_rgb@[1], v.primary_rgb@[2]);
    lemma_bytes(v.secondary_rgb@[0], v.secondary_rgb@[1], v.secondary_rgb@[2]);
}

/// The finish of a vehicle is read as it is: dirt, liveries (which may be none, below zero) and
/// wheels.
pub proof fn the_finish_of_a_vehicle_is_read(
    w: WorldModel,
    args: Seq<JsonModel>,
    id: u32,
    e: EntitySummary,
    v: VehicleAppearance,
)
    requires
        names_entity(w, args, id, e),
        e.sync.vehicle_appearance == Some(v),
    ensures
        world_answer(w, "GET_VEHICLE_DIRT_LEVEL"@, args) == Some(JsonModel::Real(json_float(decimal_int(v.dirt_level as int)))),
        v.livery_index >= 0 ==> world_answer(w, "GET_VEHICLE_LIVERY"@, args) == Some(JsonModel::Unsigned(v.livery_index as u64)),
        v.livery_index < 0 ==> world_answer(w, "GET_VEHICLE_LIVERY"@, args) == Some(JsonModel::Signed(v.livery_index as i64)),
        v.roof_livery_index >= 0 ==> world_answer(w, "GET_VEHICLE_ROOF_LIVERY"@, args) == Some(JsonModel::Unsigned(v.roof_livery_index as u64)),
        world_answer(w, "GET_VEHICLE_WHEEL_TYPE"@, args) == Some(JsonModel::Unsigned(v.wheel_type as u64)),
{
    lemma_names_differ();
}

/// The trim of a vehicle is read as it is; a window tint of 255 means that there is none.
pub proof fn the_trim_of_a_vehicle_is_read(
    w: WorldModel,
    args: Seq<JsonModel>,
    id: u32,
    e: EntitySummary,
    v: VehicleAppearance,
)
    requires
        names_entity(w, args, id, e),
        e.sync.vehicle_appearance == Some(v),
    ensures
        v.window_tint_index == 255 ==> world_answer(w, "GET_VEHICLE_WINDOW_TINT"@, args) == Some(JsonModel::Signed(-1i64 as i64)),
        v.window_tint_index != 255 ==> world_answer(w, "GET_VEHICLE_WINDOW_TINT"@, args) == Some(JsonModel::Unsigned(v.window_tint_index as u64)),
        world_answer(w, "GET_VEHICLE_TYRE_SMOKE_COLOR"@, args) == Some(three(v.tyre_smoke_colour@[0], v.tyre_smoke_colour@[1], v.tyre_smoke_colour@[2])),
        world_answer(w, "GET_VEHICLE_NUMBER_PLATE_TEXT"@, args) == Some(JsonModel::Text(v.plate_text@)),
        world_answer(w, "GET_VEHICLE_NUMBER_PLATE_TEXT_INDEX"@, args) == Some(JsonModel::Unsigned(v.number_plate_text_index as u64)),
        world_answer(w, "GET_VEHICLE_HORN_TYPE"@, args) == Some(JsonModel::Unsigned(v.horn_type_hash as u64)),
        world_answer(w, "GET_VEHICLE_NEON_COLOUR"@, args) == Some(three(v.neon_colour@[0], v.neon_colour@[1], v.neon_colour@[2])),
{
    lemma_names_differ();
    lemma_bytes(v.tyre_smoke_colour@[0], v.tyre_smoke_colour@[1], v.tyre_smoke_colour@[2]);
    lemma_bytes(v.neon_colour@[0], v.neon_colour@[1], v.neon_colour@[2]);
}

/// A neon light is on if the vehicle has any and that side is lit; an extra is on if its bit is
/// clear, counted from the second bit on.
pub proof fn lights_and_extras_are_read(
    w: WorldModel,
    args: Seq<JsonModel>,
    id: u32,
    e: EntitySummary,
    v: VehicleAppearance,
    k: int,
)
    requires
        names_entity(w, args, id, e),
        e.sync.vehicle_appearance == Some(v),
        then_number(args, k),
    ensures
        k < v.neon_sides@.len() ==> world_answer(w, "GET_VEHICLE_NEON_ENABLED"@, args) == Some(JsonModel::Bool(v.has_neon_lights && v.neon_sides@[k])),
        k >= v.neon_sides@.len() ==> world_answer(w, "GET_VEHICLE_NEON_ENABLED"@, args) == Some(JsonModel::Bool(false)),
        k < 15 ==> world_answer(w, "IS_VEHICLE_EXTRA_TURNED_ON"@, args) == Some(JsonModel::Bool((v.extras & (1u16 << ((k + 1) as u16))) == 0)),
        k >= 15 ==> world_answer(w, "IS_VEHICLE_EXTRA_TURNED_ON"@, args) == Some(JsonModel::Bool(false)),
{
    lemma_names_differ();
    let bit = 1u16 << ((k + 1) as u16);
    let extras = v.extras;
    assert((bit & extras) == (extras & bit)) by (bit_vector);
}

/// A window is intact if there is such a window and it is not the one that broke.
pub proof fn a_window_is_read(
    w: WorldModel,
    args: Seq<JsonModel>,
    id: u32,
    e: EntitySummary,
    v: VehicleDamage,
    k: int,
)
    requires
        names_entity(w, args, id, e),
        e.sync.vehicle_damage == Some(v),
        then_number(args, k),
    ensures
        world_answer(w, "HAS_VEHICLE_BEEN_DAMAGED_BY_BULLETS"@, args) == Some(JsonModel::Bool(v.damaged_by_bullets)),
        k >= v.windows_broken@.len() ==> world_answer(w, "IS_VEHICLE_WINDOW_INTACT"@, args) == Some(JsonModel::Bool(false)),
        k < v.windows_broken@.len() && !v.any_window_broken ==> world_answer(w, "IS_VEHICLE_WINDOW_INTACT"@, args) == Some(JsonModel::Bool(true)),
        k < v.windows_broken@.len() && v.any_window_broken ==> world_answer(w, "IS_VEHICLE_WINDOW_INTACT"@, args) == Some(JsonModel::Bool(!v.windows_broken@[k])),
{
    lemma_names_differ();
}

/// A ped is in the vehicle that it says it is in, if any; its seat counts from minus two below
/// what is on the wire; and what it holds and does is what it said.
pub proof fn a_ped_state_is_read(
    w: WorldModel,
    args: Seq<JsonModel>,
    id: u32,
    e: EntitySummary,
    v: PedGameState,
    vehicle: u32,
)
    requires
        names_entity(w, args, id, e),
        e.sync.ped_game_state == Some(v),
        args.len() > 1,
        args[1] == JsonModel::Unsigned(vehicle as u64),
        vehicle <= 0x7fff_ffff,
    ensures
        world_answer(w, "IS_PED_IN_ANY_VEHICLE"@, args) == Some(JsonModel::Bool(v.cur_vehicle >= 0)),
        world_answer(w, "IS_PED_IN_VEHICLE"@, args) == Some(JsonModel::Bool(v.cur_vehicle >= 0 && v.cur_vehicle == vehicle)),
        2 <= v.cur_vehicle_seat ==> world_answer(w, "GET_SEAT_PED_IS_USING"@, args) == Some(JsonModel::Unsigned((v.cur_vehicle_seat - 2) as u64)),
        0 <= v.cur_vehicle_seat < 2 ==> world_answer(w, "GET_SEAT_PED_IS_USING"@, args) == Some(JsonModel::Signed((v.cur_vehicle_seat - 2) as i64)),
        world_answer(w, "GET_SELECTED_PED_WEAPON"@, args) == Some(JsonModel::Unsigned(v.cur_weapon as u64)),
        world_answer(w, "GET_CURRENT_PED_WEAPON"@, args) == Some(JsonModel::Unsigned(v.cur_weapon as u64)),
        world_answer(w, "IS_PED_HANDCUFFED"@, args) == Some(JsonModel::Bool(v.is_handcuffed)),
        world_answer(w, "IS_FLASH_LIGHT_ON"@, args) == Some(JsonModel::Bool(v.is_flashlight_on)),
        world_answer(w, "IS_PED_USING_ACTION_MODE"@, args) == Some(JsonModel::Bool(v.action_mode_enabled)),
        world_answer(w, "GET_PED_STEALTH_MOVEMENT"@, args) == Some(JsonModel::Bool(v.stealth_mode_enabled)),
{
    lemma_names_differ();
    let n = vehicle as u64;
    assert(n as u32 == vehicle);
    assert(vehicle as i32 == vehicle);
}

/// Armour, health, speed and heading are read where the entity told them, and zero where it
/// did not; a rotation has the heading as its third part.
pub proof fn the_condition_of_an_entity_is_read(
    w: WorldModel,
    args: Seq<JsonModel>,
    id: u32,
    e: EntitySummary,
)
    requires
        names_entity(w, args, id, e),
    ensures
        e.armour is Some ==> world_answer(w, "GET_PED_ARMOUR"@, args) == Some(JsonModel::Real(e.armour->0@)),
        e.armour is None ==> world_answer(w, "GET_PED_ARMOUR"@, args) == Some(JsonModel::Real("0.0"@)),
        e.max_health is Some ==> world_answer(w, "GET_PED_MAX_HEALTH"@, args) == Some(JsonModel::Real(e.max_health->0@)),
        e.max_health is Some ==> world_answer(w, "GET_ENTITY_MAX_HEALTH"@, args) == Some(JsonModel::Real(e.max_health->0@)),
        e.max_health is None ==> world_answer(w, "GET_ENTITY_MAX_HEALTH"@, args) == Some(JsonModel::Real("0.0"@)),
        world_answer(w, "GET_ENTITY_SPEED"@, args) == Some(JsonModel::Real(e.speed@)),
        e.heading is Some ==> world_answer(w, "GET_ENTITY_ROTATION"@, args) == Some(array_of(seq![JsonModel::Real("0.0"@), JsonModel::Real("0.0"@), JsonModel::Real(e.heading->0@)])),
        e.desired_heading is Some ==> world_answer(w, "GET_PED_DESIRED_HEADING"@, args) == Some(JsonModel::Real(e.desired_heading->0@)),
{
    lemma_names_differ();
}

/// Who harmed a ped is told while it lives as the source of its damage, and only once it is
/// dead as the source of its death.
pub proof fn harm_is_read(
    w: WorldModel,
    args: Seq<JsonModel>,
    id: u32,
    e: EntitySummary,
)
    requires
        names_entity(w, args, id, e),
    ensures
        e.sync.cause_of_death is Some ==> world_answer(w, "GET_PED_CAUSE_OF_DEATH"@, args) == Some(JsonModel::Unsigned(e.sync.cause_of_death->0 as u64)),
        e.sync.cause_of_death is None ==> world_answer(w, "GET_PED_CAUSE_OF_DEATH"@, args) == Some(JsonModel::Unsigned(0)),
        e.sync.source_of_damage is Some ==> world_answer(w, "GET_PED_SOURCE_OF_DAMAGE"@, args) == Some(JsonModel::Unsigned((e.sync.source_of_damage->0 as u32) as u64)),
        e.sync.source_of_damage is None ==> world_answer(w, "GET_PED_SOURCE_OF_DAMAGE"@, args) == Some(JsonModel::Unsigned(0)),
        e.dead && e.sync.source_of_damage is Some ==> world_answer(w, "GET_PED_SOURCE_OF_DEATH"@, args) == Some(JsonModel::Unsigned((e.sync.source_of_damage->0 as u32) as u64)),
        !e.dead ==> world_answer(w, "GET_PED_SOURCE_OF_DEATH"@, args) == Some(JsonModel::Unsigned(0)),
        e.sync.relationship_group is Some ==> world_answer(w, "GET_PED_RELATIONSHIP_GROUP_HASH"@, args) == Some(JsonModel::Unsigned(e.sync.relationship_group->0 as u64)),
        world_answer(w, "IS_ENTITY_VISIBLE"@, args) == Some(JsonModel::Bool(e.sync.is_visible == Some(true))),
        e.sync.attached_to is Some ==> world_answer(w, "GET_ENTITY_ATTACHED_TO"@, args) == Some(JsonModel::Unsigned(e.sync.attached_to->0 as u64)),
        e.sync.attached_to is None ==> world_answer(w, "GET_ENTITY_ATTACHED_TO"@, args) == Some(JsonModel::Unsigned(0)),
{
    lemma_names_differ();
}

/// What a ped does is read from its movement and its tasks; a slot that it has no task in is
/// answered with its first.
pub proof fn the_tasks_of_a_ped_are_read(
    w: WorldModel,
    args: Seq<JsonModel>,
    id: u32,
    e: EntitySummary,
    m: PedMovement,
    t: PedTasks,
    k: int,
)
    requires
        names_entity(w, args, id, e),
        e.sync.ped_movement == Some(m),
        e.sync.ped_tasks == Some(t),
        then_number(args, k),
    ensures
        world_answer(w, "IS_PED_RAGDOLL"@, args) == Some(JsonModel::Bool(m.is_ragdolling)),
        world_answer(w, "IS_PED_STRAFING"@, args) == Some(JsonModel::Bool(m.is_strafing)),
        world_answer(w, "GET_PED_SCRIPT_TASK_COMMAND"@, args) == Some(JsonModel::Unsigned(t.script_command as u64)),
        world_answer(w, "GET_PED_SCRIPT_TASK_STAGE"@, args) == Some(JsonModel::Unsigned(t.script_task_stage as u64)),
        k < t.task_types@.len() ==> world_answer(w, "GET_PED_SPECIFIC_TASK_TYPE"@, args) == Some(JsonModel::Unsigned(t.task_types@[k] as u64)),
        k >= t.task_types@.len() && t.task_types@.len() > 0 ==> world_answer(w, "GET_PED_SPECIFIC_TASK_TYPE"@, args) == Some(JsonModel::Unsigned(t.task_types@[0] as u64)),
{
    lemma_names_differ();
}

/// A ped is in its vehicle, or was last in one if that is asked for and known; a ped is a
/// player's if its owner has it as its ped; and a seat is taken by who sits on it.
pub proof fn seats_are_read(
    w: WorldModel,
    args: Seq<JsonModel>,
    id: u32,
    e: EntitySummary,
    last: bool,
)
    requires
        names_entity(w, args, id, e),
        args.len() > 1,
        args[1] == JsonModel::Bool(last),
    ensures
        last && e.sync.last_vehicle is Some ==> world_answer(w, "GET_VEHICLE_PED_IS_IN"@, args) == Some(JsonModel::Unsigned((e.sync.last_vehicle->0 as u32) as u64)),
        (!last || e.sync.last_vehicle is None) && e.sync.ped_game_state is Some && e.sync.ped_game_state->0.cur_vehicle >= 0 ==> world_answer(w, "GET_VEHICLE_PED_IS_IN"@, args) == Some(JsonModel::Unsigned((e.sync.ped_game_state->0.cur_vehicle as u32) as u64)),
        (!last || e.sync.last_vehicle is None) && (e.sync.ped_game_state is None || e.sync.ped_game_state->0.cur_vehicle < 0) ==> world_answer(w, "GET_VEHICLE_PED_IS_IN"@, args) == Some(JsonModel::Unsigned(0)),
        world_answer(w, "IS_PED_A_PLAYER"@, args) == Some(JsonModel::Bool(w.player_peds.contains_key(e.owner) && w.player_peds[e.owner] == id)),
{
    lemma_names_differ();
}

/// The driver sits on seat minus one, and the passengers count up from zero: each is found under
/// the vehicle and its seat on the wire, two above.
pub proof fn seats_are_taken(
    w: WorldModel,
    args: Seq<JsonModel>,
    id: u32,
    k: int,
)
    requires
        args.len() > 1,
        args[0] == JsonModel::Unsigned(id as u64),
        0 <= k <= 200,
        args[1] == JsonModel::Unsigned(k as u64),
    ensures
        w.occupants.contains_key((id * 256 + k + 2) as u64) ==> world_answer(w, "GET_PED_IN_VEHICLE_SEAT"@, args) == Some(JsonModel::Unsigned(w.occupants[(id * 256 + k + 2) as u64] as u64)),
        !w.occupants.contains_key((id * 256 + k + 2) as u64) ==> world_answer(w, "GET_PED_IN_VEHICLE_SEAT"@, args) == Some(JsonModel::Unsigned(0)),
        w.last_occupants.contains_key((id * 256 + k + 2) as u64) ==> world_answer(w, "GET_LAST_PED_IN_VEHICLE_SEAT"@, args) == Some(JsonModel::Unsigned(w.last_occupants[(id * 256 + k + 2) as u64] as u64)),
{
    lemma_names_differ();
    let n = (k as u64) as i64;
    assert(n as i32 == k);
}

/// Of an entity that the world does not know, every question is answered no.
pub proof fn the_unknown_is_denied(
    w: WorldModel,
    args: Seq<JsonModel>,
    id: u32,
)
    requires
        args.len() > 0,
        args[0] == JsonModel::Unsigned(id as u64),
        !w.entities.contains_key(id),
    ensures
        world_answer(w, "GET_IS_VEHICLE_ENGINE_RUNNING"@, args) == Some(JsonModel::Bool(false)),
        world_answer(w, "IS_VEHICLE_SIREN_ON"@, args) == Some(JsonModel::Bool(false)),
        world_answer(w, "GET_VEHICLE_DOORS_LOCKED_FOR_PLAYER"@, args) == Some(JsonModel::Bool(false)),
        world_answer(w, "HAS_VEHICLE_BEEN_OWNED_BY_PLAYER"@, args) == Some(JsonModel::Bool(false)),
        world_answer(w, "IS_VEHICLE_TYRE_BURST"@, args) == Some(JsonModel::Bool(false)),
        world_answer(w, "GET_VEHICLE_NEON_ENABLED"@, args) == Some(JsonModel::Bool(false)),
        world_answer(w, "IS_VEHICLE_EXTRA_TURNED_ON"@, args) == Some(JsonModel::Bool(false)),
        world_answer(w, "IS_VEHICLE_WINDOW_INTACT"@, args) == Some(JsonModel::Bool(false)),
        world_answer(w, "IS_PED_IN_ANY_VEHICLE"@, args) == Some(JsonModel::Bool(false)),
        world_answer(w, "IS_PED_IN_VEHICLE"@, args) == Some(JsonModel::Bool(false)),
        world_answer(w, "IS_PED_HANDCUFFED"@, args) == Some(JsonModel::Bool(false)),
        world_answer(w, "IS_PED_RAGDOLL"@, args) == Some(JsonModel::Bool(false)),
        world_answer(w, "IS_ENTITY_VISIBLE"@, args) == Some(JsonModel::Bool(false)),
        world_answer(w, "IS_PED_A_PLAYER"@, args) == Some(JsonModel::Bool(false)),
{
    lemma_names_differ();
}

/// Of an entity that the world does not know, every number is zero, its plate is empty, and a
/// ped sits on no seat.
pub proof fn the_unknown_is_zero(
    w: WorldModel,
    args: Seq<JsonModel>,
    id: u32,
)
    requires
        args.len() > 0,
        args[0] == JsonModel::Unsigned(id as u64),
        !w.entities.contains_key(id),
    ensures
        world_answer(w, "GET_VEHICLE_DOOR_LOCK_STATUS"@, args) == Some(JsonModel::Unsigned(0)),
        world_answer(w, "GET_VEHICLE_DOOR_STATUS"@, args) == Some(JsonModel::Unsigned(0)),
        world_answer(w, "GET_VEHICLE_TOTAL_REPAIRS"@, args) == Some(JsonModel::Unsigned(0)),
        world_answer(w, "GET_VEHICLE_LIVERY"@, args) == Some(JsonModel::Unsigned(0)),
        world_answer(w, "GET_VEHICLE_WINDOW_TINT"@, args) == Some(JsonModel::Unsigned(0)),
        world_answer(w, "GET_SELECTED_PED_WEAPON"@, args) == Some(JsonModel::Unsigned(0)),
        world_answer(w, "GET_VEHICLE_PED_IS_IN"@, args) == Some(JsonModel::Unsigned(0)),
        world_answer(w, "GET_PED_CAUSE_OF_DEATH"@, args) == Some(JsonModel::Unsigned(0)),
        world_answer(w, "GET_ENTITY_ATTACHED_TO"@, args) == Some(JsonModel::Unsigned(0)),
        world_answer(w, "GET_VEHICLE_BODY_HEALTH"@, args) == Some(JsonModel::Real("0.0"@)),
        world_answer(w, "GET_VEHICLE_DIRT_LEVEL"@, args) == Some(JsonModel::Real("0.0"@)),
        world_answer(w, "GET_PED_ARMOUR"@, args) == Some(JsonModel::Real("0.0"@)),
        world_answer(w, "GET_ENTITY_SPEED"@, args) == Some(JsonModel::Real("0.0"@)),
        world_answer(w, "GET_VEHICLE_NUMBER_PLATE_TEXT"@, args) == Some(JsonModel::Text(""@)),
        world_answer(w, "GET_SEAT_PED_IS_USING"@, args) == Some(JsonModel::Signed(-1i64 as i64)),
{
    lemma_names_differ();
}

} // verus!
