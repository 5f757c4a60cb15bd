//! Natives answered from the decoded sync tree: the vehicle and ped readers.
//!
//! These all follow the same shape: look the entity up in the world mirror, read one
//! node's worth of state, map it to what the native returns.
//!
//! A vehicle that has not sent the relevant node has no answer to give. Each native then
//! returns the same neutral value the engine does, so a script sees "not known yet"
//! rather than a fabricated reading.
use crate::args::{
    arg_bool, arg_i64, arg_netid, json_arg_bool, json_arg_i64, json_arg_netid,
};
use crate::entity_world::{
    found, sitting, EntitySummary, EntityWorldView, PedGameState, PedMovement, PedTasks,
    VehicleAppearance, VehicleDamage, VehicleGameState, VehicleHealth, WorldModel, SEAT_INDEX_BIAS,
};
use crate::json::{array_of, float_of, json_float, models, Json, JsonModel};
use crate::state_bag::optional;
use crate::text::{decimal_int, print_decimal_int, same};
use vstd::prelude::*;

verus! {

/// A whole number as JSON.
pub open spec fn int_json(n: int) -> JsonModel {
    if n < 0 {
        JsonModel::Signed(n as i64)
    } else {
        JsonModel::Unsigned(n as u64)
    }
}

/// A number that came as a whole one, as a floating point number.
pub open spec fn real_json(n: int) -> JsonModel {
    JsonModel::Real(json_float(decimal_int(n)))
}

/// A decimal text as JSON; zero where there is none.
pub open spec fn real_or_zero(text: Option<Seq<char>>) -> JsonModel {
    JsonModel::Real(
        match text {
            Some(s) => s,
            None => "0.0"@,
        },
    )
}

/// The item at a position, or a neutral one.
pub open spec fn item_at<T>(list: Seq<T>, index: int, neutral: T) -> T {
    if 0 <= index < list.len() {
        list[index]
    } else {
        neutral
    }
}

/// An array of small numbers.
pub open spec fn byte_array(bytes: Seq<u8>) -> JsonModel {
    array_of(bytes.map_values(|b: u8| JsonModel::Unsigned(b as u64)))
}

fn int_value(n: i64) -> (value: Json)
    ensures
        value@ == int_json(n as int),
{
    if n < 0 {
        Json::Signed(n)
    } else {
        Json::Unsigned(n as u64)
    }
}

fn real_value(n: i64) -> (value: Json)
    ensures
        value@ == real_json(n as int),
{
    Json::Real(float_of(print_decimal_int(n).as_str()))
}

fn real_text(text: &Option<String>) -> (value: Json)
    ensures
        value@ == real_or_zero(optional(*text)),
{
    match text {
        Some(s) => Json::Real(s.clone()),
        None => Json::Real("0.0".to_owned()),
    }
}

fn byte_at(list: &Vec<u8>, index: i64) -> (b: u8)
    ensures
        b == item_at(list@, index as int, 0u8),
{
    let n: usize = list.len();
    if 0 <= index && (index as u64) < n as u64 {
        list[index as usize]
    } else {
        0
    }
}

fn flag_at(list: &Vec<bool>, index: i64) -> (b: bool)
    ensures
        b == item_at(list@, index as int, false),
{
    let n: usize = list.len();
    if 0 <= index && (index as u64) < n as u64 {
        list[index as usize]
    } else {
        false
    }
}

fn three_bytes(a: u8, b: u8, c: u8) -> (value: Json)
    ensures
        value@ == byte_array(seq![a, b, c]),
{
    let mut list: Vec<Json> = Vec::new();
    list.push(Json::Unsigned(a as u64));
    list.push(Json::Unsigned(b as u64));
    list.push(Json::Unsigned(c as u64));
    assert(models(list@) =~= seq![a, b, c].map_values(|x: u8| JsonModel::Unsigned(x as u64)));
    Json::array(&list)
}

fn two_bytes(a: u8, b: u8) -> (value: Json)
    ensures
        value@ == byte_array(seq![a, b]),
{
    let mut list: Vec<Json> = Vec::new();
    list.push(Json::Unsigned(a as u64));
    list.push(Json::Unsigned(b as u64));
    assert(models(list@) =~= seq![a, b].map_values(|x: u8| JsonModel::Unsigned(x as u64)));
    Json::array(&list)
}

/// The models of an optional value.
pub open spec fn optional_json(value: Option<Json>) -> Option<JsonModel> {
    match value {
        Some(v) => Some(v@),
        None => None,
    }
}

pub(crate) open spec fn seen<T>(value: Option<&T>) -> Option<T> {
    match value {
        Some(v) => Some(*v),
        None => None,
    }
}

/// What the natives on a vehicle's state answer.
pub open spec fn vehicle_state_answer(
    vehicle: Option<VehicleGameState>,
    name: Seq<char>,
    args: Seq<JsonModel>,
) -> Option<JsonModel> {
    if name == "GET_IS_VEHICLE_ENGINE_RUNNING"@ {
        Some(
            match vehicle {
                Some(v) => JsonModel::Bool(v.engine_on),
                None => JsonModel::Bool(false),
            },
        )
    } else if name == "IS_VEHICLE_ENGINE_STARTING"@ {
        Some(
            match vehicle {
                Some(v) => JsonModel::Bool(v.engine_starting),
                None => JsonModel::Bool(false),
            },
        )
    } else if name == "IS_VEHICLE_SIREN_ON"@ {
        Some(
            match vehicle {
                Some(v) => JsonModel::Bool(v.siren_on),
                None => JsonModel::Bool(false),
            },
        )
    } else if name == "GET_VEHICLE_DOOR_LOCK_STATUS"@ {
        Some(
            match vehicle {
                Some(v) => JsonModel::Unsigned(v.lock_status as u64),
                None => JsonModel::Unsigned(0),
            },
        )
    } else if name == "GET_VEHICLE_DOORS_LOCKED_FOR_PLAYER"@ {
        Some(
            match vehicle {
                Some(v) => JsonModel::Bool(v.has_lock && v.locked_players == -1),
                None => JsonModel::Bool(false),
            },
        )
    } else if name == "GET_VEHICLE_DOOR_STATUS"@ {
        Some(
            match vehicle {
                Some(v) => JsonModel::Unsigned(
                    if v.doors_open != 0 {
                        item_at(v.door_positions@, arg_i64(args, 1) as int, 0u8) as u64
                    } else {
                        0
                    },
                ),
                None => JsonModel::Unsigned(0),
            },
        )
    } else if name == "GET_VEHICLE_LIGHTS_STATE"@ {
        Some(
            match vehicle {
                Some(v) => array_of(
                    seq![
                        JsonModel::Bool(true),
                        JsonModel::Bool(v.lights_on),
                        JsonModel::Bool(v.highbeams_on),
                    ],
                ),
                None => array_of(
                    seq![
                        JsonModel::Bool(false),
                        JsonModel::Bool(false),
                        JsonModel::Bool(false),
                    ],
                ),
            },
        )
    } else if name == "GET_VEHICLE_HEADLIGHTS_COLOUR"@ {
        Some(
            match vehicle {
                Some(v) => JsonModel::Unsigned(
                    if v.default_headlights {
                        0
                    } else {
                        v.headlights_colour as u64
                    },
                ),
                None => JsonModel::Unsigned(0),
            },
        )
    } else if name == "GET_VEHICLE_RADIO_STATION_INDEX"@ {
        Some(
            match vehicle {
                Some(v) => JsonModel::Unsigned(v.radio_station as u64),
                None => JsonModel::Unsigned(0),
            },
        )
    } else if name == "HAS_VEHICLE_BEEN_OWNED_BY_PLAYER"@ {
        Some(
            match vehicle {
                Some(v) => JsonModel::Bool(v.has_been_owned_by_player),
                None => JsonModel::Bool(false),
            },
        )
    } else {
        None
    }
}

fn vehicle_state_native(vehicle: Option<&VehicleGameState>, name: &str, args: &Vec<Json>) -> (value: Option<Json>)
    ensures
        optional_json(value) == vehicle_state_answer(seen(vehicle), name@, models(args@)),
{
    if same(name, "GET_IS_VEHICLE_ENGINE_RUNNING") {
        Some(
            match vehicle {
                Some(v) => Json::Bool(v.engine_on),
                None => Json::Bool(false),
            },
        )
    } else if same(name, "IS_VEHICLE_ENGINE_STARTING") {
        Some(
            match vehicle {
                Some(v) => Json::Bool(v.engine_starting),
                None => Json::Bool(false),
            },
        )
    } else if same(name, "IS_VEHICLE_SIREN_ON") {
        Some(
            match vehicle {
                Some(v) => Json::Bool(v.siren_on),
                None => Json::Bool(false),
            },
        )
    } else if same(name, "GET_VEHICLE_DOOR_LOCK_STATUS") {
        Some(
            match vehicle {
                Some(v) => Json::Unsigned(v.lock_status as u64),
                None => Json::Unsigned(0),
            },
        )
    } else if same(name, "GET_VEHICLE_DOORS_LOCKED_FOR_PLAYER") {
        Some(
            match vehicle {
                Some(v) => Json::Bool(v.has_lock && v.locked_players == -1),
                None => Json::Bool(false),
            },
        )
    } else if same(name, "GET_VEHICLE_DOOR_STATUS") {
        Some(
            match vehicle {
                Some(v) => {
                    if v.doors_open != 0 {
                        Json::Unsigned(byte_at(&v.door_positions, json_arg_i64(args, 1)) as u64)
                    } else {
                        Json::Unsigned(0)
                    }
                },
                None => Json::Unsigned(0),
            },
        )
    } else if same(name, "GET_VEHICLE_LIGHTS_STATE") {
        Some(
            match vehicle {
                Some(v) => three_flags(true, v.lights_on, v.highbeams_on),
                None => three_flags(false, false, false),
            },
        )
    } else if same(name, "GET_VEHICLE_HEADLIGHTS_COLOUR") {
        Some(
            match vehicle {
                Some(v) => {
                    if v.default_headlights {
                        Json::Unsigned(0)
                    } else {
                        Json::Unsigned(v.headlights_colour as u64)
                    }
                },
                None => Json::Unsigned(0),
            },
        )
    } else if same(name, "GET_VEHICLE_RADIO_STATION_INDEX") {
        Some(
            match vehicle {
                Some(v) => Json::Unsigned(v.radio_station as u64),
                None => Json::Unsigned(0),
            },
        )
    } else if same(name, "HAS_VEHICLE_BEEN_OWNED_BY_PLAYER") {
        Some(
            match vehicle {
                Some(v) => Json::Bool(v.has_been_owned_by_player),
                None => Json::Bool(false),
            },
        )
    } else {
        None
    }
}

fn three_flags(a: bool, b: bool, c: bool) -> (value: Json)
    ensures
        value@ == array_of(seq![JsonModel::Bool(a), JsonModel::Bool(b), JsonModel::Bool(c)]),
{
    let mut list: Vec<Json> = Vec::new();
    list.push(Json::Bool(a));
    list.push(Json::Bool(b));
    list.push(Json::Bool(c));
    assert(models(list@) =~= seq![JsonModel::Bool(a), JsonModel::Bool(b), JsonModel::Bool(c)]);
    Json::array(&list)
}

/// What the natives on a vehicle's health answer.
pub open spec fn vehicle_health_answer(
    vehicle: Option<VehicleHealth>,
    name: Seq<char>,
    args: Seq<JsonModel>,
) -> Option<JsonModel> {
    if name == "GET_VEHICLE_BODY_HEALTH"@ {
        Some(
            match vehicle {
                Some(v) => real_json(v.body_health as int),
                None => real_or_zero(None),
            },
        )
    } else if name == "GET_VEHICLE_ENGINE_HEALTH"@ {
        Some(
            match vehicle {
                Some(v) => real_json(v.engine_health as int),
                None => real_or_zero(None),
            },
        )
    } else if name == "GET_VEHICLE_PETROL_TANK_HEALTH"@ {
        Some(
            match vehicle {
                Some(v) => real_json(v.petrol_tank_health as int),
                None => real_or_zero(None),
            },
        )
    } else if name == "GET_VEHICLE_TOTAL_REPAIRS"@ {
        Some(
            match vehicle {
                Some(v) => JsonModel::Unsigned(v.total_repairs as u64),
                None => JsonModel::Unsigned(0),
            },
        )
    } else if name == "IS_VEHICLE_TYRE_BURST"@ {
        Some(
            match vehicle {
                Some(v) => JsonModel::Bool(
                    !v.tyres_fine && tyre_burst(
                        v.tyre_status@,
                        arg_i64(args, 1) as int,
                        arg_bool(args, 2),
                    ),
                ),
                None => JsonModel::Bool(false),
            },
        )
    } else {
        None
    }
}

fn vehicle_health_native(vehicle: Option<&VehicleHealth>, name: &str, args: &Vec<Json>) -> (value: Option<Json>)
    ensures
        optional_json(value) == vehicle_health_answer(seen(vehicle), name@, models(args@)),
{
    if same(name, "GET_VEHICLE_BODY_HEALTH") {
        Some(
            match vehicle {
                Some(v) => real_value(v.body_health as i64),
                None => real_text(&None),
            },
        )
    } else if same(name, "GET_VEHICLE_ENGINE_HEALTH") {
        Some(
            match vehicle {
                Some(v) => real_value(v.engine_health as i64),
                None => real_text(&None),
            },
        )
    } else if same(name, "GET_VEHICLE_PETROL_TANK_HEALTH") {
        Some(
            match vehicle {
                Some(v) => real_value(v.petrol_tank_health as i64),
                None => real_text(&None),
            },
        )
    } else if same(name, "GET_VEHICLE_TOTAL_REPAIRS") {
        Some(
            match vehicle {
                Some(v) => Json::Unsigned(v.total_repairs as u64),
                None => Json::Unsigned(0),
            },
        )
    } else if same(name, "IS_VEHICLE_TYRE_BURST") {
        Some(
            match vehicle {
                Some(v) => {
                    let tyre: i64 = json_arg_i64(args, 1);
                    let status: u8 = byte_at(&v.tyre_status, tyre);
                    // 2 is "running on the rim", 1 is "burst but still there".
                    let wanted: u8 = if json_arg_bool(args, 2) {
                        2
                    } else {
                        1
                    };
                    Json::Bool(!v.tyres_fine && status == wanted)
                },
                None => Json::Bool(false),
            },
        )
    } else {
        None
    }
}

/// Whether a tyre is burst: completely, or still there.
pub open spec fn tyre_burst(status: Seq<u8>, tyre: int, completely: bool) -> bool {
    item_at(status, tyre, 0u8) == if completely {
        2u8
    } else {
        1u8
    }
}

/// What the natives on a vehicle's looks answer.
pub open spec fn appearance_answer(
    vehicle: Option<VehicleAppearance>,
    name: Seq<char>,
    args: Seq<JsonModel>,
) -> Option<JsonModel> {
    if name == "GET_VEHICLE_COLOURS"@ {
        Some(
            match vehicle {
                Some(v) => byte_array(seq![v.primary_colour, v.secondary_colour]),
                None => byte_array(seq![0u8, 0u8]),
            },
        )
    } else if name == "GET_VEHICLE_EXTRA_COLOURS"@ {
        Some(
            match vehicle {
                Some(v) => byte_array(seq![v.pearl_colour, v.wheel_colour]),
                None => byte_array(seq![0u8, 0u8]),
            },
        )
    } else if name == "GET_VEHICLE_INTERIOR_COLOUR"@ {
        Some(
            match vehicle {
                Some(v) => JsonModel::Unsigned(v.interior_colour as u64),
                None => JsonModel::Unsigned(0),
            },
        )
    } else if name == "GET_VEHICLE_DASHBOARD_COLOUR"@ {
        Some(
            match vehicle {
                Some(v) => JsonModel::Unsigned(v.dashboard_colour as u64),
                None => JsonModel::Unsigned(0),
            },
        )
    } else if name == "GET_IS_VEHICLE_PRIMARY_COLOUR_CUSTOM"@ {
        Some(
            match vehicle {
                Some(v) => JsonModel::Bool(v.is_primary_colour_rgb),
                None => JsonModel::Bool(false),
            },
        )
    } else if name == "GET_IS_VEHICLE_SECONDARY_COLOUR_CUSTOM"@ {
        Some(
            match vehicle {
                Some(v) => JsonModel::Bool(v.is_secondary_colour_rgb),
                None => JsonModel::Bool(false),
            },
        )
    } else if name == "GET_VEHICLE_CUSTOM_PRIMARY_COLOUR"@ {
        Some(
            match vehicle {
                Some(v) => byte_array(seq![v.primary_rgb@[0], v.primary_rgb@[1], v.primary_rgb@[2]]),
                None => byte_array(seq![0u8, 0u8, 0u8]),
            },
        )
    } else if name == "GET_VEHICLE_CUSTOM_SECONDARY_COLOUR"@ {
        Some(
            match vehicle {
                Some(v) => byte_array(seq![v.secondary_rgb@[0], v.secondary_rgb@[1], v.secondary_rgb@[2]]),
                None => byte_array(seq![0u8, 0u8, 0u8]),
            },
        )
    } else if name == "GET_VEHICLE_DIRT_LEVEL"@ {
        Some(
            match vehicle {
                Some(v) => real_json(v.dirt_level as int),
                None => real_or_zero(None),
            },
        )
    } else if name == "GET_VEHICLE_LIVERY"@ {
        Some(
            match vehicle {
                Some(v) => int_json(v.livery_index as int),
                None => JsonModel::Unsigned(0),
            },
        )
    } else if name == "GET_VEHICLE_ROOF_LIVERY"@ {
        Some(
            match vehicle {
                Some(v) => int_json(v.roof_livery_index as int),
                None => JsonModel::Unsigned(0),
            },
        )
    } else if name == "GET_VEHICLE_WHEEL_TYPE"@ {
        Some(
            match vehicle {
                Some(v) => JsonModel::Unsigned(v.wheel_type as u64),
                None => JsonModel::Unsigned(0),
            },
        )
    } else {
        None
    }
}

fn appearance_native(vehicle: Option<&VehicleAppearance>, name: &str, args: &Vec<Json>) -> (value: Option<Json>)
    ensures
        optional_json(value) == appearance_answer(seen(vehicle), name@, models(args@)),
{
    if same(name, "GET_VEHICLE_COLOURS") {
        Some(
            match vehicle {
                Some(v) => two_bytes(v.primary_colour, v.secondary_colour),
                None => two_bytes(0, 0),
            },
        )
    } else if same(name, "GET_VEHICLE_EXTRA_COLOURS") {
        Some(
            match vehicle {
                Some(v) => two_bytes(v.pearl_colour, v.wheel_colour),
                None => two_bytes(0, 0),
            },
        )
    } else if same(name, "GET_VEHICLE_INTERIOR_COLOUR") {
        Some(
            match vehicle {
                Some(v) => Json::Unsigned(v.interior_colour as u64),
                None => Json::Unsigned(0),
            },
        )
    } else if same(name, "GET_VEHICLE_DASHBOARD_COLOUR") {
        Some(
            match vehicle {
                Some(v) => Json::Unsigned(v.dashboard_colour as u64),
                None => Json::Unsigned(0),
            },
        )
    } else if same(name, "GET_IS_VEHICLE_PRIMARY_COLOUR_CUSTOM") {
        Some(
            match vehicle {
                Some(v) => Json::Bool(v.is_primary_colour_rgb),
                None => Json::Bool(false),
            },
        )
    } else if same(name, "GET_IS_VEHICLE_SECONDARY_COLOUR_CUSTOM") {
        Some(
            match vehicle {
                Some(v) => Json::Bool(v.is_secondary_colour_rgb),
                None => Json::Bool(false),
            },
        )
    } else if same(name, "GET_VEHICLE_CUSTOM_PRIMARY_COLOUR") {
        Some(
            match vehicle {
                Some(v) => three_bytes(v.primary_rgb[0], v.primary_rgb[1], v.primary_rgb[2]),
                None => three_bytes(0, 0, 0),
            },
        )
    } else if same(name, "GET_VEHICLE_CUSTOM_SECONDARY_COLOUR") {
        Some(
            match vehicle {
                Some(v) => three_bytes(v.secondary_rgb[0], v.secondary_rgb[1], v.secondary_rgb[2]),
                None => three_bytes(0, 0, 0),
            },
        )
    } else if same(name, "GET_VEHICLE_DIRT_LEVEL") {
        Some(
            match vehicle {
                Some(v) => real_value(v.dirt_level as i64),
                None => real_text(&None),
            },
        )
    } else if same(name, "GET_VEHICLE_LIVERY") {
        Some(
            match vehicle {
                Some(v) => int_value(v.livery_index as i64),
                None => Json::Unsigned(0),
            },
        )
    } else if same(name, "GET_VEHICLE_ROOF_LIVERY") {
        Some(
            match vehicle {
                Some(v) => int_value(v.roof_livery_index as i64),
                None => Json::Unsigned(0),
            },
        )
    } else if same(name, "GET_VEHICLE_WHEEL_TYPE") {
        Some(
            match vehicle {
                Some(v) => Json::Unsigned(v.wheel_type as u64),
                None => Json::Unsigned(0),
            },
        )
    } else {
        None
    }
}

/// What the other natives on a vehicle's looks answer.
pub open spec fn trim_answer(
    vehicle: Option<VehicleAppearance>,
    name: Seq<char>,
    args: Seq<JsonModel>,
) -> Option<JsonModel> {
    if name == "GET_VEHICLE_WINDOW_TINT"@ {
        Some(
            match vehicle {
                Some(v) => int_json(
                    if v.window_tint_index == 255 {
                        -1
                    } else {
                        v.window_tint_index as int
                    },
                ),
                None => JsonModel::Unsigned(0),
            },
        )
    } else if name == "GET_VEHICLE_TYRE_SMOKE_COLOR"@ {
        Some(
            match vehicle {
                Some(v) => byte_array(seq![v.tyre_smoke_colour@[0], v.tyre_smoke_colour@[1], v.tyre_smoke_colour@[2]]),
                None => byte_array(seq![0u8, 0u8, 0u8]),
            },
        )
    } else if name == "GET_VEHICLE_NUMBER_PLATE_TEXT"@ {
        Some(
            match vehicle {
                Some(v) => JsonModel::Text(v.plate_text@),
                None => JsonModel::Text(""@),
            },
        )
    } else if name == "GET_VEHICLE_NUMBER_PLATE_TEXT_INDEX"@ {
        Some(
            match vehicle {
                Some(v) => JsonModel::Unsigned(v.number_plate_text_index as u64),
                None => JsonModel::Unsigned(0),
            },
        )
    } else if name == "GET_VEHICLE_HORN_TYPE"@ {
        Some(
            match vehicle {
                Some(v) => JsonModel::Unsigned(v.horn_type_hash as u64),
                None => JsonModel::Unsigned(0),
            },
        )
    } else if name == "GET_VEHICLE_NEON_COLOUR"@ {
        Some(
            match vehicle {
                Some(v) => byte_array(seq![v.neon_colour@[0], v.neon_colour@[1], v.neon_colour@[2]]),
                None => byte_array(seq![0u8, 0u8, 0u8]),
            },
        )
    } else if name == "GET_VEHICLE_NEON_ENABLED"@ {
        Some(
            match vehicle {
                Some(v) => JsonModel::Bool(
                    v.has_neon_lights && item_at(v.neon_sides@, arg_i64(args, 1) as int, false),
                ),
                None => JsonModel::Bool(false),
            },
        )
    } else if name == "IS_VEHICLE_EXTRA_TURNED_ON"@ {
        Some(
            match vehicle {
                Some(v) => JsonModel::Bool(extra_on(v.extras, arg_i64(args, 1))),
                None => JsonModel::Bool(false),
            },
        )
    } else {
        None
    }
}

fn trim_native(vehicle: Option<&VehicleAppearance>, name: &str, args: &Vec<Json>) -> (value: Option<Json>)
    ensures
        optional_json(value) == trim_answer(seen(vehicle), name@, models(args@)),
{
    if same(name, "GET_VEHICLE_WINDOW_TINT") {
        Some(
            match vehicle {
                Some(v) => {
                    // 255 is the engine's "untinted" marker.
                    if v.window_tint_index == 255 {
                        int_value(-1)
                    } else {
                        int_value(v.window_tint_index as i64)
                    }
                },
                None => Json::Unsigned(0),
            },
        )
    } else if same(name, "GET_VEHICLE_TYRE_SMOKE_COLOR") {
        Some(
            match vehicle {
                Some(v) => three_bytes(v.tyre_smoke_colour[0], v.tyre_smoke_colour[1], v.tyre_smoke_colour[2]),
                None => three_bytes(0, 0, 0),
            },
        )
    } else if same(name, "GET_VEHICLE_NUMBER_PLATE_TEXT") {
        Some(
            match vehicle {
                Some(v) => Json::Text(v.plate_text.clone()),
                None => Json::Text("".to_owned()),
            },
        )
    } else if same(name, "GET_VEHICLE_NUMBER_PLATE_TEXT_INDEX") {
        Some(
            match vehicle {
                Some(v) => Json::Unsigned(v.number_plate_text_index as u64),
                None => Json::Unsigned(0),
            },
        )
    } else if same(name, "GET_VEHICLE_HORN_TYPE") {
        Some(
            match vehicle {
                Some(v) => Json::Unsigned(v.horn_type_hash as u64),
                None => Json::Unsigned(0),
            },
        )
    } else if same(name, "GET_VEHICLE_NEON_COLOUR") {
        Some(
            match vehicle {
                Some(v) => three_bytes(v.neon_colour[0], v.neon_colour[1], v.neon_colour[2]),
                None => three_bytes(0, 0, 0),
            },
        )
    } else if same(name, "GET_VEHICLE_NEON_ENABLED") {
        Some(
            match vehicle {
                Some(v) => {
                    let lit = flag_at(&v.neon_sides, json_arg_i64(args, 1));
                    Json::Bool(v.has_neon_lights && lit)
                },
                None => Json::Bool(false),
            },
        )
    } else if same(name, "IS_VEHICLE_EXTRA_TURNED_ON") {
        Some(
            match vehicle {
                Some(v) => {
                    let extra: i64 = json_arg_i64(args, 1);
                    if -1 <= extra && extra < 15 {
                        let shift: u16 = (extra + 1) as u16;
                        Json::Bool((1u16 << shift) & v.extras == 0)
                    } else {
                        Json::Bool(false)
                    }
                },
                None => Json::Bool(false),
            },
        )
    } else {
        None
    }
}

/// Whether an extra is on. The mask is inverted on the wire: a set bit turns the extra
/// *off*.
pub open spec fn extra_on(extras: u16, extra: i64) -> bool {
    -1 <= extra < 15 && (1u16 << ((extra + 1) as u16)) & extras == 0
}

/// What the natives on a vehicle's damage answer.
pub open spec fn damage_answer(
    vehicle: Option<VehicleDamage>,
    name: Seq<char>,
    args: Seq<JsonModel>,
) -> Option<JsonModel> {
    if name == "HAS_VEHICLE_BEEN_DAMAGED_BY_BULLETS"@ {
        Some(
            match vehicle {
                Some(v) => JsonModel::Bool(v.damaged_by_bullets),
                None => JsonModel::Bool(false),
            },
        )
    } else if name == "IS_VEHICLE_WINDOW_INTACT"@ {
        Some(
            match vehicle {
                Some(v) => JsonModel::Bool(
                    0 <= arg_i64(args, 1) < v.windows_broken@.len() && (!v.any_window_broken
                        || !v.windows_broken@[arg_i64(args, 1) as int]),
                ),
                None => JsonModel::Bool(false),
            },
        )
    } else {
        None
    }
}

fn damage_native(vehicle: Option<&VehicleDamage>, name: &str, args: &Vec<Json>) -> (value: Option<Json>)
    ensures
        optional_json(value) == damage_answer(seen(vehicle), name@, models(args@)),
{
    if same(name, "HAS_VEHICLE_BEEN_DAMAGED_BY_BULLETS") {
        Some(
            match vehicle {
                Some(v) => Json::Bool(v.damaged_by_bullets),
                None => Json::Bool(false),
            },
        )
    } else if same(name, "IS_VEHICLE_WINDOW_INTACT") {
        Some(
            match vehicle {
                Some(v) => {
                    let window: i64 = json_arg_i64(args, 1);
                    let known = 0 <= window && (window as u64) < v.windows_broken.len() as u64;
                    Json::Bool(
                        known && (!v.any_window_broken || !flag_at(&v.windows_broken, window)),
                    )
                },
                None => Json::Bool(false),
            },
        )
    } else {
        None
    }
}

/// What the natives on a ped's state answer.
pub open spec fn ped_answer(
    ped: Option<PedGameState>,
    name: Seq<char>,
    args: Seq<JsonModel>,
) -> Option<JsonModel> {
    if name == "IS_PED_IN_ANY_VEHICLE"@ {
        Some(
            match ped {
                Some(v) => JsonModel::Bool(v.cur_vehicle >= 0),
                None => JsonModel::Bool(false),
            },
        )
    } else if name == "IS_PED_IN_VEHICLE"@ {
        Some(
            match ped {
                Some(v) => JsonModel::Bool(v.cur_vehicle >= 0 && v.cur_vehicle == arg_netid(args, 1) as i32),
                None => JsonModel::Bool(false),
            },
        )
    } else if name == "GET_SEAT_PED_IS_USING"@ {
        Some(
            match ped {
                Some(v) => int_json(script_seat_of(v.cur_vehicle_seat) as int),
                None => int_json(-1),
            },
        )
    } else if name == "GET_SELECTED_PED_WEAPON"@ || name == "GET_CURRENT_PED_WEAPON"@ {
        Some(
            match ped {
                Some(v) => JsonModel::Unsigned(v.cur_weapon as u64),
                None => JsonModel::Unsigned(0),
            },
        )
    } else if name == "IS_PED_HANDCUFFED"@ {
        Some(
            match ped {
                Some(v) => JsonModel::Bool(v.is_handcuffed),
                None => JsonModel::Bool(false),
            },
        )
    } else if name == "IS_FLASH_LIGHT_ON"@ {
        Some(
            match ped {
                Some(v) => JsonModel::Bool(v.is_flashlight_on),
                None => JsonModel::Bool(false),
            },
        )
    } else if name == "IS_PED_USING_ACTION_MODE"@ {
        Some(
            match ped {
                Some(v) => JsonModel::Bool(v.action_mode_enabled),
                None => JsonModel::Bool(false),
            },
        )
    } else if name == "GET_PED_STEALTH_MOVEMENT"@ {
        Some(
            match ped {
                Some(v) => JsonModel::Bool(v.stealth_mode_enabled),
                None => JsonModel::Bool(false),
            },
        )
    } else {
        None
    }
}

fn ped_native(ped: Option<&PedGameState>, name: &str, args: &Vec<Json>) -> (value: Option<Json>)
    ensures
        optional_json(value) == ped_answer(seen(ped), name@, models(args@)),
{
    if same(name, "IS_PED_IN_ANY_VEHICLE") {
        Some(
            match ped {
                Some(v) => Json::Bool(v.cur_vehicle >= 0),
                None => Json::Bool(false),
            },
        )
    } else if same(name, "IS_PED_IN_VEHICLE") {
        Some(
            match ped {
                Some(v) => {
                    let vehicle: i32 = json_arg_netid(args, 1) as i32;
                    Json::Bool(v.cur_vehicle >= 0 && v.cur_vehicle == vehicle)
                },
                None => Json::Bool(false),
            },
        )
    } else if same(name, "GET_SEAT_PED_IS_USING") {
        Some(
            match ped {
                Some(v) => int_value(script_seat(v.cur_vehicle_seat) as i64),
                None => Json::Signed(-1),
            },
        )
    } else if same(name, "GET_SELECTED_PED_WEAPON") || same(name, "GET_CURRENT_PED_WEAPON") {
        Some(
            match ped {
                Some(v) => Json::Unsigned(v.cur_weapon as u64),
                None => Json::Unsigned(0),
            },
        )
    } else if same(name, "IS_PED_HANDCUFFED") {
        Some(
            match ped {
                Some(v) => Json::Bool(v.is_handcuffed),
                None => Json::Bool(false),
            },
        )
    } else if same(name, "IS_FLASH_LIGHT_ON") {
        Some(
            match ped {
                Some(v) => Json::Bool(v.is_flashlight_on),
                None => Json::Bool(false),
            },
        )
    } else if same(name, "IS_PED_USING_ACTION_MODE") {
        Some(
            match ped {
                Some(v) => Json::Bool(v.action_mode_enabled),
                None => Json::Bool(false),
            },
        )
    } else if same(name, "GET_PED_STEALTH_MOVEMENT") {
        Some(
            match ped {
                Some(v) => Json::Bool(v.stealth_mode_enabled),
                None => Json::Bool(false),
            },
        )
    } else {
        None
    }
}

/// Wire seats are biased by two so that "entering" and "none" fit an unsigned field;
/// scripts address the driver as `-1`.
pub open spec fn script_seat_of(raw_seat: i32) -> i32 {
    (raw_seat - SEAT_INDEX_BIAS) as i32
}

fn script_seat(raw_seat: i32) -> (seat: i32)
    ensures
        seat == script_seat_of(raw_seat),
{
    (raw_seat as i64 - SEAT_INDEX_BIAS as i64) as i32
}

/// What the natives on an entity itself answer.
pub open spec fn entity_answer(
    entity: Option<EntitySummary>,
    name: Seq<char>,
    args: Seq<JsonModel>,
) -> Option<JsonModel> {
    if name == "GET_PED_ARMOUR"@ {
        Some(
            match entity {
                Some(v) => real_or_zero(optional(v.armour)),
                None => real_or_zero(None),
            },
        )
    } else if name == "GET_PED_MAX_HEALTH"@ || name == "GET_ENTITY_MAX_HEALTH"@ {
        Some(
            match entity {
                Some(v) => real_or_zero(optional(v.max_health)),
                None => real_or_zero(None),
            },
        )
    } else if name == "GET_ENTITY_SPEED"@ {
        Some(
            match entity {
                Some(v) => JsonModel::Real(v.speed@),
                None => real_or_zero(None),
            },
        )
    } else if name == "GET_ENTITY_ROTATION"@ {
        Some(
            match entity {
                Some(v) => array_of(
                    seq![
                        real_or_zero(None),
                        real_or_zero(None),
                        real_or_zero(optional(v.heading)),
                    ],
                ),
                None => array_of(
                    seq![real_or_zero(None), real_or_zero(None), real_or_zero(None)],
                ),
            },
        )
    } else {
        None
    }
}

fn entity_native(entity: Option<&EntitySummary>, name: &str, args: &Vec<Json>) -> (value: Option<Json>)
    ensures
        optional_json(value) == entity_answer(seen(entity), name@, models(args@)),
{
    if same(name, "GET_PED_ARMOUR") {
        Some(
            match entity {
                Some(v) => real_text(&v.armour),
                None => real_text(&None),
            },
        )
    } else if same(name, "GET_PED_MAX_HEALTH") || same(name, "GET_ENTITY_MAX_HEALTH") {
        Some(
            match entity {
                Some(v) => real_text(&v.max_health),
                None => real_text(&None),
            },
        )
    } else if same(name, "GET_ENTITY_SPEED") {
        Some(
            match entity {
                Some(v) => Json::Real(v.speed.clone()),
                None => real_text(&None),
            },
        )
    } else if same(name, "GET_ENTITY_ROTATION") {
        Some(
            match entity {
                Some(v) => rotation(&v.heading),
                None => rotation(&None),
            },
        )
    } else {
        None
    }
}

/// Only the heading survives the compressed orientation, so pitch and roll are reported
/// as zero rather than invented.
fn rotation(heading: &Option<String>) -> (value: Json)
    ensures
        value@ == array_of(
            seq![real_or_zero(None), real_or_zero(None), real_or_zero(optional(*heading))],
        ),
{
    let mut list: Vec<Json> = Vec::new();
    list.push(real_text(&None));
    list.push(real_text(&None));
    list.push(real_text(heading));
    assert(models(list@) =~= seq![
        real_or_zero(None),
        real_or_zero(None),
        real_or_zero(optional(*heading)),
    ]);
    Json::array(&list)
}

/// An optional id as JSON; zero where there is none.
pub open spec fn id_or_zero(id: Option<u32>) -> JsonModel {
    JsonModel::Unsigned(
        match id {
            Some(n) => n as u64,
            None => 0,
        },
    )
}

fn id_value(id: Option<u32>) -> (value: Json)
    ensures
        value@ == id_or_zero(id),
{
    match id {
        Some(n) => Json::Unsigned(n as u64),
        None => Json::Unsigned(0),
    }
}

/// The vehicle a ped is in, or was in last where that is asked for.
pub open spec fn vehicle_ped_is_in(entity: EntitySummary, want_last: bool) -> Option<u32> {
    let current = match entity.sync.ped_game_state {
        Some(state) => if state.cur_vehicle >= 0 {
            Some(state.cur_vehicle as u32)
        } else {
            None
        },
        None => None,
    };
    match entity.sync.last_vehicle {
        Some(last) => if want_last {
            Some(last as u32)
        } else {
            current
        },
        None => current,
    }
}

/// What the natives on who sits where answer.
pub open spec fn seat_answer(w: WorldModel, name: Seq<char>, args: Seq<JsonModel>) -> Option<
    JsonModel,
> {
    let handle = arg_netid(args, 0);
    if name == "GET_VEHICLE_PED_IS_IN"@ {
        Some(
            id_or_zero(
                match found(w.entities, handle) {
                    Some(entity) => vehicle_ped_is_in(entity, arg_bool(args, 1)),
                    None => None,
                },
            ),
        )
    } else if name == "GET_PED_IN_VEHICLE_SEAT"@ {
        Some(id_or_zero(sitting(w.occupants, handle, arg_i64(args, 1) as i32)))
    } else if name == "GET_LAST_PED_IN_VEHICLE_SEAT"@ {
        Some(id_or_zero(sitting(w.last_occupants, handle, arg_i64(args, 1) as i32)))
    } else if name == "IS_PED_A_PLAYER"@ {
        Some(
            JsonModel::Bool(
                match found(w.entities, handle) {
                    Some(entity) => found(w.player_peds, entity.owner) == Some(handle),
                    None => false,
                },
            ),
        )
    } else {
        None
    }
}

fn seat_native(world: &EntityWorldView, name: &str, args: &Vec<Json>) -> (value: Option<Json>)
    requires
        world.wf(),
    ensures
        optional_json(value) == seat_answer(world@, name@, models(args@)),
{
    let handle: u32 = json_arg_netid(args, 0);
    if same(name, "GET_VEHICLE_PED_IS_IN") {
        let want_last = json_arg_bool(args, 1);
        match world.get(handle) {
            Some(entity) => {
                let current: Option<u32> = match entity.sync.ped_game_state {
                    Some(state) => {
                        if state.cur_vehicle >= 0 {
                            Some(state.cur_vehicle as u32)
                        } else {
                            None
                        }
                    },
                    None => None,
                };
                let vehicle: Option<u32> = match entity.sync.last_vehicle {
                    Some(last) => {
                        if want_last {
                            Some(last as u32)
                        } else {
                            current
                        }
                    },
                    None => current,
                };
                Some(id_value(vehicle))
            },
            None => Some(id_value(None)),
        }
    } else if same(name, "GET_PED_IN_VEHICLE_SEAT") {
        Some(id_value(world.occupant(handle, json_arg_i64(args, 1) as i32)))
    } else if same(name, "GET_LAST_PED_IN_VEHICLE_SEAT") {
        Some(id_value(world.last_occupant(handle, json_arg_i64(args, 1) as i32)))
    } else if same(name, "IS_PED_A_PLAYER") {
        let yes = match world.get(handle) {
            Some(entity) => match world.player_ped(entity.owner) {
                Some(ped) => ped == handle,
                None => false,
            },
            None => false,
        };
        Some(Json::Bool(yes))
    } else {
        None
    }
}

/// What the natives on a ped's fate and tasks, and on how an entity stands, answer.
pub open spec fn condition_answer(
    entity: Option<EntitySummary>,
    name: Seq<char>,
    args: Seq<JsonModel>,
) -> Option<JsonModel> {
    if name == "GET_PED_CAUSE_OF_DEATH"@ {
        Some(
            match entity {
                Some(e) => id_or_zero(e.sync.cause_of_death),
                None => id_or_zero(None),
            },
        )
    } else if name == "GET_PED_SOURCE_OF_DAMAGE"@ {
        Some(id_or_zero(harmed_by(entity)))
    } else if name == "GET_PED_SOURCE_OF_DEATH"@ {
        // A living ped has no source of death, only a source of damage.
        Some(
            match entity {
                Some(e) => if e.dead {
                    id_or_zero(harmed_by(entity))
                } else {
                    id_or_zero(None)
                },
                None => id_or_zero(None),
            },
        )
    } else if name == "IS_PED_RAGDOLL"@ {
        Some(JsonModel::Bool(movement_of(entity) matches Some(m) && m.is_ragdolling))
    } else if name == "IS_PED_STRAFING"@ {
        Some(JsonModel::Bool(movement_of(entity) matches Some(m) && m.is_strafing))
    } else if name == "GET_PED_RELATIONSHIP_GROUP_HASH"@ {
        Some(
            match entity {
                Some(e) => id_or_zero(e.sync.relationship_group),
                None => id_or_zero(None),
            },
        )
    } else if name == "GET_PED_DESIRED_HEADING"@ {
        Some(
            match entity {
                Some(e) => real_or_zero(optional(e.desired_heading)),
                None => real_or_zero(None),
            },
        )
    } else if name == "IS_ENTITY_VISIBLE"@ {
        Some(JsonModel::Bool(entity matches Some(e) && e.sync.is_visible == Some(true)))
    } else if name == "GET_ENTITY_ATTACHED_TO"@ {
        Some(
            match entity {
                Some(e) => id_or_zero(e.sync.attached_to),
                None => id_or_zero(None),
            },
        )
    } else if name == "GET_PED_SCRIPT_TASK_COMMAND"@ {
        Some(
            JsonModel::Unsigned(
                match tasks_of(entity) {
                    Some(t) => t.script_command as u64,
                    None => 0,
                },
            ),
        )
    } else if name == "GET_PED_SCRIPT_TASK_STAGE"@ {
        Some(
            JsonModel::Unsigned(
                match tasks_of(entity) {
                    Some(t) => t.script_task_stage as u64,
                    None => 0,
                },
            ),
        )
    } else if name == "GET_PED_SPECIFIC_TASK_TYPE"@ {
        Some(
            JsonModel::Unsigned(
                match tasks_of(entity) {
                    Some(t) => task_in(t.task_types@, arg_i64(args, 1) as int) as u64,
                    None => 0,
                },
            ),
        )
    } else {
        None
    }
}

/// The entity that last harmed this one.
pub open spec fn harmed_by(entity: Option<EntitySummary>) -> Option<u32> {
    match entity {
        Some(e) => match e.sync.source_of_damage {
            Some(id) => Some(id as u32),
            None => None,
        },
        None => None,
    }
}

pub open spec fn movement_of(entity: Option<EntitySummary>) -> Option<PedMovement> {
    match entity {
        Some(e) => e.sync.ped_movement,
        None => None,
    }
}

pub open spec fn tasks_of(entity: Option<EntitySummary>) -> Option<PedTasks> {
    match entity {
        Some(e) => e.sync.ped_tasks,
        None => None,
    }
}

/// The task in a slot; a slot that is not there stands for the first one.
pub open spec fn task_in(tasks: Seq<u32>, slot: int) -> u32 {
    item_at(tasks, slot, item_at(tasks, 0, 0u32))
}

fn condition_native(entity: Option<&EntitySummary>, name: &str, args: &Vec<Json>) -> (value: Option<
    Json,
>)
    ensures
        optional_json(value) == condition_answer(seen(entity), name@, models(args@)),
{
    let harmed: Option<u32> = match entity {
        Some(e) => match e.sync.source_of_damage {
            Some(id) => Some(id as u32),
            None => None,
        },
        None => None,
    };
    let movement: Option<PedMovement> = match entity {
        Some(e) => e.sync.ped_movement,
        None => None,
    };
    let tasks: Option<&PedTasks> = match entity {
        Some(e) => e.sync.ped_tasks.as_ref(),
        None => None,
    };
    if same(name, "GET_PED_CAUSE_OF_DEATH") {
        Some(
            match entity {
                Some(e) => id_value(e.sync.cause_of_death),
                None => id_value(None),
            },
        )
    } else if same(name, "GET_PED_SOURCE_OF_DAMAGE") {
        Some(id_value(harmed))
    } else if same(name, "GET_PED_SOURCE_OF_DEATH") {
        Some(
            match entity {
                Some(e) => {
                    if e.dead {
                        id_value(harmed)
                    } else {
                        id_value(None)
                    }
                },
                None => id_value(None),
            },
        )
    } else if same(name, "IS_PED_RAGDOLL") {
        Some(
            match movement {
                Some(m) => Json::Bool(m.is_ragdolling),
                None => Json::Bool(false),
            },
        )
    } else if same(name, "IS_PED_STRAFING") {
        Some(
            match movement {
                Some(m) => Json::Bool(m.is_strafing),
                None => Json::Bool(false),
            },
        )
    } else if same(name, "GET_PED_RELATIONSHIP_GROUP_HASH") {
        Some(
            match entity {
                Some(e) => id_value(e.sync.relationship_group),
                None => id_value(None),
            },
        )
    } else if same(name, "GET_PED_DESIRED_HEADING") {
        Some(
            match entity {
                Some(e) => real_text(&e.desired_heading),
                None => real_text(&None),
            },
        )
    } else if same(name, "IS_ENTITY_VISIBLE") {
        Some(
            match entity {
                Some(e) => match e.sync.is_visible {
                    Some(visible) => Json::Bool(visible),
                    None => Json::Bool(false),
                },
                None => Json::Bool(false),
            },
        )
    } else if same(name, "GET_ENTITY_ATTACHED_TO") {
        Some(
            match entity {
                Some(e) => id_value(e.sync.attached_to),
                None => id_value(None),
            },
        )
    } else if same(name, "GET_PED_SCRIPT_TASK_COMMAND") {
        Some(
            match tasks {
                Some(t) => Json::Unsigned(t.script_command as u64),
                None => Json::Unsigned(0),
            },
        )
    } else if same(name, "GET_PED_SCRIPT_TASK_STAGE") {
        Some(
            match tasks {
                Some(t) => Json::Unsigned(t.script_task_stage as u64),
                None => Json::Unsigned(0),
            },
        )
    } else if same(name, "GET_PED_SPECIFIC_TASK_TYPE") {
        Some(
            match tasks {
                Some(t) => Json::Unsigned(task_at(&t.task_types, json_arg_i64(args, 1)) as u64),
                None => Json::Unsigned(0),
            },
        )
    } else {
        None
    }
}

fn task_at(tasks: &Vec<u32>, slot: i64) -> (task: u32)
    ensures
        task == task_in(tasks@, slot as int),
{
    let n: usize = tasks.len();
    if 0 <= slot && (slot as u64) < n as u64 {
        tasks[slot as usize]
    } else if n > 0 {
        tasks[0]
    } else {
        0
    }
}

/// The first answer.
pub open spec fn first_of(a: Option<JsonModel>, b: Option<JsonModel>) -> Option<JsonModel> {
    if a is Some {
        a
    } else {
        b
    }
}

/// The answers that an entity's sync state gives.
pub open spec fn sync_answer(
    entity: Option<EntitySummary>,
    name: Seq<char>,
    args: Seq<JsonModel>,
) -> Option<JsonModel> {
    let state = match entity {
        Some(e) => e.sync.vehicle_game_state,
        None => None,
    };
    let health = match entity {
        Some(e) => e.sync.vehicle_health,
        None => None,
    };
    let looks = match entity {
        Some(e) => e.sync.vehicle_appearance,
        None => None,
    };
    let damage = match entity {
        Some(e) => e.sync.vehicle_damage,
        None => None,
    };
    let ped = match entity {
        Some(e) => e.sync.ped_game_state,
        None => None,
    };
    first_of(
        vehicle_state_answer(state, name, args),
        first_of(
            vehicle_health_answer(health, name, args),
            first_of(
                appearance_answer(looks, name, args),
                first_of(
                    trim_answer(looks, name, args),
                    first_of(
                        damage_answer(damage, name, args),
                        first_of(
                            ped_answer(ped, name, args),
                            first_of(
                                entity_answer(entity, name, args),
                                condition_answer(entity, name, args),
                            ),
                        ),
                    ),
                ),
            ),
        ),
    )
}

/// What the world mirror answers to a native; nothing where it is not one of these.
pub open spec fn world_answer(w: WorldModel, name: Seq<char>, args: Seq<JsonModel>) -> Option<
    JsonModel,
> {
    first_of(
        seat_answer(w, name, args),
        sync_answer(found(w.entities, arg_netid(args, 0)), name, args),
    )
}

fn sync_native(entity: Option<&EntitySummary>, name: &str, args: &Vec<Json>) -> (value: Option<
    Json,
>)
    ensures
        optional_json(value) == sync_answer(seen(entity), name@, models(args@)),
{
    let state: Option<&VehicleGameState> = match entity {
        Some(e) => e.sync.vehicle_game_state.as_ref(),
        None => None,
    };
    let health: Option<&VehicleHealth> = match entity {
        Some(e) => e.sync.vehicle_health.as_ref(),
        None => None,
    };
    let looks: Option<&VehicleAppearance> = match entity {
        Some(e) => e.sync.vehicle_appearance.as_ref(),
        None => None,
    };
    let damage: Option<&VehicleDamage> = match entity {
        Some(e) => e.sync.vehicle_damage.as_ref(),
        None => None,
    };
    let ped: Option<&PedGameState> = match entity {
        Some(e) => e.sync.ped_game_state.as_ref(),
        None => None,
    };
    if let Some(value) = vehicle_state_native(state, name, args) {
        return Some(value);
    }
    if let Some(value) = vehicle_health_native(health, name, args) {
        return Some(value);
    }
    if let Some(value) = appearance_native(looks, name, args) {
        return Some(value);
    }
    if let Some(value) = trim_native(looks, name, args) {
        return Some(value);
    }
    if let Some(value) = damage_native(damage, name, args) {
        return Some(value);
    }
    if let Some(value) = ped_native(ped, name, args) {
        return Some(value);
    }
    if let Some(value) = entity_native(entity, name, args) {
        return Some(value);
    }
    condition_native(entity, name, args)
}

/// Try to answer a native from the world mirror.
///
/// `None` means "not one of ours" and the caller falls through to the rest of its
/// dispatch.
pub fn try_dispatch(world: &EntityWorldView, name: &str, args: &Vec<Json>) -> (value: Option<Json>)
    requires
        world.wf(),
    ensures
        optional_json(value) == world_answer(world@, name@, models(args@)),
{
    if let Some(value) = seat_native(world, name, args) {
        return Some(value);
    }
    sync_native(world.get(json_arg_netid(args, 0)), name, args)
}

} // verus!
