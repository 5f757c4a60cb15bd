//! No two natives are taken for each other: each name has a number of its own.
use vstd::prelude::*;

verus! {

spec fn letter(name: Seq<char>, i: int) -> int {
    if i < name.len() {
        name[i] as int
    } else {
        0
    }
}

/// A number made of the length of a name and of a few of its letters.
pub closed spec fn name_number(name: Seq<char>) -> int {
    let a = letter(name, 12);
    let b = letter(name, 6);
    let c = letter(name, 0);
    let d = letter(name, 13);
    let e = letter(name, 8);
    ((((e * 256 + d) * 256 + c) * 256 + b) * 256 + a) * 100 + name.len()
}

proof fn lemma_numbers_0()
    ensures
        name_number("ADD_CONVAR_CHANGE_LISTENER"@) == 28026767316026,
        name_number("ADD_STATE_BAG_CHANGE_HANDLER"@) == 29795085549528,
        name_number("CANCEL_EVENT"@) == 36937160268812,
        name_number("CAN_PLAYER_START_COMMERCE_SESSION"@) == 29744767010033,
        name_number("CREATE_OBJECT"@) == 28347225685213,
        name_number("CREATE_OBJECT_NO_OFFSET"@) == 28506609237223,
        name_number("CREATE_PED"@) == 29635715865610,
        name_number("CREATE_PED_INSIDE_VEHICLE"@) == 29774966766225,
        name_number("CREATE_VEHICLE"@) == 29751478663614,
        name_number("CREATE_VEHICLE_SERVER_SETTER"@) == 29751478663628,
        name_number("DELETE_ENTITY"@) == 33501192994513,
        name_number("DELETE_FUNCTION_REFERENCE"@) == 36640210106525,
        name_number("DELETE_RESOURCE_KVP"@) == 29748129774619,
        name_number("DELETE_RESOURCE_KVP_NO_SYNC"@) == 29748129774627,
        name_number("DELETE_TRAIN"@) == 35219179904012,
        name_number("DOES_ENTITY_EXIST"@) == 31501348410117,
        name_number("DOES_PLAYER_OWN_SKU"@) == 38371618311919,
        name_number("DOES_PLAYER_OWN_SKU_EXT"@) == 38371618311923,
        name_number("DROP_PLAYER"@) == 38225656524811,
        name_number("DUPLICATE_FUNCTION_REFERENCE"@) == 29748129006228,
{
    reveal_strlit("ADD_CONVAR_CHANGE_LISTENER");
    reveal_strlit("ADD_STATE_BAG_CHANGE_HANDLER");
    reveal_strlit("CANCEL_EVENT");
    reveal_strlit("CAN_PLAYER_START_COMMERCE_SESSION");
    reveal_strlit("CREATE_OBJECT");
    reveal_strlit("CREATE_OBJECT_NO_OFFSET");
    reveal_strlit("CREATE_PED");
    reveal_strlit("CREATE_PED_INSIDE_VEHICLE");
    reveal_strlit("CREATE_VEHICLE");
    reveal_strlit("CREATE_VEHICLE_SERVER_SETTER");
    reveal_strlit("DELETE_ENTITY");
    reveal_strlit("DELETE_FUNCTION_REFERENCE");
    reveal_strlit("DELETE_RESOURCE_KVP");
    reveal_strlit("DELETE_RESOURCE_KVP_NO_SYNC");
    reveal_strlit("DELETE_TRAIN");
    reveal_strlit("DOES_ENTITY_EXIST");
    reveal_strlit("DOES_PLAYER_OWN_SKU");
    reveal_strlit("DOES_PLAYER_OWN_SKU_EXT");
    reveal_strlit("DROP_PLAYER");
    reveal_strlit("DUPLICATE_FUNCTION_REFERENCE");
}

proof fn lemma_numbers_1()
    ensures
        name_number("ENABLE_ENHANCED_HOST_SUPPORT"@) == 33616962336328,
        name_number("END_FIND_KVP"@) == 40802643507212,
        name_number("ENSURE_ENTITY_STATE_BAG"@) == 33660583100123,
        name_number("EXECUTE_COMMAND"@) == 28907597139315,
        name_number("FIND_KVP"@) == 460953608,
        name_number("FLAG_SERVER_AS_PRIVATE"@) == 37076430163322,
        name_number("FLUSH_RESOURCE_KVP"@) == 35764452205118,
        name_number("FORMAT_STACK_TRACE"@) == 36219115094318,
        name_number("GET_ALL_OBJECTS"@) == 34071637510715,
        name_number("GET_ALL_PEDS"@) == 34360205619212,
        name_number("GET_ALL_VEHICLES"@) == 37064692845116,
        name_number("GET_CONSOLE_BUFFER"@) == 34073315283418,
        name_number("GET_CURRENT_PED_WEAPON"@) == 29751504545622,
        name_number("GET_ENTITIES_IN_RADIUS"@) == 36200666428722,
        name_number("GET_ENTITY_ATTACHED_TO"@) == 36219121365222,
        name_number("GET_ENTITY_COORDS"@) == 36210732756717,
        name_number("GET_ENTITY_FROM_STATE_BAG_NAME"@) == 36210732757030,
        name_number("GET_ENTITY_HEADING"@) == 36187244653318,
        name_number("GET_ENTITY_HEALTH"@) == 36187244653317,
        name_number("GET_ENTITY_MAX_HEALTH"@) == 36225832249721,
{
    reveal_strlit("ENABLE_ENHANCED_HOST_SUPPORT");
    reveal_strlit("END_FIND_KVP");
    reveal_strlit("ENSURE_ENTITY_STATE_BAG");
    reveal_strlit("EXECUTE_COMMAND");
    reveal_strlit("FIND_KVP");
    reveal_strlit("FLAG_SERVER_AS_PRIVATE");
    reveal_strlit("FLUSH_RESOURCE_KVP");
    reveal_strlit("FORMAT_STACK_TRACE");
    reveal_strlit("GET_ALL_OBJECTS");
    reveal_strlit("GET_ALL_PEDS");
    reveal_strlit("GET_ALL_VEHICLES");
    reveal_strlit("GET_CONSOLE_BUFFER");
    reveal_strlit("GET_CURRENT_PED_WEAPON");
    reveal_strlit("GET_ENTITIES_IN_RADIUS");
    reveal_strlit("GET_ENTITY_ATTACHED_TO");
    reveal_strlit("GET_ENTITY_COORDS");
    reveal_strlit("GET_ENTITY_FROM_STATE_BAG_NAME");
    reveal_strlit("GET_ENTITY_HEADING");
    reveal_strlit("GET_ENTITY_HEALTH");
    reveal_strlit("GET_ENTITY_MAX_HEALTH");
}

proof fn lemma_numbers_2()
    ensures
        name_number("GET_ENTITY_MODEL"@) == 36192277819116,
        name_number("GET_ENTITY_ROTATION"@) == 36219121364719,
        name_number("GET_ENTITY_ROUTING_BUCKET"@) == 36220799086325,
        name_number("GET_ENTITY_SCRIPT"@) == 36215765920317,
        name_number("GET_ENTITY_SPEED"@) == 36193955540816,
        name_number("GET_ENTITY_TYPE"@) == 36212410479315,
        name_number("GET_ENTITY_VELOCITY"@) == 36205699590919,
        name_number("GET_GAME_BUILD_NUMBER"@) == 40916741665221,
        name_number("GET_GAME_NAME"@) == 40802656595713,
        name_number("GET_GAME_POOL"@) == 40802656596413,
        name_number("GET_HASH_KEY"@) == 40802656742412,
        name_number("GET_HOST_ID"@) == 40802656742411,
        name_number("GET_INSTANCE_ID"@) == 28040228540715,
        name_number("GET_INVOKING_RESOURCE"@) == 32350295407921,
        name_number("GET_IS_VEHICLE_ENGINE_RUNNING"@) == 29751504878029,
        name_number("GET_IS_VEHICLE_PRIMARY_COLOUR_CUSTOM"@) == 29751504878036,
        name_number("GET_IS_VEHICLE_SECONDARY_COLOUR_CUSTOM"@) == 29751504878038,
        name_number("GET_LAST_PED_IN_VEHICLE_SEAT"@) == 40925130428728,
        name_number("GET_MOUNT"@) == 36078192768009,
        name_number("GET_NUM_PLAYER_INDICES"@) == 34497778822922,
{
    reveal_strlit("GET_ENTITY_MODEL");
    reveal_strlit("GET_ENTITY_ROTATION");
    reveal_strlit("GET_ENTITY_ROUTING_BUCKET");
    reveal_strlit("GET_ENTITY_SCRIPT");
    reveal_strlit("GET_ENTITY_SPEED");
    reveal_strlit("GET_ENTITY_TYPE");
    reveal_strlit("GET_ENTITY_VELOCITY");
    reveal_strlit("GET_GAME_BUILD_NUMBER");
    reveal_strlit("GET_GAME_NAME");
    reveal_strlit("GET_GAME_POOL");
    reveal_strlit("GET_HASH_KEY");
    reveal_strlit("GET_HOST_ID");
    reveal_strlit("GET_INSTANCE_ID");
    reveal_strlit("GET_INVOKING_RESOURCE");
    reveal_strlit("GET_IS_VEHICLE_ENGINE_RUNNING");
    reveal_strlit("GET_IS_VEHICLE_PRIMARY_COLOUR_CUSTOM");
    reveal_strlit("GET_IS_VEHICLE_SECONDARY_COLOUR_CUSTOM");
    reveal_strlit("GET_LAST_PED_IN_VEHICLE_SEAT");
    reveal_strlit("GET_MOUNT");
    reveal_strlit("GET_NUM_PLAYER_INDICES");
}

proof fn lemma_numbers_3()
    ensures
        name_number("GET_PASSWORD_HASH"@) == 37487478870317,
        name_number("GET_PED_ARMOUR"@) == 28055327650114,
        name_number("GET_PED_CAUSE_OF_DEATH"@) == 28936131488522,
        name_number("GET_PED_DESIRED_HEADING"@) == 29322007457823,
        name_number("GET_PED_IN_VEHICLE_SEAT"@) == 31474524269323,
        name_number("GET_PED_MAX_HEALTH"@) == 33187478023218,
        name_number("GET_PED_RELATIONSHIP_GROUP_HASH"@) == 35341672558831,
        name_number("GET_PED_SCRIPT_TASK_COMMAND"@) == 35789624225627,
        name_number("GET_PED_SCRIPT_TASK_STAGE"@) == 35789624225625,
        name_number("GET_PED_SOURCE_OF_DAMAGE"@) == 35764458400324,
        name_number("GET_PED_SOURCE_OF_DEATH"@) == 35764458400323,
        name_number("GET_PED_SPECIFIC_TASK_TYPE"@) == 35766136122526,
        name_number("GET_PED_STEALTH_MOVEMENT"@) == 35789624225224,
        name_number("GET_PLAYER_FROM_STATE_BAG_NAME"@) == 29768281326630,
        name_number("GET_PLAYER_INVINCIBLE"@) == 29780025377421,
        name_number("GET_PLAYER_LAST_MSG"@) == 29774992211319,
        name_number("GET_PLAYER_PED"@) == 29749826387714,
        name_number("GET_PLAYER_ROUTING_BUCKET"@) == 29778347655925,
        name_number("GET_PLAYER_TIME_IN_PURSUIT"@) == 29764925882526,
        name_number("GET_PLAYER_WANTED_LEVEL"@) == 29766603603323,
{
    reveal_strlit("GET_PASSWORD_HASH");
    reveal_strlit("GET_PED_ARMOUR");
    reveal_strlit("GET_PED_CAUSE_OF_DEATH");
    reveal_strlit("GET_PED_DESIRED_HEADING");
    reveal_strlit("GET_PED_IN_VEHICLE_SEAT");
    reveal_strlit("GET_PED_MAX_HEALTH");
    reveal_strlit("GET_PED_RELATIONSHIP_GROUP_HASH");
    reveal_strlit("GET_PED_SCRIPT_TASK_COMMAND");
    reveal_strlit("GET_PED_SCRIPT_TASK_STAGE");
    reveal_strlit("GET_PED_SOURCE_OF_DAMAGE");
    reveal_strlit("GET_PED_SOURCE_OF_DEATH");
    reveal_strlit("GET_PED_SPECIFIC_TASK_TYPE");
    reveal_strlit("GET_PED_STEALTH_MOVEMENT");
    reveal_strlit("GET_PLAYER_FROM_STATE_BAG_NAME");
    reveal_strlit("GET_PLAYER_INVINCIBLE");
    reveal_strlit("GET_PLAYER_LAST_MSG");
    reveal_strlit("GET_PLAYER_PED");
    reveal_strlit("GET_PLAYER_ROUTING_BUCKET");
    reveal_strlit("GET_PLAYER_TIME_IN_PURSUIT");
    reveal_strlit("GET_PLAYER_WANTED_LEVEL");
}

proof fn lemma_numbers_4()
    ensures
        name_number("GET_REGISTERED_COMMANDS"@) == 35762780755723,
        name_number("GET_RESOURCE_COMMANDS"@) == 36620096803121,
        name_number("GET_RESOURCE_KVP_FLOAT"@) == 36633518575922,
        name_number("GET_RESOURCE_KVP_INT"@) == 36633518575920,
        name_number("GET_RESOURCE_KVP_STRING"@) == 36633518575923,
        name_number("GET_SEAT_PED_IS_USING"@) == 40925129967921,
        name_number("GET_SELECTED_PED_WEAPON"@) == 28910965871923,
        name_number("GET_STATE_BAG_KEYS"@) == 29795124871118,
        name_number("GET_STATE_BAG_VALUE"@) == 29795124871119,
        name_number("GET_VEHICLE_BODY_HEALTH"@) == 28909288045023,
        name_number("GET_VEHICLE_COLOURS"@) == 28909288045119,
        name_number("GET_VEHICLE_CUSTOM_PRIMARY_COLOUR"@) == 28919354374733,
        name_number("GET_VEHICLE_CUSTOM_SECONDARY_COLOUR"@) == 28919354374735,
        name_number("GET_VEHICLE_DASHBOARD_COLOUR"@) == 28885799942828,
        name_number("GET_VEHICLE_DIRT_LEVEL"@) == 28899221715622,
        name_number("GET_VEHICLE_DOORS_LOCKED_FOR_PLAYER"@) == 28909288045235,
        name_number("GET_VEHICLE_DOOR_LOCK_STATUS"@) == 28909288045228,
        name_number("GET_VEHICLE_DOOR_STATUS"@) == 28909288045223,
        name_number("GET_VEHICLE_ENGINE_HEALTH"@) == 28907610323725,
        name_number("GET_VEHICLE_EXTRA_COLOURS"@) == 28924387539725,
{
    reveal_strlit("GET_REGISTERED_COMMANDS");
    reveal_strlit("GET_RESOURCE_COMMANDS");
    reveal_strlit("GET_RESOURCE_KVP_FLOAT");
    reveal_strlit("GET_RESOURCE_KVP_INT");
    reveal_strlit("GET_RESOURCE_KVP_STRING");
    reveal_strlit("GET_SEAT_PED_IS_USING");
    reveal_strlit("GET_SELECTED_PED_WEAPON");
    reveal_strlit("GET_STATE_BAG_KEYS");
    reveal_strlit("GET_STATE_BAG_VALUE");
    reveal_strlit("GET_VEHICLE_BODY_HEALTH");
    reveal_strlit("GET_VEHICLE_COLOURS");
    reveal_strlit("GET_VEHICLE_CUSTOM_PRIMARY_COLOUR");
    reveal_strlit("GET_VEHICLE_CUSTOM_SECONDARY_COLOUR");
    reveal_strlit("GET_VEHICLE_DASHBOARD_COLOUR");
    reveal_strlit("GET_VEHICLE_DIRT_LEVEL");
    reveal_strlit("GET_VEHICLE_DOORS_LOCKED_FOR_PLAYER");
    reveal_strlit("GET_VEHICLE_DOOR_LOCK_STATUS");
    reveal_strlit("GET_VEHICLE_DOOR_STATUS");
    reveal_strlit("GET_VEHICLE_ENGINE_HEALTH");
    reveal_strlit("GET_VEHICLE_EXTRA_COLOURS");
}

proof fn lemma_numbers_5()
    ensures
        name_number("GET_VEHICLE_HEADLIGHTS_COLOUR"@) == 28892510829629,
        name_number("GET_VEHICLE_HORN_TYPE"@) == 28909288045621,
        name_number("GET_VEHICLE_INTERIOR_COLOUR"@) == 28907610324127,
        name_number("GET_VEHICLE_LIGHTS_STATE"@) == 28899221716424,
        name_number("GET_VEHICLE_LIVERY"@) == 28899221716418,
        name_number("GET_VEHICLE_NEON_COLOUR"@) == 28892510830223,
        name_number("GET_VEHICLE_NEON_ENABLED"@) == 28892510830224,
        name_number("GET_VEHICLE_NUMBER_PLATE_TEXT"@) == 28919354375829,
        name_number("GET_VEHICLE_NUMBER_PLATE_TEXT_INDEX"@) == 28919354375835,
        name_number("GET_VEHICLE_PED_IS_IN"@) == 28892510830421,
        name_number("GET_VEHICLE_PETROL_TANK_HEALTH"@) == 28892510830430,
        name_number("GET_VEHICLE_RADIO_STATION_INDEX"@) == 28885799944231,
        name_number("GET_VEHICLE_ROOF_LIVERY"@) == 28909288046623,
        name_number("GET_VEHICLE_TOTAL_REPAIRS"@) == 28909288046825,
        name_number("GET_VEHICLE_TYRE_SMOKE_COLOR"@) == 28926065262828,
        name_number("GET_VEHICLE_WHEEL_TYPE"@) == 28897543995922,
        name_number("GET_VEHICLE_WINDOW_TINT"@) == 28899221717523,
        name_number("HAS_ENTITY_BEEN_MARKED_AS_NO_LONGER_NEEDED"@) == 36193962093342,
        name_number("HAS_VEHICLE_BEEN_DAMAGED_BY_BULLETS"@) == 28892517382635,
        name_number("HAS_VEHICLE_BEEN_OWNED_BY_PLAYER"@) == 28892517382632,
{
    reveal_strlit("GET_VEHICLE_HEADLIGHTS_COLOUR");
    reveal_strlit("GET_VEHICLE_HORN_TYPE");
    reveal_strlit("GET_VEHICLE_INTERIOR_COLOUR");
    reveal_strlit("GET_VEHICLE_LIGHTS_STATE");
    reveal_strlit("GET_VEHICLE_LIVERY");
    reveal_strlit("GET_VEHICLE_NEON_COLOUR");
    reveal_strlit("GET_VEHICLE_NEON_ENABLED");
    reveal_strlit("GET_VEHICLE_NUMBER_PLATE_TEXT");
    reveal_strlit("GET_VEHICLE_NUMBER_PLATE_TEXT_INDEX");
    reveal_strlit("GET_VEHICLE_PED_IS_IN");
    reveal_strlit("GET_VEHICLE_PETROL_TANK_HEALTH");
    reveal_strlit("GET_VEHICLE_RADIO_STATION_INDEX");
    reveal_strlit("GET_VEHICLE_ROOF_LIVERY");
    reveal_strlit("GET_VEHICLE_TOTAL_REPAIRS");
    reveal_strlit("GET_VEHICLE_TYRE_SMOKE_COLOR");
    reveal_strlit("GET_VEHICLE_WHEEL_TYPE");
    reveal_strlit("GET_VEHICLE_WINDOW_TINT");
    reveal_strlit("HAS_ENTITY_BEEN_MARKED_AS_NO_LONGER_NEEDED");
    reveal_strlit("HAS_VEHICLE_BEEN_DAMAGED_BY_BULLETS");
    reveal_strlit("HAS_VEHICLE_BEEN_OWNED_BY_PLAYER");
}

proof fn lemma_numbers_6()
    ensures
        name_number("IS_ACE_ALLOWED"@) == 32756317370114,
        name_number("IS_DUPLICITY_VERSION"@) == 28921045308720,
        name_number("IS_ENTITY_VISIBLE"@) == 38348162901117,
        name_number("IS_FLASH_LIGHT_ON"@) == 40943598471217,
        name_number("IS_PED_A_PLAYER"@) == 40918432956115,
        name_number("IS_PED_HANDCUFFED"@) == 28035208789317,
        name_number("IS_PED_IN_ANY_VEHICLE"@) == 33660609314521,
        name_number("IS_PED_IN_VEHICLE"@) == 33623699437617,
        name_number("IS_PED_ON_MOUNT"@) == 33632088046915,
        name_number("IS_PED_RAGDOLL"@) == 28045275118014,
        name_number("IS_PED_STRAFING"@) == 36209068423315,
        name_number("IS_PED_USING_ACTION_MODE"@) == 35757761315124,
        name_number("IS_PLAYER_ACE_ALLOWED"@) == 35378596077321,
        name_number("IS_PLAYER_COMMERCE_INFO_LOADED"@) == 35348397089330,
        name_number("IS_PLAYER_COMMERCE_INFO_LOADED_EXT"@) == 35348397089334,
        name_number("IS_PLAYER_USING_SUPER_JUMP"@) == 35350074810526,
        name_number("IS_PRINCIPAL_ACE_ALLOWED"@) == 31462793583924,
        name_number("IS_VEHICLE_ENGINE_STARTING"@) == 32761349972626,
        name_number("IS_VEHICLE_EXTRA_TURNED_ON"@) == 32783160354426,
        name_number("IS_VEHICLE_SIREN_ON"@) == 32779804909719,
{
    reveal_strlit("IS_ACE_ALLOWED");
    reveal_strlit("IS_DUPLICITY_VERSION");
    reveal_strlit("IS_ENTITY_VISIBLE");
    reveal_strlit("IS_FLASH_LIGHT_ON");
    reveal_strlit("IS_PED_A_PLAYER");
    reveal_strlit("IS_PED_HANDCUFFED");
    reveal_strlit("IS_PED_IN_ANY_VEHICLE");
    reveal_strlit("IS_PED_IN_VEHICLE");
    reveal_strlit("IS_PED_ON_MOUNT");
    reveal_strlit("IS_PED_RAGDOLL");
    reveal_strlit("IS_PED_STRAFING");
    reveal_strlit("IS_PED_USING_ACTION_MODE");
    reveal_strlit("IS_PLAYER_ACE_ALLOWED");
    reveal_strlit("IS_PLAYER_COMMERCE_INFO_LOADED");
    reveal_strlit("IS_PLAYER_COMMERCE_INFO_LOADED_EXT");
    reveal_strlit("IS_PLAYER_USING_SUPER_JUMP");
    reveal_strlit("IS_PRINCIPAL_ACE_ALLOWED");
    reveal_strlit("IS_VEHICLE_ENGINE_STARTING");
    reveal_strlit("IS_VEHICLE_EXTRA_TURNED_ON");
    reveal_strlit("IS_VEHICLE_SIREN_ON");
}

proof fn lemma_numbers_7()
    ensures
        name_number("IS_VEHICLE_TYRE_BURST"@) == 32779804911321,
        name_number("IS_VEHICLE_WINDOW_INTACT"@) == 32773094023324,
        name_number("LOAD_PLAYER_COMMERCE_DATA"@) == 38358248966725,
        name_number("LOAD_PLAYER_COMMERCE_DATA_EXT"@) == 38358248966729,
        name_number("MUMBLE_CREATE_CHANNEL"@) == 35378622445321,
        name_number("MUMBLE_DOES_CHANNEL_EXIST"@) == 34051544659525,
        name_number("MUMBLE_IS_PLAYER_MUTED"@) == 35798052844922,
        name_number("MUMBLE_SET_PLAYER_MUTED"@) == 29744833313223,
        name_number("NETWORK_CLEAR_VOICE_PROXIMITY_OVERRIDE_FOR_PLAYER"@) == 28936177544249,
        name_number("NETWORK_GET_ENTITY_FROM_NETWORK_ID"@) == 30625643194134,
        name_number("NETWORK_GET_ENTITY_OWNER"@) == 30625643194124,
        name_number("NETWORK_GET_NETWORK_ID_FROM_ENTITY"@) == 30610543700634,
        name_number("NETWORK_GET_VOICE_PROXIMITY_OVERRIDE_FOR_PLAYER"@) == 30627320917447,
        name_number("NETWORK_SET_VOICE_PROXIMITY_OVERRIDE_FOR_PLAYER"@) == 35781281672647,
        name_number("PERFORM_HTTP_REQUEST_INTERNAL"@) == 31061863971129,
        name_number("PERFORM_HTTP_REQUEST_INTERNAL_EX"@) == 31061863971132,
        name_number("PRINT_STRUCTURED_TRACE"@) == 35356831419722,
        name_number("PROFILER_ENTER_SCOPE"@) == 40940288544520,
        name_number("PROFILER_EXIT_SCOPE"@) == 40962098926819,
        name_number("PROFILER_IS_RECORDING"@) == 40918478165021,
{
    reveal_strlit("IS_VEHICLE_TYRE_BURST");
    reveal_strlit("IS_VEHICLE_WINDOW_INTACT");
    reveal_strlit("LOAD_PLAYER_COMMERCE_DATA");
    reveal_strlit("LOAD_PLAYER_COMMERCE_DATA_EXT");
    reveal_strlit("MUMBLE_CREATE_CHANNEL");
    reveal_strlit("MUMBLE_DOES_CHANNEL_EXIST");
    reveal_strlit("MUMBLE_IS_PLAYER_MUTED");
    reveal_strlit("MUMBLE_SET_PLAYER_MUTED");
    reveal_strlit("NETWORK_CLEAR_VOICE_PROXIMITY_OVERRIDE_FOR_PLAYER");
    reveal_strlit("NETWORK_GET_ENTITY_FROM_NETWORK_ID");
    reveal_strlit("NETWORK_GET_ENTITY_OWNER");
    reveal_strlit("NETWORK_GET_NETWORK_ID_FROM_ENTITY");
    reveal_strlit("NETWORK_GET_VOICE_PROXIMITY_OVERRIDE_FOR_PLAYER");
    reveal_strlit("NETWORK_SET_VOICE_PROXIMITY_OVERRIDE_FOR_PLAYER");
    reveal_strlit("PERFORM_HTTP_REQUEST_INTERNAL");
    reveal_strlit("PERFORM_HTTP_REQUEST_INTERNAL_EX");
    reveal_strlit("PRINT_STRUCTURED_TRACE");
    reveal_strlit("PROFILER_ENTER_SCOPE");
    reveal_strlit("PROFILER_EXIT_SCOPE");
    reveal_strlit("PROFILER_IS_RECORDING");
}

proof fn lemma_numbers_8()
    ensures
        name_number("REGISTER_CONSOLE_LISTENER"@) == 40935268488325,
        name_number("REGISTER_RESOURCE_ASSET"@) == 40945334817523,
        name_number("REGISTER_RESOURCE_AS_EVENT_HANDLER"@) == 40945334817534,
        name_number("REGISTER_RESOURCE_BUILD_TASK_FACTORY"@) == 40945334817536,
        name_number("REMOVE_CONVAR_CHANGE_LISTENER"@) == 34090165025829,
        name_number("REMOVE_STATE_BAG_CHANGE_HANDLER"@) == 36188994748731,
        name_number("REQUEST_PLAYER_COMMERCE_SESSION"@) == 34497851091731,
        name_number("SCAN_RESOURCE_ROOT"@) == 34090170912518,
        name_number("SCHEDULE_RESOURCE_TICK"@) == 40945341550322,
        name_number("SET_ENTITY_COORDS"@) == 36210811399917,
        name_number("SET_ENTITY_HEADING"@) == 36187323296518,
        name_number("SET_ENTITY_HEALTH"@) == 36187323296517,
        name_number("SET_ENTITY_ROUTING_BUCKET"@) == 36220877729525,
        name_number("SET_GAME_TYPE"@) == 40802735238913,
        name_number("SET_HTTP_HANDLER"@) == 40930242259616,
        name_number("SET_MAP_NAME"@) == 33501290905612,
        name_number("SET_PLAYER_ROUTING_BUCKET"@) == 29778426299125,
        name_number("SET_RESOURCE_KVP"@) == 36633597219116,
        name_number("SET_RESOURCE_KVP_FLOAT"@) == 36633597219122,
        name_number("SET_RESOURCE_KVP_FLOAT_NO_SYNC"@) == 36633597219130,
{
    reveal_strlit("REGISTER_CONSOLE_LISTENER");
    reveal_strlit("REGISTER_RESOURCE_ASSET");
    reveal_strlit("REGISTER_RESOURCE_AS_EVENT_HANDLER");
    reveal_strlit("REGISTER_RESOURCE_BUILD_TASK_FACTORY");
    reveal_strlit("REMOVE_CONVAR_CHANGE_LISTENER");
    reveal_strlit("REMOVE_STATE_BAG_CHANGE_HANDLER");
    reveal_strlit("REQUEST_PLAYER_COMMERCE_SESSION");
    reveal_strlit("SCAN_RESOURCE_ROOT");
    reveal_strlit("SCHEDULE_RESOURCE_TICK");
    reveal_strlit("SET_ENTITY_COORDS");
    reveal_strlit("SET_ENTITY_HEADING");
    reveal_strlit("SET_ENTITY_HEALTH");
    reveal_strlit("SET_ENTITY_ROUTING_BUCKET");
    reveal_strlit("SET_GAME_TYPE");
    reveal_strlit("SET_HTTP_HANDLER");
    reveal_strlit("SET_MAP_NAME");
    reveal_strlit("SET_PLAYER_ROUTING_BUCKET");
    reveal_strlit("SET_RESOURCE_KVP");
    reveal_strlit("SET_RESOURCE_KVP_FLOAT");
    reveal_strlit("SET_RESOURCE_KVP_FLOAT_NO_SYNC");
}

proof fn lemma_numbers_9()
    ensures
        name_number("SET_RESOURCE_KVP_INT"@) == 36633597219120,
        name_number("SET_RESOURCE_KVP_INT_NO_SYNC"@) == 36633597219128,
        name_number("SET_RESOURCE_KVP_NO_SYNC"@) == 36633597219124,
        name_number("SET_ROUTING_BUCKET_ENTITY_LOCKDOWN_MODE"@) == 31496413728239,
        name_number("SET_ROUTING_BUCKET_POPULATION_ENABLED"@) == 31496413728237,
        name_number("SET_STATE_BAG_VALUE"@) == 29795203514319,
        name_number("START_RESOURCE"@) == 35764537401914,
        name_number("STATE_BAG_HAS_KEY"@) == 30654197000317,
        name_number("STOP_RESOURCE"@) == 33930787360513,
        name_number("TEMP_BAN_PLAYER"@) == 40918504277715,
        name_number("TRIGGER_CLIENT_EVENT_INTERNAL"@) == 28917762107029,
        name_number("TRIGGER_EVENT_INTERNAL"@) == 29795210504422,
        name_number("TRIGGER_LATENT_CLIENT_EVENT_INTERNAL"@) == 32783232673436,
        name_number("VERIFY_PASSWORD_HASH"@) == 28055426644720,
        name_number("WAS_EVENT_CANCELED"@) == 36190704571018,
{
    reveal_strlit("SET_RESOURCE_KVP_INT");
    reveal_strlit("SET_RESOURCE_KVP_INT_NO_SYNC");
    reveal_strlit("SET_RESOURCE_KVP_NO_SYNC");
    reveal_strlit("SET_ROUTING_BUCKET_ENTITY_LOCKDOWN_MODE");
    reveal_strlit("SET_ROUTING_BUCKET_POPULATION_ENABLED");
    reveal_strlit("SET_STATE_BAG_VALUE");
    reveal_strlit("START_RESOURCE");
    reveal_strlit("STATE_BAG_HAS_KEY");
    reveal_strlit("STOP_RESOURCE");
    reveal_strlit("TEMP_BAN_PLAYER");
    reveal_strlit("TRIGGER_CLIENT_EVENT_INTERNAL");
    reveal_strlit("TRIGGER_EVENT_INTERNAL");
    reveal_strlit("TRIGGER_LATENT_CLIENT_EVENT_INTERNAL");
    reveal_strlit("VERIFY_PASSWORD_HASH");
    reveal_strlit("WAS_EVENT_CANCELED");
}

/// The numbers of all the names: no two are the same.
pub proof fn lemma_names_differ()
    ensures
        name_number("ADD_CONVAR_CHANGE_LISTENER"@) == 28026767316026,
        name_number("ADD_STATE_BAG_CHANGE_HANDLER"@) == 29795085549528,
        name_number("CANCEL_EVENT"@) == 36937160268812,
        name_number("CAN_PLAYER_START_COMMERCE_SESSION"@) == 29744767010033,
        name_number("CREATE_OBJECT"@) == 28347225685213,
        name_number("CREATE_OBJECT_NO_OFFSET"@) == 28506609237223,
        name_number("CREATE_PED"@) == 29635715865610,
        name_number("CREATE_PED_INSIDE_VEHICLE"@) == 29774966766225,
        name_number("CREATE_VEHICLE"@) == 29751478663614,
        name_number("CREATE_VEHICLE_SERVER_SETTER"@) == 29751478663628,
        name_number("DELETE_ENTITY"@) == 33501192994513,
        name_number("DELETE_FUNCTION_REFERENCE"@) == 36640210106525,
        name_number("DELETE_RESOURCE_KVP"@) == 29748129774619,
        name_number("DELETE_RESOURCE_KVP_NO_SYNC"@) == 29748129774627,
        name_number("DELETE_TRAIN"@) == 35219179904012,
        name_number("DOES_ENTITY_EXIST"@) == 31501348410117,
        name_number("DOES_PLAYER_OWN_SKU"@) == 38371618311919,
        name_number("DOES_PLAYER_OWN_SKU_EXT"@) == 38371618311923,
        name_number("DROP_PLAYER"@) == 38225656524811,
        name_number("DUPLICATE_FUNCTION_REFERENCE"@) == 29748129006228,
        name_number("ENABLE_ENHANCED_HOST_SUPPORT"@) == 33616962336328,
        name_number("END_FIND_KVP"@) == 40802643507212,
        name_number("ENSURE_ENTITY_STATE_BAG"@) == 33660583100123,
        name_number("EXECUTE_COMMAND"@) == 28907597139315,
        name_number("FIND_KVP"@) == 460953608,
        name_number("FLAG_SERVER_AS_PRIVATE"@) == 37076430163322,
        name_number("FLUSH_RESOURCE_KVP"@) == 35764452205118,
        name_number("FORMAT_STACK_TRACE"@) == 36219115094318,
        name_number("GET_ALL_OBJECTS"@) == 34071637510715,
        name_number("GET_ALL_PEDS"@) == 34360205619212,
        name_number("GET_ALL_VEHICLES"@) == 37064692845116,
        name_number("GET_CONSOLE_BUFFER"@) == 34073315283418,
        name_number("GET_CURRENT_PED_WEAPON"@) == 29751504545622,
        name_number("GET_ENTITIES_IN_RADIUS"@) == 36200666428722,
        name_number("GET_ENTITY_ATTACHED_TO"@) == 36219121365222,
        name_number("GET_ENTITY_COORDS"@) == 36210732756717,
        name_number("GET_ENTITY_FROM_STATE_BAG_NAME"@) == 36210732757030,
        name_number("GET_ENTITY_HEADING"@) == 36187244653318,
        name_number("GET_ENTITY_HEALTH"@) == 36187244653317,
        name_number("GET_ENTITY_MAX_HEALTH"@) == 36225832249721,
        name_number("GET_ENTITY_MODEL"@) == 36192277819116,
        name_number("GET_ENTITY_ROTATION"@) == 36219121364719,
        name_number("GET_ENTITY_ROUTING_BUCKET"@) == 36220799086325,
        name_number("GET_ENTITY_SCRIPT"@) == 36215765920317,
        name_number("GET_ENTITY_SPEED"@) == 36193955540816,
        name_number("GET_ENTITY_TYPE"@) == 36212410479315,
        name_number("GET_ENTITY_VELOCITY"@) == 36205699590919,
        name_number("GET_GAME_BUILD_NUMBER"@) == 40916741665221,
        name_number("GET_GAME_NAME"@) == 40802656595713,
        name_number("GET_GAME_POOL"@) == 40802656596413,
        name_number("GET_HASH_KEY"@) == 40802656742412,
        name_number("GET_HOST_ID"@) == 40802656742411,
        name_number("GET_INSTANCE_ID"@) == 28040228540715,
        name_number("GET_INVOKING_RESOURCE"@) == 32350295407921,
        name_number("GET_IS_VEHICLE_ENGINE_RUNNING"@) == 29751504878029,
        name_number("GET_IS_VEHICLE_PRIMARY_COLOUR_CUSTOM"@) == 29751504878036,
        name_number("GET_IS_VEHICLE_SECONDARY_COLOUR_CUSTOM"@) == 29751504878038,
        name_number("GET_LAST_PED_IN_VEHICLE_SEAT"@) == 40925130428728,
        name_number("GET_MOUNT"@) == 36078192768009,
        name_number("GET_NUM_PLAYER_INDICES"@) == 34497778822922,
        name_number("GET_PASSWORD_HASH"@) == 37487478870317,
        name_number("GET_PED_ARMOUR"@) == 28055327650114,
        name_number("GET_PED_CAUSE_OF_DEATH"@) == 28936131488522,
        name_number("GET_PED_DESIRED_HEADING"@) == 29322007457823,
        name_number("GET_PED_IN_VEHICLE_SEAT"@) == 31474524269323,
        name_number("GET_PED_MAX_HEALTH"@) == 33187478023218,
        name_number("GET_PED_RELATIONSHIP_GROUP_HASH"@) == 35341672558831,
        name_number("GET_PED_SCRIPT_TASK_COMMAND"@) == 35789624225627,
        name_number("GET_PED_SCRIPT_TASK_STAGE"@) == 35789624225625,
        name_number("GET_PED_SOURCE_OF_DAMAGE"@) == 35764458400324,
        name_number("GET_PED_SOURCE_OF_DEATH"@) == 35764458400323,
        name_number("GET_PED_SPECIFIC_TASK_TYPE"@) == 35766136122526,
        name_number("GET_PED_STEALTH_MOVEMENT"@) == 35789624225224,
        name_number("GET_PLAYER_FROM_STATE_BAG_NAME"@) == 29768281326630,
        name_number("GET_PLAYER_INVINCIBLE"@) == 29780025377421,
        name_number("GET_PLAYER_LAST_MSG"@) == 29774992211319,
        name_number("GET_PLAYER_PED"@) == 29749826387714,
        name_number("GET_PLAYER_ROUTING_BUCKET"@) == 29778347655925,
        name_number("GET_PLAYER_TIME_IN_PURSUIT"@) == 29764925882526,
        name_number("GET_PLAYER_WANTED_LEVEL"@) == 29766603603323,
        name_number("GET_REGISTERED_COMMANDS"@) == 35762780755723,
        name_number("GET_RESOURCE_COMMANDS"@) == 36620096803121,
        name_number("GET_RESOURCE_KVP_FLOAT"@) == 36633518575922,
        name_number("GET_RESOURCE_KVP_INT"@) == 36633518575920,
        name_number("GET_RESOURCE_KVP_STRING"@) == 36633518575923,
        name_number("GET_SEAT_PED_IS_USING"@) == 40925129967921,
        name_number("GET_SELECTED_PED_WEAPON"@) == 28910965871923,
        name_number("GET_STATE_BAG_KEYS"@) == 29795124871118,
        name_number("GET_STATE_BAG_VALUE"@) == 29795124871119,
        name_number("GET_VEHICLE_BODY_HEALTH"@) == 28909288045023,
        name_number("GET_VEHICLE_COLOURS"@) == 28909288045119,
        name_number("GET_VEHICLE_CUSTOM_PRIMARY_COLOUR"@) == 28919354374733,
        name_number("GET_VEHICLE_CUSTOM_SECONDARY_COLOUR"@) == 28919354374735,
        name_number("GET_VEHICLE_DASHBOARD_COLOUR"@) == 28885799942828,
        name_number("GET_VEHICLE_DIRT_LEVEL"@) == 28899221715622,
        name_number("GET_VEHICLE_DOORS_LOCKED_FOR_PLAYER"@) == 28909288045235,
        name_number("GET_VEHICLE_DOOR_LOCK_STATUS"@) == 28909288045228,
        name_number("GET_VEHICLE_DOOR_STATUS"@) == 28909288045223,
        name_number("GET_VEHICLE_ENGINE_HEALTH"@) == 28907610323725,
        name_number("GET_VEHICLE_EXTRA_COLOURS"@) == 28924387539725,
        name_number("GET_VEHICLE_HEADLIGHTS_COLOUR"@) == 28892510829629,
        name_number("GET_VEHICLE_HORN_TYPE"@) == 28909288045621,
        name_number("GET_VEHICLE_INTERIOR_COLOUR"@) == 28907610324127,
        name_number("GET_VEHICLE_LIGHTS_STATE"@) == 28899221716424,
        name_number("GET_VEHICLE_LIVERY"@) == 28899221716418,
        name_number("GET_VEHICLE_NEON_COLOUR"@) == 28892510830223,
        name_number("GET_VEHICLE_NEON_ENABLED"@) == 28892510830224,
        name_number("GET_VEHICLE_NUMBER_PLATE_TEXT"@) == 28919354375829,
        name_number("GET_VEHICLE_NUMBER_PLATE_TEXT_INDEX"@) == 28919354375835,
        name_number("GET_VEHICLE_PED_IS_IN"@) == 28892510830421,
        name_number("GET_VEHICLE_PETROL_TANK_HEALTH"@) == 28892510830430,
        name_number("GET_VEHICLE_RADIO_STATION_INDEX"@) == 28885799944231,
        name_number("GET_VEHICLE_ROOF_LIVERY"@) == 28909288046623,
        name_number("GET_VEHICLE_TOTAL_REPAIRS"@) == 28909288046825,
        name_number("GET_VEHICLE_TYRE_SMOKE_COLOR"@) == 28926065262828,
        name_number("GET_VEHICLE_WHEEL_TYPE"@) == 28897543995922,
        name_number("GET_VEHICLE_WINDOW_TINT"@) == 28899221717523,
        name_number("HAS_ENTITY_BEEN_MARKED_AS_NO_LONGER_NEEDED"@) == 36193962093342,
        name_number("HAS_VEHICLE_BEEN_DAMAGED_BY_BULLETS"@) == 28892517382635,
        name_number("HAS_VEHICLE_BEEN_OWNED_BY_PLAYER"@) == 28892517382632,
        name_number("IS_ACE_ALLOWED"@) == 32756317370114,
        name_number("IS_DUPLICITY_VERSION"@) == 28921045308720,
        name_number("IS_ENTITY_VISIBLE"@) == 38348162901117,
        name_number("IS_FLASH_LIGHT_ON"@) == 40943598471217,
        name_number("IS_PED_A_PLAYER"@) == 40918432956115,
        name_number("IS_PED_HANDCUFFED"@) == 28035208789317,
        name_number("IS_PED_IN_ANY_VEHICLE"@) == 33660609314521,
        name_number("IS_PED_IN_VEHICLE"@) == 33623699437617,
        name_number("IS_PED_ON_MOUNT"@) == 33632088046915,
        name_number("IS_PED_RAGDOLL"@) == 28045275118014,
        name_number("IS_PED_STRAFING"@) == 36209068423315,
        name_number("IS_PED_USING_ACTION_MODE"@) == 35757761315124,
        name_number("IS_PLAYER_ACE_ALLOWED"@) == 35378596077321,
        name_number("IS_PLAYER_COMMERCE_INFO_LOADED"@) == 35348397089330,
        name_number("IS_PLAYER_COMMERCE_INFO_LOADED_EXT"@) == 35348397089334,
        name_number("IS_PLAYER_USING_SUPER_JUMP"@) == 35350074810526,
        name_number("IS_PRINCIPAL_ACE_ALLOWED"@) == 31462793583924,
        name_number("IS_VEHICLE_ENGINE_STARTING"@) == 32761349972626,
        name_number("IS_VEHICLE_EXTRA_TURNED_ON"@) == 32783160354426,
        name_number("IS_VEHICLE_SIREN_ON"@) == 32779804909719,
        name_number("IS_VEHICLE_TYRE_BURST"@) == 32779804911321,
        name_number("IS_VEHICLE_WINDOW_INTACT"@) == 32773094023324,
        name_number("LOAD_PLAYER_COMMERCE_DATA"@) == 38358248966725,
        name_number("LOAD_PLAYER_COMMERCE_DATA_EXT"@) == 38358248966729,
        name_number("MUMBLE_CREATE_CHANNEL"@) == 35378622445321,
        name_number("MUMBLE_DOES_CHANNEL_EXIST"@) == 34051544659525,
        name_number("MUMBLE_IS_PLAYER_MUTED"@) == 35798052844922,
        name_number("MUMBLE_SET_PLAYER_MUTED"@) == 29744833313223,
        name_number("NETWORK_CLEAR_VOICE_PROXIMITY_OVERRIDE_FOR_PLAYER"@) == 28936177544249,
        name_number("NETWORK_GET_ENTITY_FROM_NETWORK_ID"@) == 30625643194134,
        name_number("NETWORK_GET_ENTITY_OWNER"@) == 30625643194124,
        name_number("NETWORK_GET_NETWORK_ID_FROM_ENTITY"@) == 30610543700634,
        name_number("NETWORK_GET_VOICE_PROXIMITY_OVERRIDE_FOR_PLAYER"@) == 30627320917447,
        name_number("NETWORK_SET_VOICE_PROXIMITY_OVERRIDE_FOR_PLAYER"@) == 35781281672647,
        name_number("PERFORM_HTTP_REQUEST_INTERNAL"@) == 31061863971129,
        name_number("PERFORM_HTTP_REQUEST_INTERNAL_EX"@) == 31061863971132,
        name_number("PRINT_STRUCTURED_TRACE"@) == 35356831419722,
        name_number("PROFILER_ENTER_SCOPE"@) == 40940288544520,
        name_number("PROFILER_EXIT_SCOPE"@) == 40962098926819,
        name_number("PROFILER_IS_RECORDING"@) == 40918478165021,
        name_number("REGISTER_CONSOLE_LISTENER"@) == 40935268488325,
        name_number("REGISTER_RESOURCE_ASSET"@) == 40945334817523,
        name_number("REGISTER_RESOURCE_AS_EVENT_HANDLER"@) == 40945334817534,
        name_number("REGISTER_RESOURCE_BUILD_TASK_FACTORY"@) == 40945334817536,
        name_number("REMOVE_CONVAR_CHANGE_LISTENER"@) == 34090165025829,
        name_number("REMOVE_STATE_BAG_CHANGE_HANDLER"@) == 36188994748731,
        name_number("REQUEST_PLAYER_COMMERCE_SESSION"@) == 34497851091731,
        name_number("SCAN_RESOURCE_ROOT"@) == 34090170912518,
        name_number("SCHEDULE_RESOURCE_TICK"@) == 40945341550322,
        name_number("SET_ENTITY_COORDS"@) == 36210811399917,
        name_number("SET_ENTITY_HEADING"@) == 36187323296518,
        name_number("SET_ENTITY_HEALTH"@) == 36187323296517,
        name_number("SET_ENTITY_ROUTING_BUCKET"@) == 36220877729525,
        name_number("SET_GAME_TYPE"@) == 40802735238913,
        name_number("SET_HTTP_HANDLER"@) == 40930242259616,
        name_number("SET_MAP_NAME"@) == 33501290905612,
        name_number("SET_PLAYER_ROUTING_BUCKET"@) == 29778426299125,
        name_number("SET_RESOURCE_KVP"@) == 36633597219116,
        name_number("SET_RESOURCE_KVP_FLOAT"@) == 36633597219122,
        name_number("SET_RESOURCE_KVP_FLOAT_NO_SYNC"@) == 36633597219130,
        name_number("SET_RESOURCE_KVP_INT"@) == 36633597219120,
        name_number("SET_RESOURCE_KVP_INT_NO_SYNC"@) == 36633597219128,
        name_number("SET_RESOURCE_KVP_NO_SYNC"@) == 36633597219124,
        name_number("SET_ROUTING_BUCKET_ENTITY_LOCKDOWN_MODE"@) == 31496413728239,
        name_number("SET_ROUTING_BUCKET_POPULATION_ENABLED"@) == 31496413728237,
        name_number("SET_STATE_BAG_VALUE"@) == 29795203514319,
        name_number("START_RESOURCE"@) == 35764537401914,
        name_number("STATE_BAG_HAS_KEY"@) == 30654197000317,
        name_number("STOP_RESOURCE"@) == 33930787360513,
        name_number("TEMP_BAN_PLAYER"@) == 40918504277715,
        name_number("TRIGGER_CLIENT_EVENT_INTERNAL"@) == 28917762107029,
        name_number("TRIGGER_EVENT_INTERNAL"@) == 29795210504422,
        name_number("TRIGGER_LATENT_CLIENT_EVENT_INTERNAL"@) == 32783232673436,
        name_number("VERIFY_PASSWORD_HASH"@) == 28055426644720,
        name_number("WAS_EVENT_CANCELED"@) == 36190704571018,
{
    lemma_numbers_0();
    lemma_numbers_1();
    lemma_numbers_2();
    lemma_numbers_3();
    lemma_numbers_4();
    lemma_numbers_5();
    lemma_numbers_6();
    lemma_numbers_7();
    lemma_numbers_8();
    lemma_numbers_9();
}

} // verus!
