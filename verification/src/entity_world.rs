//! Script-visible view of the authoritative networked world.
//!
//! The authority publishes a read-optimised mirror here once per sync tick, and the
//! natives read it. The mirror is at most one tick stale.
//!
//! ## Handles are network ids
//!
//! A script handle *is* the OneSync object id: the only entity identity that the server
//! and every client already agree on. No handle translation table exists, and none is
//! needed.
//!
//! Coordinates, headings and the like are held as the decimal texts in which scripts
//! get to see them.
use crate::dash::{
    dash_clear, dash_get, dash_insert, dash_new, held, ids_held, small,
};
use crate::ordered::{lists, listing_of, lemma_is_listing};
use crate::slots::SlotMap;
use dashmap::DashMap;
use vstd::prelude::*;

verus! {

/// Entity classes as reported by `GET_ENTITY_TYPE`.
#[derive(Debug, Clone, Copy, PartialEq, Eq, Structural)]
pub enum ScriptEntityType {
    Ped,
    Vehicle,
    Object,
}

/// The number of an entity class.
pub open spec fn type_number(entity_type: ScriptEntityType) -> u8 {
    match entity_type {
        ScriptEntityType::Ped => 1,
        ScriptEntityType::Vehicle => 2,
        ScriptEntityType::Object => 3,
    }
}

impl ScriptEntityType {
    /// The integer `GET_ENTITY_TYPE` returns.
    pub fn as_native(self) -> (n: u8)
        ensures
            n == type_number(self),
    {
        match self {
            ScriptEntityType::Ped => 1,
            ScriptEntityType::Vehicle => 2,
            ScriptEntityType::Object => 3,
        }
    }
}

/// What a vehicle is doing.
#[derive(Debug, Clone, PartialEq, Eq)]
pub struct VehicleGameState {
    pub engine_on: bool,
    pub engine_starting: bool,
    pub siren_on: bool,
    pub lock_status: u8,
    pub has_lock: bool,
    /// A mask of the players the doors are locked for; `-1` is everyone.
    pub locked_players: i32,
    pub doors_open: u8,
    pub door_positions: Vec<u8>,
    pub lights_on: bool,
    pub highbeams_on: bool,
    pub default_headlights: bool,
    pub headlights_colour: u8,
    pub radio_station: u8,
    pub has_been_owned_by_player: bool,
}

/// How worn a vehicle is.
#[derive(Debug, Clone, PartialEq, Eq)]
pub struct VehicleHealth {
    pub body_health: i32,
    pub engine_health: i32,
    pub petrol_tank_health: i32,
    pub total_repairs: u8,
    pub tyres_fine: bool,
    /// Per tyre: 1 is burst but still there, 2 is running on the rim.
    pub tyre_status: Vec<u8>,
}

/// What a vehicle looks like.
#[derive(Debug, Clone, PartialEq, Eq)]
pub struct VehicleAppearance {
    pub primary_colour: u8,
    pub secondary_colour: u8,
    pub pearl_colour: u8,
    pub wheel_colour: u8,
    pub interior_colour: u8,
    pub dashboard_colour: u8,
    pub is_primary_colour_rgb: bool,
    pub is_secondary_colour_rgb: bool,
    pub primary_rgb: [u8; 3],
    pub secondary_rgb: [u8; 3],
    pub dirt_level: u8,
    pub livery_index: i16,
    pub roof_livery_index: i16,
    pub wheel_type: u8,
    pub window_tint_index: u8,
    pub tyre_smoke_colour: [u8; 3],
    pub plate_text: String,
    pub number_plate_text_index: u32,
    pub horn_type_hash: u32,
    pub has_neon_lights: bool,
    pub neon_colour: [u8; 3],
    /// Left, right, front, back.
    pub neon_sides: Vec<bool>,
    /// A set bit turns the extra off.
    pub extras: u16,
}

/// What has been broken of a vehicle.
#[derive(Debug, Clone, PartialEq, Eq)]
pub struct VehicleDamage {
    pub damaged_by_bullets: bool,
    pub any_window_broken: bool,
    pub windows_broken: Vec<bool>,
}

/// What a ped is doing.
#[derive(Debug, Clone, Copy, PartialEq, Eq)]
pub struct PedGameState {
    /// The vehicle the ped is in; negative where it is in none.
    pub cur_vehicle: i32,
    /// The raw seat index in that vehicle.
    pub cur_vehicle_seat: i32,
    pub cur_weapon: u32,
    pub is_handcuffed: bool,
    pub is_flashlight_on: bool,
    pub action_mode_enabled: bool,
    pub stealth_mode_enabled: bool,
}

/// How a ped moves.
#[derive(Debug, Clone, Copy, PartialEq, Eq)]
pub struct PedMovement {
    pub is_stealthy: bool,
    pub is_strafing: bool,
    pub is_ragdolling: bool,
}

/// What a ped has been told to do.
#[derive(Debug, Clone, PartialEq, Eq)]
pub struct PedTasks {
    /// The hash of the script task.
    pub script_command: u32,
    pub script_task_stage: u32,
    /// The task in each slot.
    pub task_types: Vec<u32>,
}

/// Sync-tree state beyond position, health and model: everything the vehicle and ped
/// natives read.
#[derive(Debug, Clone, PartialEq, Eq)]
pub struct EntitySyncState {
    pub vehicle_game_state: Option<VehicleGameState>,
    pub vehicle_health: Option<VehicleHealth>,
    pub vehicle_appearance: Option<VehicleAppearance>,
    pub vehicle_damage: Option<VehicleDamage>,
    pub ped_game_state: Option<PedGameState>,
    /// Object id of the last vehicle a ped occupied.
    pub last_vehicle: Option<u16>,
    /// Raw seat index that went with `last_vehicle`.
    pub last_vehicle_seat: Option<i32>,
    pub ped_movement: Option<PedMovement>,
    pub ped_tasks: Option<PedTasks>,
    /// The weapon a ped was killed with.
    pub cause_of_death: Option<u32>,
    /// The entity that last harmed a ped.
    pub source_of_damage: Option<u16>,
    pub relationship_group: Option<u32>,
    pub is_visible: Option<bool>,
    /// The entity this one hangs on.
    pub attached_to: Option<u32>,
    /// The hash of the resource that created the entity.
    pub script_hash: Option<u32>,
}

impl Default for EntitySyncState {
    fn default() -> (sync: Self)
        ensures
            sync == (EntitySyncState {
                vehicle_game_state: None,
                vehicle_health: None,
                vehicle_appearance: None,
                vehicle_damage: None,
                ped_game_state: None,
                last_vehicle: None,
                last_vehicle_seat: None,
                ped_movement: None,
                ped_tasks: None,
                cause_of_death: None,
                source_of_damage: None,
                relationship_group: None,
                is_visible: None,
                attached_to: None,
                script_hash: None,
            }),
    {
        EntitySyncState {
            vehicle_game_state: None,
            vehicle_health: None,
            vehicle_appearance: None,
            vehicle_damage: None,
            ped_game_state: None,
            last_vehicle: None,
            last_vehicle_seat: None,
            ped_movement: None,
            ped_tasks: None,
            cause_of_death: None,
            source_of_damage: None,
            relationship_group: None,
            is_visible: None,
            attached_to: None,
            script_hash: None,
        }
    }
}

/// What the mirror knows about one networked entity.
///
/// Deliberately narrow: it holds what the server can derive from decoded sync trees. A
/// missing reading is `None`: natives say so rather than substituting a plausible
/// number.
#[derive(Debug, Clone, PartialEq, Eq)]
pub struct EntitySummary {
    /// Network id, which is also the script handle.
    pub network_id: u32,
    /// Net id of the client that owns (and therefore simulates) the entity.
    pub owner: u32,
    pub entity_type: ScriptEntityType,
    pub position: [String; 3],
    pub velocity: [String; 3],
    /// The length of the velocity.
    pub speed: String,
    pub routing_bucket: u32,
    pub health: Option<String>,
    /// Whether a reading of the health says that there is none left.
    pub dead: bool,
    pub max_health: Option<String>,
    pub armour: Option<String>,
    /// Model hash, once a creation node has been seen.
    pub model: Option<u32>,
    /// Heading in degrees.
    pub heading: Option<String>,
    /// The heading a ped turns to, in degrees.
    pub desired_heading: Option<String>,
    /// The richer per-type state the sync tree carries.
    pub sync: EntitySyncState,
}

/// Seat indices on the wire are offset by two from the ones scripts use, so that
/// "entering" (-2) and "no seat" (-1) fit an unsigned field. `-1` is the driver's seat
/// in script terms.
pub const SEAT_INDEX_BIAS: i32 = 2;

/// The mirror's content.
pub struct WorldModel {
    pub entities: Map<u32, EntitySummary>,
    /// Player net id to the ped entity it owns.
    pub player_peds: Map<u32, u32>,
    /// Seat to the ped sitting there right now.
    pub occupants: Map<u64, u32>,
    /// Seat to the last ped that used it.
    pub last_occupants: Map<u64, u32>,
    pub revision: u64,
}

/// The key of a vehicle's seat, by its raw index.
pub open spec fn seat_number(vehicle: u32, raw_seat: int) -> Option<u64> {
    if 0 <= raw_seat <= 255 {
        Some((vehicle * 256 + raw_seat) as u64)
    } else {
        None
    }
}

/// No two seats share a key.
pub proof fn seats_have_keys_of_their_own(vehicle: u32, seat: int, other: u32, other_seat: int)
    requires
        seat_number(vehicle, seat) is Some,
        seat_number(vehicle, seat) == seat_number(other, other_seat),
    ensures
        vehicle == other,
        seat == other_seat,
{
}

/// The entities of a publication, the later one of two with the same id.
pub open spec fn published(list: Seq<EntitySummary>) -> Map<u32, EntitySummary>
    decreases list.len(),
{
    if list.len() == 0 {
        Map::empty()
    } else {
        published(list.drop_last()).insert(list.last().network_id, list.last())
    }
}

/// The peds of a publication by their owners. A client owns exactly one player ped; of
/// several, the last one counts.
pub open spec fn peds_of(list: Seq<EntitySummary>) -> Map<u32, u32>
    decreases list.len(),
{
    if list.len() == 0 {
        Map::empty()
    } else if list.last().entity_type == ScriptEntityType::Ped {
        peds_of(list.drop_last()).insert(list.last().owner, list.last().network_id)
    } else {
        peds_of(list.drop_last())
    }
}

/// The seat an entity is in, where it is a ped and in one.
pub open spec fn seat_taken(entity: EntitySummary) -> Option<u64> {
    match entity.sync.ped_game_state {
        Some(state) => if entity.entity_type == ScriptEntityType::Ped && state.cur_vehicle >= 0 {
            seat_number(state.cur_vehicle as u32, state.cur_vehicle_seat as int)
        } else {
            None
        },
        None => None,
    }
}

/// The seat an entity was in last, where it is a ped and reports one.
pub open spec fn seat_left(entity: EntitySummary) -> Option<u64> {
    match (entity.sync.last_vehicle, entity.sync.last_vehicle_seat) {
        (Some(vehicle), Some(seat)) => if entity.entity_type == ScriptEntityType::Ped {
            seat_number(vehicle as u32, seat as int)
        } else {
            None
        },
        _ => None,
    }
}

/// Who sits where.
pub open spec fn occupants_of(list: Seq<EntitySummary>) -> Map<u64, u32>
    decreases list.len(),
{
    if list.len() == 0 {
        Map::empty()
    } else {
        match seat_taken(list.last()) {
            Some(key) => occupants_of(list.drop_last()).insert(key, list.last().network_id),
            None => occupants_of(list.drop_last()),
        }
    }
}

/// Who sat where last: whoever is in a seat, and else the first to report having left
/// it, as long as nobody is known to have used it.
pub open spec fn last_after(last: Map<u64, u32>, entity: EntitySummary) -> Map<u64, u32> {
    let now = match seat_taken(entity) {
        Some(key) => last.insert(key, entity.network_id),
        None => last,
    };
    match seat_left(entity) {
        Some(key) => if now.contains_key(key) {
            now
        } else {
            now.insert(key, entity.network_id)
        },
        None => now,
    }
}

pub open spec fn last_occupants_of(last: Map<u64, u32>, list: Seq<EntitySummary>) -> Map<u64, u32>
    decreases list.len(),
{
    if list.len() == 0 {
        last
    } else {
        last_after(last_occupants_of(last, list.drop_last()), list.last())
    }
}

/// The mirror after a publication.
pub open spec fn after_publish(m: WorldModel, list: Seq<EntitySummary>) -> WorldModel {
    WorldModel {
        entities: published(list),
        player_peds: peds_of(list),
        occupants: occupants_of(list),
        last_occupants: last_occupants_of(m.last_occupants, list),
        revision: crate::routing::bumped(m.revision),
    }
}

/// The ids of one class, ascending.
pub open spec fn of_type(entities: Map<u32, EntitySummary>, entity_type: ScriptEntityType) -> Set<
    u32,
> {
    Set::new(|id: u32| entities.contains_key(id) && entities[id].entity_type == entity_type)
}

/// What a map holds under a key.
pub open spec fn found<K, V>(map: Map<K, V>, key: K) -> Option<V> {
    if map.contains_key(key) {
        Some(map[key])
    } else {
        None
    }
}

/// The key of a seat as scripts address it (`-1` is the driver).
pub open spec fn script_seat_number(vehicle: u32, script_seat: i32) -> Option<u64> {
    seat_number(vehicle, script_seat + SEAT_INDEX_BIAS)
}

/// Who is known in a seat.
pub open spec fn sitting(seats: Map<u64, u32>, vehicle: u32, script_seat: i32) -> Option<u32> {
    match script_seat_number(vehicle, script_seat) {
        Some(key) => found(seats, key),
        None => None,
    }
}

fn seat_key(vehicle: u32, raw_seat: i64) -> (key: Option<u64>)
    ensures
        key == seat_number(vehicle, raw_seat as int),
{
    if 0 <= raw_seat && raw_seat <= 255 {
        Some(vehicle as u64 * 256 + raw_seat as u64)
    } else {
        None
    }
}

/// The ids that a map of numbers holds under seat keys.
spec fn seats_held(map: Map<u64, u64>) -> Map<u64, u32> {
    Map::new(|key: u64| map.contains_key(key), |key: u64| map[key] as u32)
}

/// Mirror of the networked world, shared by the script host.
pub struct EntityWorldView {
    entities: SlotMap<EntitySummary>,
    player_peds: DashMap<u64, u64>,
    /// Peds carry their vehicle, not the reverse, so answering
    /// `GET_PED_IN_VEHICLE_SEAT` from the summaries alone would mean scanning every ped
    /// per call. The index is rebuilt with each publication instead.
    occupants: DashMap<u64, u64>,
    last_occupants: DashMap<u64, u64>,
    revision: u64,
}

impl View for EntityWorldView {
    type V = WorldModel;

    closed spec fn view(&self) -> WorldModel {
        WorldModel {
            entities: self.entities@,
            player_peds: ids_held(held(self.player_peds)),
            occupants: seats_held(held(self.occupants)),
            last_occupants: seats_held(held(self.last_occupants)),
            revision: self.revision,
        }
    }
}

impl EntityWorldView {
    pub closed spec fn wf(&self) -> bool {
        &&& self.entities.wf()
        &&& small(held(self.player_peds))
        &&& small(held(self.occupants))
        &&& small(held(self.last_occupants))
        &&& forall|id: u32| #[trigger]
            self.entities@.contains_key(id) ==> self.entities@[id].network_id == id
    }

    pub fn new() -> (view: Self)
        ensures
            view.wf(),
            view@ == (WorldModel {
                entities: Map::empty(),
                player_peds: Map::empty(),
                occupants: Map::empty(),
                last_occupants: Map::empty(),
                revision: 0,
            }),
    {
        let view = EntityWorldView {
            entities: SlotMap::new(),
            player_peds: dash_new(),
            occupants: dash_new(),
            last_occupants: dash_new(),
            revision: 0,
        };
        assert(view@.player_peds =~= Map::empty());
        assert(view@.occupants =~= Map::empty());
        assert(view@.last_occupants =~= Map::empty());
        view
    }

    /// Replace the mirror's contents with the authority's current world.
    ///
    /// A despawned entity stops existing for scripts within one tick. A seat's last
    /// occupant outlives the ped leaving it.
    pub fn publish(&mut self, entities: Vec<EntitySummary>)
        requires
            old(self).wf(),
        ensures
            final(self).wf(),
            final(self)@ == after_publish(old(self)@, entities@),
    {
        self.revision = if self.revision == u64::MAX {
            0
        } else {
            self.revision + 1
        };
        self.entities.clear();
        dash_clear(&mut self.player_peds);
        dash_clear(&mut self.occupants);
        let ghost list = entities@;
        let ghost start = *self;
        let ghost last = old(self)@.last_occupants;
        let mut rest = entities;
        // The list is handed over from its end; turn it round first.
        let mut todo: Vec<EntitySummary> = Vec::new();
        while rest.len() > 0
            invariant
                rest@.len() + todo@.len() == list.len(),
                rest@ == list.take(rest@.len() as int),
                forall|i: int| 0 <= i < todo@.len() ==> #[trigger] todo@[i] == list[list.len() - 1
                    - i],
            decreases rest@.len(),
        {
            let ghost before = rest@;
            if let Some(summary) = rest.pop() {
                todo.push(summary);
                assert(rest@ =~= list.take(rest@.len() as int));
            }
        }
        let ghost mut done: int = 0;
        proof {
            assert(list.take(0) =~= Seq::empty());
            assert(self@.player_peds =~= Map::empty());
            assert(self@.occupants =~= Map::empty());
            assert(self@.last_occupants =~= last);
        }
        while todo.len() > 0
            invariant
                0 <= done <= list.len(),
                todo@.len() == list.len() - done,
                forall|i: int| 0 <= i < todo@.len() ==> #[trigger] todo@[i] == list[list.len() - 1
                    - i],
                self.wf(),
                self.revision == start.revision,
                self@.entities == published(list.take(done)),
                self@.player_peds == peds_of(list.take(done)),
                self@.occupants == occupants_of(list.take(done)),
                self@.last_occupants == last_occupants_of(last, list.take(done)),
            decreases todo@.len(),
        {
            let ghost before = self@;
            assert(todo@[todo@.len() - 1] == list[done]);
            if let Some(summary) = todo.pop() {
                proof {
                    assert(list.take(done + 1).drop_last() =~= list.take(done));
                    assert(list.take(done + 1).last() == summary);
                }
                if summary.entity_type == ScriptEntityType::Ped {
                    dash_insert(
                        &mut self.player_peds,
                        summary.owner as u64,
                        summary.network_id as u64,
                    );
                    assert(self@.player_peds =~= before.player_peds.insert(
                        summary.owner,
                        summary.network_id,
                    ));
                    self.index_occupancy(&summary);
                }
                self.entities.insert(summary.network_id, summary);
                proof {
                    done = done + 1;
                }
            }
        }
        assert(list.take(done) =~= list);
    }

    /// Record where a ped sits, and where it last sat.
    fn index_occupancy(&mut self, ped: &EntitySummary)
        requires
            old(self).wf(),
            ped.entity_type == ScriptEntityType::Ped,
        ensures
            final(self).wf(),
            final(self)@.entities == old(self)@.entities,
            final(self).entities == old(self).entities,
            final(self)@.player_peds == old(self)@.player_peds,
            final(self).revision == old(self).revision,
            final(self)@.occupants == match seat_taken(*ped) {
                Some(key) => old(self)@.occupants.insert(key, ped.network_id),
                None => old(self)@.occupants,
            },
            final(self)@.last_occupants == last_after(old(self)@.last_occupants, *ped),
    {
        let ghost last = self@.last_occupants;
        if let Some(state) = ped.sync.ped_game_state {
            if state.cur_vehicle >= 0 {
                if let Some(key) = seat_key(state.cur_vehicle as u32, state.cur_vehicle_seat as i64) {
                    dash_insert(&mut self.occupants, key, ped.network_id as u64);
                    assert(self@.occupants =~= old(self)@.occupants.insert(key, ped.network_id));
                    // Whoever is in the seat is also the last one to have used it.
                    dash_insert(&mut self.last_occupants, key, ped.network_id as u64);
                    assert(self@.last_occupants =~= last.insert(key, ped.network_id));
                }
            }
        }
        let ghost now = self@.last_occupants;
        if let Some(vehicle) = ped.sync.last_vehicle {
            if let Some(seat) = ped.sync.last_vehicle_seat {
                if let Some(key) = seat_key(vehicle as u32, seat as i64) {
                    if dash_get(&self.last_occupants, key).is_none() {
                        dash_insert(&mut self.last_occupants, key, ped.network_id as u64);
                        assert(self@.last_occupants =~= now.insert(key, ped.network_id));
                    }
                }
            }
        }
    }

    /// The ped in a seat, addressed the way scripts do (`-1` = driver).
    pub fn occupant(&self, vehicle: u32, script_seat: i32) -> (ped: Option<u32>)
        requires
            self.wf(),
        ensures
            ped == sitting(self@.occupants, vehicle, script_seat),
    {
        match seat_key(vehicle, script_seat as i64 + SEAT_INDEX_BIAS as i64) {
            Some(key) => match dash_get(&self.occupants, key) {
                Some(ped) => Some(ped as u32),
                None => None,
            },
            None => None,
        }
    }

    /// The last ped to have used a seat, whether or not it is still there.
    pub fn last_occupant(&self, vehicle: u32, script_seat: i32) -> (ped: Option<u32>)
        requires
            self.wf(),
        ensures
            ped == sitting(self@.last_occupants, vehicle, script_seat),
    {
        match seat_key(vehicle, script_seat as i64 + SEAT_INDEX_BIAS as i64) {
            Some(key) => match dash_get(&self.last_occupants, key) {
                Some(ped) => Some(ped as u32),
                None => None,
            },
            None => None,
        }
    }

    /// Publication counter: lets callers cheaply detect a stale read.
    pub fn revision(&self) -> (revision: u64)
        ensures
            revision == self@.revision,
    {
        self.revision
    }

    pub fn get(&self, network_id: u32) -> (summary: Option<&EntitySummary>)
        requires
            self.wf(),
        ensures
            match summary {
                Some(s) => found(self@.entities, network_id) == Some(*s),
                None => found(self@.entities, network_id) is None,
            },
    {
        self.entities.get(network_id)
    }

    /// Whether the mirror knows the entity.
    pub fn contains(&self, network_id: u32) -> (yes: bool)
        requires
            self.wf(),
        ensures
            yes == self@.entities.contains_key(network_id),
    {
        self.entities.contains(network_id)
    }

    /// The client that owns the entity, or `None` when the entity is unknown.
    ///
    /// This is what `NETWORK_GET_ENTITY_OWNER` answers, and what decides which client a
    /// context-routed native is dispatched to.
    pub fn owner(&self, network_id: u32) -> (owner: Option<u32>)
        requires
            self.wf(),
        ensures
            owner == owner_of(self@, network_id),
    {
        match self.entities.get(network_id) {
            Some(summary) => Some(summary.owner),
            None => None,
        }
    }

    /// The ped entity owned by a player (`GET_PLAYER_PED`).
    pub fn player_ped(&self, player: u32) -> (ped: Option<u32>)
        requires
            self.wf(),
        ensures
            ped == found(self@.player_peds, player),
    {
        match dash_get(&self.player_peds, player as u64) {
            Some(ped) => Some(ped as u32),
            None => None,
        }
    }

    /// Every known handle of one class, ascending. Sorted so repeated calls give scripts
    /// a stable order.
    pub fn ids_of_type(&self, entity_type: ScriptEntityType) -> (ids: Vec<u32>)
        requires
            self.wf(),
        ensures
            ids@ == listing_of(of_type(self@.entities, entity_type)),
            lists(ids@, of_type(self@.entities, entity_type)),
    {
        let all = self.entities.ids();
        let mut ids: Vec<u32> = Vec::new();
        let mut i: usize = 0;
        while i < all.len()
            invariant
                i <= all@.len(),
                self.wf(),
                lists(all@, self@.entities.dom()),
                crate::ordered::ascending(ids@),
                forall|x: u32| #[trigger]
                    ids@.contains(x) <==> all@.take(i as int).contains(x)
                        && self@.entities[x].entity_type == entity_type,
            decreases all@.len() - i,
        {
            let id: u32 = all[i];
            let ghost before = ids@;
            assert(all@.contains(id));
            proof {
                assert(all@.take(i + 1) =~= all@.take(i as int).push(id));
                assert forall|x: u32| #[trigger] all@.take(i + 1).contains(x) <==> all@.take(
                    i as int,
                ).contains(x) || x == id by {
                    lemma_push_contains(all@.take(i as int), id, x);
                }
                assert forall|x: u32| #[trigger] before.contains(x) implies x < id by {
                    let shorter = all@.take(i as int);
                    assert(shorter.contains(x));
                    let j = choose|j: int| 0 <= j < shorter.len() && shorter[j] == x;
                    assert(all@[j] < all@[i as int]);
                }
            }
            if let Some(summary) = self.entities.get(id) {
                if summary.entity_type == entity_type {
                    ids.push(id);
                    proof {
                        assert forall|x: u32| #[trigger] ids@.contains(x) <==> before.contains(x)
                            || x == id by {
                            lemma_push_contains(before, id, x);
                        }
                        assert forall|a: int, b: int| 0 <= a < b < ids@.len() implies ids@[a]
                            < ids@[b] by {
                            if b == ids@.len() - 1 {
                                assert(before.contains(before[a]));
                            }
                        }
                    }
                }
            }
            i = i + 1;
        }
        proof {
            assert(all@.take(i as int) =~= all@);
            assert forall|x: u32| #[trigger] ids@.contains(x) <==> of_type(
                self@.entities,
                entity_type,
            ).contains(x) by {
                assert(all@.contains(x) <==> self@.entities.dom().contains(x));
            }
            lemma_is_listing(ids@, of_type(self@.entities, entity_type));
        }
        ids
    }

    pub fn len(&self) -> (n: usize)
        requires
            self.wf(),
        ensures
            n == self@.entities.len(),
    {
        self.entities.len()
    }

    pub fn is_empty(&self) -> (yes: bool)
        requires
            self.wf(),
        ensures
            yes == (self@.entities.len() == 0),
    {
        self.entities.len() == 0
    }
}

proof fn lemma_push_contains(s: Seq<u32>, a: u32, x: u32)
    ensures
        s.push(a).contains(x) <==> s.contains(x) || x == a,
{
    if s.contains(x) {
        let j = choose|j: int| 0 <= j < s.len() && s[j] == x;
        assert(s.push(a)[j] == x);
    }
    assert(s.push(a)[s.len() as int] == a);
    if s.push(a).contains(x) && x != a {
        let j = choose|j: int| 0 <= j < s.push(a).len() && s.push(a)[j] == x;
        assert(s[j] == x);
    }
}

/// The client that owns an entity.
pub open spec fn owner_of(m: WorldModel, network_id: u32) -> Option<u32> {
    match found(m.entities, network_id) {
        Some(summary) => Some(summary.owner),
        None => None,
    }
}

/// After a publication exactly the published entities exist, under the ids they were
/// published with.
pub proof fn only_the_published_exist(list: Seq<EntitySummary>, id: u32)
    ensures
        published(list).contains_key(id) <==> exists|i: int|
            0 <= i < list.len() && (#[trigger] list[i]).network_id == id,
        published(list).contains_key(id) ==> published(list)[id].network_id == id,
    decreases list.len(),
{
    if list.len() > 0 {
        let shorter = list.drop_last();
        only_the_published_exist(shorter, id);
        if published(shorter).contains_key(id) {
            let i = choose|i: int| 0 <= i < shorter.len() && (#[trigger] shorter[i]).network_id == id;
            assert(list[i].network_id == id);
        }
        if exists|i: int| 0 <= i < list.len() && (#[trigger] list[i]).network_id == id {
            let i = choose|i: int| 0 <= i < list.len() && (#[trigger] list[i]).network_id == id;
            if i < list.len() - 1 {
                assert(shorter[i].network_id == id);
            } else {
                assert(list.last().network_id == id);
            }
        }
        if list.last().network_id == id {
            assert(list[list.len() - 1].network_id == id);
        }
    }
}

/// A publication without an entity of the player leaves the player without a ped.
pub proof fn no_ped_without_publication(list: Seq<EntitySummary>, player: u32)
    requires
        forall|i: int|
            0 <= i < list.len() && (#[trigger] list[i]).entity_type == ScriptEntityType::Ped
                ==> list[i].owner != player,
    ensures
        !peds_of(list).contains_key(player),
    decreases list.len(),
{
    if list.len() > 0 {
        assert forall|i: int|
            0 <= i < list.drop_last().len() && (#[trigger] list.drop_last()[i]).entity_type
                == ScriptEntityType::Ped implies list.drop_last()[i].owner != player by {
            assert(list[i] == list.drop_last()[i]);
        }
        no_ped_without_publication(list.drop_last(), player);
        assert(list.last() == list[list.len() - 1]);
    }
}

/// A seat keeps its last occupant when the ped leaves: as long as nobody else sits down
/// there, a publication leaves it as it was.
pub proof fn a_seat_keeps_its_last_occupant(
    last: Map<u64, u32>,
    list: Seq<EntitySummary>,
    key: u64,
)
    requires
        last.contains_key(key),
        forall|i: int| 0 <= i < list.len() ==> seat_taken(#[trigger] list[i]) != Some(key),
    ensures
        last_occupants_of(last, list).contains_key(key),
        last_occupants_of(last, list)[key] == last[key],
    decreases list.len(),
{
    if list.len() > 0 {
        let shorter = list.drop_last();
        assert forall|i: int| 0 <= i < shorter.len() implies seat_taken(#[trigger] shorter[i])
            != Some(key) by {
            assert(shorter[i] == list[i]);
        }
        a_seat_keeps_its_last_occupant(last, shorter, key);
        assert(list.last() == list[list.len() - 1]);
    }
}

/// A ped that reports a seat is found there, unless a later one of the same publication
/// reports it too; and it is the last that used it.
pub proof fn a_seated_ped_is_found_in_its_seat(
    last: Map<u64, u32>,
    list: Seq<EntitySummary>,
    i: int,
    key: u64,
)
    requires
        0 <= i < list.len(),
        seat_taken(list[i]) == Some(key),
        forall|j: int| i < j < list.len() ==> seat_taken(#[trigger] list[j]) != Some(key),
    ensures
        found(occupants_of(list), key) == Some(list[i].network_id),
        found(last_occupants_of(last, list), key) == Some(list[i].network_id),
    decreases list.len(),
{
    let shorter = list.drop_last();
    if i < list.len() - 1 {
        assert forall|j: int| i < j < shorter.len() implies seat_taken(#[trigger] shorter[j])
            != Some(key) by {
            assert(shorter[j] == list[j]);
        }
        a_seated_ped_is_found_in_its_seat(last, shorter, i, key);
        assert(seat_taken(list[list.len() - 1]) != Some(key));
    }
}

/// Whoever is found in a seat reports to sit there.
pub proof fn an_occupant_sits_there(list: Seq<EntitySummary>, key: u64)
    requires
        occupants_of(list).contains_key(key),
    ensures
        exists|i: int|
            0 <= i < list.len() && seat_taken(#[trigger] list[i]) == Some(key) && list[i].network_id
                == occupants_of(list)[key],
    decreases list.len(),
{
    if list.len() > 0 {
        let shorter = list.drop_last();
        if seat_taken(list.last()) == Some(key) {
            assert(list[list.len() - 1] == list.last());
        } else {
            an_occupant_sits_there(shorter, key);
            let i = choose|i: int|
                0 <= i < shorter.len() && seat_taken(#[trigger] shorter[i]) == Some(key)
                    && shorter[i].network_id == occupants_of(shorter)[key];
            assert(list[i] == shorter[i]);
        }
    }
}

/// What a script asked the authoritative world to do.
///
/// Creation and deletion are mutations of state that lives on the game-state task, so
/// they are queued as commands and applied on its next tick.
#[derive(Debug, Clone, PartialEq, Eq)]
pub enum WorldCommand {
    Spawn {
        network_id: u32,
        entity_type: ScriptEntityType,
        model: u32,
        position: [String; 3],
        /// Heading in degrees.
        heading: String,
        /// Objects only: whether the object simulates physics.
        dynamic: bool,
    },
    Despawn { network_id: u32 },
}

/// Three decimal texts.
#[verifier::ext_equal]
pub struct Point {
    pub x: Seq<char>,
    pub y: Seq<char>,
    pub z: Seq<char>,
}

/// What three texts are.
pub open spec fn point_of(texts: [String; 3]) -> Point {
    Point { x: texts@[0]@, y: texts@[1]@, z: texts@[2]@ }
}

/// What a [`WorldCommand`] asks for.
#[verifier::ext_equal]
pub enum WorldCommandModel {
    Spawn {
        network_id: u32,
        entity_type: ScriptEntityType,
        model: u32,
        position: Point,
        heading: Seq<char>,
        dynamic: bool,
    },
    Despawn { network_id: u32 },
}

impl View for WorldCommand {
    type V = WorldCommandModel;

    open spec fn view(&self) -> WorldCommandModel {
        match self {
            WorldCommand::Spawn { network_id, entity_type, model, position, heading, dynamic } => {
                WorldCommandModel::Spawn {
                    network_id: *network_id,
                    entity_type: *entity_type,
                    model: *model,
                    position: point_of(*position),
                    heading: heading@,
                    dynamic: *dynamic,
                }
            },
            WorldCommand::Despawn { network_id } => WorldCommandModel::Despawn {
                network_id: *network_id,
            },
        }
    }
}

/// What a world was asked to do, oldest first.
pub type WorldCommands = Seq<WorldCommandModel>;

/// The network ids that a world has handed out, oldest first.
pub type ReservedIds = Seq<u32>;

/// Write access to the authoritative world, from the scripting side.
pub trait WorldControl {
    /// What this world has taken up so far.
    spec fn asked(&self) -> WorldCommands;

    /// Whether there is a world that takes anything up.
    spec fn takes(&self) -> bool;

    /// The ids that were reserved so far.
    spec fn handed_out(&self) -> ReservedIds;

    /// Whether there is no id left to reserve.
    spec fn exhausted(&self) -> bool;

    /// Reserve a network id for a server-created entity, or `None` when the id space is
    /// exhausted. Reserved ids are never handed out twice.
    fn reserve_network_id(&mut self) -> (id: Option<u32>)
        ensures
            id is None <==> old(self).exhausted(),
            match id {
                Some(n) => !old(self).handed_out().contains(n) && final(self).handed_out()
                    == old(self).handed_out().push(n),
                None => final(self).handed_out() == old(self).handed_out(),
            },
            final(self).asked() == old(self).asked(),
            final(self).takes() == old(self).takes(),
    ;

    /// Queue a mutation for the authoritative world.
    fn submit(&mut self, command: WorldCommand)
        ensures
            final(self).asked() == if old(self).takes() {
                old(self).asked().push(command@)
            } else {
                old(self).asked()
            },
            final(self).takes() == old(self).takes(),
            final(self).handed_out() == old(self).handed_out(),
    ;
}

/// No authoritative world wired (OneSync off): entity creation is refused rather than
/// silently pretended.
pub struct NoWorldControl;

impl WorldControl for NoWorldControl {
    open spec fn asked(&self) -> WorldCommands {
        Seq::empty()
    }

    open spec fn takes(&self) -> bool {
        false
    }

    open spec fn handed_out(&self) -> ReservedIds {
        Seq::empty()
    }

    open spec fn exhausted(&self) -> bool {
        true
    }

    fn reserve_network_id(&mut self) -> (id: Option<u32>)
        ensures
            id is None,
    {
        None
    }

    fn submit(&mut self, _command: WorldCommand) {
    }
}

} // verus!
