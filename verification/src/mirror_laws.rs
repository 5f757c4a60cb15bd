//! What the mirror of the world holds after a publication.
use crate::entity_world::{
    after_publish, peds_of, published, seat_left, seat_taken, EntitySummary, ScriptEntityType,
    WorldModel,
};
use vstd::prelude::*;

verus! {

/// An entity is mirrored as it was last published, and a publication replaces what was
/// published before.
pub proof fn the_last_publication_counts(list: Seq<EntitySummary>, i: int)
    requires
        0 <= i < list.len(),
        forall|j: int|
            i < j < list.len() ==> (#[trigger] list[j]).network_id != list[i].network_id,
    ensures
        published(list).contains_key(list[i].network_id),
        published(list)[list[i].network_id] == list[i],
    decreases list.len(),
{
    let shorter = list.drop_last();
    if i < shorter.len() {
        assert(list[list.len() - 1].network_id != list[i].network_id);
        assert forall|j: int| i < j < shorter.len() implies (#[trigger] shorter[j]).network_id
            != shorter[i].network_id by {
            assert(shorter[j] == list[j]);
        }
        the_last_publication_counts(shorter, i);
    }
}

/// A player's ped is the last ped that was published as the player's.
pub proof fn a_player_has_its_last_ped(list: Seq<EntitySummary>, i: int)
    requires
        0 <= i < list.len(),
        list[i].entity_type == ScriptEntityType::Ped,
        forall|j: int|
            i < j < list.len() ==> (#[trigger] list[j]).entity_type != ScriptEntityType::Ped
                || list[j].owner != list[i].owner,
    ensures
        peds_of(list).contains_key(list[i].owner),
        peds_of(list)[list[i].owner] == list[i].network_id,
    decreases list.len(),
{
    let shorter = list.drop_last();
    if i < shorter.len() {
        let last = list[list.len() - 1];
        assert(last.entity_type != ScriptEntityType::Ped || last.owner != list[i].owner);
        assert forall|j: int| i < j < shorter.len() implies (#[trigger] shorter[j]).entity_type
            != ScriptEntityType::Ped || shorter[j].owner != shorter[i].owner by {
            assert(shorter[j] == list[j]);
        }
        a_player_has_its_last_ped(shorter, i);
    }
}

/// A ped that is in a vehicle takes the seat it names there; anything but a ped takes none,
/// and so does a ped that is in no vehicle or on a seat that there is none of.
pub proof fn a_seat_is_taken_by_who_is_in_it(e: EntitySummary)
    ensures
        ({
            let ped = e.entity_type == ScriptEntityType::Ped;
            let state = e.sync.ped_game_state;
            let inside = state is Some && state->0.cur_vehicle >= 0 && 0
                <= state->0.cur_vehicle_seat <= 255;
            &&& ped && inside ==> seat_taken(e) is Some && seat_taken(e)->0
                == state->0.cur_vehicle * 256 + state->0.cur_vehicle_seat
            &&& !ped || !inside ==> seat_taken(e) is None
        }),
{
}

/// A ped that left a vehicle has left the seat that it names; without both of them it has
/// left none.
pub proof fn a_seat_is_left_by_who_was_in_it(e: EntitySummary)
    ensures
        ({
            let ped = e.entity_type == ScriptEntityType::Ped;
            let told = e.sync.last_vehicle is Some && e.sync.last_vehicle_seat is Some;
            &&& ped && told && 0 <= e.sync.last_vehicle->0 && 0 <= e.sync.last_vehicle_seat->0
                <= 255 ==> seat_left(e) is Some && seat_left(e)->0 == e.sync.last_vehicle->0 * 256
                + e.sync.last_vehicle_seat->0
            &&& !ped || !told ==> seat_left(e) is None
        }),
{
}

/// A publication is a new revision, and what was there before is gone but for who sat where
/// last.
pub proof fn a_publication_replaces_the_mirror(
    m: WorldModel,
    other: WorldModel,
    list: Seq<EntitySummary>,
)
    ensures
        m.revision < u64::MAX ==> after_publish(m, list).revision == m.revision + 1,
        after_publish(m, list).entities == after_publish(other, list).entities,
        after_publish(m, list).player_peds == after_publish(other, list).player_peds,
        after_publish(m, list).occupants == after_publish(other, list).occupants,
        after_publish(m, Seq::empty()).last_occupants == m.last_occupants,
        after_publish(m, Seq::empty()).entities.dom() =~= Set::empty(),
{
}

} // verus!
