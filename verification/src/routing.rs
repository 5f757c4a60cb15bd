//! Routing buckets: which world instance an entity or a player is in, and the policy
//! of each bucket.
use crate::dash::{dash_get, dash_insert, dash_new, dash_remove, held, ids_held, small};
use crate::text::{ascii_lower, lowercased, same};
use dashmap::DashMap;
use vstd::prelude::*;

verus! {

/// CFX routing-bucket lockdown policy.
#[derive(Debug, Clone, Copy, PartialEq, Eq, Structural)]
pub enum RoutingLockdownMode {
    Inactive,
    Relaxed,
    Strict,
}

impl Default for RoutingLockdownMode {
    fn default() -> (mode: Self)
        ensures
            mode == RoutingLockdownMode::Inactive,
    {
        RoutingLockdownMode::Inactive
    }
}

/// The policy that a name stands for, in any ASCII case.
pub open spec fn lockdown_of(name: Seq<char>) -> Option<RoutingLockdownMode> {
    let lower = ascii_lower(name);
    if lower == "inactive"@ {
        Some(RoutingLockdownMode::Inactive)
    } else if lower == "relaxed"@ {
        Some(RoutingLockdownMode::Relaxed)
    } else if lower == "strict"@ {
        Some(RoutingLockdownMode::Strict)
    } else {
        None
    }
}

impl RoutingLockdownMode {
    pub fn parse(value: &str) -> (mode: Option<Self>)
        ensures
            mode == lockdown_of(value@),
    {
        let lower = lowercased(value);
        if same(lower.as_str(), "inactive") {
            Some(RoutingLockdownMode::Inactive)
        } else if same(lower.as_str(), "relaxed") {
            Some(RoutingLockdownMode::Relaxed)
        } else if same(lower.as_str(), "strict") {
            Some(RoutingLockdownMode::Strict)
        } else {
            None
        }
    }
}

/// The routing state.
#[verifier::ext_equal]
pub struct RoutingModel {
    /// The bucket of every entity that is not in bucket zero.
    pub entities: Map<u32, u32>,
    /// The bucket of every player that is not in bucket zero.
    pub players: Map<u32, u32>,
    /// The policies that were set.
    pub lockdown: Map<u32, RoutingLockdownMode>,
    /// Whether ambient population was allowed, where it was set.
    pub population: Map<u32, bool>,
    /// How often anything was set, from the start on.
    pub revision: u64,
}

/// The value of a key, or a default.
pub open spec fn or_default<V>(map: Map<u32, V>, key: u32, default: V) -> V {
    if map.contains_key(key) {
        map[key]
    } else {
        default
    }
}

/// An assignment to a bucket; bucket zero is where everything is that has none.
pub open spec fn assigned(map: Map<u32, u32>, id: u32, bucket: u32) -> Map<u32, u32> {
    if bucket == 0 {
        map.remove(id)
    } else {
        map.insert(id, bucket)
    }
}

/// The revision that follows.
pub open spec fn bumped(revision: u64) -> u64 {
    if revision == u64::MAX {
        0
    } else {
        (revision + 1) as u64
    }
}

/// Zone-independent routing control used by server scripting natives.
pub trait RoutingControl {
    spec fn routing(&self) -> RoutingModel;

    spec fn routing_wf(&self) -> bool;

    /// Monotonic change marker for cheap control-plane synchronization.
    fn revision(&self) -> (revision: u64)
        ensures
            revision == self.routing().revision,
    ;

    fn entity_bucket(&self, entity: u32) -> (bucket: u32)
        requires
            self.routing_wf(),
        ensures
            bucket == or_default(self.routing().entities, entity, 0u32),
    ;

    fn set_entity_bucket(&mut self, entity: u32, bucket: u32)
        requires
            old(self).routing_wf(),
        ensures
            final(self).routing_wf(),
            final(self).routing() == (RoutingModel {
                entities: assigned(old(self).routing().entities, entity, bucket),
                revision: bumped(old(self).routing().revision),
                ..old(self).routing()
            }),
    ;

    fn remove_entity(&mut self, entity: u32)
        requires
            old(self).routing_wf(),
        ensures
            final(self).routing_wf(),
            final(self).routing() == (RoutingModel {
                entities: old(self).routing().entities.remove(entity),
                revision: bumped(old(self).routing().revision),
                ..old(self).routing()
            }),
    ;

    fn player_bucket(&self, player: u32) -> (bucket: u32)
        requires
            self.routing_wf(),
        ensures
            bucket == or_default(self.routing().players, player, 0u32),
    ;

    fn set_player_bucket(&mut self, player: u32, bucket: u32)
        requires
            old(self).routing_wf(),
        ensures
            final(self).routing_wf(),
            final(self).routing() == (RoutingModel {
                players: assigned(old(self).routing().players, player, bucket),
                revision: bumped(old(self).routing().revision),
                ..old(self).routing()
            }),
    ;

    fn lockdown_mode(&self, bucket: u32) -> (mode: RoutingLockdownMode)
        requires
            self.routing_wf(),
        ensures
            mode == or_default(self.routing().lockdown, bucket, RoutingLockdownMode::Inactive),
    ;

    fn set_lockdown_mode(&mut self, bucket: u32, mode: RoutingLockdownMode)
        requires
            old(self).routing_wf(),
        ensures
            final(self).routing_wf(),
            final(self).routing() == (RoutingModel {
                lockdown: old(self).routing().lockdown.insert(bucket, mode),
                revision: bumped(old(self).routing().revision),
                ..old(self).routing()
            }),
    ;

    fn population_enabled(&self, bucket: u32) -> (enabled: bool)
        requires
            self.routing_wf(),
        ensures
            enabled == or_default(self.routing().population, bucket, true),
    ;

    fn set_population_enabled(&mut self, bucket: u32, enabled: bool)
        requires
            old(self).routing_wf(),
        ensures
            final(self).routing_wf(),
            final(self).routing() == (RoutingModel {
                population: old(self).routing().population.insert(bucket, enabled),
                revision: bumped(old(self).routing().revision),
                ..old(self).routing()
            }),
    ;
}

spec fn code_mode(code: u64) -> RoutingLockdownMode {
    if code == 0 {
        RoutingLockdownMode::Inactive
    } else if code == 1 {
        RoutingLockdownMode::Relaxed
    } else {
        RoutingLockdownMode::Strict
    }
}

spec fn modes(map: Map<u64, u64>) -> Map<u32, RoutingLockdownMode> {
    Map::new(|id: u32| map.contains_key(id as u64), |id: u32| code_mode(map[id as u64]))
}

spec fn flags(map: Map<u64, u64>) -> Map<u32, bool> {
    Map::new(|id: u32| map.contains_key(id as u64), |id: u32| map[id as u64] != 0)
}

/// The routing control that keeps everything in memory. Missing assignments resolve to
/// bucket zero and missing policies match FXServer's permissive defaults.
pub struct InMemoryRoutingControl {
    entities: DashMap<u64, u64>,
    players: DashMap<u64, u64>,
    lockdown: DashMap<u64, u64>,
    population: DashMap<u64, u64>,
    revision: u64,
}

impl Default for InMemoryRoutingControl {
    fn default() -> (control: Self)
        ensures
            control.routing_wf(),
            control.routing() == (RoutingModel {
                entities: Map::empty(),
                players: Map::empty(),
                lockdown: Map::empty(),
                population: Map::empty(),
                revision: 0,
            }),
    {
        let control = InMemoryRoutingControl {
            entities: dash_new(),
            players: dash_new(),
            lockdown: dash_new(),
            population: dash_new(),
            revision: 0,
        };
        assert(control.routing().entities =~= Map::empty());
        assert(control.routing().players =~= Map::empty());
        assert(control.routing().lockdown =~= Map::empty());
        assert(control.routing().population =~= Map::empty());
        control
    }
}

fn assign(map: &mut DashMap<u64, u64>, id: u32, bucket: u32)
    requires
        small(held(*old(map))),
    ensures
        small(held(*final(map))),
        ids_held(held(*final(map))) == assigned(ids_held(held(*old(map))), id, bucket),
{
    if bucket == 0 {
        dash_remove(map, id as u64);
        assert(ids_held(held(*map)) =~= ids_held(held(*old(map))).remove(id));
    } else {
        dash_insert(map, id as u64, bucket as u64);
        assert(ids_held(held(*map)) =~= ids_held(held(*old(map))).insert(id, bucket));
    }
}

impl InMemoryRoutingControl {
    fn bump(&mut self)
        ensures
            final(self).routing_wf() == old(self).routing_wf(),
            final(self).routing() == (RoutingModel {
                revision: bumped(old(self).routing().revision),
                ..old(self).routing()
            }),
    {
        self.revision = if self.revision == u64::MAX {
            0
        } else {
            self.revision + 1
        };
    }
}

impl RoutingControl for InMemoryRoutingControl {
    closed spec fn routing(&self) -> RoutingModel {
        RoutingModel {
            entities: ids_held(held(self.entities)),
            players: ids_held(held(self.players)),
            lockdown: modes(held(self.lockdown)),
            population: flags(held(self.population)),
            revision: self.revision,
        }
    }

    closed spec fn routing_wf(&self) -> bool {
        small(held(self.entities)) && small(held(self.players))
    }

    fn revision(&self) -> (revision: u64) {
        self.revision
    }

    fn entity_bucket(&self, entity: u32) -> (bucket: u32) {
        match dash_get(&self.entities, entity as u64) {
            Some(bucket) => bucket as u32,
            None => 0,
        }
    }

    fn set_entity_bucket(&mut self, entity: u32, bucket: u32) {
        assign(&mut self.entities, entity, bucket);
        self.bump();
    }

    fn remove_entity(&mut self, entity: u32) {
        assign(&mut self.entities, entity, 0);
        self.bump();
    }

    fn player_bucket(&self, player: u32) -> (bucket: u32) {
        match dash_get(&self.players, player as u64) {
            Some(bucket) => bucket as u32,
            None => 0,
        }
    }

    fn set_player_bucket(&mut self, player: u32, bucket: u32) {
        assign(&mut self.players, player, bucket);
        self.bump();
    }

    fn lockdown_mode(&self, bucket: u32) -> (mode: RoutingLockdownMode) {
        match dash_get(&self.lockdown, bucket as u64) {
            Some(code) => {
                if code == 0 {
                    RoutingLockdownMode::Inactive
                } else if code == 1 {
                    RoutingLockdownMode::Relaxed
                } else {
                    RoutingLockdownMode::Strict
                }
            },
            None => RoutingLockdownMode::Inactive,
        }
    }

    fn set_lockdown_mode(&mut self, bucket: u32, mode: RoutingLockdownMode) {
        let code: u64 = match mode {
            RoutingLockdownMode::Inactive => 0,
            RoutingLockdownMode::Relaxed => 1,
            RoutingLockdownMode::Strict => 2,
        };
        dash_insert(&mut self.lockdown, bucket as u64, code);
        assert(modes(held(self.lockdown)) =~= modes(held(old(self).lockdown)).insert(bucket, mode));
        self.bump();
    }

    fn population_enabled(&self, bucket: u32) -> (enabled: bool) {
        match dash_get(&self.population, bucket as u64) {
            Some(flag) => flag != 0,
            None => true,
        }
    }

    fn set_population_enabled(&mut self, bucket: u32, enabled: bool) {
        let flag: u64 = if enabled {
            1
        } else {
            0
        };
        dash_insert(&mut self.population, bucket as u64, flag);
        assert(flags(held(self.population)) =~= flags(held(old(self).population)).insert(
            bucket,
            enabled,
        ));
        self.bump();
    }
}

/// Assigning bucket zero forgets the assignment: the id is where everything starts.
pub proof fn bucket_zero_is_the_default(map: Map<u32, u32>, id: u32, bucket: u32)
    ensures
        or_default(assigned(map, id, bucket), id, 0u32) == bucket,
        !assigned(map, id, 0).contains_key(id),
{
}

} // verus!
