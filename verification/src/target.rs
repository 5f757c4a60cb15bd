//! Whisper targets of one client.
//!
//! A client registers up to 30 voice targets (`VoiceTarget` message, id 1..=30;
//! 0 is normal channel talk, 31 is loopback). Each target is a set of explicit
//! session ids plus a set of channel ids. When the client speaks with that
//! target id in the packet header, the server whispers to exactly those
//! recipients. This is the mechanism pma-voice uses for radios.
use std::collections::BTreeMap;
use vstd::prelude::*;

verus! {

broadcast use vstd::std_specs::btree::group_btree_axioms;

/// The whisper target id range (`VoiceTarget.id`). 0 and 31 are reserved.
pub const MIN_TARGET_ID: u8 = 1;

pub const MAX_TARGET_ID: u8 = 30;

/// One registered target: explicit sessions and channels.
#[derive(Debug, Clone)]
pub struct Target {
    pub sessions: Vec<u32>,
    pub channels: Vec<ChannelTarget>,
}

/// What a [`Target`] names.
#[verifier::ext_equal]
pub struct TargetModel {
    pub sessions: Seq<u32>,
    pub channels: Seq<ChannelTarget>,
}

impl View for Target {
    type V = TargetModel;

    open spec fn view(&self) -> TargetModel {
        TargetModel { sessions: self.sessions@, channels: self.channels@ }
    }
}

impl Default for Target {
    fn default() -> (target: Self)
        ensures
            target@ == (TargetModel { sessions: Seq::empty(), channels: Seq::empty() }),
    {
        Target { sessions: Vec::new(), channels: Vec::new() }
    }
}

/// A channel of a whisper target, with link and child flags.
#[derive(Debug, Clone, Copy, PartialEq, Eq, Structural)]
pub struct ChannelTarget {
    pub channel_id: u32,
    pub links: bool,
    pub children: bool,
}

/// Per-client set of registered voice targets, keyed by target id.
#[derive(Debug)]
pub struct TargetRegistry {
    targets: BTreeMap<u8, Target>,
}

impl View for TargetRegistry {
    type V = Map<u8, TargetModel>;

    closed spec fn view(&self) -> Map<u8, TargetModel> {
        self.targets@.map_values(|t: Target| t@)
    }
}

/// Only whisper ids are registered, so a client holds at most 30 targets.
pub open spec fn only_whisper_ids(targets: Map<u8, TargetModel>) -> bool {
    forall|id: u8| #[trigger]
        targets.contains_key(id) ==> MIN_TARGET_ID <= id <= MAX_TARGET_ID
}

/// What registering `target` under `id` does: ids out of range are ignored.
pub open spec fn after_set(
    targets: Map<u8, TargetModel>,
    id: u8,
    target: TargetModel,
) -> Map<u8, TargetModel> {
    if MIN_TARGET_ID <= id <= MAX_TARGET_ID {
        targets.insert(id, target)
    } else {
        targets
    }
}

impl Default for TargetRegistry {
    fn default() -> (registry: Self)
        ensures
            registry@ == Map::<u8, TargetModel>::empty(),
    {
        let registry = TargetRegistry { targets: BTreeMap::new() };
        assert(registry@ =~= Map::<u8, TargetModel>::empty());
        registry
    }
}

impl TargetRegistry {
    /// Register (or replace) a target id from a decoded `VoiceTarget` message.
    /// Out-of-range ids are ignored (defensive: a client cannot grow the state
    /// beyond 1..=30).
    pub fn set(&mut self, id: u8, target: Target)
        ensures
            final(self)@ == after_set(old(self)@, id, target@),
            only_whisper_ids(old(self)@) ==> only_whisper_ids(final(self)@),
    {
        if MIN_TARGET_ID <= id && id <= MAX_TARGET_ID {
            self.targets.insert(id, target);
            assert(self@ =~= old(self)@.insert(id, target@));
        }
    }

    /// Clear a single target id.
    pub fn clear(&mut self, id: u8)
        ensures
            final(self)@ == old(self)@.remove(id),
            only_whisper_ids(old(self)@) ==> only_whisper_ids(final(self)@),
    {
        self.targets.remove(&id);
        assert(self@ =~= old(self)@.remove(id));
    }

    /// Clear every registered target (client reset or disconnect).
    pub fn clear_all(&mut self)
        ensures
            final(self)@ == Map::<u8, TargetModel>::empty(),
    {
        self.targets.clear();
        assert(self@ =~= Map::<u8, TargetModel>::empty());
    }

    pub fn get(&self, id: u8) -> (target: Option<&Target>)
        ensures
            match target {
                Some(t) => self@.contains_key(id) && t@ == self@[id],
                None => !self@.contains_key(id),
            },
    {
        self.targets.get(&id)
    }
}

} // verus!
