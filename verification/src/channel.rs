//! Channel model: Root, "Game Channel N" and temporary channels.
//!
//! A permanent Root (id 0), script-created "Game Channel N" permanent channels
//! (`MUMBLE_CREATE_CHANNEL`), and temporary channels that vanish when their last
//! member leaves. pma-voice drives proximity via the Root channel and voice
//! targets, so this stays deliberately simple.
use crate::ordered::{keys_of, lists, IdMap, IdSet};
use crate::text::{decimal, print_decimal};
use vstd::prelude::*;
use vstd::string::StringExecFns;

verus! {

/// The always-present root channel id (proximity chat lives here).
pub const ROOT_CHANNEL: u32 = 0;

/// One channel's state.
#[derive(Debug)]
pub struct Channel {
    pub id: u32,
    pub name: String,
    pub parent: u32,
    pub temporary: bool,
    /// Sessions currently in the channel.
    pub members: IdSet,
    /// Sessions listening to this channel without being in it.
    pub listeners: IdSet,
}

/// What a [`Channel`] holds.
#[verifier::ext_equal]
pub struct ChannelModel {
    pub id: u32,
    pub name: Seq<char>,
    pub parent: u32,
    pub temporary: bool,
    pub members: Set<u32>,
    pub listeners: Set<u32>,
}

impl View for Channel {
    type V = ChannelModel;

    open spec fn view(&self) -> ChannelModel {
        ChannelModel {
            id: self.id,
            name: self.name@,
            parent: self.parent,
            temporary: self.temporary,
            members: self.members@,
            listeners: self.listeners@,
        }
    }
}

impl Channel {
    pub open spec fn wf(&self) -> bool {
        self.members.wf() && self.listeners.wf()
    }

    /// The channel's id, parent, name and whether it is temporary.
    pub fn describe(&self) -> (d: (u32, u32, String, bool))
        ensures
            d.0 == self@.id,
            d.1 == self@.parent,
            d.2@ == self@.name,
            d.3 == self@.temporary,
    {
        (self.id, self.parent, self.name.clone(), self.temporary)
    }

    /// Sessions physically in the channel, ascending.
    pub fn members(&self) -> (items: Vec<u32>)
        requires
            self.wf(),
        ensures
            lists(items@, self@.members),
    {
        self.members.items()
    }

    /// Sessions listening to (but not in) the channel, ascending.
    pub fn listeners(&self) -> (items: Vec<u32>)
        requires
            self.wf(),
        ensures
            lists(items@, self@.listeners),
    {
        self.listeners.items()
    }

    fn empty(id: u32, name: String, temporary: bool) -> (channel: Self)
        ensures
            channel.wf(),
            channel@ == (ChannelModel {
                id,
                name: name@,
                parent: ROOT_CHANNEL,
                temporary,
                members: Set::empty(),
                listeners: Set::empty(),
            }),
    {
        Channel {
            id,
            name,
            parent: ROOT_CHANNEL,
            temporary,
            members: IdSet::new(),
            listeners: IdSet::new(),
        }
    }
}

/// The name of the channel that scripts and clients create under `id`.
pub open spec fn game_channel_name(id: u32) -> Seq<char> {
    "Game Channel "@ + decimal(id as nat)
}

/// A game channel nobody is in yet.
pub open spec fn fresh_channel(id: u32, temporary: bool) -> ChannelModel {
    ChannelModel {
        id,
        name: game_channel_name(id),
        parent: ROOT_CHANNEL,
        temporary,
        members: Set::empty(),
        listeners: Set::empty(),
    }
}

fn new_channel(id: u32, temporary: bool) -> (channel: Channel)
    ensures
        channel.wf(),
        channel@ == fresh_channel(id, temporary),
{
    let mut name = "Game Channel ".to_owned();
    name.append(print_decimal(id as u64).as_str());
    Channel::empty(id, name, temporary)
}

/// The channels by id, each with its model.
pub open spec fn channel_models(m: Map<u32, Channel>) -> Map<u32, ChannelModel> {
    m.map_values(|c: Channel| c@)
}

/// Root is there for good under its name, every channel knows its own id, has the name
/// that goes with it and stands under Root, and no session is in two channels at once.
pub open spec fn channels_wf(m: Map<u32, ChannelModel>) -> bool {
    &&& m.contains_key(ROOT_CHANNEL)
    &&& !m[ROOT_CHANNEL].temporary
    &&& forall|id: u32| #[trigger]
        m.contains_key(id) ==> m[id].id == id && m[id].parent == ROOT_CHANNEL && m[id].name == if id
            == ROOT_CHANNEL {
            "Root"@
        } else {
            game_channel_name(id)
        }
    &&& forall|a: u32, b: u32, s: u32|
        #![trigger m[a].members.contains(s), m[b].members.contains(s)]
        m.contains_key(a) && m.contains_key(b) && m[a].members.contains(s) && m[b].members.contains(
            s,
        ) ==> a == b
}

/// `session` is in the channel `id`.
pub open spec fn is_in(m: Map<u32, ChannelModel>, session: u32, id: u32) -> bool {
    m.contains_key(id) && m[id].members.contains(session)
}

/// The channel that `session` is in, if any.
pub open spec fn channel_of(m: Map<u32, ChannelModel>, session: u32) -> Option<u32> {
    if exists|id: u32| is_in(m, session, id) {
        Some(choose|id: u32| is_in(m, session, id))
    } else {
        None
    }
}

/// A temporary channel that nobody is in and nobody listens to.
pub open spec fn is_deserted(id: u32, channel: ChannelModel) -> bool {
    id != ROOT_CHANNEL && channel.temporary && channel.members =~= Set::empty()
        && channel.listeners =~= Set::empty()
}

/// `session` is out of the channel `id`; an emptied temporary channel is gone.
pub open spec fn without_member(m: Map<u32, ChannelModel>, session: u32, id: u32) -> Map<
    u32,
    ChannelModel,
> {
    let left = ChannelModel { members: m[id].members.remove(session), ..m[id] };
    if is_deserted(id, left) {
        m.remove(id)
    } else {
        m.insert(id, left)
    }
}

/// What leaving does: the session is out of the channel it was in.
pub open spec fn after_leave(m: Map<u32, ChannelModel>, session: u32) -> Map<u32, ChannelModel> {
    match channel_of(m, session) {
        Some(id) => without_member(m, session, id),
        None => m,
    }
}

/// `session` is put into the channel `id`, which is made as a temporary one where it
/// is missing.
pub open spec fn with_member(m: Map<u32, ChannelModel>, session: u32, id: u32) -> Map<
    u32,
    ChannelModel,
> {
    let channel = if m.contains_key(id) {
        m[id]
    } else {
        fresh_channel(id, true)
    };
    m.insert(id, ChannelModel { members: channel.members.insert(session), ..channel })
}

/// What creating the channel `id` does: it is made as a permanent one where it is missing.
pub open spec fn after_creation(m: Map<u32, ChannelModel>, id: u32) -> Map<u32, ChannelModel> {
    if m.contains_key(id) {
        m
    } else {
        m.insert(id, fresh_channel(id, false))
    }
}

/// What joining does: out of the previous channel, into the channel `id`.
pub open spec fn after_join(m: Map<u32, ChannelModel>, session: u32, id: u32) -> Map<
    u32,
    ChannelModel,
> {
    with_member(after_leave(m, session), session, id)
}

/// What subscribing to a channel or ending the subscription does.
pub open spec fn after_listening(
    m: Map<u32, ChannelModel>,
    session: u32,
    id: u32,
    listening: bool,
) -> Map<u32, ChannelModel> {
    if m.contains_key(id) {
        let listeners = if listening {
            m[id].listeners.insert(session)
        } else {
            m[id].listeners.remove(session)
        };
        m.insert(id, ChannelModel { listeners, ..m[id] })
    } else {
        m
    }
}

/// The channel once `session` no longer listens to it.
pub open spec fn unheard(channel: ChannelModel, session: u32) -> ChannelModel {
    ChannelModel { listeners: channel.listeners.remove(session), ..channel }
}

/// Nothing keeps the channel `id` once `session` no longer listens to it.
pub open spec fn closes_unheard(id: u32, channel: ChannelModel, session: u32) -> bool {
    channel.listeners.contains(session) && is_deserted(id, unheard(channel, session))
}

/// What dropping a session does: out of its channel, and no subscription left; a
/// temporary channel that it was the last to listen to is gone.
pub open spec fn after_drop(m: Map<u32, ChannelModel>, session: u32) -> Map<u32, ChannelModel> {
    let left = after_leave(m, session);
    left.remove_keys(
        left.dom().filter(|id: u32| closes_unheard(id, left[id], session)),
    ).map_values(|c: ChannelModel| unheard(c, session))
}

/// There is only one channel that a session is in.
proof fn lemma_channel_of(m: Map<u32, ChannelModel>, session: u32, id: u32)
    requires
        channels_wf(m),
        is_in(m, session, id),
    ensures
        channel_of(m, session) == Some(id),
{
    let found = choose|id: u32| is_in(m, session, id);
    assert(m[found].members.contains(session) && m[id].members.contains(session));
}

pub(crate) proof fn lemma_leave_wf(m: Map<u32, ChannelModel>, session: u32)
    requires
        channels_wf(m),
    ensures
        channels_wf(after_leave(m, session)),
        channel_of(after_leave(m, session), session) is None,
{
    let after = after_leave(m, session);
    if let Some(id) = channel_of(m, session) {
        assert(is_in(m, session, id));
        assert forall|a: u32, b: u32, s: u32|
            #![trigger after[a].members.contains(s), after[b].members.contains(s)]
            after.contains_key(a) && after.contains_key(b) && after[a].members.contains(s)
                && after[b].members.contains(s) implies a == b by {
            assert(m[a].members.contains(s) && m[b].members.contains(s));
        }
        assert forall|other: u32| !is_in(after, session, other) by {
            if is_in(after, session, other) {
                assert(m[other].members.contains(session) && m[id].members.contains(session));
            }
        }
    } else {
        assert forall|other: u32| !is_in(after, session, other) by {}
    }
}

proof fn lemma_with_member_wf(m: Map<u32, ChannelModel>, session: u32, id: u32)
    requires
        channels_wf(m),
        channel_of(m, session) is None,
    ensures
        channels_wf(with_member(m, session, id)),
        channel_of(with_member(m, session, id), session) == Some(id),
{
    let after = with_member(m, session, id);
    assert forall|other: u32| !is_in(m, session, other) by {}
    assert forall|a: u32, b: u32, s: u32|
        #![trigger after[a].members.contains(s), after[b].members.contains(s)]
        after.contains_key(a) && after.contains_key(b) && after[a].members.contains(s)
            && after[b].members.contains(s) implies a == b by {
        if s == session {
            assert(!is_in(m, session, a));
            assert(!is_in(m, session, b));
        } else if m.contains_key(a) && m.contains_key(b) {
            assert(m[a].members.contains(s) && m[b].members.contains(s));
        }
    }
    assert(is_in(after, session, id));
    lemma_channel_of(after, session, id);
}

/// A session that joined a channel is in that channel and in no other, whatever
/// channel it came from.
pub proof fn join_moves_the_session(m: Map<u32, ChannelModel>, session: u32, id: u32, other: u32)
    requires
        channels_wf(m),
    ensures
        channels_wf(after_join(m, session, id)),
        is_in(after_join(m, session, id), session, id),
        is_in(after_join(m, session, id), session, other) ==> other == id,
{
    lemma_leave_wf(m, session);
    let left = after_leave(m, session);
    lemma_with_member_wf(left, session, id);
    if is_in(after_join(m, session, id), session, other) {
        lemma_channel_of(after_join(m, session, id), session, other);
    }
}

/// A session that was dropped is in no channel and listens to none.
pub proof fn dropped_session_is_nowhere(m: Map<u32, ChannelModel>, session: u32, id: u32)
    requires
        channels_wf(m),
        after_drop(m, session).contains_key(id),
    ensures
        channels_wf(after_drop(m, session)),
        !after_drop(m, session)[id].members.contains(session),
        !after_drop(m, session)[id].listeners.contains(session),
{
    lemma_leave_wf(m, session);
    let left = after_leave(m, session);
    let after = after_drop(m, session);
    assert(!is_in(left, session, id));
    assert forall|a: u32, b: u32, s: u32|
        #![trigger after[a].members.contains(s), after[b].members.contains(s)]
        after.contains_key(a) && after.contains_key(b) && after[a].members.contains(s)
            && after[b].members.contains(s) implies a == b by {
        assert(left[a].members.contains(s) && left[b].members.contains(s));
    }
}

/// A session that is dropped closes a temporary channel that only it was in and only it
/// listened to; a permanent channel stays.
pub proof fn dropping_closes_temporary_channels(
    m: Map<u32, ChannelModel>,
    session: u32,
    id: u32,
)
    requires
        channels_wf(m),
        m.contains_key(id),
        m[id].members.subset_of(set![session]),
        m[id].listeners.subset_of(set![session]),
        m[id].members.contains(session) || m[id].listeners.contains(session),
    ensures
        m[id].temporary ==> !after_drop(m, session).contains_key(id),
        !m[id].temporary ==> after_drop(m, session).contains_key(id),
{
    let left = after_leave(m, session);
    if is_in(m, session, id) {
        lemma_channel_of(m, session, id);
        assert(m[id].members.remove(session) =~= Set::empty());
    } else {
        assert(m[id].members =~= Set::empty());
        if let Some(other) = channel_of(m, session) {
            assert(is_in(m, session, other));
        }
        assert(left[id] == m[id]);
    }
    assert(m[id].listeners.remove(session) =~= Set::empty());
    if !m[id].listeners.contains(session) {
        assert(m[id].listeners =~= Set::empty());
    }
}

/// A channel is temporary only where a session joined it before anyone created it: no
/// operation makes a channel that is there temporary, and none but joining makes a
/// temporary one.
pub proof fn only_joining_makes_temporary(
    m: Map<u32, ChannelModel>,
    session: u32,
    id: u32,
    listening: bool,
    other: u32,
)
    requires
        channels_wf(m),
    ensures
        after_leave(m, session).contains_key(other) ==> m.contains_key(other) && after_leave(
            m,
            session,
        )[other].temporary == m[other].temporary,
        after_drop(m, session).contains_key(other) ==> m.contains_key(other) && after_drop(
            m,
            session,
        )[other].temporary == m[other].temporary,
        after_listening(m, session, id, listening).contains_key(other) ==> m.contains_key(other)
            && after_listening(m, session, id, listening)[other].temporary == m[other].temporary,
        after_creation(m, id).contains_key(other) ==> after_creation(m, id)[other].temporary == (
        m.contains_key(other) && m[other].temporary),
        after_join(m, session, id).contains_key(other) && after_join(
            m,
            session,
            id,
        )[other].temporary ==> (m.contains_key(other) && m[other].temporary) || (other == id
            && !after_leave(m, session).contains_key(id)),
{
    if let Some(found) = channel_of(m, session) {
        assert(is_in(m, session, found));
    }
}

/// The last one to leave a temporary channel that nobody listens to closes it; a
/// permanent channel stays.
pub proof fn leaving_closes_temporary_channels(m: Map<u32, ChannelModel>, session: u32, id: u32)
    requires
        channels_wf(m),
        is_in(m, session, id),
        m[id].members == set![session],
    ensures
        m[id].temporary && m[id].listeners == Set::<u32>::empty() ==> !after_leave(
            m,
            session,
        ).contains_key(id),
        !m[id].temporary ==> after_leave(m, session).contains_key(id),
{
    lemma_channel_of(m, session, id);
    assert(m[id].members.remove(session) =~= Set::empty());
}

/// Store of all channels. Not thread-safe on its own: the voice server wraps it in
/// its lock.
#[derive(Debug)]
pub struct ChannelStore {
    channels: IdMap<Channel>,
}

impl View for ChannelStore {
    type V = Map<u32, ChannelModel>;

    closed spec fn view(&self) -> Map<u32, ChannelModel> {
        channel_models(self.channels@)
    }
}

impl Default for ChannelStore {
    fn default() -> (store: Self)
        ensures
            store.wf(),
            store@ == map![ROOT_CHANNEL => root_channel()],
    {
        Self::new()
    }
}

/// The Root channel as it starts.
pub open spec fn root_channel() -> ChannelModel {
    ChannelModel { name: "Root"@, ..fresh_channel(ROOT_CHANNEL, false) }
}

impl ChannelStore {
    pub closed spec fn wf(&self) -> bool {
        &&& self.channels.wf()
        &&& channels_wf(self@)
        &&& forall|id: u32| #[trigger] self.channels@.contains_key(id) ==> self.channels@[id].wf()
    }

    /// What well-formedness says of the model.
    pub proof fn lemma_wf(&self)
        requires
            self.wf(),
        ensures
            channels_wf(self@),
    {
    }

    /// A fresh store with only the Root channel.
    pub fn new() -> (store: Self)
        ensures
            store.wf(),
            store@ == map![ROOT_CHANNEL => root_channel()],
    {
        let mut channels: IdMap<Channel> = IdMap::new();
        channels.insert(ROOT_CHANNEL, Channel::empty(ROOT_CHANNEL, "Root".to_owned(), false));
        let store = ChannelStore { channels };
        assert(store@ =~= map![ROOT_CHANNEL => root_channel()]);
        store
    }

    /// Create a permanent "Game Channel N" under Root, as `MUMBLE_CREATE_CHANNEL`
    /// names it. Idempotent: an existing channel is returned unchanged.
    pub fn create_game_channel(&mut self, id: u32) -> (channel: &Channel)
        requires
            old(self).wf(),
        ensures
            final(self).wf(),
            final(self)@ == after_creation(old(self)@, id),
            channel@ == final(self)@[id],
            channel.wf(),
    {
        if !self.channels.contains(id) {
            self.channels.insert(id, new_channel(id, false));
            proof {
                assert(self@ =~= old(self)@.insert(id, fresh_channel(id, false)));
                let m = old(self)@;
                let after = self@;
                assert forall|a: u32, b: u32, s: u32|
                    #![trigger after[a].members.contains(s), after[b].members.contains(s)]
                    after.contains_key(a) && after.contains_key(b) && after[a].members.contains(s)
                        && after[b].members.contains(s) implies a == b by {
                    assert(m[a].members.contains(s) && m[b].members.contains(s));
                }
            }
        }
        match self.channels.get(id) {
            Some(channel) => channel,
            None => vstd::pervasive::unreached(),
        }
    }

    /// Whether a channel exists (backs `MUMBLE_DOES_CHANNEL_EXIST`).
    pub fn contains(&self, id: u32) -> (yes: bool)
        requires
            self.wf(),
        ensures
            yes == self@.contains_key(id),
    {
        self.channels.contains(id)
    }

    pub fn get(&self, id: u32) -> (channel: Option<&Channel>)
        requires
            self.wf(),
        ensures
            match channel {
                Some(c) => self@.contains_key(id) && c@ == self@[id] && c.wf(),
                None => !self@.contains_key(id),
            },
    {
        self.channels.get(id)
    }

    /// Every channel in ascending order of id (for the channel burst at login).
    pub fn iter(&self) -> (channels: Vec<&Channel>)
        requires
            self.wf(),
        ensures
            lists(channels@.map_values(|c: &Channel| c@.id), self@.dom()),
            channels@.len() > 0,
            channels@[0]@.id == ROOT_CHANNEL,
            forall|i: int| #![trigger channels@[i]]
                0 <= i < channels@.len() ==> channels@[i].wf() && self@.contains_key(
                    channels@[i]@.id,
                ) && channels@[i]@ == self@[channels@[i]@.id],
    {
        let mut out: Vec<&Channel> = Vec::new();
        let mut i: usize = 0;
        let n: usize = self.channels.len();
        proof {
            self.channels.lemma_listing();
        }
        while i < n
            invariant
                self.wf(),
                i <= n,
                n == self.channels.listing().len(),
                out@.len() == i,
                forall|j: int| #![trigger out@[j]]
                    0 <= j < i ==> out@[j].wf() && out@[j]@ == self.channels.listing()[j].1@
                        && out@[j]@.id == self.channels.listing()[j].0 && self@.contains_key(
                        out@[j]@.id,
                    ) && self@[out@[j]@.id] == out@[j]@,
            decreases n - i,
        {
            let entry = self.channels.entry_at(i);
            assert(self@.contains_key(entry.0));
            assert(self@[entry.0] == entry.1@);
            out.push(entry.1);
            i = i + 1;
        }
        proof {
            let ids = out@.map_values(|c: &Channel| c@.id);
            assert(ids =~= keys_of(self.channels.listing()));
            assert(self@.dom() =~= self.channels@.dom());
            // Root has the least of all ids.
            assert(ids.contains(ROOT_CHANNEL));
            assert(ids[0] == ROOT_CHANNEL);
        }
        out
    }

    /// Move `session` into `channel_id`, removing it from any previous channel.
    /// Makes a temporary channel for an unknown id (Mumble lets clients enter
    /// transient channels). Returns the channel the session left, if any.
    pub fn join(&mut self, session: u32, channel_id: u32) -> (previous: Option<u32>)
        requires
            old(self).wf(),
        ensures
            final(self).wf(),
            final(self)@ == after_join(old(self)@, session, channel_id),
            previous == channel_of(old(self)@, session),
    {
        let previous = self.leave(session);
        let ghost left = self@;
        proof {
            lemma_leave_wf(old(self)@, session);
            lemma_with_member_wf(left, session, channel_id);
        }
        let mut channel = match self.channels.remove(channel_id) {
            Some(channel) => channel,
            None => new_channel(channel_id, true),
        };
        channel.members.insert(session);
        self.channels.insert(channel_id, channel);
        assert(self@ =~= with_member(left, session, channel_id));
        previous
    }

    /// Remove `session` from whatever channel it is in. Cleans up an emptied
    /// temporary channel. Returns the channel id it was in.
    pub fn leave(&mut self, session: u32) -> (left: Option<u32>)
        requires
            old(self).wf(),
        ensures
            final(self).wf(),
            final(self)@ == after_leave(old(self)@, session),
            left == channel_of(old(self)@, session),
    {
        let left = self.find(session);
        proof {
            lemma_leave_wf(self@, session);
        }
        if let Some(id) = left {
            self.take_member(session, id);
        }
        left
    }

    /// The channel that `session` is in.
    pub fn find(&self, session: u32) -> (found: Option<u32>)
        requires
            self.wf(),
        ensures
            found == channel_of(self@, session),
    {
        let mut i: usize = 0;
        let n: usize = self.channels.len();
        proof {
            self.channels.lemma_listing();
        }
        while i < n
            invariant
                self.wf(),
                i <= n,
                n == self.channels.listing().len(),
                forall|j: int| 0 <= j < i ==> !(#[trigger] self.channels.listing()[j]).1@.members.contains(session),
            decreases n - i,
        {
            let entry = self.channels.entry_at(i);
            if entry.1.members.contains(session) {
                proof {
                    assert(self@.contains_key(entry.0));
                    assert(is_in(self@, session, entry.0));
                    lemma_channel_of(self@, session, entry.0);
                }
                return Some(entry.0);
            }
            i = i + 1;
        }
        proof {
            self.channels.lemma_listing();
            assert forall|id: u32| !is_in(self@, session, id) by {
                if is_in(self@, session, id) {
                    assert(self.channels@.contains_key(id));
                    let j = choose|j: int|
                        0 <= j < self.channels.listing().len() && (
                        #[trigger] self.channels.listing()[j]).0 == id
                            && self.channels.listing()[j].1 == self.channels@[id];
                    assert(self.channels.listing()[j].1@.members.contains(session));
                }
            }
        }
        None
    }

    /// Take `session` out of the channel `id` it is in.
    fn take_member(&mut self, session: u32, id: u32)
        requires
            old(self).wf(),
            is_in(old(self)@, session, id),
            channels_wf(without_member(old(self)@, session, id)),
        ensures
            final(self).wf(),
            final(self)@ == without_member(old(self)@, session, id),
    {
        match self.channels.remove(id) {
            Some(channel) => {
                let mut channel = channel;
                channel.members.remove(session);
                if id != ROOT_CHANNEL && channel.temporary && channel.members.is_empty()
                    && channel.listeners.is_empty() {
                    assert(self@ =~= old(self)@.remove(id));
                } else {
                    self.channels.insert(id, channel);
                    assert(self@ =~= without_member(old(self)@, session, id));
                }
            },
            None => {},
        }
    }

    /// Add or remove a listener subscription (listen without joining).
    pub fn set_listening(&mut self, session: u32, channel_id: u32, listening: bool)
        requires
            old(self).wf(),
        ensures
            final(self).wf(),
            final(self)@ == after_listening(old(self)@, session, channel_id, listening),
    {
        match self.channels.remove(channel_id) {
            Some(channel) => {
                let mut channel = channel;
                if listening {
                    channel.listeners.insert(session);
                } else {
                    channel.listeners.remove(session);
                }
                self.channels.insert(channel_id, channel);
                proof {
                    let m = old(self)@;
                    let after = after_listening(m, session, channel_id, listening);
                    assert(self@ =~= after);
                    assert forall|a: u32, b: u32, s: u32|
                        #![trigger after[a].members.contains(s), after[b].members.contains(s)]
                        after.contains_key(a) && after.contains_key(b) && after[a].members.contains(
                            s,
                        ) && after[b].members.contains(s) implies a == b by {
                        assert(m[a].members.contains(s) && m[b].members.contains(s));
                    }
                }
            },
            None => {
                assert(self@ =~= old(self)@);
            },
        }
    }

    /// Drop a session everywhere (disconnect): membership and all subscriptions.
    pub fn drop_session(&mut self, session: u32)
        requires
            old(self).wf(),
        ensures
            final(self).wf(),
            final(self)@ == after_drop(old(self)@, session),
    {
        self.leave(session);
        let ghost left = self@;
        let ids = self.channels.keys();
        let mut i: usize = 0;
        assert forall|j: int| #![trigger ids@[j]] 0 <= j < ids@.len() implies left.contains_key(
            ids@[j],
        ) by {
            assert(ids@.contains(ids@[j]));
        }
        while i < ids.len()
            invariant
                self.wf(),
                i <= ids@.len(),
                lists(ids@, left.dom()),
                forall|id: u32| #[trigger] self@.contains_key(id) ==> left.contains_key(id),
                forall|j: int| #![trigger ids@[j]]
                    0 <= j < i ==> (self@.contains_key(ids@[j]) <==> !closes_unheard(
                        ids@[j],
                        left[ids@[j]],
                        session,
                    )),
                forall|j: int| #![trigger ids@[j]]
                    0 <= j < i && self@.contains_key(ids@[j]) ==> self@[ids@[j]] == unheard(
                        left[ids@[j]],
                        session,
                    ),
                forall|j: int| #![trigger ids@[j]]
                    i <= j < ids@.len() ==> self@.contains_key(ids@[j]) && self@[ids@[j]]
                        == left[ids@[j]],
            decreases ids@.len() - i,
        {
            let id = ids[i];
            assert(ids@.contains(id));
            self.stop_listening(session, id);
            i = i + 1;
        }
        proof {
            let after = after_drop(old(self)@, session);
            assert forall|id: u32| #[trigger] left.contains_key(id) implies (self@.contains_key(id)
                <==> !closes_unheard(id, left[id], session)) && (self@.contains_key(id)
                ==> self@[id] == unheard(left[id], session)) by {
                assert(left.dom().contains(id));
                assert(ids@.contains(id));
                let j = choose|j: int| 0 <= j < ids@.len() && ids@[j] == id;
                assert(self@.contains_key(ids@[j]) <==> !closes_unheard(
                    ids@[j],
                    left[ids@[j]],
                    session,
                ));
            }
            let closed = left.dom().filter(|id: u32| closes_unheard(id, left[id], session));
            assert forall|id: u32| #[trigger] after.contains_key(id) <==> left.contains_key(id)
                && !closes_unheard(id, left[id], session) by {
                assert(closed.contains(id) <==> left.contains_key(id) && closes_unheard(
                    id,
                    left[id],
                    session,
                ));
            }
            assert forall|id: u32| #[trigger] after.contains_key(id) implies self@.contains_key(
                id,
            ) && self@[id] == after[id] by {
                assert(left.contains_key(id));
            }
            assert forall|id: u32| #[trigger] self@.contains_key(id) implies after.contains_key(
                id,
            ) by {
                assert(left.contains_key(id));
            }
            assert(self@ =~= after);
        }
    }

    /// End the subscription of `session` to the channel `id`, which is closed where
    /// nothing else keeps it.
    fn stop_listening(&mut self, session: u32, id: u32)
        requires
            old(self).wf(),
            old(self)@.contains_key(id),
        ensures
            final(self).wf(),
            final(self)@ == if closes_unheard(id, old(self)@[id], session) {
                old(self)@.remove(id)
            } else {
                old(self)@.insert(id, unheard(old(self)@[id], session))
            },
    {
        let ghost m = self@;
        if let Some(channel) = self.channels.remove(id) {
            let mut channel = channel;
            let listened = channel.listeners.contains(session);
            channel.listeners.remove(session);
            assert(channel@ =~= unheard(m[id], session));
            if listened && id != ROOT_CHANNEL && channel.temporary && channel.members.is_empty()
                && channel.listeners.is_empty() {
                assert(self@ =~= m.remove(id));
            } else {
                self.channels.insert(id, channel);
                assert(self@ =~= m.insert(id, unheard(m[id], session)));
            }
        }
        proof {
            let after = self@;
            assert forall|a: u32, b: u32, s: u32|
                #![trigger after[a].members.contains(s), after[b].members.contains(s)]
                after.contains_key(a) && after.contains_key(b) && after[a].members.contains(s)
                    && after[b].members.contains(s) implies a == b by {
                assert(m[a].members.contains(s) && m[b].members.contains(s));
            }
        }
    }
}

} // verus!
