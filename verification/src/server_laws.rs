//! What the voice server does with each message, told by what a client sends and what it
//! and the others get.
use crate::channel::{after_join, channels_wf, is_in, join_moves_the_session, ChannelModel};
use crate::crypto::{decrypt_step, le_inc, packet_taken, seal};
use crate::framing::MessageType;
use crate::ordered::{lemma_is_listing, listing_of, lists};
use crate::pds::{be_bytes, pds_encode};
use crate::router::Recipient;
use crate::server::{
    burst_members, burst_users, datagram_sender, datagram_taken, delivered, dropped, entry_channels,
    entry_sessions, first_taker, is_probe, listened, message_handled, probe_reply, user_state_step,
    voice_target_step, with_channel, ActionModel, Incoming, Material, OutgoingModel, Peer,
    TargetEntry, UserStateIn, UserStateModel, VoiceModel,
};
use crate::session::{first_position, netid_of, SessionModel};
use crate::text::{decimal, decimal_reads_back};
use crate::voice::VoicePacket;
use vstd::prelude::*;

verus! {

// --- names ---

proof fn lemma_first_position(s: Seq<char>, c: char, from: int, at: int)
    requires
        0 <= from <= at < s.len(),
        s[at] == c,
        forall|i: int| from <= i < at ==> s[i] != c,
    ensures
        first_position(s, c, from) == at,
    decreases at - from,
{
    if from < at {
        lemma_first_position(s, c, from + 1, at);
    }
}

/// A client that names itself by a net id in brackets is the player of that net id,
/// whatever follows the brackets.
pub proof fn a_name_carries_the_net_id(n: u32, rest: Seq<char>)
    ensures
        netid_of(seq!['['] + decimal(n as nat) + seq![']'] + rest) == Some(n as nat),
{
    let name = seq!['['] + decimal(n as nat) + seq![']'] + rest;
    let at = 1 + decimal(n as nat).len() as int;
    decimal_reads_back(n as nat, u32::MAX as nat);
    assert forall|i: int| 1 <= i < at implies name[i] != ']' by {
        assert(name[i] == decimal(n as nat)[i - 1]);
    }
    lemma_first_position(name, ']', 1, at);
    assert(name.subrange(1, at) =~= decimal(n as nat));
}

proof fn lemma_no_position(s: Seq<char>, c: char, from: int)
    requires
        0 <= from,
        forall|i: int| from <= i < s.len() ==> s[i] != c,
    ensures
        first_position(s, c, from) >= s.len(),
    decreases s.len() - from,
{
    if from < s.len() {
        lemma_no_position(s, c, from + 1);
    }
}

/// A name without brackets, or with anything but a number in them, is no player's.
pub proof fn other_names_carry_none(inside: Seq<char>, rest: Seq<char>, k: int, name: Seq<char>)
    requires
        0 < k < inside.len(),
        !('0' <= inside[k] && inside[k] <= '9'),
        forall|i: int| 0 <= i < inside.len() ==> inside[i] != ']',
    ensures
        netid_of(seq!['['] + inside + seq![']'] + rest) is None,
        netid_of("[]"@ + rest) is None,
        name.len() > 0 && name[0] != '[' ==> netid_of(name) is None,
        !name.contains(']') ==> netid_of(name) is None,
{
    reveal_strlit("[]");
    let full = seq!['['] + inside + seq![']'] + rest;
    let at = 1 + inside.len() as int;
    assert forall|i: int| 1 <= i < at implies full[i] != ']' by {
        assert(full[i] == inside[i - 1]);
    }
    lemma_first_position(full, ']', 1, at);
    assert(full.subrange(1, at) =~= inside);
    assert(inside.skip(1)[k - 1] == inside[k]);
    let empty = "[]"@ + rest;
    assert(empty[1] == ']');
    assert(empty.subrange(1, 1).len() == 0);
    if !name.contains(']') {
        lemma_no_position(name, ']', 1);
    }
}

// --- logging in ---

/// A player that logs in is known under its net id, sits in the root channel and nowhere
/// else, and gets the key material that was drawn for it. A session that was there keeps
/// its settings; a new one starts unmuted and undeafened, without targets and context.
pub proof fn a_login_admits_the_player(
    st: VoiceModel,
    session: Option<u32>,
    name: String,
    n: u32,
    m: Material,
    after: VoiceModel,
    keep: bool,
    session_after: Option<u32>,
    actions: Seq<ActionModel>,
    other: u32,
    id: u32,
)
    requires
        channels_wf(st.channels),
        netid_of(name@) == Some(n as nat),
        message_handled(
            st,
            session,
            Incoming::Authenticate { username: Some(name) },
            Some(m),
            after,
            keep,
            session_after,
            actions,
        ),
    ensures
        keep,
        session_after == Some(n),
        after.sessions.contains_key(n),
        st.sessions.contains_key(n) ==> after.sessions == st.sessions,
        !st.sessions.contains_key(n) ==> {
            let s = after.sessions[n];
            &&& s.id == n && s.name == name@
            &&& !s.mute && !s.deaf && !s.self_deaf
            &&& s.context is None
            &&& s.targets.dom() =~= Set::empty()
        },
        other != n ==> (after.sessions.contains_key(other) <==> st.sessions.contains_key(other))
            && after.sessions[other] == st.sessions[other],
        after.crypt.contains_key(n),
        after.crypt[n].key == m.0@,
        after.crypt[n].encrypt_iv == m.1@,
        after.crypt[n].decrypt_iv == m.2@,
        after.crypt[n].good == 0 && after.crypt[n].late == 0 && after.crypt[n].lost == 0,
        forall|i: int| 0 <= i < 256 ==> #[trigger] after.crypt[n].history[i] is None,
        other != n ==> (after.crypt.contains_key(other) <==> st.crypt.contains_key(other))
            && after.crypt[other] == st.crypt[other],
        after.peers == st.peers,
        after.overrides == st.overrides,
        is_in(after.channels, n, id) <==> id == 0,
{
    join_moves_the_session(st.channels, n, 0, id);
}

/// A player that logs in is announced to the others, and is told its key material, the
/// codec, every channel in the order of their ids, who is where, and that it is in sync.
pub proof fn a_login_is_answered_in_full(
    st: VoiceModel,
    session: Option<u32>,
    name: String,
    n: u32,
    m: Material,
    after: VoiceModel,
    keep: bool,
    session_after: Option<u32>,
    actions: Seq<ActionModel>,
    ids: Seq<u32>,
)
    requires
        netid_of(name@) == Some(n as nat),
        message_handled(
            st,
            session,
            Incoming::Authenticate { username: Some(name) },
            Some(m),
            after,
            keep,
            session_after,
            actions,
        ),
        lists(ids, after.channels.dom()),
        forall|id: u32| #[trigger]
            after.channels.contains_key(id) ==> after.channels[id].members.finite(),
    ensures
        actions.len() >= 4 + ids.len(),
        actions[0] == (ActionModel::Broadcast {
            message: OutgoingModel::UserState(
                UserStateModel {
                    session: n,
                    name: Some(name@),
                    channel_id: Some(0),
                    mute: None,
                    deaf: None,
                    self_mute: None,
                    self_deaf: None,
                },
            ),
            skip: Some(n),
        }),
        actions[1] == ActionModel::Reply(
            OutgoingModel::CryptSetup { material: Some((m.0@, m.2@)), server_nonce: m.1@ },
        ),
        actions[2] == ActionModel::Reply(
            OutgoingModel::CodecVersion {
                alpha: -2147483637i32 as i32,
                beta: 0,
                prefer_alpha: true,
                opus: true,
            },
        ),
        forall|i: int|
            0 <= i < ids.len() ==> #[trigger] actions[3 + i] == ActionModel::Reply(
                OutgoingModel::ChannelState {
                    id: after.channels[ids[i]].id,
                    parent: if after.channels[ids[i]].id == 0 {
                        None
                    } else {
                        Some(after.channels[ids[i]].parent)
                    },
                    name: after.channels[ids[i]].name,
                    temporary: after.channels[ids[i]].temporary,
                },
            ),
        forall|id: u32, s: u32|
            #![trigger is_in(after.channels, s, id), after.sessions[s]]
            is_in(after.channels, s, id) && after.sessions.contains_key(s) ==> told_between(
                actions,
                3 + ids.len() as int,
                actions.len() - 1,
                whereabouts(after.sessions[s], id),
            ),
        forall|j: int| 3 + ids.len() <= j < actions.len() - 1 ==> tells_whereabouts(
            after,
            #[trigger] actions[j],
        ),
        actions.last() == ActionModel::Reply(
            OutgoingModel::ServerSync {
                session: n,
                max_bandwidth: 128_000,
                welcome_text: "BASTON voice"@,
                permissions: 0x0f07_ffff,
            },
        ),
{
    lemma_is_listing(ids, after.channels.dom());
    let users = burst_users(after.sessions, after.channels, ids);
    let head = 3 + ids.len() as int;
    assert(actions.len() == head + users.len() + 1);
    assert forall|j: int| head <= j < actions.len() - 1 implies #[trigger] actions[j] == users[j
        - head] by {}
    assert forall|id: u32, s: u32|
        #![trigger is_in(after.channels, s, id), after.sessions[s]]
        is_in(after.channels, s, id) && after.sessions.contains_key(s) implies told_between(
        actions,
        head,
        actions.len() - 1,
        whereabouts(after.sessions[s], id),
    ) by {
        assert(ids.contains(id));
        let at = choose|at: int| 0 <= at < ids.len() && ids[at] == id;
        let k = lemma_everyone_is_told(after, ids, at, s);
        assert(actions[head + k] == users[k]);
    }
    assert forall|j: int| head <= j < actions.len() - 1 implies tells_whereabouts(
        after,
        #[trigger] actions[j],
    ) by {
        assert forall|i: int| 0 <= i < ids.len() implies after.channels.contains_key(
            #[trigger] ids[i],
        ) by {
            assert(ids.contains(ids[i]));
        }
        lemma_only_members_are_told(after, ids, j - head);
    }
}

/// The reply that says that the session is in the channel, and whether it is mute, deaf or
/// has deafened itself.
pub open spec fn whereabouts(s: SessionModel, id: u32) -> ActionModel {
    ActionModel::Reply(
        OutgoingModel::UserState(
            UserStateModel {
                session: s.id,
                name: Some(s.name),
                channel_id: Some(id),
                mute: Some(s.mute),
                deaf: Some(s.deaf),
                self_mute: None,
                self_deaf: Some(s.self_deaf),
            },
        ),
    )
}

/// The action is among those from `from` up to `to`.
pub open spec fn told_between(actions: Seq<ActionModel>, from: int, to: int, action: ActionModel) -> bool {
    exists|j: int| from <= j < to && #[trigger] actions[j] == action
}

/// The action says of a session where it really is.
pub open spec fn tells_whereabouts(st: VoiceModel, action: ActionModel) -> bool {
    exists|s: u32, id: u32|
        #![trigger st.sessions[s], is_in(st.channels, s, id)]
        st.sessions.contains_key(s) && is_in(st.channels, s, id) && action == whereabouts(
            st.sessions[s],
            id,
        )
}

proof fn lemma_member_is_told(
    sessions: Map<u32, SessionModel>,
    members: Seq<u32>,
    id: u32,
    s: u32,
) -> (k: int)
    requires
        members.contains(s),
        sessions.contains_key(s),
    ensures
        0 <= k < burst_members(sessions, members, id).len(),
        burst_members(sessions, members, id)[k] == whereabouts(sessions[s], id),
    decreases members.len(),
{
    let head = burst_members(sessions, members.drop_last(), id);
    if members.last() == s {
        head.len() as int
    } else {
        let i = choose|i: int| 0 <= i < members.len() && members[i] == s;
        assert(members.drop_last()[i] == s);
        lemma_member_is_told(sessions, members.drop_last(), id, s)
    }
}

proof fn lemma_everyone_is_told(st: VoiceModel, ids: Seq<u32>, at: int, s: u32) -> (k: int)
    requires
        0 <= at < ids.len(),
        st.channels[ids[at]].members.finite(),
        st.channels[ids[at]].members.contains(s),
        st.sessions.contains_key(s),
    ensures
        0 <= k < burst_users(st.sessions, st.channels, ids).len(),
        burst_users(st.sessions, st.channels, ids)[k] == whereabouts(st.sessions[s], ids[at]),
    decreases ids.len(),
{
    let head = burst_users(st.sessions, st.channels, ids.drop_last());
    if at == ids.len() - 1 {
        crate::ordered::finite_set_has_a_listing(st.channels[ids[at]].members);
        let members = listing_of(st.channels[ids[at]].members);
        assert(members.contains(s));
        let k = lemma_member_is_told(st.sessions, members, ids[at], s);
        head.len() + k
    } else {
        lemma_everyone_is_told(st, ids.drop_last(), at, s)
    }
}

proof fn lemma_told_is_member(
    sessions: Map<u32, SessionModel>,
    members: Seq<u32>,
    id: u32,
    k: int,
) -> (s: u32)
    requires
        0 <= k < burst_members(sessions, members, id).len(),
    ensures
        members.contains(s),
        sessions.contains_key(s),
        burst_members(sessions, members, id)[k] == whereabouts(sessions[s], id),
    decreases members.len(),
{
    let head = burst_members(sessions, members.drop_last(), id);
    if k < head.len() {
        let s = lemma_told_is_member(sessions, members.drop_last(), id, k);
        let i = choose|i: int| 0 <= i < members.len() - 1 && members.drop_last()[i] == s;
        assert(members[i] == s);
        s
    } else {
        assert(members[members.len() - 1] == members.last());
        members.last()
    }
}

proof fn lemma_only_members_are_told(st: VoiceModel, ids: Seq<u32>, k: int)
    requires
        0 <= k < burst_users(st.sessions, st.channels, ids).len(),
        forall|i: int| 0 <= i < ids.len() ==> st.channels.contains_key(#[trigger] ids[i]),
        forall|id: u32| #[trigger]
            st.channels.contains_key(id) ==> st.channels[id].members.finite(),
    ensures
        tells_whereabouts(st, burst_users(st.sessions, st.channels, ids)[k]),
    decreases ids.len(),
{
    let head = burst_users(st.sessions, st.channels, ids.drop_last());
    if k < head.len() {
        assert forall|i: int| 0 <= i < ids.len() - 1 implies st.channels.contains_key(
            #[trigger] ids.drop_last()[i],
        ) by {
            assert(ids.drop_last()[i] == ids[i]);
        }
        lemma_only_members_are_told(st, ids.drop_last(), k);
    } else {
        let id = ids.last();
        assert(st.channels.contains_key(ids[ids.len() - 1]));
        crate::ordered::finite_set_has_a_listing(st.channels[id].members);
        let members = listing_of(st.channels[id].members);
        let s = lemma_told_is_member(st.sessions, members, id, k - head.len());
        assert(members.contains(s));
        assert(is_in(st.channels, s, id));
    }
}

/// A login whose name is no player's is refused with a reason and changes nothing, and the
/// connection is closed.
pub proof fn a_nameless_login_is_refused(
    st: VoiceModel,
    session: Option<u32>,
    name: String,
    material: Option<Material>,
    after: VoiceModel,
    keep: bool,
    session_after: Option<u32>,
    actions: Seq<ActionModel>,
)
    requires
        netid_of(name@) is None,
        message_handled(
            st,
            session,
            Incoming::Authenticate { username: Some(name) },
            material,
            after,
            keep,
            session_after,
            actions,
        ),
    ensures
        !keep,
        after == st,
        session_after == session,
        actions.len() == 1,
        actions[0] == ActionModel::Reply(
            OutgoingModel::Reject { reason: "expected a FiveM \"[netId]\" username"@ },
        ),
{
}

// --- small requests ---

/// Questions are answered to the one who asked and change nothing: the version, the
/// permissions (all of them), and a ping with its own timestamp and the packet counters of
/// the session.
pub proof fn questions_are_answered(
    st: VoiceModel,
    session: Option<u32>,
    channel: Option<u32>,
    timestamp: Option<u64>,
    material: Option<Material>,
    after: VoiceModel,
    keep: bool,
    session_after: Option<u32>,
    actions: Seq<ActionModel>,
)
    ensures
        message_handled(
            st,
            session,
            Incoming::Version,
            material,
            after,
            keep,
            session_after,
            actions,
        ) <==> after == st && keep && session_after == session && actions == seq![
            ActionModel::Reply(
                OutgoingModel::Version { version: 0x0001_0400, release: "baston-voice"@ },
            ),
        ],
        message_handled(
            st,
            session,
            Incoming::PermissionQuery { channel_id: channel },
            material,
            after,
            keep,
            session_after,
            actions,
        ) <==> after == st && keep && session_after == session && actions == seq![
            ActionModel::Reply(
                OutgoingModel::PermissionQuery {
                    channel_id: channel,
                    permissions: 0x0f07_ffff,
                    flush: false,
                },
            ),
        ],
        message_handled(
            st,
            session,
            Incoming::Ping { timestamp },
            material,
            after,
            keep,
            session_after,
            actions,
        ) && session is Some && st.crypt.contains_key(session->0) ==> after == st && keep
            && session_after == session && actions == seq![
            ActionModel::Reply(
                OutgoingModel::Ping {
                    timestamp,
                    good: st.crypt[session->0].good,
                    late: st.crypt[session->0].late,
                    lost: st.crypt[session->0].lost,
                },
            ),
        ],
        message_handled(
            st,
            session,
            Incoming::Ping { timestamp },
            material,
            after,
            keep,
            session_after,
            actions,
        ) && (session is None || !st.crypt.contains_key(session->0)) ==> after == st && keep
            && session_after == session && actions == seq![
            ActionModel::Reply(OutgoingModel::Ping { timestamp, good: 0, late: 0, lost: 0 }),
        ],
{
}

/// A message that cannot be read is passed over; only a login that cannot be read ends the
/// connection. Other messages are passed over too.
pub proof fn the_unreadable_is_passed_over(
    st: VoiceModel,
    session: Option<u32>,
    ty: MessageType,
    material: Option<Material>,
    after: VoiceModel,
    keep: bool,
    session_after: Option<u32>,
    actions: Seq<ActionModel>,
    other: Incoming,
)
    requires
        other == Incoming::Malformed(ty) || other == Incoming::Other,
        message_handled(st, session, other, material, after, keep, session_after, actions),
    ensures
        after == st,
        session_after == session,
        actions.len() == 0,
        keep <==> other != Incoming::Malformed(MessageType::Authenticate),
{
}

/// A nonce of sixteen bytes becomes the one that the next packet of the client is measured
/// by, without an answer. A request without one is answered with the server's own nonce.
/// Nothing else changes, and a session without key material is passed over.
pub proof fn nonces_are_resynchronised(
    st: VoiceModel,
    netid: u32,
    nonce: Option<Vec<u8>>,
    material: Option<Material>,
    after: VoiceModel,
    keep: bool,
    session_after: Option<u32>,
    actions: Seq<ActionModel>,
    other: u32,
)
    requires
        message_handled(
            st,
            Some(netid),
            Incoming::CryptSetup { client_nonce: nonce },
            material,
            after,
            keep,
            session_after,
            actions,
        ),
    ensures
        keep && session_after == Some(netid),
        after.sessions == st.sessions && after.channels == st.channels && after.peers == st.peers
            && after.overrides == st.overrides,
        other != netid ==> after.crypt[other] == st.crypt[other],
        after.crypt.dom() =~= st.crypt.dom(),
        after.crypt[netid].key == st.crypt[netid].key,
        after.crypt[netid].encrypt_iv == st.crypt[netid].encrypt_iv,
        after.crypt[netid].history == st.crypt[netid].history,
        after.crypt[netid].good == st.crypt[netid].good,
        after.crypt[netid].late == st.crypt[netid].late,
        after.crypt[netid].lost == st.crypt[netid].lost,
        match nonce {
            Some(v) if v@.len() == 16 => (st.crypt.contains_key(netid)
                ==> after.crypt[netid].decrypt_iv == v@) && actions.len() == 0,
            _ => after.crypt[netid] == st.crypt[netid] && (st.crypt.contains_key(netid) ==> actions
                == seq![
                ActionModel::Reply(
                    OutgoingModel::CryptSetup {
                        material: None,
                        server_nonce: st.crypt[netid].encrypt_iv,
                    },
                ),
            ]),
        },
        !st.crypt.contains_key(netid) ==> after == st && actions.len() == 0,
{
}

// --- what a client asks for itself ---

proof fn lemma_listened(
    channels: Map<u32, ChannelModel>,
    session: u32,
    ids: Seq<u32>,
    listening: bool,
    id: u32,
)
    ensures
        ({
            let after = listened(channels, session, ids, listening);
            &&& after.dom() =~= channels.dom()
            &&& channels.contains_key(id) ==> {
                &&& after[id].members == channels[id].members
                &&& after[id].name == channels[id].name
                &&& after[id].id == channels[id].id
                &&& after[id].parent == channels[id].parent
                &&& after[id].temporary == channels[id].temporary
                &&& after[id].listeners =~= if !ids.contains(id) {
                    channels[id].listeners
                } else if listening {
                    channels[id].listeners.insert(session)
                } else {
                    channels[id].listeners.remove(session)
                }
            }
        }),
    decreases ids.len(),
{
    if ids.len() > 0 {
        let head = ids.drop_last();
        lemma_listened(channels, session, head, listening, id);
        if ids.contains(id) && ids.last() != id {
            let i = choose|i: int| 0 <= i < ids.len() && ids[i] == id;
            assert(head[i] == id);
        }
        if head.contains(id) {
            let i = choose|i: int| 0 <= i < head.len() && head[i] == id;
            assert(ids[i] == id);
        }
        assert(ids[ids.len() - 1] == ids.last());
    }
}

/// A client moves where it asks to. Where no such channel was there, it is made for good
/// and announced to everyone first. A client that asks for no channel stays where it is.
pub proof fn a_client_moves_where_it_asks(st: VoiceModel, netid: u32, us: UserStateIn, id: u32)
    requires
        channels_wf(st.channels),
    ensures
        ({
            let (after, actions) = user_state_step(st, netid, us);
            &&& us.channel_id is Some ==> (is_in(after.channels, netid, id) <==> id
                == us.channel_id->0)
            &&& us.channel_id is None ==> (is_in(after.channels, netid, id) <==> is_in(
                st.channels,
                netid,
                id,
            ))
            &&& us.channel_id is Some && !st.channels.contains_key(us.channel_id->0) ==> {
                let made = after.channels[us.channel_id->0];
                &&& !made.temporary
                &&& made.name == "Game Channel "@ + decimal(us.channel_id->0 as nat)
                &&& made.members =~= set![netid]
                &&& actions.len() == 2
                &&& actions[0] == (ActionModel::Broadcast {
                    message: OutgoingModel::ChannelState {
                        id: us.channel_id->0,
                        parent: Some(0),
                        name: "Game Channel "@ + decimal(us.channel_id->0 as nat),
                        temporary: false,
                    },
                    skip: None,
                })
            }
            &&& us.channel_id is None || st.channels.contains_key(us.channel_id->0)
                ==> actions.len() == 1
        }),
{
    let joined = match us.channel_id {
        Some(c) => after_join(with_channel(st.channels, c), netid, c),
        None => st.channels,
    };
    let added = listened(joined, netid, us.listening_channel_add@, true);
    lemma_listened(joined, netid, us.listening_channel_add@, true, id);
    lemma_listened(added, netid, us.listening_channel_remove@, false, id);
    if let Some(c) = us.channel_id {
        let with = with_channel(st.channels, c);
        assert(channels_wf(with));
        join_moves_the_session(with, netid, c, id);
        lemma_listened(joined, netid, us.listening_channel_add@, true, c);
        lemma_listened(added, netid, us.listening_channel_remove@, false, c);
        if !st.channels.contains_key(c) {
            assert(with[c].members =~= Set::empty());
            assert(joined[c].members =~= set![netid]);
        }
    }
}

/// The members of every channel but the client itself stay where they are, and the client
/// listens where it asked to and no longer where it asked not to, in that order; who else
/// listens does not change.
pub proof fn a_client_listens_where_it_asks(
    st: VoiceModel,
    netid: u32,
    us: UserStateIn,
    id: u32,
    other: u32,
)
    requires
        channels_wf(st.channels),
        st.channels.contains_key(id),
        us.channel_id is None,
    ensures
        ({
            let after = user_state_step(st, netid, us).0;
            let added = us.listening_channel_add@.contains(id);
            let removed = us.listening_channel_remove@.contains(id);
            let before = st.channels[id];
            &&& after.channels.dom() =~= st.channels.dom()
            &&& after.channels[id].listeners.contains(netid) <==> !removed && (added
                || before.listeners.contains(netid))
            &&& other != netid ==> (after.channels[id].listeners.contains(other)
                <==> before.listeners.contains(other))
            &&& after.channels[id].members == before.members
        }),
{
    let added = listened(st.channels, netid, us.listening_channel_add@, true);
    lemma_listened(st.channels, netid, us.listening_channel_add@, true, id);
    lemma_listened(added, netid, us.listening_channel_remove@, false, id);
}

/// What a client says of itself is kept and repeated to everyone: its deafness and its
/// context are kept where it gave them, its muteness is only repeated, and nothing that
/// is the server's to say (name, mute, deaf) can be set this way.
pub proof fn a_client_speaks_for_itself(st: VoiceModel, netid: u32, us: UserStateIn, other: u32)
    requires
        st.sessions.contains_key(netid),
    ensures
        ({
            let (after, actions) = user_state_step(st, netid, us);
            let s = after.sessions[netid];
            let was = st.sessions[netid];
            &&& after.sessions.dom() =~= st.sessions.dom()
            &&& other != netid ==> after.sessions[other] == st.sessions[other]
            &&& us.self_deaf is Some ==> s.self_deaf == us.self_deaf->0
            &&& us.self_deaf is None ==> s.self_deaf == was.self_deaf
            &&& us.plugin_context is Some ==> s.context == Some(us.plugin_context->0@)
            &&& us.plugin_context is None ==> s.context == was.context
            &&& s.id == was.id && s.name == was.name && s.mute == was.mute && s.deaf == was.deaf
            &&& s.targets == was.targets
            &&& after.crypt == st.crypt && after.peers == st.peers && after.overrides
                == st.overrides
            &&& actions.last() == (ActionModel::Broadcast {
                message: OutgoingModel::UserState(
                    UserStateModel {
                        session: netid,
                        name: None,
                        channel_id: us.channel_id,
                        mute: None,
                        deaf: None,
                        self_mute: us.self_mute,
                        self_deaf: us.self_deaf,
                    },
                ),
                skip: None,
            })
        }),
{
}

// --- channels ---

/// A session that joins a channel leaves only the one it was in: every other session stays
/// where it was, and who listens where does not change. A channel that was not there is made
/// for the time that somebody uses it.
pub proof fn joining_moves_no_one_else(
    m: Map<u32, ChannelModel>,
    session: u32,
    id: u32,
    other: u32,
    at: u32,
)
    requires
        channels_wf(m),
        other != session,
    ensures
        is_in(after_join(m, session, id), other, at) <==> is_in(m, other, at),
        m.contains_key(at) && m[at].listeners.contains(other) ==> after_join(
            m,
            session,
            id,
        ).contains_key(at) && after_join(m, session, id)[at].listeners.contains(other),
        !m.contains_key(id) ==> after_join(m, session, id)[id].temporary && after_join(
            m,
            session,
            id,
        )[id].members =~= set![session] && after_join(m, session, id)[id].listeners
            =~= Set::empty(),
{
    let left = crate::channel::after_leave(m, session);
    if crate::channel::channel_of(m, session) is Some {
        let was = crate::channel::channel_of(m, session)->0;
        assert(is_in(m, session, was));
        if m[was].members.contains(other) {
            assert(m[was].members.remove(session).contains(other));
        }
    }
    if !m.contains_key(id) {
        assert(!left.contains_key(id));
        assert(Set::<u32>::empty().insert(session) =~= set![session]);
    }
}

/// A session that leaves leaves everyone else where they are and listening.
pub proof fn dropping_moves_no_one_else(
    m: Map<u32, ChannelModel>,
    session: u32,
    other: u32,
    at: u32,
)
    requires
        channels_wf(m),
        other != session,
    ensures
        ({
            let after = crate::channel::after_drop(m, session);
            &&& is_in(after, other, at) <==> is_in(m, other, at)
            &&& m.contains_key(at) && m[at].listeners.contains(other) ==> after.contains_key(at)
                && after[at].listeners.contains(other)
            &&& m.contains_key(at) && !m[at].temporary ==> after.contains_key(at)
        }),
{
    let left = crate::channel::after_leave(m, session);
    if crate::channel::channel_of(m, session) is Some {
        let was = crate::channel::channel_of(m, session)->0;
        assert(is_in(m, session, was));
        if m[was].members.contains(other) {
            assert(m[was].members.remove(session).contains(other));
        }
    }
    if left.contains_key(at) && left[at].listeners.contains(other) {
        assert(left[at].listeners.remove(session).contains(other));
    }
}

// --- whisper targets ---

/// A target holds the sessions and channels of its entries, entry after entry: of two
/// lists of entries, first those of the one, then those of the other.
pub proof fn target_entries_follow_each_other(a: Seq<TargetEntry>, b: Seq<TargetEntry>)
    ensures
        entry_sessions(a + b) == entry_sessions(a) + entry_sessions(b),
        entry_channels(a + b) == entry_channels(a) + entry_channels(b),
    decreases b.len(),
{
    if b.len() == 0 {
        assert(a + b =~= a);
        assert(entry_sessions(a) + entry_sessions(b) =~= entry_sessions(a));
        assert(entry_channels(a) + entry_channels(b) =~= entry_channels(a));
    } else {
        target_entries_follow_each_other(a, b.drop_last());
        assert((a + b).drop_last() =~= a + b.drop_last());
        assert((a + b).last() == b.last());
        assert(entry_sessions(a + b) =~= entry_sessions(a) + entry_sessions(b));
        assert(entry_channels(a + b) =~= entry_channels(a) + entry_channels(b));
    }
}

/// A target with an id from 1 to 30 is set to what its entry says: the sessions in their
/// order, and the channel with its links and children only where they were asked for. No
/// other target and no other session changes.
pub proof fn a_target_is_set_as_asked(
    st: VoiceModel,
    netid: u32,
    id: u32,
    entry: TargetEntry,
    other: u8,
)
    requires
        st.sessions.contains_key(netid),
        1 <= id <= 30,
    ensures
        ({
            let after = voice_target_step(st, netid, Some(id), seq![entry]);
            let targets = after.sessions[netid].targets;
            &&& targets.contains_key(id as u8)
            &&& targets[id as u8].sessions == entry.session@
            &&& entry.channel_id is None ==> targets[id as u8].channels.len() == 0
            &&& entry.channel_id is Some ==> {
                let channels = targets[id as u8].channels;
                &&& channels.len() == 1
                &&& channels[0].channel_id == entry.channel_id->0
                &&& channels[0].links == (entry.links == Some(true))
                &&& channels[0].children == (entry.children == Some(true))
            }
            &&& other != id ==> (targets.contains_key(other)
                <==> st.sessions[netid].targets.contains_key(other)) && targets[other]
                == st.sessions[netid].targets[other]
        }),
{
    reveal_with_fuel(entry_sessions, 2);
    reveal_with_fuel(entry_channels, 2);
    let one = seq![entry];
    assert(one.drop_last() =~= Seq::empty());
    assert(entry_sessions(one) =~= entry.session@);
}

/// A target request without entries clears the target; one with an id that is no whisper
/// id sets nothing; and neither touches anything but the targets of the client.
pub proof fn other_target_requests_set_nothing(
    st: VoiceModel,
    netid: u32,
    id: Option<u32>,
    entries: Seq<TargetEntry>,
    other: u32,
    t: u8,
)
    ensures
        ({
            let after = voice_target_step(st, netid, id, entries);
            &&& after.channels == st.channels && after.crypt == st.crypt && after.peers
                == st.peers && after.overrides == st.overrides
            &&& other != netid ==> after.sessions[other] == st.sessions[other]
            &&& after.sessions.dom() =~= st.sessions.dom()
            &&& st.sessions.contains_key(netid) ==> {
                let s = after.sessions[netid];
                let was = st.sessions[netid];
                &&& s.id == was.id && s.name == was.name && s.mute == was.mute && s.deaf
                    == was.deaf && s.self_deaf == was.self_deaf && s.context == was.context
                &&& id is Some && id->0 <= 255 && entries.len() == 0 ==> !s.targets.contains_key(
                    id->0 as u8,
                )
                &&& id is Some && id->0 <= 255 && entries.len() > 0 && !(1 <= id->0 <= 30)
                    ==> s.targets == was.targets
                &&& id is Some && t != id->0 ==> (s.targets.contains_key(t)
                    <==> was.targets.contains_key(t)) && (was.targets.contains_key(t)
                    ==> s.targets[t] == was.targets[t])
            }
            &&& id is None || id->0 > 255 ==> after == st
        }),
{
}

// --- voice ---

/// No session is in the list twice.
pub open spec fn each_once(recipients: Seq<Recipient>) -> bool {
    forall|i: int, j: int|
        0 <= i < j < recipients.len() ==> (#[trigger] recipients[i]).session != (
        #[trigger] recipients[j]).session
}

/// Every recipient gets the packet once, in order: sealed over UDP with the next nonce of
/// its session where its address and key are known, through its control connection
/// otherwise. It starts with the header as the speaker sent it, then the speaker's id, then
/// what the speaker sent, with the position only for those who may have it.
pub proof fn everyone_gets_the_packet_once(
    st: VoiceModel,
    speaker: u32,
    packet: VoicePacket,
    recipients: Seq<Recipient>,
    i: int,
)
    requires
        each_once(recipients),
        0 <= i < recipients.len(),
        packet.wf(),
    ensures
        ({
            let (after, actions) = delivered(st, speaker, packet, recipients);
            let r = recipients[i];
            let sent = seq![packet.payload@[0]] + pds_encode(speaker as u64)
                + if r.with_position {
                packet.payload@.subrange(1, packet.payload@.len() as int)
            } else {
                packet.payload@.subrange(1, packet.audio_end as int)
            };
            &&& actions.len() == recipients.len()
            &&& actions[i] == if st.peers.contains_key(r.session) && st.crypt.contains_key(
                r.session,
            ) {
                ActionModel::Datagram {
                    peer: st.peers[r.session],
                    bytes: seal(
                        st.crypt[r.session].key,
                        le_inc(st.crypt[r.session].encrypt_iv),
                        sent,
                    ),
                }
            } else {
                ActionModel::Control {
                    session: r.session,
                    message: OutgoingModel::UdpTunnel { packet: sent },
                }
            }
        }),
    decreases recipients.len(),
{
    let head = recipients.drop_last();
    assert forall|a: int, b: int| 0 <= a < b < head.len() implies (#[trigger] head[a]).session != (
    #[trigger] head[b]).session by {
        assert(head[a] == recipients[a] && head[b] == recipients[b]);
    }
    lemma_delivered_length(st, speaker, packet, head);
    assert(packet.payload@.skip(1) =~= packet.payload@.subrange(1, packet.payload@.len() as int));
    if i < head.len() {
        everyone_gets_the_packet_once(st, speaker, packet, head, i);
        assert(head[i] == recipients[i]);
    } else {
        assert forall|a: int| 0 <= a < head.len() implies (#[trigger] head[a]).session
            != recipients[i].session by {
            assert(head[a] == recipients[a]);
        }
        only_the_nonces_of_recipients_move(st, speaker, packet, head, recipients[i].session);
    }
}

proof fn lemma_delivered_length(
    st: VoiceModel,
    speaker: u32,
    packet: VoicePacket,
    recipients: Seq<Recipient>,
)
    ensures
        delivered(st, speaker, packet, recipients).1.len() == recipients.len(),
    decreases recipients.len(),
{
    if recipients.len() > 0 {
        lemma_delivered_length(st, speaker, packet, recipients.drop_last());
    }
}

/// Delivering a packet moves the sending nonces of those it is sealed for, and nothing
/// else of the server's state.
pub proof fn only_the_nonces_of_recipients_move(
    st: VoiceModel,
    speaker: u32,
    packet: VoicePacket,
    recipients: Seq<Recipient>,
    other: u32,
)
    ensures
        ({
            let after = delivered(st, speaker, packet, recipients).0;
            &&& after.sessions == st.sessions && after.channels == st.channels && after.peers
                == st.peers && after.overrides == st.overrides
            &&& after.crypt.dom() =~= st.crypt.dom()
            &&& st.crypt.contains_key(other) ==> {
                &&& after.crypt[other].key == st.crypt[other].key
                &&& after.crypt[other].decrypt_iv == st.crypt[other].decrypt_iv
                &&& after.crypt[other].history == st.crypt[other].history
                &&& after.crypt[other].good == st.crypt[other].good
                &&& after.crypt[other].late == st.crypt[other].late
                &&& after.crypt[other].lost == st.crypt[other].lost
                &&& (forall|i: int|
                    0 <= i < recipients.len() ==> (#[trigger] recipients[i]).session != other)
                    || !st.peers.contains_key(other) ==> after.crypt[other] == st.crypt[other]
            }
        }),
    decreases recipients.len(),
{
    if recipients.len() > 0 {
        let head = recipients.drop_last();
        only_the_nonces_of_recipients_move(st, speaker, packet, head, other);
        if forall|i: int|
            0 <= i < recipients.len() ==> (#[trigger] recipients[i]).session != other {
            assert forall|i: int| 0 <= i < head.len() implies (#[trigger] head[i]).session
                != other by {
                assert(head[i] == recipients[i]);
            }
            assert(recipients[recipients.len() - 1].session != other);
        }
    }
}

// --- datagrams ---

/// A probe is twelve bytes of which the first four are zero, and its answer is the version,
/// the eight bytes that it came with, the number of users, room for 128 of them and the
/// bandwidth, each number in four bytes with the highest first.
pub proof fn a_probe_is_answered(datagram: Seq<u8>, users: nat)
    requires
        users < 0x1_0000_0000,
    ensures
        is_probe(datagram) <==> datagram.len() == 12 && datagram[0] == 0 && datagram[1] == 0
            && datagram[2] == 0 && datagram[3] == 0,
        is_probe(datagram) ==> {
            let reply = probe_reply(users, datagram.skip(4));
            &&& reply.len() == 24
            &&& reply[0] == 0 && reply[1] == 1 && reply[2] == 4 && reply[3] == 0
            &&& forall|i: int| 0 <= i < 8 ==> #[trigger] reply[4 + i] == datagram[4 + i]
            &&& reply[12] * 0x100_0000 + reply[13] * 0x1_0000 + reply[14] * 0x100 + reply[15]
                == users
            &&& reply[16] == 0 && reply[17] == 0 && reply[18] == 0 && reply[19] == 128
            &&& reply[20] == 0 && reply[21] == 1 && reply[22] == 0xf4 && reply[23] == 0
        },
{
    if datagram.len() == 12 && datagram[0] == 0 && datagram[1] == 0 && datagram[2] == 0
        && datagram[3] == 0 {
        assert(datagram.take(4) =~= seq![0u8, 0, 0, 0]);
    }
    if is_probe(datagram) {
        let four = datagram.take(4);
        assert(four[0] == 0 && four[1] == 0 && four[2] == 0 && four[3] == 0);
        assert(four[0] == datagram[0] && four[1] == datagram[1] && four[2] == datagram[2]
            && four[3] == datagram[3]);
        reveal_with_fuel(be_bytes, 5);
        let ident = datagram.skip(4);
        let reply = probe_reply(users, ident);
        assert(ident.len() == 8);
        assert forall|i: int| 0 <= i < 8 implies #[trigger] reply[4 + i] == datagram[4 + i] by {
            assert(reply[4 + i] == ident[i]);
        }
    }
}

/// A datagram from the address of a session is that session's or no one's; which session
/// an unknown address belongs to is the first, by net id, that can read it. Whoever it is
/// can read it.
pub proof fn a_datagram_is_from_who_can_read_it(
    st: VoiceModel,
    peer: Peer,
    datagram: Seq<u8>,
    s: u32,
)
    requires
        crate::server::peers_distinct(st.peers),
        st.crypt.dom().finite(),
    ensures
        datagram_sender(st, peer, datagram) == Some(s) ==> st.crypt.contains_key(s) && packet_taken(
            st.crypt[s],
            datagram,
        ),
        st.peers.contains_key(s) && st.peers[s] == peer ==> (datagram_sender(st, peer, datagram)
            == Some(s) <==> st.crypt.contains_key(s) && packet_taken(st.crypt[s], datagram)),
        st.peers.contains_key(s) && st.peers[s] == peer ==> datagram_sender(st, peer, datagram)
            is None || datagram_sender(st, peer, datagram) == Some(s),
        (forall|t: u32| st.peers.contains_key(t) ==> #[trigger] st.peers[t] != peer) ==> (
        datagram_sender(st, peer, datagram) == Some(s) <==> st.crypt.contains_key(s)
            && packet_taken(st.crypt[s], datagram) && forall|t: u32|
            t < s && #[trigger] st.crypt.contains_key(t) ==> !packet_taken(st.crypt[t], datagram)),
{
    crate::ordered::finite_set_has_a_listing(st.crypt.dom());
    let ids = listing_of(st.crypt.dom());
    lemma_first_taker_is_least(st, ids, datagram, s);
    assert forall|i: int| 0 <= i < ids.len() implies st.crypt.contains_key(#[trigger] ids[i]) by {
        assert(ids.contains(ids[i]));
    }
    if st.crypt.contains_key(s) {
        assert(ids.contains(s));
    }
    if first_taker(st.crypt, ids, datagram) == Some(s) {
        assert(st.crypt.contains_key(s));
    }
    assert forall|t: u32| t < s && #[trigger] st.crypt.contains_key(t) implies ids.contains(t) by {}
}

proof fn lemma_first_taker_is_least(st: VoiceModel, ids: Seq<u32>, datagram: Seq<u8>, s: u32)
    requires
        crate::ordered::ascending(ids),
    ensures
        first_taker(st.crypt, ids, datagram) == Some(s) <==> ids.contains(s) && packet_taken(
            st.crypt[s],
            datagram,
        ) && forall|t: u32|
            t < s && #[trigger] ids.contains(t) ==> !packet_taken(st.crypt[t], datagram),
    decreases ids.len(),
{
    if ids.len() > 0 {
        let head = ids.drop_last();
        let taker = first_taker(st.crypt, head, datagram);
        lemma_first_taker_is_least(st, head, datagram, s);
        assert(forall|x: u32| #[trigger] ids.contains(x) <==> head.contains(x) || x == ids.last())
            by {
            assert forall|x: u32| #[trigger] ids.contains(x) implies head.contains(x) || x
                == ids.last() by {
                let i = choose|i: int| 0 <= i < ids.len() && ids[i] == x;
                if i < head.len() {
                    assert(head[i] == x);
                }
            }
            assert forall|x: u32| head.contains(x) implies ids.contains(x) by {
                let i = choose|i: int| 0 <= i < head.len() && head[i] == x;
                assert(ids[i] == x);
            }
            assert(ids[ids.len() - 1] == ids.last());
        }
        assert forall|x: u32| head.contains(x) implies x < ids.last() by {
            let i = choose|i: int| 0 <= i < head.len() && head[i] == x;
            assert(ids[i] == x);
        }
        if taker is Some {
            lemma_first_taker_is_least(st, head, datagram, taker->0);
        }
        assert(forall|t: u32| head.contains(t) ==> ids.contains(t));
        if taker is None {
            assert forall|t: u32| #[trigger] head.contains(t) implies !packet_taken(
                st.crypt[t],
                datagram,
            ) by {
                lemma_no_taker(st, head, datagram, t);
            }
        }
    }
}

proof fn lemma_no_taker(st: VoiceModel, ids: Seq<u32>, datagram: Seq<u8>, t: u32)
    requires
        first_taker(st.crypt, ids, datagram) is None,
        ids.contains(t),
    ensures
        !packet_taken(st.crypt[t], datagram),
    decreases ids.len(),
{
    if ids.last() != t {
        let i = choose|i: int| 0 <= i < ids.len() && ids[i] == t;
        assert(ids.drop_last()[i] == t);
        lemma_no_taker(st, ids.drop_last(), datagram, t);
    }
}

/// A datagram that was taken binds the session to the address it came from and moves on
/// that session's receiving side, and touches no one else.
pub proof fn a_taken_datagram_binds_its_address(
    st: VoiceModel,
    peer: Peer,
    s: u32,
    datagram: Seq<u8>,
    other: u32,
)
    ensures
        ({
            let after = datagram_taken(st, peer, s, datagram);
            &&& after.peers.contains_key(s) && after.peers[s] == peer
            &&& after.crypt[s] == decrypt_step(st.crypt[s], datagram).0
            &&& other != s ==> after.crypt[other] == st.crypt[other] && after.peers[other]
                == st.peers[other] && (after.peers.contains_key(other) <==> st.peers.contains_key(
                other,
            ))
            &&& after.sessions == st.sessions && after.channels == st.channels
                && after.overrides == st.overrides
        }),
{
}

/// A player that leaves is announced to everyone, once, and the others keep all that is
/// theirs; one that never connected leaves nothing to do.
pub proof fn a_leaving_player_is_announced(st: VoiceModel, netid: u32, other: u32)
    ensures
        ({
            let (after, actions) = dropped(st, netid);
            &&& st.sessions.contains_key(netid) ==> actions == seq![
                ActionModel::Broadcast {
                    message: OutgoingModel::UserRemove { session: netid },
                    skip: None,
                },
            ]
            &&& !st.sessions.contains_key(netid) ==> after == st && actions.len() == 0
            &&& other != netid ==> {
                &&& after.sessions.contains_key(other) <==> st.sessions.contains_key(other)
                &&& after.sessions[other] == st.sessions[other]
                &&& after.crypt.contains_key(other) <==> st.crypt.contains_key(other)
                &&& after.crypt[other] == st.crypt[other]
                &&& after.peers.contains_key(other) <==> st.peers.contains_key(other)
                &&& after.peers[other] == st.peers[other]
                &&& after.overrides.contains_key(other) <==> st.overrides.contains_key(other)
                &&& after.overrides[other] == st.overrides[other]
            }
        }),
{
}

} // verus!
