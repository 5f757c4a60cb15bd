//! The voice server as a state machine: control messages, voice datagrams and the
//! script-facing surface go in, state changes and actions come out.
//!
//! Sockets, TLS, protobuf and random numbers stay with the caller, which performs
//! the [`Action`]s in order. Peers are told apart by their [`Peer`] address.
use crate::channel::{
    after_drop, after_join, after_listening, channels_wf, dropped_session_is_nowhere, fresh_channel,
    ChannelModel, ChannelStore, ROOT_CHANNEL,
};
use crate::crypto::{
    decrypt_step, fresh_crypt, le_inc, packet_taken, seal, sealed_packet,
    sealed_packet_opens_in_order, CryptModel, CryptState, CryptTable,
};
use crate::framing::MessageType;
use crate::ordered::{lemma_is_listing, listing_of, lists, IdMap};
use crate::pds::{be_bytes, pds_encode};
use crate::router::{unculled_recipients, NoCulling, Recipient};
use crate::session::{fresh_session, netid_of, parse_netid, SessionModel, SessionRegistry};
use crate::target::{after_set, ChannelTarget, Target, TargetModel};
use crate::voice::{voice_of, VoicePacket};
use crate::{packet_type, VoicePacketType, VoiceTargetKind, PROTOCOL_VERSION};
use vstd::prelude::*;

verus! {

/// The address of a UDP peer.
#[derive(Debug, Clone, Copy, PartialEq, Eq, Structural)]
pub struct Peer {
    pub v6: bool,
    pub ip: u128,
    pub port: u16,
    pub flowinfo: u32,
    pub scope_id: u32,
}

/// A client's request to change its own state. Absent fields stay as they are.
#[derive(Debug, Clone)]
pub struct UserStateIn {
    pub self_mute: Option<bool>,
    pub self_deaf: Option<bool>,
    pub plugin_context: Option<Vec<u8>>,
    pub channel_id: Option<u32>,
    pub listening_channel_add: Vec<u32>,
    pub listening_channel_remove: Vec<u32>,
}

/// One entry of a whisper target as the client sends it.
#[derive(Debug, Clone)]
pub struct TargetEntry {
    pub session: Vec<u32>,
    pub channel_id: Option<u32>,
    pub links: Option<bool>,
    pub children: Option<bool>,
}

/// A control message as it comes in, decoded.
#[derive(Debug, Clone)]
pub enum Incoming {
    Version,
    Authenticate { username: Option<String> },
    Ping { timestamp: Option<u64> },
    UserState(UserStateIn),
    VoiceTarget { id: Option<u32>, targets: Vec<TargetEntry> },
    UdpTunnel { packet: Vec<u8> },
    CryptSetup { client_nonce: Option<Vec<u8>> },
    PermissionQuery { channel_id: Option<u32> },
    /// A message of the given type whose payload did not decode.
    Malformed(MessageType),
    /// Any other message.
    Other,
}

/// A user state as it goes out. Absent fields are left out of the message.
#[derive(Debug, Clone)]
pub struct UserStateOut {
    pub session: u32,
    pub name: Option<String>,
    pub channel_id: Option<u32>,
    pub mute: Option<bool>,
    pub deaf: Option<bool>,
    pub self_mute: Option<bool>,
    pub self_deaf: Option<bool>,
}

/// A control message to be encoded and sent.
#[derive(Debug, Clone)]
pub enum Outgoing {
    /// The server's version and release; the operating system is for the caller to add.
    Version { version: u32, release: String },
    Ping { timestamp: Option<u64>, good: u32, late: u32, lost: u32 },
    Reject { reason: String },
    /// Fresh key material, or the server nonce alone.
    CryptSetup { material: Option<([u8; 16], [u8; 16])>, server_nonce: [u8; 16] },
    CodecVersion { alpha: i32, beta: i32, prefer_alpha: bool, opus: bool },
    ChannelState { id: u32, parent: Option<u32>, name: String, temporary: bool },
    UserState(UserStateOut),
    ServerSync { session: u32, max_bandwidth: u32, welcome_text: String, permissions: u64 },
    UserRemove { session: u32 },
    UdpTunnel { packet: Vec<u8> },
    PermissionQuery { channel_id: Option<u32>, permissions: u32, flush: bool },
}

/// What the caller has to do.
#[derive(Debug, Clone)]
pub enum Action {
    /// Send to the client whose message this was.
    Reply(Outgoing),
    /// Send to every connected client but `skip`.
    Broadcast { message: Outgoing, skip: Option<u32> },
    /// Send to the client of one session.
    Control { session: u32, message: Outgoing },
    /// Send over UDP.
    Datagram { peer: Peer, bytes: Vec<u8> },
}

/// What a [`UserStateOut`] says.
#[verifier::ext_equal]
pub struct UserStateModel {
    pub session: u32,
    pub name: Option<Seq<char>>,
    pub channel_id: Option<u32>,
    pub mute: Option<bool>,
    pub deaf: Option<bool>,
    pub self_mute: Option<bool>,
    pub self_deaf: Option<bool>,
}

impl View for UserStateOut {
    type V = UserStateModel;

    open spec fn view(&self) -> UserStateModel {
        UserStateModel {
            session: self.session,
            name: match self.name {
                Some(n) => Some(n@),
                None => None,
            },
            channel_id: self.channel_id,
            mute: self.mute,
            deaf: self.deaf,
            self_mute: self.self_mute,
            self_deaf: self.self_deaf,
        }
    }
}

/// What an [`Outgoing`] message says.
#[verifier::ext_equal]
pub enum OutgoingModel {
    Version { version: u32, release: Seq<char> },
    Ping { timestamp: Option<u64>, good: u32, late: u32, lost: u32 },
    Reject { reason: Seq<char> },
    CryptSetup { material: Option<(Seq<u8>, Seq<u8>)>, server_nonce: Seq<u8> },
    CodecVersion { alpha: i32, beta: i32, prefer_alpha: bool, opus: bool },
    ChannelState { id: u32, parent: Option<u32>, name: Seq<char>, temporary: bool },
    UserState(UserStateModel),
    ServerSync { session: u32, max_bandwidth: u32, welcome_text: Seq<char>, permissions: u64 },
    UserRemove { session: u32 },
    UdpTunnel { packet: Seq<u8> },
    PermissionQuery { channel_id: Option<u32>, permissions: u32, flush: bool },
}

impl View for Outgoing {
    type V = OutgoingModel;

    open spec fn view(&self) -> OutgoingModel {
        match *self {
            Outgoing::Version { version, release } => OutgoingModel::Version {
                version,
                release: release@,
            },
            Outgoing::Ping { timestamp, good, late, lost } => OutgoingModel::Ping {
                timestamp,
                good,
                late,
                lost,
            },
            Outgoing::Reject { reason } => OutgoingModel::Reject { reason: reason@ },
            Outgoing::CryptSetup { material, server_nonce } => OutgoingModel::CryptSetup {
                material: match material {
                    Some((key, client_nonce)) => Some((key@, client_nonce@)),
                    None => None,
                },
                server_nonce: server_nonce@,
            },
            Outgoing::CodecVersion { alpha, beta, prefer_alpha, opus } => OutgoingModel::CodecVersion {
                alpha,
                beta,
                prefer_alpha,
                opus,
            },
            Outgoing::ChannelState { id, parent, name, temporary } => OutgoingModel::ChannelState {
                id,
                parent,
                name: name@,
                temporary,
            },
            Outgoing::UserState(us) => OutgoingModel::UserState(us@),
            Outgoing::ServerSync { session, max_bandwidth, welcome_text, permissions } =>
                OutgoingModel::ServerSync {
                    session,
                    max_bandwidth,
                    welcome_text: welcome_text@,
                    permissions,
                },
            Outgoing::UserRemove { session } => OutgoingModel::UserRemove { session },
            Outgoing::UdpTunnel { packet } => OutgoingModel::UdpTunnel { packet: packet@ },
            Outgoing::PermissionQuery { channel_id, permissions, flush } =>
                OutgoingModel::PermissionQuery { channel_id, permissions, flush },
        }
    }
}

/// What an [`Action`] asks for.
#[verifier::ext_equal]
pub enum ActionModel {
    Reply(OutgoingModel),
    Broadcast { message: OutgoingModel, skip: Option<u32> },
    Control { session: u32, message: OutgoingModel },
    Datagram { peer: Peer, bytes: Seq<u8> },
}

impl View for Action {
    type V = ActionModel;

    open spec fn view(&self) -> ActionModel {
        match *self {
            Action::Reply(message) => ActionModel::Reply(message@),
            Action::Broadcast { message, skip } => ActionModel::Broadcast { message: message@, skip },
            Action::Control { session, message } => ActionModel::Control {
                session,
                message: message@,
            },
            Action::Datagram { peer, bytes } => ActionModel::Datagram { peer, bytes: bytes@ },
        }
    }
}

/// The actions, as they are asked for.
pub open spec fn action_models(actions: Seq<Action>) -> Seq<ActionModel> {
    actions.map_values(|a: Action| a@)
}

/// Everything the voice server knows.
#[verifier::ext_equal]
pub struct VoiceModel {
    pub sessions: Map<u32, SessionModel>,
    pub channels: Map<u32, ChannelModel>,
    pub crypt: Map<u32, CryptModel>,
    pub peers: Map<u32, Peer>,
    pub overrides: Map<u32, Seq<u32>>,
}

/// No two sessions share a UDP address.
pub open spec fn peers_distinct(peers: Map<u32, Peer>) -> bool {
    forall|a: u32, b: u32| #![trigger peers[a], peers[b]]
        peers.contains_key(a) && peers.contains_key(b) && peers[a] == peers[b] ==> a == b
}

/// The session bound to a UDP address.
pub open spec fn bound_session(peers: Map<u32, Peer>, peer: Peer) -> Option<u32> {
    if exists|s: u32| peers.contains_key(s) && #[trigger] peers[s] == peer {
        Some(choose|s: u32| peers.contains_key(s) && #[trigger] peers[s] == peer)
    } else {
        None
    }
}

/// All mutable voice state. The caller keeps it behind one lock.
pub struct VoiceState {
    pub sessions: SessionRegistry,
    pub channels: ChannelStore,
    /// Per-session crypt state (created when a client authenticates).
    pub crypt: CryptTable,
    /// Last seen UDP address per session.
    pub udp_addr: IdMap<Peer>,
    /// `NETWORK_SET_VOICE_PROXIMITY_OVERRIDE` per player, as the bits of its `f32`s.
    pub proximity_overrides: IdMap<[u32; 3]>,
}

impl View for VoiceState {
    type V = VoiceModel;

    open spec fn view(&self) -> VoiceModel {
        VoiceModel {
            sessions: self.sessions@,
            channels: self.channels@,
            crypt: self.crypt@,
            peers: self.udp_addr@,
            overrides: self.proximity_overrides@.map_values(|p: [u32; 3]| p@),
        }
    }
}

/// What one control message comes to.
#[derive(Debug)]
pub struct Outcome {
    /// Whether the connection stays open.
    pub keep: bool,
    /// The session of the connection from now on.
    pub session: Option<u32>,
    pub actions: Vec<Action>,
}

// --- what the server says of itself ---

/// The bandwidth that a client may use, in bits per second.
pub const MAX_BANDWIDTH: u32 = 128_000;

/// Every permission: the game has no access lists.
pub const ALL_PERMISSIONS: u32 = 0x0f07_ffff;

/// The CELT bitstream that the codec announcement names; clients use Opus.
pub const CELT_ALPHA: i32 = -2147483637;

/// The server's version.
pub open spec fn own_version() -> OutgoingModel {
    OutgoingModel::Version { version: PROTOCOL_VERSION, release: "baston-voice"@ }
}

/// The codec announcement: Opus.
pub open spec fn opus_only() -> OutgoingModel {
    OutgoingModel::CodecVersion { alpha: CELT_ALPHA, beta: 0, prefer_alpha: true, opus: true }
}

/// The end of the login burst.
pub open spec fn synced(session: u32) -> OutgoingModel {
    OutgoingModel::ServerSync {
        session,
        max_bandwidth: MAX_BANDWIDTH,
        welcome_text: "BASTON voice"@,
        permissions: ALL_PERMISSIONS as u64,
    }
}

/// The answer to a question for permissions.
pub open spec fn permitted(channel_id: Option<u32>) -> OutgoingModel {
    OutgoingModel::PermissionQuery { channel_id, permissions: ALL_PERMISSIONS, flush: false }
}

// --- what each message does ---

/// The announcement of a channel made by a script or a client.
pub open spec fn announced(channel: ChannelModel) -> OutgoingModel {
    OutgoingModel::ChannelState {
        id: channel.id,
        parent: Some(channel.parent),
        name: channel.name,
        temporary: false,
    }
}

pub open spec fn to_all(message: OutgoingModel) -> ActionModel {
    ActionModel::Broadcast { message, skip: None }
}

/// A user state that says nothing yet.
pub open spec fn bare_user_state(session: u32) -> UserStateModel {
    UserStateModel {
        session,
        name: None,
        channel_id: None,
        mute: None,
        deaf: None,
        self_mute: None,
        self_deaf: None,
    }
}

/// The state without the session, and what is announced: nothing where the session is
/// unknown.
pub open spec fn dropped(st: VoiceModel, netid: u32) -> (VoiceModel, Seq<ActionModel>) {
    if st.sessions.contains_key(netid) {
        (
            VoiceModel {
                sessions: st.sessions.remove(netid),
                channels: after_drop(st.channels, netid),
                crypt: st.crypt.remove(netid),
                peers: st.peers.remove(netid),
                overrides: st.overrides.remove(netid),
            },
            seq![to_all(OutgoingModel::UserRemove { session: netid })],
        )
    } else {
        (st, Seq::empty())
    }
}

/// The session after the self-deafness and the context of a request were taken over.
pub open spec fn user_state_session(s: SessionModel, us: UserStateIn) -> SessionModel {
    SessionModel {
        self_deaf: match us.self_deaf {
            Some(v) => v,
            None => s.self_deaf,
        },
        context: match us.plugin_context {
            Some(c) => Some(c@),
            None => s.context,
        },
        ..s
    }
}

/// The subscriptions of a request, one after the other.
pub open spec fn listened(
    channels: Map<u32, ChannelModel>,
    session: u32,
    ids: Seq<u32>,
    listening: bool,
) -> Map<u32, ChannelModel>
    decreases ids.len(),
{
    if ids.len() == 0 {
        channels
    } else {
        after_listening(
            listened(channels, session, ids.drop_last(), listening),
            session,
            ids.last(),
            listening,
        )
    }
}

/// The channels with the one that a client enters made where it is missing.
pub open spec fn with_channel(channels: Map<u32, ChannelModel>, id: u32) -> Map<u32, ChannelModel> {
    if channels.contains_key(id) {
        channels
    } else {
        channels.insert(id, fresh_channel(id, false))
    }
}

/// What a user state request does.
pub open spec fn user_state_step(st: VoiceModel, netid: u32, us: UserStateIn) -> (
    VoiceModel,
    Seq<ActionModel>,
) {
    let known = st.sessions.contains_key(netid);
    let joined = match us.channel_id {
        Some(id) => after_join(with_channel(st.channels, id), netid, id),
        None => st.channels,
    };
    let echo = UserStateModel {
        channel_id: us.channel_id,
        self_mute: if known {
            us.self_mute
        } else {
            None
        },
        self_deaf: if known {
            us.self_deaf
        } else {
            None
        },
        ..bare_user_state(netid)
    };
    let announce = match us.channel_id {
        Some(id) if !st.channels.contains_key(id) => seq![to_all(announced(fresh_channel(id, false)))],
        _ => Seq::empty(),
    };
    (
        VoiceModel {
            sessions: if known {
                st.sessions.insert(netid, user_state_session(st.sessions[netid], us))
            } else {
                st.sessions
            },
            channels: listened(
                listened(joined, netid, us.listening_channel_add@, true),
                netid,
                us.listening_channel_remove@,
                false,
            ),
            ..st
        },
        announce.push(to_all(OutgoingModel::UserState(echo))),
    )
}

/// The explicit sessions of a target request, entry by entry.
pub open spec fn entry_sessions(entries: Seq<TargetEntry>) -> Seq<u32>
    decreases entries.len(),
{
    if entries.len() == 0 {
        Seq::empty()
    } else {
        entry_sessions(entries.drop_last()) + entries.last().session@
    }
}

/// The channels of a target request, entry by entry. A missing flag is off.
pub open spec fn entry_channels(entries: Seq<TargetEntry>) -> Seq<ChannelTarget>
    decreases entries.len(),
{
    if entries.len() == 0 {
        Seq::empty()
    } else {
        let head = entry_channels(entries.drop_last());
        match entries.last().channel_id {
            Some(channel_id) => head.push(
                ChannelTarget {
                    channel_id,
                    links: entries.last().links == Some(true),
                    children: entries.last().children == Some(true),
                },
            ),
            None => head,
        }
    }
}

/// What a whisper target request does: no entries clear the target, others set it.
pub open spec fn voice_target_step(
    st: VoiceModel,
    netid: u32,
    id: Option<u32>,
    entries: Seq<TargetEntry>,
) -> VoiceModel {
    if id is Some && id->0 <= 255 && st.sessions.contains_key(netid) {
        let s = st.sessions[netid];
        let targets = if entries.len() == 0 {
            s.targets.remove(id->0 as u8)
        } else {
            after_set(
                s.targets,
                id->0 as u8,
                TargetModel {
                    sessions: entry_sessions(entries),
                    channels: entry_channels(entries),
                },
            )
        };
        VoiceModel { sessions: st.sessions.insert(netid, SessionModel { targets, ..s }), ..st }
    } else {
        st
    }
}

/// Random material drawn for a new session: key, server nonce and client nonce.
pub type Material = ([u8; 16], [u8; 16], [u8; 16]);

/// The state once `netid` has authenticated: known, in the Root channel, with fresh
/// crypt state.
pub open spec fn authenticated(st: VoiceModel, netid: u32, username: Seq<char>, m: Material) -> VoiceModel {
    VoiceModel {
        sessions: if st.sessions.contains_key(netid) {
            st.sessions
        } else {
            st.sessions.insert(netid, fresh_session(netid, username))
        },
        channels: after_join(st.channels, netid, ROOT_CHANNEL),
        crypt: st.crypt.insert(
            netid,
            fresh_crypt(m.0@, m.1@, m.2@),
        ),
        ..st
    }
}

/// A channel as the login burst announces it.
pub open spec fn burst_channel(channel: ChannelModel) -> ActionModel {
    ActionModel::Reply(
        OutgoingModel::ChannelState {
            id: channel.id,
            parent: if channel.id != ROOT_CHANNEL {
                Some(channel.parent)
            } else {
                None
            },
            name: channel.name,
            temporary: channel.temporary,
        },
    )
}

/// A session as the login burst announces it.
pub open spec fn burst_user(s: SessionModel, channel: u32) -> ActionModel {
    ActionModel::Reply(
        OutgoingModel::UserState(
            UserStateModel {
                session: s.id,
                name: Some(s.name),
                channel_id: Some(channel),
                mute: Some(s.mute),
                deaf: Some(s.deaf),
                self_mute: None,
                self_deaf: Some(s.self_deaf),
            },
        ),
    )
}

/// The members of one channel that have a session.
pub open spec fn burst_members(
    sessions: Map<u32, SessionModel>,
    members: Seq<u32>,
    channel: u32,
) -> Seq<ActionModel>
    decreases members.len(),
{
    if members.len() == 0 {
        Seq::empty()
    } else {
        let head = burst_members(sessions, members.drop_last(), channel);
        if sessions.contains_key(members.last()) {
            head.push(burst_user(sessions[members.last()], channel))
        } else {
            head
        }
    }
}

/// The members of every channel, channel by channel.
pub open spec fn burst_users(
    sessions: Map<u32, SessionModel>,
    channels: Map<u32, ChannelModel>,
    ids: Seq<u32>,
) -> Seq<ActionModel>
    decreases ids.len(),
{
    if ids.len() == 0 {
        Seq::empty()
    } else {
        burst_users(sessions, channels, ids.drop_last()) + burst_members(
            sessions,
            listing_of(channels[ids.last()].members),
            ids.last(),
        )
    }
}

/// What a new session is told, and what the others are told of it, in order.
pub open spec fn login_actions(st: VoiceModel, netid: u32, username: Seq<char>, m: Material) -> Seq<
    ActionModel,
> {
    let ids = listing_of(st.channels.dom());
    seq![
        ActionModel::Broadcast {
            message: OutgoingModel::UserState(
                UserStateModel {
                    name: Some(username),
                    channel_id: Some(ROOT_CHANNEL),
                    ..bare_user_state(netid)
                },
            ),
            skip: Some(netid),
        },
        ActionModel::Reply(
            OutgoingModel::CryptSetup { material: Some((m.0@, m.2@)), server_nonce: m.1@ },
        ),
        ActionModel::Reply(opus_only()),
    ] + ids.map_values(|id: u32| burst_channel(st.channels[id])) + burst_users(
        st.sessions,
        st.channels,
        ids,
    ) + seq![ActionModel::Reply(synced(netid))]
}

/// One step of the delivery of a voice packet: sealed for a recipient whose address
/// and crypt state are known, tunnelled to the others.
pub open spec fn deliver_one(st: VoiceModel, r: Recipient, out: Seq<u8>) -> (VoiceModel, ActionModel) {
    if st.peers.contains_key(r.session) && st.crypt.contains_key(r.session) {
        let c = st.crypt[r.session];
        let iv = le_inc(c.encrypt_iv);
        (
            VoiceModel { crypt: st.crypt.insert(r.session, CryptModel { encrypt_iv: iv, ..c }), ..st },
            ActionModel::Datagram { peer: st.peers[r.session], bytes: seal(c.key, iv, out) },
        )
    } else {
        (
            st,
            ActionModel::Control {
                session: r.session,
                message: OutgoingModel::UdpTunnel { packet: out },
            },
        )
    }
}

/// The bytes that a recipient gets: header, speaker, and the payload with or without
/// its position.
pub open spec fn outbound(speaker: u32, packet: VoicePacket, with_position: bool) -> Seq<u8> {
    seq![packet.payload@[0]] + pds_encode(speaker as u64) + if with_position {
        packet.payload@.skip(1)
    } else {
        packet.payload@.subrange(1, packet.audio_end as int)
    }
}

/// The delivery of a voice packet to its recipients, one after the other.
pub open spec fn delivered(
    st: VoiceModel,
    speaker: u32,
    packet: VoicePacket,
    recipients: Seq<Recipient>,
) -> (VoiceModel, Seq<ActionModel>)
    decreases recipients.len(),
{
    if recipients.len() == 0 {
        (st, Seq::empty())
    } else {
        let (before, actions) = delivered(st, speaker, packet, recipients.drop_last());
        let r = recipients.last();
        let (after, action) = deliver_one(before, r, outbound(speaker, packet, r.with_position));
        (after, actions.push(action))
    }
}

/// `after` and `actions` are what routing the datagram of `speaker` comes to.
pub open spec fn routes(
    st: VoiceModel,
    speaker: u32,
    datagram: Seq<u8>,
    after: VoiceModel,
    actions: Seq<ActionModel>,
) -> bool {
    if voice_of(datagram) is None {
        after == st && actions == Seq::<ActionModel>::empty()
    } else {
        exists|packet: VoicePacket| #[trigger]
            packet.wf() && packet.payload@ == datagram && (after, actions) == delivered(
                st,
                speaker,
                packet,
                unculled_recipients(st.sessions, st.channels, packet, speaker),
            )
    }
}

/// The first of the sessions `ids` whose crypt state takes the datagram.
pub open spec fn first_taker(crypt: Map<u32, CryptModel>, ids: Seq<u32>, datagram: Seq<u8>) -> Option<
    u32,
>
    decreases ids.len(),
{
    if ids.len() == 0 {
        None
    } else if first_taker(crypt, ids.drop_last(), datagram) is Some {
        first_taker(crypt, ids.drop_last(), datagram)
    } else if packet_taken(crypt[ids.last()], datagram) {
        Some(ids.last())
    } else {
        None
    }
}

/// Who an encrypted datagram comes from, if anyone's crypt state takes it: the session
/// bound to the address, or, for an unknown address, the first session that takes it.
pub open spec fn datagram_sender(st: VoiceModel, peer: Peer, datagram: Seq<u8>) -> Option<u32> {
    match bound_session(st.peers, peer) {
        Some(s) => if st.crypt.contains_key(s) && packet_taken(st.crypt[s], datagram) {
            Some(s)
        } else {
            None
        },
        None => first_taker(st.crypt, listing_of(st.crypt.dom()), datagram),
    }
}

/// The state once a datagram of `sender` was taken: its crypt state has moved on and
/// its flow is bound to the address.
pub open spec fn datagram_taken(st: VoiceModel, peer: Peer, sender: u32, datagram: Seq<u8>) -> VoiceModel {
    VoiceModel {
        crypt: st.crypt.insert(sender, decrypt_step(st.crypt[sender], datagram).0),
        peers: st.peers.insert(sender, peer),
        ..st
    }
}

/// The reply to a server-list probe: version, echoed ident, user count, maximum users
/// and allowed bandwidth, all big-endian.
pub open spec fn probe_reply(users: nat, ident: Seq<u8>) -> Seq<u8> {
    be_bytes(PROTOCOL_VERSION as nat, 4) + ident + be_bytes(users % 0x1_0000_0000, 4) + be_bytes(
        128,
        4,
    ) + be_bytes(MAX_BANDWIDTH as nat, 4)
}

/// A plaintext server-list probe: four zero bytes and an 8-byte ident.
pub open spec fn is_probe(datagram: Seq<u8>) -> bool {
    datagram.len() == 12 && datagram.take(4) == seq![0u8, 0, 0, 0]
}

fn push(actions: &mut Vec<Action>, action: Action)
    ensures
        final(actions)@ == old(actions)@.push(action),
        action_models(final(actions)@) == action_models(old(actions)@).push(action@),
{
    actions.push(action);
    assert(action_models(actions@) =~= action_models(old(actions)@).push(action@));
}

fn empty_user_state(session: u32) -> (us: UserStateOut)
    ensures
        us@ == bare_user_state(session),
{
    UserStateOut {
        session,
        name: None,
        channel_id: None,
        mute: None,
        deaf: None,
        self_mute: None,
        self_deaf: None,
    }
}

/// The bytes of `v` as an array of sixteen.
fn sixteen(v: &Vec<u8>) -> (a: [u8; 16])
    requires
        v@.len() == 16,
    ensures
        a@ == v@,
{
    let mut a = [0u8; 16];
    let mut i: usize = 0;
    while i < 16
        invariant
            i <= 16,
            v@.len() == 16,
            forall|j: int| 0 <= j < i ==> a@[j] == v@[j],
        decreases 16 - i,
    {
        a[i] = v[i];
        i = i + 1;
    }
    assert(a@ =~= v@);
    a
}

impl VoiceState {
    /// The parts are well-formed, and no two sessions share a UDP address.
    pub open spec fn wf(&self) -> bool {
        &&& self.sessions.wf()
        &&& self.channels.wf()
        &&& self.crypt.wf()
        &&& self.udp_addr.wf()
        &&& self.proximity_overrides.wf()
        &&& peers_distinct(self.udp_addr@)
    }

    pub fn new() -> (state: Self)
        ensures
            state.wf(),
            state@ == (VoiceModel {
                sessions: Map::empty(),
                channels: map![ROOT_CHANNEL => crate::channel::root_channel()],
                crypt: Map::empty(),
                peers: Map::empty(),
                overrides: Map::empty(),
            }),
    {
        let state = VoiceState {
            sessions: SessionRegistry::default(),
            channels: ChannelStore::new(),
            crypt: CryptTable::new(),
            udp_addr: IdMap::new(),
            proximity_overrides: IdMap::new(),
        };
        assert(state@.overrides =~= Map::empty());
        state
    }

    /// Remove every trace of a session and tell the others. A session that is not known
    /// is no error: the player may never have connected to voice.
    pub fn on_player_dropped(&mut self, netid: u32) -> (actions: Vec<Action>)
        requires
            old(self).wf(),
        ensures
            final(self).wf(),
            (final(self)@, action_models(actions@)) == dropped(old(self)@, netid),
    {
        let mut actions: Vec<Action> = Vec::new();
        if self.sessions.remove(netid).is_none() {
            assert(self.sessions@ =~= old(self).sessions@);
            assert(action_models(actions@) =~= Seq::empty());
            return actions;
        }
        self.channels.drop_session(netid);
        self.crypt.remove(netid);
        self.proximity_overrides.remove(netid);
        self.udp_addr.remove(netid);
        push(
            &mut actions,
            Action::Broadcast { message: Outgoing::UserRemove { session: netid }, skip: None },
        );
        proof {
            let want = dropped(old(self)@, netid);
            assert(self@.overrides =~= want.0.overrides);
            assert(action_models(actions@) =~= want.1);
        }
        actions
    }

    /// `MUMBLE_CREATE_CHANNEL`: create a permanent game channel and announce it.
    pub fn create_channel(&mut self, id: u32) -> (actions: Vec<Action>)
        requires
            old(self).wf(),
        ensures
            final(self).wf(),
            final(self)@ == (VoiceModel {
                channels: with_channel(old(self)@.channels, id),
                ..old(self)@
            }),
            action_models(actions@) == if old(self)@.channels.contains_key(id) {
                Seq::empty()
            } else {
                seq![to_all(announced(fresh_channel(id, false)))]
            },
    {
        let mut actions: Vec<Action> = Vec::new();
        if self.channels.contains(id) {
            assert(action_models(actions@) =~= Seq::empty());
            return actions;
        }
        self.announce_channel(id, &mut actions);
        assert(action_models(actions@) =~= seq![to_all(announced(fresh_channel(id, false)))]);
        actions
    }

    /// Create the channel `id` and announce it to everyone.
    fn announce_channel(&mut self, id: u32, actions: &mut Vec<Action>)
        requires
            old(self).wf(),
            !old(self)@.channels.contains_key(id),
        ensures
            final(self).wf(),
            final(self)@ == (VoiceModel {
                channels: with_channel(old(self)@.channels, id),
                ..old(self)@
            }),
            action_models(final(actions)@) == action_models(old(actions)@).push(
                to_all(announced(fresh_channel(id, false))),
            ),
    {
        let channel = self.channels.create_game_channel(id);
        let (cid, parent, name, _temporary) = channel.describe();
        push(
            actions,
            Action::Broadcast {
                message: Outgoing::ChannelState {
                    id: cid,
                    parent: Some(parent),
                    name,
                    temporary: false,
                },
                skip: None,
            },
        );
    }

    /// `MUMBLE_DOES_CHANNEL_EXIST`.
    pub fn channel_exists(&self, id: u32) -> (yes: bool)
        requires
            self.wf(),
        ensures
            yes == self@.channels.contains_key(id),
    {
        self.channels.contains(id)
    }

    /// `MUMBLE_SET_PLAYER_MUTED`: server-forced mute; the change is announced.
    pub fn set_player_muted(&mut self, netid: u32, muted: bool) -> (actions: Vec<Action>)
        requires
            old(self).wf(),
        ensures
            final(self).wf(),
            if old(self)@.sessions.contains_key(netid) {
                &&& final(self)@ == (VoiceModel {
                    sessions: old(self)@.sessions.insert(
                        netid,
                        SessionModel { mute: muted, ..old(self)@.sessions[netid] },
                    ),
                    ..old(self)@
                })
                &&& action_models(actions@) == seq![
                    to_all(
                        OutgoingModel::UserState(
                            UserStateModel { mute: Some(muted), ..bare_user_state(netid) },
                        ),
                    ),
                ]
            } else {
                final(self)@ == old(self)@ && actions@.len() == 0
            },
    {
        let mut actions: Vec<Action> = Vec::new();
        match self.sessions.get_mut(netid) {
            Some(session) => {
                session.mute = muted;
            },
            None => {
                return actions;
            },
        }
        let mut us = empty_user_state(netid);
        us.mute = Some(muted);
        push(&mut actions, Action::Broadcast { message: Outgoing::UserState(us), skip: None });
        assert(action_models(actions@) =~= seq![
            to_all(
                OutgoingModel::UserState(
                    UserStateModel { mute: Some(muted), ..bare_user_state(netid) },
                ),
            ),
        ]);
        actions
    }

    /// `MUMBLE_IS_PLAYER_MUTED`.
    pub fn is_player_muted(&self, netid: u32) -> (yes: bool)
        requires
            self.wf(),
        ensures
            yes == (self@.sessions.contains_key(netid) && self@.sessions[netid].mute),
    {
        match self.sessions.get(netid) {
            Some(s) => s.mute,
            None => false,
        }
    }

    /// `NETWORK_SET_VOICE_PROXIMITY_OVERRIDE_FOR_PLAYER`.
    pub fn set_proximity_override(&mut self, netid: u32, position: Option<[u32; 3]>)
        requires
            old(self).wf(),
        ensures
            final(self).wf(),
            final(self)@ == (VoiceModel {
                overrides: match position {
                    Some(p) => old(self)@.overrides.insert(netid, p@),
                    None => old(self)@.overrides.remove(netid),
                },
                ..old(self)@
            }),
    {
        match position {
            Some(p) => {
                self.proximity_overrides.insert(netid, p);
                assert(self@.overrides =~= old(self)@.overrides.insert(netid, p@));
            },
            None => {
                self.proximity_overrides.remove(netid);
                assert(self@.overrides =~= old(self)@.overrides.remove(netid));
            },
        }
    }

    /// `NETWORK_GET_VOICE_PROXIMITY_OVERRIDE_FOR_PLAYER` (zero when unset).
    pub fn proximity_override(&self, netid: u32) -> (position: [u32; 3])
        requires
            self.wf(),
        ensures
            position@ == if self@.overrides.contains_key(netid) {
                self@.overrides[netid]
            } else {
                seq![0u32, 0, 0]
            },
    {
        match self.proximity_overrides.get(netid) {
            Some(p) => *p,
            None => {
                let zero = [0u32; 3];
                assert(zero@ =~= seq![0u32, 0, 0]);
                zero
            },
        }
    }

    // --- voice ---

    /// Deliver a parsed voice packet to its recipients. Those with a known UDP address
    /// and crypt state get an encrypted datagram, the others a tunnelled packet.
    fn deliver(
        &mut self,
        speaker: u32,
        packet: &VoicePacket,
        recipients: &Vec<Recipient>,
    ) -> (actions: Vec<Action>)
        requires
            old(self).wf(),
            1 <= packet.audio_end <= packet.payload@.len(),
        ensures
            final(self).wf(),
            (final(self)@, action_models(actions@)) == delivered(
                old(self)@,
                speaker,
                *packet,
                recipients@,
            ),
    {
        let mut actions: Vec<Action> = Vec::new();
        let mut i: usize = 0;
        assert(action_models(actions@) =~= Seq::empty());
        assert(recipients@.take(0) =~= Seq::empty());
        while i < recipients.len()
            invariant
                self.wf(),
                i <= recipients@.len(),
                1 <= packet.audio_end <= packet.payload@.len(),
                (self@, action_models(actions@)) == delivered(
                    old(self)@,
                    speaker,
                    *packet,
                    recipients@.take(i as int),
                ),
            decreases recipients@.len() - i,
        {
            let ghost before = self@;
            let ghost acts = action_models(actions@);
            let r = recipients[i];
            let out = crate::voice::encode_outbound(speaker as u64, packet, r.with_position);
            assert(out@ == outbound(speaker, *packet, r.with_position));
            let peer: Option<Peer> = match self.udp_addr.get(r.session) {
                Some(p) => Some(*p),
                None => None,
            };
            match (peer, self.crypt.get_mut(r.session)) {
                (Some(peer), Some(crypt)) => {
                    let bytes = crypt.encrypt(out.as_slice());
                    push(&mut actions, Action::Datagram { peer, bytes });
                },
                _ => {
                    push(
                        &mut actions,
                        Action::Control {
                            session: r.session,
                            message: Outgoing::UdpTunnel { packet: out },
                        },
                    );
                },
            }
            proof {
                let now = recipients@.take(i + 1);
                assert(now.drop_last() =~= recipients@.take(i as int));
                assert(now.last() == r);
                let one = deliver_one(before, r, outbound(speaker, *packet, r.with_position));
                assert(self@.crypt =~= one.0.crypt);
                assert(self@ =~= one.0);
                assert(action_models(actions@) =~= acts.push(one.1));
            }
            i = i + 1;
        }
        assert(recipients@.take(recipients@.len() as int) =~= recipients@);
        actions
    }

    /// Route one plaintext voice datagram from `speaker` to its recipients. Shared by
    /// the UDP path and the TCP tunnel fallback. A malformed datagram is dropped.
    pub fn route_voice(&mut self, speaker: u32, datagram: &[u8]) -> (actions: Vec<Action>)
        requires
            old(self).wf(),
        ensures
            final(self).wf(),
            routes(old(self)@, speaker, datagram@, final(self)@, action_models(actions@)),
    {
        match crate::voice::parse(datagram) {
            Some(packet) => {
                let aoi = NoCulling;
                let recipients = crate::router::resolve(
                    speaker,
                    &packet,
                    &self.sessions,
                    &self.channels,
                    &aoi,
                );
                proof {
                    if packet.target == VoiceTargetKind::Normal && crate::router::can_transmit(
                        self@.sessions,
                        speaker,
                    ) {
                        crate::router::no_culling_reaches_everyone(
                            self@.sessions,
                            self@.channels,
                            packet,
                            speaker,
                            &aoi,
                            recipients@,
                        );
                    }
                    assert(recipients@ =~= unculled_recipients(
                        self@.sessions,
                        self@.channels,
                        packet,
                        speaker,
                    ));
                }
                self.deliver(speaker, &packet, &recipients)
            },
            None => {
                let actions: Vec<Action> = Vec::new();
                assert(action_models(actions@) =~= Seq::empty());
                actions
            },
        }
    }

    /// The session bound to a UDP address.
    fn session_at(&self, peer: Peer) -> (session: Option<u32>)
        requires
            self.wf(),
        ensures
            session == bound_session(self@.peers, peer),
    {
        let n: usize = self.udp_addr.len();
        let mut i: usize = 0;
        proof {
            self.udp_addr.lemma_listing();
        }
        while i < n
            invariant
                self.wf(),
                i <= n,
                n == self.udp_addr.listing().len(),
                forall|j: int| 0 <= j < i ==> (#[trigger] self.udp_addr.listing()[j]).1 != peer,
            decreases n - i,
        {
            let entry = self.udp_addr.entry_at(i);
            if *entry.1 == peer {
                proof {
                    let peers = self@.peers;
                    assert(peers.contains_key(entry.0) && peers[entry.0] == peer);
                    let s = choose|s: u32| peers.contains_key(s) && #[trigger] peers[s] == peer;
                    assert(peers[s] == peers[entry.0]);
                }
                return Some(entry.0);
            }
            i = i + 1;
        }
        proof {
            self.udp_addr.lemma_listing();
            let peers = self@.peers;
            assert forall|s: u32| peers.contains_key(s) implies #[trigger] peers[s] != peer by {
                let j = choose|j: int|
                    0 <= j < self.udp_addr.listing().len() && (
                    #[trigger] self.udp_addr.listing()[j]).0 == s && self.udp_addr.listing()[j].1
                        == self.udp_addr@[s];
                assert(self.udp_addr.listing()[j].1 != peer);
            }
        }
        None
    }

    /// Identify the sender and decrypt. A known address uses its session's crypt state;
    /// an unknown one is matched by trying every session, which binds the client's UDP
    /// flow once one takes the datagram.
    pub fn decrypt_from(&mut self, peer: Peer, datagram: &[u8]) -> (taken: Option<(u32, Vec<u8>)>)
        requires
            old(self).wf(),
        ensures
            final(self).wf(),
            match datagram_sender(old(self)@, peer, datagram@) {
                Some(s) => {
                    &&& taken matches Some((sender, plain))
                    &&& sender == s
                    &&& old(self)@.crypt.contains_key(s)
                    &&& Some(plain@) == decrypt_step(old(self)@.crypt[s], datagram@).1
                    &&& final(self)@ == datagram_taken(old(self)@, peer, s, datagram@)
                },
                None => taken is None && final(self)@ == old(self)@,
            },
    {
        if let Some(session) = self.session_at(peer) {
            proof {
                let peers = self@.peers;
                let s = choose|s: u32| peers.contains_key(s) && #[trigger] peers[s] == peer;
                assert(peers.insert(session, peer) =~= peers);
            }
            let plain = match self.crypt.get_mut(session) {
                Some(crypt) => crypt.decrypt(datagram),
                None => None,
            };
            return match plain {
                Some(plain) => {
                    assert(self@ =~= datagram_taken(old(self)@, peer, session, datagram@));
                    Some((session, plain))
                },
                None => {
                    assert(self@.crypt =~= old(self)@.crypt);
                    None
                },
            };
        }
        let ids = self.crypt.ids();
        proof {
            lemma_is_listing(ids@, self@.crypt.dom());
        }
        let mut i: usize = 0;
        while i < ids.len()
            invariant
                self.wf(),
                self@ == old(self)@,
                i <= ids@.len(),
                lists(ids@, old(self)@.crypt.dom()),
                ids@ == listing_of(old(self)@.crypt.dom()),
                bound_session(old(self)@.peers, peer) is None,
                first_taker(old(self)@.crypt, ids@.take(i as int), datagram@) is None,
            decreases ids@.len() - i,
        {
            let session = ids[i];
            assert(ids@.contains(session));
            let ghost now = ids@.take(i + 1);
            assert(now.drop_last() =~= ids@.take(i as int));
            assert(now.last() == session);
            let plain = match self.crypt.get_mut(session) {
                Some(crypt) => crypt.decrypt(datagram),
                None => None,
            };
            match plain {
                Some(plain) => {
                    self.udp_addr.insert(session, peer);
                    proof {
                        lemma_first_taker(old(self)@.crypt, ids@, i + 1, datagram@);
                        let peers = old(self)@.peers;
                        assert forall|a: u32, b: u32| #![trigger self@.peers[a], self@.peers[b]]
                            self@.peers.contains_key(a) && self@.peers.contains_key(b)
                                && self@.peers[a] == self@.peers[b] implies a == b by {
                            if a != session && b == session {
                                assert(peers.contains_key(a) && peers[a] == peer);
                            }
                            if b != session && a == session {
                                assert(peers.contains_key(b) && peers[b] == peer);
                            }
                            if a != session && b != session {
                                assert(peers[a] == peers[b]);
                            }
                        }
                        assert(self@ =~= datagram_taken(old(self)@, peer, session, datagram@));
                    }
                    return Some((session, plain));
                },
                None => {
                    assert(self@.crypt =~= old(self)@.crypt);
                },
            }
            i = i + 1;
        }
        assert(ids@.take(ids@.len() as int) =~= ids@);
        None
    }

    /// The reply to a server-list probe.
    pub fn ping_probe_reply(&self, ident: &[u8]) -> (reply: Vec<u8>)
        requires
            self.wf(),
        ensures
            reply@ == probe_reply(self@.sessions.len(), ident@),
    {
        let users: u32 = (self.sessions.len() as u64 % 0x1_0000_0000) as u32;
        let mut out: Vec<u8> = Vec::new();
        push_word(&mut out, PROTOCOL_VERSION);
        out.extend_from_slice(ident);
        push_word(&mut out, users);
        push_word(&mut out, 128);
        push_word(&mut out, MAX_BANDWIDTH);
        assert(out@ =~= probe_reply(self@.sessions.len(), ident@));
        out
    }

    /// Handle one UDP datagram: answer a probe, echo an encrypted ping, route voice.
    pub fn handle_datagram(&mut self, peer: Peer, datagram: &[u8]) -> (actions: Vec<Action>)
        requires
            old(self).wf(),
        ensures
            final(self).wf(),
            if is_probe(datagram@) {
                &&& final(self)@ == old(self)@
                &&& action_models(actions@) == seq![
                    ActionModel::Datagram {
                        peer,
                        bytes: probe_reply(old(self)@.sessions.len(), datagram@.skip(4)),
                    },
                ]
            } else {
                match datagram_sender(old(self)@, peer, datagram@) {
                    None => final(self)@ == old(self)@ && actions@.len() == 0,
                    Some(s) => {
                        let plain = decrypt_step(old(self)@.crypt[s], datagram@).1->0;
                        let st = datagram_taken(old(self)@, peer, s, datagram@);
                        if plain.len() > 0 && packet_type((plain[0] / 32) as nat) == Some(
                            VoicePacketType::Ping,
                        ) {
                            let c = st.crypt[s];
                            let iv = le_inc(c.encrypt_iv);
                            &&& final(self)@ == (VoiceModel {
                                crypt: st.crypt.insert(s, CryptModel { encrypt_iv: iv, ..c }),
                                ..st
                            })
                            &&& action_models(actions@) == seq![
                                ActionModel::Datagram { peer, bytes: seal(c.key, iv, plain) },
                            ]
                        } else {
                            routes(st, s, plain, final(self)@, action_models(actions@))
                        }
                    },
                }
            },
    {
        let mut actions: Vec<Action> = Vec::new();
        if datagram.len() == 12 && datagram[0] == 0 && datagram[1] == 0 && datagram[2] == 0
            && datagram[3] == 0 {
            assert(datagram@.take(4) =~= seq![0u8, 0, 0, 0]);
            let ident = vstd::slice::slice_subrange(datagram, 4, 12);
            assert(ident@ =~= datagram@.skip(4));
            let bytes = self.ping_probe_reply(ident);
            push(&mut actions, Action::Datagram { peer, bytes });
            assert(action_models(actions@) =~= seq![
                ActionModel::Datagram {
                    peer,
                    bytes: probe_reply(old(self)@.sessions.len(), datagram@.skip(4)),
                },
            ]);
            return actions;
        }
        proof {
            if is_probe(datagram@) {
                assert(datagram@.take(4)[0] == 0 && datagram@.take(4)[1] == 0
                    && datagram@.take(4)[2] == 0 && datagram@.take(4)[3] == 0);
            }
        }
        let (speaker, plain) = match self.decrypt_from(peer, datagram) {
            Some(taken) => taken,
            None => {
                return actions;
            },
        };
        let is_ping = if plain.len() == 0 {
            false
        } else {
            proof {
                lemma_type_bits(plain@[0]);
            }
            match VoicePacketType::from_bits(plain[0] >> 5) {
                Some(codec) => codec == VoicePacketType::Ping,
                None => false,
            }
        };
        if is_ping {
            // Encrypted UDP ping: echo it back (keeps the client on UDP).
            let ghost st = self@;
            match self.crypt.get_mut(speaker) {
                Some(crypt) => {
                    let bytes = crypt.encrypt(plain.as_slice());
                    push(&mut actions, Action::Datagram { peer, bytes });
                    proof {
                        let c = st.crypt[speaker];
                        let iv = le_inc(c.encrypt_iv);
                        assert(action_models(actions@) =~= seq![
                            ActionModel::Datagram { peer, bytes: seal(c.key, iv, plain@) },
                        ]);
                    }
                },
                None => {},
            }
            return actions;
        }
        self.route_voice(speaker, plain.as_slice())
    }

    // --- control messages ---

    /// Change the client's own flags, context, channel and subscriptions.
    fn handle_user_state(&mut self, netid: u32, us: UserStateIn) -> (actions: Vec<Action>)
        requires
            old(self).wf(),
        ensures
            final(self).wf(),
            (final(self)@, action_models(actions@)) == user_state_step(old(self)@, netid, us),
    {
        let ghost request = us;
        let mut actions: Vec<Action> = Vec::new();
        let mut echo = empty_user_state(netid);
        assert(action_models(actions@) =~= Seq::empty());
        let UserStateIn {
            self_mute,
            self_deaf,
            plugin_context,
            channel_id,
            listening_channel_add,
            listening_channel_remove,
        } = us;
        if let Some(session) = self.sessions.get_mut(netid) {
            // Mumble couples self-mute into `mute` on the client; the server-forced
            // flag is tracked separately and only the self state is echoed.
            echo.self_mute = self_mute;
            if let Some(v) = self_deaf {
                session.self_deaf = v;
                echo.self_deaf = Some(v);
            }
            if let Some(context) = plugin_context {
                session.context = Some(context);
            }
        }
        let ghost st1 = self@;
        proof {
            let known = old(self)@.sessions.contains_key(netid);
            if known {
                assert(self@.sessions =~= old(self)@.sessions.insert(
                    netid,
                    user_state_session(old(self)@.sessions[netid], request),
                ));
            }
        }
        if let Some(id) = channel_id {
            if !self.channels.contains(id) {
                // pma-voice joins channels it never explicitly created.
                self.announce_channel(id, &mut actions);
            }
            self.channels.join(netid, id);
            echo.channel_id = Some(id);
        }
        self.listen_to(netid, &listening_channel_add, true);
        self.listen_to(netid, &listening_channel_remove, false);
        push(&mut actions, Action::Broadcast { message: Outgoing::UserState(echo), skip: None });
        proof {
            let want = user_state_step(old(self)@, netid, request);
            assert(self@ =~= want.0);
            assert(action_models(actions@) =~= want.1);
        }
        actions
    }

    /// Add or remove the given subscriptions, one after the other.
    fn listen_to(&mut self, netid: u32, ids: &Vec<u32>, listening: bool)
        requires
            old(self).wf(),
        ensures
            final(self).wf(),
            final(self)@ == (VoiceModel {
                channels: listened(old(self)@.channels, netid, ids@, listening),
                ..old(self)@
            }),
    {
        let mut i: usize = 0;
        assert(ids@.take(0) =~= Seq::empty());
        while i < ids.len()
            invariant
                self.wf(),
                i <= ids@.len(),
                self@ == (VoiceModel {
                    channels: listened(old(self)@.channels, netid, ids@.take(i as int), listening),
                    ..old(self)@
                }),
            decreases ids@.len() - i,
        {
            self.channels.set_listening(netid, ids[i], listening);
            i = i + 1;
            assert(ids@.take(i as int).drop_last() =~= ids@.take(i - 1));
        }
        assert(ids@.take(ids@.len() as int) =~= ids@);
    }

    /// Register or clear a whisper target.
    fn handle_voice_target(&mut self, netid: u32, id: Option<u32>, targets: &Vec<TargetEntry>)
        requires
            old(self).wf(),
        ensures
            final(self).wf(),
            final(self)@ == voice_target_step(old(self)@, netid, id, targets@),
    {
        let id8: u8 = match id {
            Some(id) => {
                if id > 255 {
                    return ;
                }
                id as u8
            },
            None => {
                return ;
            },
        };
        let target = build_target(targets);
        let clear = targets.len() == 0;
        if let Some(session) = self.sessions.get_mut(netid) {
            if clear {
                session.targets.clear(id8);
            } else {
                session.targets.set(id8, target);
            }
        }
        assert(self@ =~= voice_target_step(old(self)@, netid, id, targets@));
    }

    /// Admit the client under the net id of its username, with fresh key material, and
    /// send the login burst.
    fn login(&mut self, netid: u32, username: &String, material: &Material) -> (actions: Vec<Action>)
        requires
            old(self).wf(),
        ensures
            final(self).wf(),
            final(self)@ == authenticated(old(self)@, netid, username@, *material),
            action_models(actions@) == login_actions(final(self)@, netid, username@, *material),
    {
        if self.sessions.get(netid).is_none() {
            let _ = self.sessions.insert(netid, username.clone());
        }
        self.channels.join(netid, ROOT_CHANNEL);
        self.crypt.insert(netid, CryptState::new(&material.0, &material.1, &material.2));
        proof {
            assert(self@ =~= authenticated(old(self)@, netid, username@, *material));
        }
        let mut actions: Vec<Action> = Vec::new();
        let mut us = empty_user_state(netid);
        us.name = Some(username.clone());
        us.channel_id = Some(ROOT_CHANNEL);
        push(
            &mut actions,
            Action::Broadcast { message: Outgoing::UserState(us), skip: Some(netid) },
        );
        push(
            &mut actions,
            Action::Reply(
                Outgoing::CryptSetup {
                    material: Some((material.0, material.2)),
                    server_nonce: material.1,
                },
            ),
        );
        push(
            &mut actions,
            Action::Reply(
                Outgoing::CodecVersion {
                    alpha: CELT_ALPHA,
                    beta: 0,
                    prefer_alpha: true,
                    opus: true,
                },
            ),
        );
        let ghost head = action_models(actions@);
        self.burst_channels(&mut actions);
        self.burst_all_users(&mut actions);
        push(
            &mut actions,
            Action::Reply(
                Outgoing::ServerSync {
                    session: netid,
                    max_bandwidth: MAX_BANDWIDTH,
                    welcome_text: "BASTON voice".to_owned(),
                    permissions: ALL_PERMISSIONS as u64,
                },
            ),
        );
        proof {
            assert(action_models(actions@) =~= login_actions(
                self@,
                netid,
                username@,
                *material,
            ));
        }
        actions
    }

    fn burst_channels(&self, actions: &mut Vec<Action>)
        requires
            self.wf(),
        ensures
            action_models(final(actions)@) == action_models(old(actions)@) + listing_of(
                self@.channels.dom(),
            ).map_values(|id: u32| burst_channel(self@.channels[id])),
    {
        let channels = self.channels.iter();
        let ghost ids = channels@.map_values(|c: &crate::channel::Channel| c@.id);
        let ghost all = ids.map_values(|id: u32| burst_channel(self@.channels[id]));
        proof {
            lemma_is_listing(ids, self@.channels.dom());
        }
        let mut i: usize = 0;
        assert(action_models(actions@) =~= action_models(old(actions)@) + all.take(0));
        while i < channels.len()
            invariant
                self.wf(),
                i <= channels@.len(),
                ids == channels@.map_values(|c: &crate::channel::Channel| c@.id),
                all == ids.map_values(|id: u32| burst_channel(self@.channels[id])),
                forall|j: int| #![trigger channels@[j]]
                    0 <= j < channels@.len() ==> channels@[j].wf() && self@.channels.contains_key(
                        channels@[j]@.id,
                    ) && channels@[j]@ == self@.channels[channels@[j]@.id],
                action_models(actions@) == action_models(old(actions)@) + all.take(i as int),
            decreases channels@.len() - i,
        {
            let (id, parent, name, temporary) = channels[i].describe();
            let shown: Option<u32> = if id != ROOT_CHANNEL {
                Some(parent)
            } else {
                None
            };
            push(
                actions,
                Action::Reply(Outgoing::ChannelState { id, parent: shown, name, temporary }),
            );
            proof {
                assert(all[i as int] == burst_channel(channels@[i as int]@));
                assert(all.take(i + 1) =~= all.take(i as int).push(all[i as int]));
                assert(action_models(actions@) =~= action_models(old(actions)@) + all.take(i + 1));
            }
            i = i + 1;
        }
        assert(all.take(all.len() as int) =~= all);
    }

    fn burst_all_users(&self, actions: &mut Vec<Action>)
        requires
            self.wf(),
        ensures
            action_models(final(actions)@) == action_models(old(actions)@) + burst_users(
                self@.sessions,
                self@.channels,
                listing_of(self@.channels.dom()),
            ),
    {
        let channels = self.channels.iter();
        let ghost ids = channels@.map_values(|c: &crate::channel::Channel| c@.id);
        proof {
            lemma_is_listing(ids, self@.channels.dom());
        }
        let mut i: usize = 0;
        assert(action_models(actions@) =~= action_models(old(actions)@) + burst_users(
            self@.sessions,
            self@.channels,
            ids.take(0),
        ));
        while i < channels.len()
            invariant
                self.wf(),
                i <= channels@.len(),
                ids == channels@.map_values(|c: &crate::channel::Channel| c@.id),
                forall|j: int| #![trigger channels@[j]]
                    0 <= j < channels@.len() ==> channels@[j].wf() && self@.channels.contains_key(
                        channels@[j]@.id,
                    ) && channels@[j]@ == self@.channels[channels@[j]@.id],
                action_models(actions@) == action_models(old(actions)@) + burst_users(
                    self@.sessions,
                    self@.channels,
                    ids.take(i as int),
                ),
            decreases channels@.len() - i,
        {
            let ghost before = action_models(actions@);
            let channel = channels[i];
            let (id, _parent, _name, _temporary) = channel.describe();
            let members = channel.members();
            proof {
                lemma_is_listing(members@, channel@.members);
            }
            self.burst_channel_members(&members, id, actions);
            proof {
                let now = ids.take(i + 1);
                assert(now.drop_last() =~= ids.take(i as int));
                assert(now.last() == id);
                assert(action_models(actions@) =~= action_models(old(actions)@) + burst_users(
                    self@.sessions,
                    self@.channels,
                    now,
                ));
            }
            i = i + 1;
        }
        assert(ids.take(ids.len() as int) =~= ids);
    }

    fn burst_channel_members(&self, members: &Vec<u32>, channel: u32, actions: &mut Vec<Action>)
        requires
            self.wf(),
        ensures
            action_models(final(actions)@) == action_models(old(actions)@) + burst_members(
                self@.sessions,
                members@,
                channel,
            ),
    {
        let mut i: usize = 0;
        assert(action_models(actions@) =~= action_models(old(actions)@) + burst_members(
            self@.sessions,
            members@.take(0),
            channel,
        ));
        while i < members.len()
            invariant
                self.wf(),
                i <= members@.len(),
                action_models(actions@) == action_models(old(actions)@) + burst_members(
                    self@.sessions,
                    members@.take(i as int),
                    channel,
                ),
            decreases members@.len() - i,
        {
            if let Some(session) = self.sessions.get(members[i]) {
                push(
                    actions,
                    Action::Reply(
                        Outgoing::UserState(
                            UserStateOut {
                                session: session.id,
                                name: Some(session.name.clone()),
                                channel_id: Some(channel),
                                mute: Some(session.mute),
                                deaf: Some(session.deaf),
                                self_mute: None,
                                self_deaf: Some(session.self_deaf),
                            },
                        ),
                    ),
                );
            }
            i = i + 1;
            proof {
                let now = members@.take(i as int);
                assert(now.drop_last() =~= members@.take(i - 1));
                assert(action_models(actions@) =~= action_models(old(actions)@) + burst_members(
                    self@.sessions,
                    now,
                    channel,
                ));
            }
        }
        assert(members@.take(members@.len() as int) =~= members@);
    }

    /// Handle one control message of a connection whose session is `session` (`None`
    /// until it has authenticated). `material` is what the random source gave for a new
    /// session, `None` where it failed; only an authentication uses it.
    pub fn handle_message(
        &mut self,
        session: Option<u32>,
        message: Incoming,
        material: Option<Material>,
    ) -> (outcome: Outcome)
        requires
            old(self).wf(),
        ensures
            final(self).wf(),
            message_handled(
                old(self)@,
                session,
                message,
                material,
                final(self)@,
                outcome.keep,
                outcome.session,
                action_models(outcome.actions@),
            ),
    {
        let mut actions: Vec<Action> = Vec::new();
        assert(action_models(actions@) =~= Seq::empty());
        match message {
            Incoming::Version => {
                push(
                    &mut actions,
                    Action::Reply(
                        Outgoing::Version {
                            version: PROTOCOL_VERSION,
                            release: "baston-voice".to_owned(),
                        },
                    ),
                );
                assert(action_models(actions@) =~= seq![ActionModel::Reply(own_version())]);
                Outcome { keep: true, session, actions }
            },
            Incoming::Authenticate { username } => {
                let name = match username {
                    Some(name) => name,
                    None => String::new(),
                };
                match parse_netid(name.as_str()) {
                    None => {
                        push(
                            &mut actions,
                            Action::Reply(
                                Outgoing::Reject {
                                    reason: "expected a FiveM \"[netId]\" username".to_owned(),
                                },
                            ),
                        );
                        assert(action_models(actions@) =~= seq![
                            ActionModel::Reply(OutgoingModel::Reject { reason: reject_reason() }),
                        ]);
                        Outcome { keep: false, session, actions }
                    },
                    Some(netid) => match material {
                        Some(material) => {
                            let actions = self.login(netid, &name, &material);
                            Outcome { keep: true, session: Some(netid), actions }
                        },
                        None => Outcome { keep: false, session, actions },
                    },
                }
            },
            Incoming::Ping { timestamp } => {
                let (good, late, lost) = match session {
                    Some(s) => match self.crypt.get(s) {
                        Some(c) => c.counters(),
                        None => (0, 0, 0),
                    },
                    None => (0, 0, 0),
                };
                push(&mut actions, Action::Reply(Outgoing::Ping { timestamp, good, late, lost }));
                assert(action_models(actions@) =~= seq![
                    ActionModel::Reply(OutgoingModel::Ping { timestamp, good, late, lost }),
                ]);
                Outcome { keep: true, session, actions }
            },
            Incoming::UserState(us) => {
                if let Some(netid) = session {
                    let actions = self.handle_user_state(netid, us);
                    Outcome { keep: true, session, actions }
                } else {
                    Outcome { keep: true, session, actions }
                }
            },
            Incoming::VoiceTarget { id, targets } => {
                if let Some(netid) = session {
                    self.handle_voice_target(netid, id, &targets);
                }
                Outcome { keep: true, session, actions }
            },
            Incoming::UdpTunnel { packet } => {
                // Voice over TCP (UDP blocked): the tunnelled datagram is plaintext and
                // is routed like a decrypted UDP packet.
                if let Some(speaker) = session {
                    let actions = self.route_voice(speaker, packet.as_slice());
                    Outcome { keep: true, session, actions }
                } else {
                    Outcome { keep: true, session, actions }
                }
            },
            Incoming::CryptSetup { client_nonce } => {
                if let Some(netid) = session {
                    self.handle_crypt_setup(netid, &client_nonce, &mut actions);
                }
                Outcome { keep: true, session, actions }
            },
            Incoming::PermissionQuery { channel_id } => {
                push(
                    &mut actions,
                    Action::Reply(
                        Outgoing::PermissionQuery {
                            channel_id,
                            permissions: ALL_PERMISSIONS,
                            flush: false,
                        },
                    ),
                );
                assert(action_models(actions@) =~= seq![
                    ActionModel::Reply(permitted(channel_id)),
                ]);
                Outcome { keep: true, session, actions }
            },
            Incoming::Malformed(ty) => {
                Outcome { keep: ty != MessageType::Authenticate, session, actions }
            },
            Incoming::Other => Outcome { keep: true, session, actions },
        }
    }

    /// A client nonce of sixteen bytes is a resync: it is adopted. Anything else asks
    /// for the server's nonce.
    fn handle_crypt_setup(
        &mut self,
        netid: u32,
        client_nonce: &Option<Vec<u8>>,
        actions: &mut Vec<Action>,
    )
        requires
            old(self).wf(),
            old(actions)@.len() == 0,
        ensures
            final(self).wf(),
            (final(self)@, action_models(final(actions)@)) == crypt_setup_step(
                old(self)@,
                netid,
                *client_nonce,
            ),
    {
        assert(action_models(actions@) =~= Seq::empty());
        let resync: Option<[u8; 16]> = match client_nonce {
            Some(nonce) => {
                if nonce.len() == 16 {
                    Some(sixteen(nonce))
                } else {
                    None
                }
            },
            None => None,
        };
        match resync {
            Some(nonce) => {
                if let Some(crypt) = self.crypt.get_mut(netid) {
                    crypt.resync(&nonce);
                }
                assert(self@ =~= crypt_setup_step(old(self)@, netid, *client_nonce).0);
            },
            None => {
                if let Some(crypt) = self.crypt.get(netid) {
                    push(
                        actions,
                        Action::Reply(
                            Outgoing::CryptSetup { material: None, server_nonce: crypt.server_nonce() },
                        ),
                    );
                    assert(action_models(actions@) =~= crypt_setup_step(
                        old(self)@,
                        netid,
                        *client_nonce,
                    ).1);
                }
            },
        }
    }
}

pub open spec fn reject_reason() -> Seq<char> {
    "expected a FiveM \"[netId]\" username"@
}

/// What a crypt setup of a client does.
pub open spec fn crypt_setup_step(st: VoiceModel, netid: u32, client_nonce: Option<Vec<u8>>) -> (
    VoiceModel,
    Seq<ActionModel>,
) {
    if !st.crypt.contains_key(netid) {
        (st, Seq::empty())
    } else if client_nonce is Some && client_nonce->0@.len() == 16 {
        let c = CryptModel { decrypt_iv: client_nonce->0@, ..st.crypt[netid] };
        (VoiceModel { crypt: st.crypt.insert(netid, c), ..st }, Seq::empty())
    } else {
        (
            st,
            seq![
                ActionModel::Reply(
                    OutgoingModel::CryptSetup {
                        material: None,
                        server_nonce: st.crypt[netid].encrypt_iv,
                    },
                ),
            ],
        )
    }
}

/// What a control message comes to: the state after it, whether the connection stays
/// open, its session, and the actions.
pub open spec fn message_handled(
    st: VoiceModel,
    session: Option<u32>,
    message: Incoming,
    material: Option<Material>,
    after: VoiceModel,
    keep: bool,
    session_after: Option<u32>,
    actions: Seq<ActionModel>,
) -> bool {
    match message {
        Incoming::Version => after == st && keep && session_after == session && actions == seq![
            ActionModel::Reply(own_version()),
        ],
        Incoming::Authenticate { username } => {
            let name = match username {
                Some(n) => n@,
                None => Seq::empty(),
            };
            match (netid_of(name), material) {
                (None, _) => after == st && !keep && session_after == session && actions == seq![
                    ActionModel::Reply(OutgoingModel::Reject { reason: reject_reason() }),
                ],
                (Some(_), None) => after == st && !keep && session_after == session && actions
                    == Seq::<ActionModel>::empty(),
                (Some(n), Some(m)) => {
                    &&& after == authenticated(st, n as u32, name, m)
                    &&& keep
                    &&& session_after == Some(n as u32)
                    &&& actions == login_actions(after, n as u32, name, m)
                },
            }
        },
        Incoming::Ping { timestamp } => {
            let c = if session is Some && st.crypt.contains_key(session->0) {
                let c = st.crypt[session->0];
                (c.good, c.late, c.lost)
            } else {
                (0u32, 0u32, 0u32)
            };
            after == st && keep && session_after == session && actions == seq![
                ActionModel::Reply(
                    OutgoingModel::Ping { timestamp, good: c.0, late: c.1, lost: c.2 },
                ),
            ]
        },
        Incoming::UserState(us) => keep && session_after == session && (after, actions)
            == match session {
            Some(netid) => user_state_step(st, netid, us),
            None => (st, Seq::empty()),
        },
        Incoming::VoiceTarget { id, targets } => keep && session_after == session && actions
            == Seq::<ActionModel>::empty() && after == match session {
            Some(netid) => voice_target_step(st, netid, id, targets@),
            None => st,
        },
        Incoming::UdpTunnel { packet } => keep && session_after == session && match session {
            Some(speaker) => routes(st, speaker, packet@, after, actions),
            None => after == st && actions == Seq::<ActionModel>::empty(),
        },
        Incoming::CryptSetup { client_nonce } => keep && session_after == session && (
        after, actions) == match session {
            Some(netid) => crypt_setup_step(st, netid, client_nonce),
            None => (st, Seq::empty()),
        },
        Incoming::PermissionQuery { channel_id } => after == st && keep && session_after == session
            && actions == seq![ActionModel::Reply(permitted(channel_id))],
        Incoming::Malformed(ty) => after == st && keep == (ty != MessageType::Authenticate)
            && session_after == session && actions == Seq::<ActionModel>::empty(),
        Incoming::Other => after == st && keep && session_after == session && actions == Seq::<
            ActionModel,
        >::empty(),
    }
}

proof fn lemma_type_bits(b: u8)
    by (bit_vector)
    ensures
        (b >> 5) == b / 32,
        b / 32 < 8,
{
}

/// A taker among the first `n` sessions is the taker among all of them.
proof fn lemma_first_taker(crypt: Map<u32, CryptModel>, ids: Seq<u32>, n: int, datagram: Seq<u8>)
    requires
        0 <= n <= ids.len(),
        first_taker(crypt, ids.take(n), datagram) is Some,
    ensures
        first_taker(crypt, ids, datagram) == first_taker(crypt, ids.take(n), datagram),
    decreases ids.len() - n,
{
    if n < ids.len() {
        assert(ids.take(n + 1).drop_last() =~= ids.take(n));
        lemma_first_taker(crypt, ids, n + 1, datagram);
    } else {
        assert(ids.take(n) =~= ids);
    }
}

/// Append a 32-bit word, most significant byte first.
fn push_word(out: &mut Vec<u8>, word: u32)
    ensures
        final(out)@ == old(out)@ + be_bytes(word as nat, 4),
{
    out.push((word / 0x100_0000) as u8);
    out.push((word / 0x1_0000 % 256) as u8);
    out.push((word / 256 % 256) as u8);
    out.push((word % 256) as u8);
    proof {
        reveal_with_fuel(be_bytes, 5);
    }
    assert(out@ =~= old(out)@ + be_bytes(word as nat, 4));
}

/// Put the entries of a target request together.
fn build_target(entries: &Vec<TargetEntry>) -> (target: Target)
    ensures
        target@ == (TargetModel {
            sessions: entry_sessions(entries@),
            channels: entry_channels(entries@),
        }),
{
    let mut target = Target::default();
    let mut i: usize = 0;
    assert(entries@.take(0) =~= Seq::empty());
    while i < entries.len()
        invariant
            i <= entries@.len(),
            target@ == (TargetModel {
                sessions: entry_sessions(entries@.take(i as int)),
                channels: entry_channels(entries@.take(i as int)),
            }),
        decreases entries@.len() - i,
    {
        let entry = &entries[i];
        let ghost before = target@;
        target.sessions.extend_from_slice(entry.session.as_slice());
        assert(target.sessions@ =~= before.sessions + entry.session@);
        if let Some(channel_id) = entry.channel_id {
            let links = match entry.links {
                Some(v) => v,
                None => false,
            };
            let children = match entry.children {
                Some(v) => v,
                None => false,
            };
            target.channels.push(ChannelTarget { channel_id, links, children });
        }
        i = i + 1;
        assert(entries@.take(i as int).drop_last() =~= entries@.take(i - 1));
    }
    assert(entries@.take(entries@.len() as int) =~= entries@);
    target
}

// --- what holds across messages ---

/// A connection that has not authenticated changes nothing, whatever it sends; only an
/// authentication with a valid name gives it a session.
pub proof fn a_stranger_changes_nothing(
    st: VoiceModel,
    message: Incoming,
    material: Option<Material>,
    after: VoiceModel,
    keep: bool,
    session_after: Option<u32>,
    actions: Seq<ActionModel>,
)
    requires
        message_handled(st, None, message, material, after, keep, session_after, actions),
        !(message is Authenticate),
    ensures
        after == st,
        session_after is None,
        forall|i: int| 0 <= i < actions.len() ==> #[trigger] actions[i] is Reply,
{
}

/// A player that left is nowhere: no session, no channel, no key, no address and no
/// position of it is left.
pub proof fn a_dropped_player_leaves_no_trace(st: VoiceModel, netid: u32)
    requires
        channels_wf(st.channels),
        st.sessions.contains_key(netid),
    ensures
        ({
            let after = dropped(st, netid).0;
            &&& !after.sessions.contains_key(netid)
            &&& !after.crypt.contains_key(netid)
            &&& !after.peers.contains_key(netid)
            &&& !after.overrides.contains_key(netid)
            &&& forall|id: u32| #[trigger]
                after.channels.contains_key(id) ==> !after.channels[id].members.contains(netid)
                    && !after.channels[id].listeners.contains(netid)
        }),
{
    let after = dropped(st, netid).0;
    assert forall|id: u32| #[trigger] after.channels.contains_key(id) implies
        !after.channels[id].members.contains(netid) && !after.channels[id].listeners.contains(
        netid,
    ) by {
        dropped_session_is_nowhere(st.channels, netid, id);
    }
}

/// The login burst hands the client what it needs to be understood: a packet sealed with
/// the key and the successor of the client nonce that were sent opens on the server.
pub proof fn the_first_packet_of_a_session_opens(
    st: VoiceModel,
    netid: u32,
    username: Seq<char>,
    m: Material,
    plain: Seq<u8>,
    packet: Seq<u8>,
)
    requires
        sealed_packet(m.0@, le_inc(m.2@), plain, packet),
    ensures
        login_actions(authenticated(st, netid, username, m), netid, username, m)[1]
            == ActionModel::Reply(
            OutgoingModel::CryptSetup { material: Some((m.0@, m.2@)), server_nonce: m.1@ },
        ),
        decrypt_step(authenticated(st, netid, username, m).crypt[netid], packet).1 == Some(plain),
{
    sealed_packet_opens_in_order(
        authenticated(st, netid, username, m).crypt[netid],
        plain,
        packet,
    );
}

} // verus!
