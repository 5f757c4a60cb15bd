//! What one call leaves for the next to find: how the operations of the voice server, the
//! registries and the queues relate to each other.
use crate::channel::{channels_wf, is_in, ChannelStore};
use crate::console::ConsoleBuffer;
use crate::convars::Convars;
use crate::deferrals::{DeferralModel, DeferralRegistry};
use crate::http_bridge::{request_models, HttpBridge, HttpRequest, HttpRequestSpec};
use crate::http_handler::{HttpHandlerRegistry, ScriptHttpResponse};
use crate::kvp::{flat, KvpStore};
use crate::net_bridge::{outbound_models, EventTarget, NetBridge, NetOutbound};
use crate::resource_control::{
    command_models, QueuedResourceControl, ResourceCommand, ResourceControl,
};
use crate::resource_registry::{ResourceManifest, ResourceRegistry, ScriptResourceState};
use crate::routing::{InMemoryRoutingControl, RoutingControl, RoutingLockdownMode};
use crate::server::{
    action_models, Action, ActionModel, OutgoingModel, Peer, UserStateModel, VoiceState,
};
use crate::session::{Session, SessionRegistry};
use crate::target::{Target, TargetRegistry};
use crate::text::{decimal, decimal_int};
use vstd::prelude::*;

verus! {

// --- the voice server ---

/// A player that is muted is muted until it is unmuted, and everyone is told; nobody else is
/// touched. A player without a session cannot be muted.
pub proof fn muting_is_remembered(netid: u32, muted: bool, other: u32, actions: Vec<Action>, yes: bool)
    ensures
        forall|s: &mut VoiceState| #[trigger]
            call_ensures(VoiceState::set_player_muted, (s, netid, muted), actions) ==> {
                let known = (*s)@.sessions.contains_key(netid);
                &&& call_ensures(VoiceState::is_player_muted, (&*final(s), netid), yes) ==> yes
                    == (known && muted)
                &&& other != netid ==> (*final(s))@.sessions[other] == (*s)@.sessions[other]
                &&& (*final(s))@.sessions[netid].deaf == (*s)@.sessions[netid].deaf
                &&& (*final(s))@.sessions[netid].self_deaf == (*s)@.sessions[netid].self_deaf
                &&& (*final(s))@.sessions[netid].name == (*s)@.sessions[netid].name
                &&& (*final(s))@.sessions[netid].targets == (*s)@.sessions[netid].targets
                &&& (*final(s))@.channels == (*s)@.channels
                &&& known ==> action_models(actions@) == seq![
                    ActionModel::Broadcast {
                        message: OutgoingModel::UserState(
                            UserStateModel {
                                session: netid,
                                name: None,
                                channel_id: None,
                                mute: Some(muted),
                                deaf: None,
                                self_mute: None,
                                self_deaf: None,
                            },
                        ),
                        skip: None,
                    },
                ]
                &&& !known ==> (*final(s))@ == (*s)@ && actions@.len() == 0
            },
{
}

/// A voice that was placed somewhere is there until it is taken back; then it is at the
/// origin again. Other voices stay where they are.
pub proof fn a_placed_voice_is_where_it_was_put(
    netid: u32,
    place: [u32; 3],
    read: [u32; 3],
    other: u32,
)
    ensures
        forall|s: &mut VoiceState| #[trigger]
            call_ensures(VoiceState::set_proximity_override, (s, netid, Some(place)), ()) ==> {
                &&& call_ensures(VoiceState::proximity_override, (&*final(s), netid), read)
                    ==> read@ == place@
                &&& other != netid ==> (*final(s))@.overrides[other] == (*s)@.overrides[other]
                &&& (*final(s))@.sessions == (*s)@.sessions && (*final(s))@.channels
                    == (*s)@.channels
            },
        forall|s: &mut VoiceState| #[trigger]
            call_ensures(
                VoiceState::set_proximity_override,
                (s, netid, None::<[u32; 3]>),
                (),
            ) ==> {
                &&& call_ensures(VoiceState::proximity_override, (&*final(s), netid), read)
                    ==> read@ == seq![0u32, 0u32, 0u32]
                &&& other != netid ==> (*final(s))@.overrides[other] == (*s)@.overrides[other]
            },
{
}

/// A channel that was made exists, for good, and is announced when it is made and only then.
pub proof fn a_made_channel_exists(id: u32, other: u32, actions: Vec<Action>, yes: bool)
    ensures
        forall|s: &mut VoiceState| #[trigger]
            call_ensures(VoiceState::create_channel, (s, id), actions) ==> {
                let there = (*s)@.channels.contains_key(id);
                &&& call_ensures(VoiceState::channel_exists, (&*final(s), id), yes) ==> yes
                &&& other != id ==> (call_ensures(
                    VoiceState::channel_exists,
                    (&*final(s), other),
                    yes,
                ) ==> yes == (*s)@.channels.contains_key(other))
                &&& there ==> (*final(s))@ == (*s)@ && actions@.len() == 0
                &&& !there ==> {
                    &&& !(*final(s))@.channels[id].temporary
                    &&& (*final(s))@.channels[id].members =~= Set::empty()
                    &&& action_models(actions@) == seq![
                        ActionModel::Broadcast {
                            message: OutgoingModel::ChannelState {
                                id,
                                parent: Some(0),
                                name: "Game Channel "@ + decimal(id as nat),
                                temporary: false,
                            },
                            skip: None,
                        },
                    ]
                }
            },
{
    assert forall|s: &mut VoiceState| #[trigger]
        call_ensures(VoiceState::create_channel, (s, id), actions) && (
    *s)@.channels.contains_key(id) implies actions@.len() == 0 by {
        assert(action_models(actions@).len() == actions@.len());
    }
}

/// A server starts with one channel and nobody in it.
pub proof fn a_server_starts_empty(s: VoiceState, id: u32)
    requires
        call_ensures(VoiceState::new, (), s),
    ensures
        s@.channels.contains_key(id) <==> id == 0,
        s@.channels[0].name == "Root"@,
        !s@.channels[0].temporary,
        s@.channels[0].members =~= Set::empty(),
        s@.channels[0].listeners =~= Set::empty(),
        !s@.sessions.contains_key(id) && !s@.crypt.contains_key(id) && !s@.peers.contains_key(id)
            && !s@.overrides.contains_key(id),
{
}

/// A ping over UDP comes back to where it came from, sealed with the next nonce of its
/// session.
pub proof fn a_ping_comes_back(peer: Peer, datagram: &[u8], actions: Vec<Action>, sender: u32)
    ensures
        forall|s: &mut VoiceState| #[trigger]
            call_ensures(VoiceState::handle_datagram, (s, peer, datagram), actions)
                && !crate::server::is_probe(datagram@) && crate::server::datagram_sender(
                (*s)@,
                peer,
                datagram@,
            ) == Some(sender) ==> {
                let plain = crate::crypto::decrypt_step((*s)@.crypt[sender], datagram@).1->0;
                let moved = crate::crypto::decrypt_step((*s)@.crypt[sender], datagram@).0;
                let iv = crate::crypto::le_inc(moved.encrypt_iv);
                plain.len() > 0 && plain[0] / 32 == 1 ==> {
                    &&& action_models(actions@) == seq![
                        ActionModel::Datagram {
                            peer,
                            bytes: crate::crypto::seal(moved.key, iv, plain),
                        },
                    ]
                    &&& (*final(s))@.crypt[sender].encrypt_iv == iv
                    &&& (*final(s))@.peers.contains_key(sender) && (*final(s))@.peers[sender] == peer
                    &&& (*final(s))@.sessions == (*s)@.sessions
                }
            },
{
}

/// A probe is answered to where it came from and changes nothing, and a datagram that nobody
/// can read is passed over.
pub proof fn strangers_change_nothing(peer: Peer, datagram: &[u8], actions: Vec<Action>)
    ensures
        forall|s: &mut VoiceState| #[trigger]
            call_ensures(VoiceState::handle_datagram, (s, peer, datagram), actions) ==> {
                &&& crate::server::is_probe(datagram@) ==> (*final(s))@ == (*s)@ && action_models(
                    actions@,
                ) == seq![
                    ActionModel::Datagram {
                        peer,
                        bytes: crate::server::probe_reply(
                            (*s)@.sessions.len(),
                            datagram@.subrange(4, 12),
                        ),
                    },
                ]
                &&& !crate::server::is_probe(datagram@) && crate::server::datagram_sender(
                    (*s)@,
                    peer,
                    datagram@,
                ) is None ==> (*final(s))@ == (*s)@ && actions@.len() == 0
            },
{
    if crate::server::is_probe(datagram@) {
        assert(datagram@.skip(4) =~= datagram@.subrange(4, 12));
    }
}

/// A session speaks unless it is muted, and hears unless it is deaf, by the server's word or
/// its own.
pub proof fn who_speaks_and_hears(s: Session, speaks: bool, hears: bool)
    ensures
        call_ensures(Session::can_speak, (&s,), speaks) ==> speaks == !s.mute,
        call_ensures(Session::can_hear, (&s,), hears) ==> hears == (!s.deaf && !s.self_deaf),
{
}

/// Two sessions share a context only if both have one and it is the same.
pub proof fn contexts_are_compared(r: SessionRegistry, a: u32, b: u32, yes: bool)
    requires
        call_ensures(SessionRegistry::contexts_match, (&r, a, b), yes),
    ensures
        yes ==> r@.contains_key(a) && r@.contains_key(b) && r@[a].context is Some
            && r@[b].context is Some && r@[a].context->0 == r@[b].context->0,
        r@.contains_key(a) && r@.contains_key(b) && r@[a].context is Some && r@[a].context
            == r@[b].context ==> yes,
{
}

/// A whisper target is read as it was set, until it is cleared; no other target changes.
pub proof fn a_target_is_read_as_it_was_set(id: u8, target: Target, read: Option<&Target>, other: u8)
    ensures
        forall|r: &mut TargetRegistry| #[trigger]
            call_ensures(TargetRegistry::set, (r, id, target), ()) ==> {
                &&& 1 <= id <= 30 && call_ensures(TargetRegistry::get, (&*final(r), id), read)
                    ==> read is Some && read->0@ == target@
                &&& !(1 <= id <= 30) ==> (*final(r))@ == (*r)@
                &&& other != id ==> (*final(r))@[other] == (*r)@[other] && ((
                *final(r))@.contains_key(other) <==> (*r)@.contains_key(other))
            },
        forall|r: &mut TargetRegistry| #[trigger]
            call_ensures(TargetRegistry::clear, (r, id), ()) ==> {
                &&& call_ensures(TargetRegistry::get, (&*final(r), id), read) ==> read is None
                &&& other != id ==> (*final(r))@[other] == (*r)@[other]
            },
        forall|r: &mut TargetRegistry| #[trigger]
            call_ensures(TargetRegistry::clear_all, (r,), ()) ==> (call_ensures(
                TargetRegistry::get,
                (&*final(r), id),
                read,
            ) ==> read is None),
{
}

/// A session that joins a channel is found there, and nowhere once it left.
pub proof fn a_session_is_found_where_it_joined(
    session: u32,
    id: u32,
    previous: Option<u32>,
    found: Option<u32>,
)
    ensures
        forall|c: &mut ChannelStore| #[trigger]
            call_ensures(ChannelStore::join, (c, session, id), previous) && channels_wf((*c)@) ==> {
                &&& call_ensures(ChannelStore::find, (&*final(c), session), found) ==> found
                    == Some(id)
                &&& previous is Some ==> is_in((*c)@, session, previous->0)
            },
        forall|c: &mut ChannelStore| #[trigger]
            call_ensures(ChannelStore::leave, (c, session), previous) && channels_wf((*c)@) ==> {
                &&& call_ensures(ChannelStore::find, (&*final(c), session), found) ==> found is None
                &&& previous is Some ==> is_in((*c)@, session, previous->0)
            },
{
    assert forall|c: &mut ChannelStore| #[trigger]
        call_ensures(ChannelStore::join, (c, session, id), previous) && channels_wf((*c)@) implies (
    call_ensures(ChannelStore::find, (&*final(c), session), found) ==> found == Some(id)) by {
        let after = (*final(c))@;
        assert forall|other: u32| is_in(after, session, other) implies other == id by {
            crate::channel::join_moves_the_session((*c)@, session, id, other);
        }
        crate::channel::join_moves_the_session((*c)@, session, id, id);
        assert(is_in(after, session, id));
    }
    assert forall|c: &mut ChannelStore| #[trigger]
        call_ensures(ChannelStore::leave, (c, session), previous) && channels_wf((*c)@) implies (
    call_ensures(ChannelStore::find, (&*final(c), session), found) ==> found is None) by {
        crate::channel::lemma_leave_wf((*c)@, session);
    }
}

// --- connections that wait ---

/// A new connection waits; a handler that takes it over keeps it waiting when the others are
/// done, and one that no handler took over is let in.
pub proof fn a_connection_waits_if_it_was_taken_over(source: u32, yes: bool)
    ensures
        forall|d: &mut DeferralRegistry| #[trigger]
            call_ensures(DeferralRegistry::register, (d, source), ()) ==> {
                let entry = (*final(d))@[source];
                &&& call_ensures(DeferralRegistry::is_pending, (&*final(d), source), yes) ==> yes
                &&& !entry.deferred && entry.kick_reason is None && entry.last_update is None
            },
        forall|d: &mut DeferralRegistry| #[trigger]
            call_ensures(DeferralRegistry::defer, (d, source), ()) ==> {
                &&& (*d)@.contains_key(source) ==> (*final(d))@[source].deferred && (
                *final(d))@[source].outcome == (*d)@[source].outcome
                &&& (*final(d))@.dom() =~= (*d)@.dom()
            },
        forall|d: &mut DeferralRegistry| #[trigger]
            call_ensures(DeferralRegistry::resolve_if_not_deferred, (d, source), ()) ==> {
                &&& (*d)@.contains_key(source) && (*d)@[source].deferred ==> (*final(d))@ == (*d)@
                &&& (*d)@.contains_key(source) && (*d)@[source].outcome is None && !(
                *d)@[source].deferred ==> (*final(d))@[source].outcome == Some(
                    Ok::<(), Seq<char>>(()),
                )
                &&& (*d)@.contains_key(source) && (*d)@[source].outcome is Some ==> (*final(d))@
                    == (*d)@
            },
        forall|d: &mut DeferralRegistry| #[trigger]
            call_ensures(DeferralRegistry::remove, (d, source), ()) ==> (call_ensures(
                DeferralRegistry::is_pending,
                (&*final(d), source),
                yes,
            ) ==> !yes),
{
}

/// What a handler says of a connection is kept with it: the latest message, and the reason
/// for a later refusal. A decision lets the connection in or keeps it out, and ends the wait.
pub proof fn what_is_said_of_a_connection_is_kept(
    source: u32,
    text: String,
    other: u32,
    yes: bool,
)
    ensures
        forall|d: &mut DeferralRegistry| #[trigger]
            call_ensures(DeferralRegistry::update, (d, source, text), ()) ==> {
                &&& (*d)@.contains_key(source) ==> (*final(d))@[source] == (DeferralModel {
                    last_update: Some(text@),
                    ..(*d)@[source]
                })
                &&& other != source ==> (*final(d))@[other] == (*d)@[other]
            },
        forall|d: &mut DeferralRegistry| #[trigger]
            call_ensures(DeferralRegistry::set_kick_reason, (d, source, text), ()) ==> {
                &&& (*d)@.contains_key(source) ==> (*final(d))@[source] == (DeferralModel {
                    kick_reason: Some(text@),
                    ..(*d)@[source]
                })
                &&& other != source ==> (*final(d))@[other] == (*d)@[other]
            },
        forall|d: &mut DeferralRegistry| #[trigger]
            call_ensures(DeferralRegistry::done, (d, source, Some(text)), ()) ==> {
                &&& call_ensures(DeferralRegistry::is_pending, (&*final(d), source), yes) ==> !yes
                &&& (*d)@.contains_key(source) && (*d)@[source].outcome is None && text@.len() > 0
                    ==> (*final(d))@[source].outcome == Some(Err::<(), Seq<char>>(text@))
                &&& (*d)@.contains_key(source) && (*d)@[source].outcome is None && text@.len() == 0
                    ==> (*final(d))@[source].outcome == Some(Ok::<(), Seq<char>>(()))
                &&& other != source ==> (*final(d))@[other] == (*d)@[other]
            },
{
}

// --- requests to scripts ---

/// A request gets an id of its own, waits until it is answered or given up, and is answered
/// once: the answer is picked up once, by whoever began it.
pub proof fn a_request_is_answered_once(
    id: u32,
    response: ScriptHttpResponse,
    delivered: bool,
    picked: Option<ScriptHttpResponse>,
    other: u32,
)
    ensures
        forall|h: &mut HttpHandlerRegistry| #[trigger]
            call_ensures(HttpHandlerRegistry::begin, (h,), id) ==> {
                &&& (*h)@.latest < u32::MAX ==> id == (*h)@.latest + 1
                &&& (*h)@.latest == u32::MAX ==> id == 1
                &&& (*final(h))@.waiting =~= (*h)@.waiting.insert(id)
                &&& !(*final(h))@.answered.contains_key(id)
                &&& (*final(h))@.latest == id
                &&& (*final(h))@.handlers == (*h)@.handlers
            },
        forall|h: &mut HttpHandlerRegistry| #[trigger]
            call_ensures(HttpHandlerRegistry::complete, (h, id, response), delivered) ==> {
                &&& delivered <==> (*h)@.waiting.contains(id)
                &&& delivered ==> !(*final(h))@.waiting.contains(id) && (
                *final(h))@.answered.contains_key(id) && (*final(h))@.answered[id] == response
                &&& !delivered ==> (*final(h))@ == (*h)@
                &&& other != id ==> ((*final(h))@.waiting.contains(other) <==> (
                *h)@.waiting.contains(other)) && (*final(h))@.answered[other] == (
                *h)@.answered[other]
            },
        forall|h: &mut HttpHandlerRegistry| #[trigger]
            call_ensures(HttpHandlerRegistry::receive, (h, id), picked) ==> {
                &&& picked is Some <==> (*h)@.answered.contains_key(id)
                &&& picked is Some ==> picked->0 == (*h)@.answered[id]
                &&& !(*final(h))@.answered.contains_key(id)
                &&& (*final(h))@.waiting == (*h)@.waiting
                &&& other != id ==> (*final(h))@.answered[other] == (*h)@.answered[other]
            },
        forall|h: &mut HttpHandlerRegistry| #[trigger]
            call_ensures(HttpHandlerRegistry::abandon, (h, id), ()) ==> {
                &&& !(*final(h))@.waiting.contains(id) && !(*final(h))@.answered.contains_key(id)
                &&& other != id ==> ((*final(h))@.waiting.contains(other) <==> (
                *h)@.waiting.contains(other))
            },
{
}

/// A resource answers requests from when it registers to when it unregisters.
pub proof fn a_handler_answers_while_it_is_registered(resource: &str, other: Seq<char>, yes: bool)
    ensures
        forall|h: &mut HttpHandlerRegistry| #[trigger]
            call_ensures(HttpHandlerRegistry::register, (h, resource), ()) ==> {
                &&& call_ensures(HttpHandlerRegistry::has_handler, (&*final(h), resource), yes)
                    ==> yes
                &&& other != resource@ ==> ((*final(h))@.handlers.contains(other) <==> (
                *h)@.handlers.contains(other))
            },
        forall|h: &mut HttpHandlerRegistry| #[trigger]
            call_ensures(HttpHandlerRegistry::unregister, (h, resource), ()) ==> {
                &&& call_ensures(HttpHandlerRegistry::has_handler, (&*final(h), resource), yes)
                    ==> !yes
                &&& other != resource@ ==> ((*final(h))@.handlers.contains(other) <==> (
                *h)@.handlers.contains(other))
            },
{
}

/// An answer that was never written is an empty success.
pub proof fn an_unwritten_answer_is_an_empty_success(r: ScriptHttpResponse)
    requires
        call_ensures(ScriptHttpResponse::default, (), r),
    ensures
        r.status == 200,
        r.body@.len() == 0,
        r.headers@.len() == 0,
{
    assert(crate::http_bridge::header_models(r.headers@).len() == r.headers@.len());
}

// --- requests to the outside ---

/// A request that is taken waits for the worker under the token that its script gets; with
/// no worker, or with 1024 waiting, it is counted as lost. The worker gets them all, in
/// order.
pub proof fn outbound_requests_wait_for_the_worker(
    spec: HttpRequestSpec,
    token: Option<u32>,
    requests: Vec<HttpRequest>,
)
    ensures
        forall|b: &mut HttpBridge| #[trigger]
            call_ensures(HttpBridge::submit, (b, spec), token) ==> {
                let room = (*b)@.open && (*b)@.queue.len() < 1024;
                &&& token is Some <==> room
                &&& room ==> token->0 == (*b)@.next_token && (*final(b))@.queue == (*b)@.queue.push(
                    (spec@, (*b)@.next_token),
                ) && (*final(b))@.dropped == (*b)@.dropped
                &&& !room ==> (*final(b))@.queue == (*b)@.queue
                &&& !room && (*b)@.dropped < u64::MAX ==> (*final(b))@.dropped == (*b)@.dropped + 1
                &&& (*final(b))@.open == (*b)@.open
            },
        forall|b: &mut HttpBridge| #[trigger]
            call_ensures(HttpBridge::drain, (b,), requests) ==> {
                &&& request_models(requests@) == (*b)@.queue
                &&& (*final(b))@.queue.len() == 0
                &&& (*final(b))@.next_token == (*b)@.next_token && (*final(b))@.open == (*b)@.open
                    && (*final(b))@.dropped == (*b)@.dropped
            },
        forall|b: &mut HttpBridge| #[trigger]
            call_ensures(HttpBridge::close, (b,), ()) ==> !(*final(b))@.open && (*final(b))@.queue
                == (*b)@.queue,
{
}

/// Messages to the gateway come out once, in the order in which they went in, and a gateway
/// that is gone takes none.
pub proof fn messages_come_out_in_order(
    message: NetOutbound,
    sent: bool,
    messages: Vec<NetOutbound>,
)
    ensures
        forall|b: &mut NetBridge| #[trigger]
            call_ensures(NetBridge::send, (b, message), sent) ==> {
                &&& sent <==> (*b)@.open && (*b)@.queue.len() < 2048
                &&& sent ==> (*final(b))@.queue == (*b)@.queue.push(message@)
                &&& !sent ==> (*final(b))@ == (*b)@
            },
        forall|b: &mut NetBridge| #[trigger]
            call_ensures(NetBridge::drain, (b,), messages) ==> outbound_models(messages@) == (
            *b)@.queue && (*final(b))@.queue.len() == 0 && (*final(b))@.open == (*b)@.open,
        forall|b: &mut NetBridge| #[trigger]
            call_ensures(NetBridge::close, (b,), ()) ==> (!(*final(b))@.open && (
            *final(b))@.queue == (*b)@.queue),
{
}

/// Lifecycle commands are taken while the host listens and fewer than 256 wait, come out in
/// order, and are counted when they are not taken.
pub proof fn commands_come_out_in_order(
    command: ResourceCommand,
    taken: bool,
    commands: Vec<ResourceCommand>,
)
    ensures
        forall|c: &mut QueuedResourceControl| #[trigger]
            call_ensures(QueuedResourceControl::submit, (c, command), taken) ==> {
                &&& taken <==> (*c).is_open() && (*c).accepted().len() < 256
                &&& taken ==> (*final(c)).accepted() == (*c).accepted().push(command@) && (
                *final(c)).losses() == (*c).losses()
                &&& !taken ==> (*final(c)).accepted() == (*c).accepted()
                &&& !taken && (*c).losses() < u64::MAX ==> (*final(c)).losses() == (*c).losses() + 1
            },
        forall|c: &mut QueuedResourceControl| #[trigger]
            call_ensures(QueuedResourceControl::drain, (c,), commands) ==> command_models(commands@)
                == (*c).accepted() && (*final(c)).accepted().len() == 0,
        forall|c: &mut QueuedResourceControl| #[trigger]
            call_ensures(QueuedResourceControl::close, (c,), ()) ==> !(*final(c)).is_open()
                && !(*final(c)).accepts(),
{
}

// --- buckets ---

/// The bucket of an entity or a player is read as it was set, and is zero before that and
/// once it is removed; each is kept apart from the other, and every change counts.
pub proof fn buckets_are_read_as_they_were_set(id: u32, bucket: u32, read: u32, other: u32)
    ensures
        forall|r: &mut InMemoryRoutingControl| #[trigger]
            call_ensures(InMemoryRoutingControl::set_entity_bucket, (r, id, bucket), ()) ==> {
                &&& call_ensures(InMemoryRoutingControl::entity_bucket, (&*final(r), id), read)
                    ==> read == bucket
                &&& other != id && call_ensures(
                    InMemoryRoutingControl::entity_bucket,
                    (&*final(r), other),
                    read,
                ) ==> call_bucket((*r).routing().entities, other) == read
                &&& (*final(r)).routing().players == (*r).routing().players
                &&& (*final(r)).routing().lockdown == (*r).routing().lockdown
            },
        forall|r: &mut InMemoryRoutingControl| #[trigger]
            call_ensures(InMemoryRoutingControl::set_player_bucket, (r, id, bucket), ()) ==> {
                &&& call_ensures(InMemoryRoutingControl::player_bucket, (&*final(r), id), read)
                    ==> read == bucket
                &&& (*final(r)).routing().entities == (*r).routing().entities
            },
        forall|r: &mut InMemoryRoutingControl| #[trigger]
            call_ensures(InMemoryRoutingControl::remove_entity, (r, id), ()) ==> {
                &&& call_ensures(InMemoryRoutingControl::entity_bucket, (&*final(r), id), read)
                    ==> read == 0
                &&& (*final(r)).routing().players == (*r).routing().players
            },
{
}

/// The bucket that a map of buckets gives an id: zero where it has none.
pub open spec fn call_bucket(map: Map<u32, u32>, id: u32) -> u32 {
    if map.contains_key(id) {
        map[id]
    } else {
        0
    }
}

/// A bucket is open and populated until something else is set for it, and then is what was
/// set; other buckets stay.
pub proof fn bucket_policies_are_read_as_they_were_set(
    bucket: u32,
    mode: RoutingLockdownMode,
    read: RoutingLockdownMode,
    enabled: bool,
    yes: bool,
    fresh: InMemoryRoutingControl,
)
    ensures
        forall|r: &mut InMemoryRoutingControl| #[trigger]
            call_ensures(InMemoryRoutingControl::set_lockdown_mode, (r, bucket, mode), ()) ==> {
                &&& call_ensures(InMemoryRoutingControl::lockdown_mode, (&*final(r), bucket), read)
                    ==> read == mode
                &&& (*final(r)).routing().population == (*r).routing().population
            },
        forall|r: &mut InMemoryRoutingControl| #[trigger]
            call_ensures(
                InMemoryRoutingControl::set_population_enabled,
                (r, bucket, enabled),
                (),
            ) ==> {
                &&& call_ensures(
                    InMemoryRoutingControl::population_enabled,
                    (&*final(r), bucket),
                    yes,
                ) ==> yes == enabled
                &&& (*final(r)).routing().lockdown == (*r).routing().lockdown
            },
        call_ensures(InMemoryRoutingControl::default, (), fresh) ==> {
            &&& call_ensures(InMemoryRoutingControl::lockdown_mode, (&fresh, bucket), read) ==> read
                == RoutingLockdownMode::Inactive
            &&& call_ensures(InMemoryRoutingControl::population_enabled, (&fresh, bucket), yes)
                ==> yes
        },
{
}

// --- variables, console, storage ---

/// A variable is read as it was set: as text, as the number it spells, and as a yes for the
/// four words; and as the default before it was set.
pub proof fn a_variable_is_read_as_it_was_set(
    name: &str,
    value: String,
    default: String,
    text: String,
    n: i32,
    other: i32,
    number: i32,
    yes: bool,
    no: bool,
)
    ensures
        forall|c: &mut Convars| #[trigger]
            call_ensures(Convars::set_convar, (c, name, value), ()) ==> {
                &&& call_ensures(Convars::get_convar, (&*final(c), name, default), text) ==> text@
                    == value@
                &&& value@ == decimal_int(n as int) && call_ensures(
                    Convars::get_convar_int,
                    (&*final(c), name, other),
                    number,
                ) ==> number == n
                &&& value@ == "true"@ && call_ensures(
                    Convars::get_convar_bool,
                    (&*final(c), name, no),
                    yes,
                ) ==> yes
                &&& value@ == "0"@ && call_ensures(
                    Convars::get_convar_bool,
                    (&*final(c), name, no),
                    yes,
                ) ==> !yes
            },
        forall|c: Convars|
            #![trigger c@]
            !c@.contains_key(name@) ==> {
                &&& call_ensures(Convars::get_convar, (&c, name, default), text) ==> text@
                    == default@
                &&& call_ensures(Convars::get_convar_int, (&c, name, other), number) ==> number
                    == other
                &&& call_ensures(Convars::get_convar_bool, (&c, name, no), yes) ==> yes == no
            },
{
    crate::text::decimal_int_reads_back(n as int, i32::MIN as int, i32::MAX as int);
    crate::value_laws::four_words_mean_yes(value@);
    reveal_strlit("true");
    reveal_strlit("0");
    let small = seq!['t', 'r', 'u', 'e'];
    if value@ == "true"@ {
        assert(crate::value_laws::spelt(value@, small, seq!['T', 'R', 'U', 'E']));
    }
    if value@ == "0"@ {
        assert(value@[0] == '0' && value@.len() == 1);
    }
}

/// A line in the console says which resource printed it.
pub proof fn a_printed_line_names_its_resource(resource: &str, message: &str)
    ensures
        forall|c: &mut ConsoleBuffer| #[trigger]
            call_ensures(ConsoleBuffer::log, (c, resource, message), ()) && (*c)@.len() < 512 ==> (
            *final(c))@ == (*c)@.push("["@ + (resource@ + ("] "@ + message@))),
{
    assert("["@ + resource@ + "] "@ + message@ =~= "["@ + (resource@ + ("] "@ + message@)));
}

/// A stored value is read back by the resource that stored it, under the key it stored it
/// under, and is gone when it is removed. Others' values stay.
pub proof fn a_store_gives_back_what_was_put_in(
    resource: &str,
    key: &str,
    value: String,
    sync: bool,
    out: Option<String>,
    read: Option<String>,
)
    ensures
        forall|k: &mut KvpStore| #[trigger]
            call_ensures(KvpStore::set, (k, resource, key, value, sync), out) ==> {
                &&& call_ensures(KvpStore::get, (&*final(k), resource, key), read) ==> read is Some
                    && read->0@ == value@
                &&& !sync ==> out is None && (*final(k))@.dirty
                &&& sync ==> !(*final(k))@.dirty && (out is Some <==> (*k)@.persistent)
                &&& forall|f: Seq<char>|
                    f != flat(resource@, key@) ==> (#[trigger] (*final(k))@.entries.contains_key(f)
                        <==> (*k)@.entries.contains_key(f)) && (*final(k))@.entries[f] == (
                    *k)@.entries[f]
            },
        forall|k: &mut KvpStore| #[trigger]
            call_ensures(KvpStore::remove, (k, resource, key, sync), out) ==> {
                &&& call_ensures(KvpStore::get, (&*final(k), resource, key), read) ==> read is None
                &&& !sync ==> (*final(k))@.dirty
            },
        forall|k: &mut KvpStore| #[trigger]
            call_ensures(KvpStore::flush_failed, (k,), ()) ==> (*final(k))@.dirty && (
            *final(k))@.entries == (*k)@.entries,
        forall|k: &mut KvpStore| #[trigger]
            call_ensures(KvpStore::flush, (k,), out) ==> {
                &&& out is Some <==> (*k)@.persistent && (*k)@.dirty
                &&& !(*final(k))@.dirty && (*final(k))@.entries == (*k)@.entries
            },
{
}

/// A store that is opened on what another wrote holds what that one held.
pub proof fn a_written_store_is_opened_again(text: &str, out: Option<String>, reopened: KvpStore)
    ensures
        forall|k: &mut KvpStore| #[trigger]
            call_ensures(KvpStore::flush, (k,), out) && out is Some && out->0@ == text@
                && call_ensures(KvpStore::open, (Some(text),), reopened) ==> reopened@.entries == (
            *k)@.entries && reopened@.persistent && !reopened@.dirty,
        call_ensures(KvpStore::open, (None::<&str>,), reopened) ==> reopened@.entries.dom()
            =~= Set::empty() && reopened@.persistent,
        call_ensures(KvpStore::in_memory, (), reopened) ==> !reopened@.persistent
            && reopened@.entries.dom() =~= Set::empty(),
{
}

// --- resources ---

/// A resource is known as it was last registered, and in the state that was last set; one
/// that was never registered is missing.
pub proof fn a_resource_is_known_as_registered(
    name: &str,
    owned: String,
    root: String,
    manifest: ResourceManifest,
    state: ScriptResourceState,
    word: &'static str,
    path: String,
    registry: ResourceRegistry,
)
    requires
        owned@ == name@,
    ensures
        forall|r: &mut ResourceRegistry| #[trigger]
            call_ensures(
                ResourceRegistry::upsert_resource,
                (r, owned, root, manifest, state),
                (),
            ) ==> {
                &&& call_ensures(ResourceRegistry::path, (&*final(r), name), path) ==> path@ == root@
                &&& state is Started && call_ensures(
                    ResourceRegistry::state,
                    (&*final(r), name),
                    word,
                ) ==> word@ == "started"@
                &&& state is Stopped && call_ensures(
                    ResourceRegistry::state,
                    (&*final(r), name),
                    word,
                ) ==> word@ == "stopped"@
            },
        forall|r: &mut ResourceRegistry| #[trigger]
            call_ensures(ResourceRegistry::set_state, (r, name, state), ()) ==> {
                &&& (*r)@.contains_key(name@) && state is Starting && call_ensures(
                    ResourceRegistry::state,
                    (&*final(r), name),
                    word,
                ) ==> word@ == "starting"@
                &&& (*r)@.contains_key(name@) ==> (*final(r))@[name@].root == (*r)@[name@].root && (
                *final(r))@[name@].server_scripts == (*r)@[name@].server_scripts
                &&& !(*r)@.contains_key(name@) ==> (*final(r))@ == (*r)@
            },
        !registry@.contains_key(name@) ==> {
            &&& call_ensures(ResourceRegistry::state, (&registry, name), word) ==> word@
                == "missing"@
            &&& call_ensures(ResourceRegistry::path, (&registry, name), path) ==> path@.len() == 0
        },
{
}

/// A target is written back as the script wrote it: everyone as minus one, a player by its
/// net id.
pub proof fn targets_are_written_back(source: u32, raw: i64, text: String, target: EventTarget)
    ensures
        call_ensures(EventTarget::to_script, (EventTarget::All,), raw) ==> raw == -1,
        call_ensures(EventTarget::to_script, (EventTarget::One(source),), raw) ==> raw == source,
        call_ensures(EventTarget::label, (EventTarget::All,), text) ==> text@ == "all"@,
        call_ensures(EventTarget::label, (EventTarget::One(source),), text) ==> text@ == decimal(
            source as nat,
        ),
        call_ensures(EventTarget::from_script, (raw,), target) && raw < 0 ==> target
            == EventTarget::All,
        call_ensures(EventTarget::from_script, (raw,), target) && 0 <= raw <= 0xffff_ffff ==> target
            == EventTarget::One(raw as u32),
{
}

} // verus!
