//! The routing brain: resolve one inbound voice packet into a recipient list.
//!
//! The routing decision is plain data ([`Recipient`]s) computed from the session,
//! channel and target state.
//!
//! - `Normal`: everyone in the speaker's channel and its listeners, without the
//!   speaker; the positional block is stripped when contexts differ.
//! - `Whisper(n)`: the union of the target's explicit sessions and the members and
//!   listeners of the target's channels.
//! - `Loopback`: the speaker only (mic test).
use crate::channel::{channel_of, ChannelModel, ChannelStore};
use crate::ordered::{ascending, lemma_is_listing, listing_of, lists, IdSet};
use crate::session::{share_context, SessionModel, SessionRegistry};
use crate::target::TargetModel;
use crate::voice::VoicePacket;
use crate::VoiceTargetKind;
use vstd::prelude::*;

verus! {

/// One resolved recipient and whether it should receive positional data.
#[derive(Debug, Clone, Copy, PartialEq, Eq, Structural)]
pub struct Recipient {
    pub session: u32,
    /// True: forward the full packet (with position); false: strip the position.
    pub with_position: bool,
}

/// Optional area-of-interest oracle. Given the speaker and a candidate listener,
/// decides whether the listener is close enough to hear.
pub trait AoiOracle {
    /// Returns `Some(true/false)` to force inclusion or exclusion by proximity, or
    /// `None` to defer to default routing (no position data available yet).
    fn audible(&self, speaker: u32, listener: u32) -> Option<bool>;
}

/// A no-op oracle: proximity culling disabled, everyone in scope hears.
pub struct NoCulling;

impl AoiOracle for NoCulling {
    fn audible(&self, _speaker: u32, _listener: u32) -> (verdict: Option<bool>)
        ensures
            verdict is None,
    {
        None
    }
}

/// The session may receive audio.
pub open spec fn can_receive(sessions: Map<u32, SessionModel>, listener: u32) -> bool {
    sessions.contains_key(listener) && sessions[listener].hears()
}

/// The session may transmit voice.
pub open spec fn can_transmit(sessions: Map<u32, SessionModel>, speaker: u32) -> bool {
    sessions.contains_key(speaker) && !sessions[speaker].mute
}

/// Members and listeners of a channel.
pub open spec fn channel_audience(channels: Map<u32, ChannelModel>, id: u32) -> Set<u32> {
    if channels.contains_key(id) {
        channels[id].members.union(channels[id].listeners)
    } else {
        Set::empty()
    }
}

/// Who is in scope of normal talk: the audience of the speaker's channel.
pub open spec fn normal_scope(channels: Map<u32, ChannelModel>, speaker: u32) -> Set<u32> {
    match channel_of(channels, speaker) {
        Some(id) => channel_audience(channels, id),
        None => Set::empty(),
    }
}

/// `session` is named by the target, itself or through one of its channels.
pub open spec fn target_reaches(
    target: TargetModel,
    channels: Map<u32, ChannelModel>,
    session: u32,
) -> bool {
    ||| target.sessions.contains(session)
    ||| exists|i: int|
        0 <= i < target.channels.len() && channel_audience(
            channels,
            (#[trigger] target.channels[i]).channel_id,
        ).contains(session)
}

/// Who is in scope of a whisper: whoever the speaker's target `id` reaches.
pub open spec fn whisper_scope(
    sessions: Map<u32, SessionModel>,
    channels: Map<u32, ChannelModel>,
    speaker: u32,
    id: u8,
) -> Set<u32> {
    if sessions.contains_key(speaker) && sessions[speaker].targets.contains_key(id) {
        Set::new(|s: u32| target_reaches(sessions[speaker].targets[id], channels, s))
    } else {
        Set::empty()
    }
}

/// Those in scope that can receive, without the speaker.
pub open spec fn listeners_in(
    sessions: Map<u32, SessionModel>,
    scope: Set<u32>,
    speaker: u32,
) -> Set<u32> {
    Set::new(|s: u32| scope.contains(s) && s != speaker && can_receive(sessions, s))
}

/// The recipient `listener`, with the positional decision: position is forwarded only
/// when the packet carries one and the two sessions share a context.
pub open spec fn recipient_for(
    sessions: Map<u32, SessionModel>,
    packet: VoicePacket,
    speaker: u32,
    listener: u32,
) -> Recipient {
    Recipient {
        session: listener,
        with_position: packet.coordinates() is Some && sessions.contains_key(speaker)
            && sessions.contains_key(listener) && share_context(
            sessions[speaker],
            sessions[listener],
        ),
    }
}

/// The recipients for the given listeners, in their order.
pub open spec fn recipients_for(
    sessions: Map<u32, SessionModel>,
    packet: VoicePacket,
    speaker: u32,
    listeners: Seq<u32>,
) -> Seq<Recipient> {
    listeners.map_values(|l: u32| recipient_for(sessions, packet, speaker, l))
}

/// The listeners that no verdict excludes.
pub open spec fn not_excluded(listeners: Seq<u32>, verdicts: Seq<Option<bool>>) -> Seq<u32>
    decreases listeners.len(),
{
    if listeners.len() == 0 {
        Seq::empty()
    } else {
        let head = not_excluded(listeners.drop_last(), verdicts.drop_last());
        if verdicts.last() == Some(false) {
            head
        } else {
            head.push(listeners.last())
        }
    }
}

/// The oracle was asked about each listener, and these are its verdicts.
pub open spec fn asked<A: AoiOracle>(
    aoi: &A,
    speaker: u32,
    listeners: Seq<u32>,
    verdicts: Seq<Option<bool>>,
) -> bool {
    &&& verdicts.len() == listeners.len()
    &&& forall|i: int|
        0 <= i < listeners.len() ==> call_ensures(
            A::audible,
            (aoi, speaker, #[trigger] listeners[i]),
            verdicts[i],
        )
}

/// `out` is what normal talk resolves to: the listeners in ascending order, without
/// those that the oracle excludes.
pub open spec fn resolves_normal<A: AoiOracle>(
    sessions: Map<u32, SessionModel>,
    channels: Map<u32, ChannelModel>,
    packet: VoicePacket,
    speaker: u32,
    aoi: &A,
    out: Seq<Recipient>,
) -> bool {
    let ids = listing_of(listeners_in(sessions, normal_scope(channels, speaker), speaker));
    exists|verdicts: Seq<Option<bool>>| #[trigger]
        asked(aoi, speaker, ids, verdicts) && out == recipients_for(
            sessions,
            packet,
            speaker,
            not_excluded(ids, verdicts),
        )
}

/// What a whisper resolves to: every listener of the target, ascending.
pub open spec fn whisper_recipients(
    sessions: Map<u32, SessionModel>,
    channels: Map<u32, ChannelModel>,
    packet: VoicePacket,
    speaker: u32,
    id: u8,
) -> Seq<Recipient> {
    let scope = whisper_scope(sessions, channels, speaker, id);
    recipients_for(sessions, packet, speaker, listing_of(listeners_in(sessions, scope, speaker)))
}

/// What normal talk resolves to without culling: every listener in scope, ascending.
pub open spec fn normal_recipients(
    sessions: Map<u32, SessionModel>,
    channels: Map<u32, ChannelModel>,
    packet: VoicePacket,
    speaker: u32,
) -> Seq<Recipient> {
    let scope = normal_scope(channels, speaker);
    recipients_for(sessions, packet, speaker, listing_of(listeners_in(sessions, scope, speaker)))
}

/// What a packet resolves to without culling.
pub open spec fn unculled_recipients(
    sessions: Map<u32, SessionModel>,
    channels: Map<u32, ChannelModel>,
    packet: VoicePacket,
    speaker: u32,
) -> Seq<Recipient> {
    if can_transmit(sessions, speaker) {
        match packet.target {
            VoiceTargetKind::Loopback => seq![
                Recipient { session: speaker, with_position: false },
            ],
            VoiceTargetKind::Normal => normal_recipients(sessions, channels, packet, speaker),
            VoiceTargetKind::Whisper(id) => whisper_recipients(
                sessions,
                channels,
                packet,
                speaker,
                id,
            ),
        }
    } else {
        Seq::empty()
    }
}

proof fn lemma_not_excluded(listeners: Seq<u32>, verdicts: Seq<Option<bool>>)
    requires
        ascending(listeners),
        verdicts.len() == listeners.len(),
    ensures
        ascending(not_excluded(listeners, verdicts)),
        forall|x: u32| #[trigger]
            not_excluded(listeners, verdicts).contains(x) ==> listeners.contains(x),
    decreases listeners.len(),
{
    if listeners.len() > 0 {
        let front = listeners.drop_last();
        lemma_not_excluded(front, verdicts.drop_last());
        let head = not_excluded(front, verdicts.drop_last());
        let out = not_excluded(listeners, verdicts);
        assert forall|x: u32| #[trigger] out.contains(x) implies listeners.contains(x) by {
            let k = choose|k: int| 0 <= k < out.len() && out[k] == x;
            if k < head.len() {
                assert(head.contains(x));
                let j = choose|j: int| 0 <= j < front.len() && front[j] == x;
                assert(listeners[j] == x);
            } else {
                assert(listeners[listeners.len() - 1] == x);
            }
        }
        assert forall|i: int, j: int| 0 <= i < j < out.len() implies out[i] < out[j] by {
            if j == head.len() {
                assert(head.contains(out[i]));
                let k = choose|k: int| 0 <= k < front.len() && front[k] == out[i];
                assert(listeners[k] < listeners.last());
            }
        }
    }
}

/// Recipients built from an ascending list keep its properties.
proof fn lemma_recipients(
    sessions: Map<u32, SessionModel>,
    packet: VoicePacket,
    speaker: u32,
    scope: Set<u32>,
    ids: Seq<u32>,
)
    requires
        ascending(ids),
        forall|x: u32| #[trigger]
            ids.contains(x) ==> listeners_in(sessions, scope, speaker).contains(x),
    ensures
        delivers_only_to_listeners(
            sessions,
            speaker,
            recipients_for(sessions, packet, speaker, ids),
        ),
{
    let out = recipients_for(sessions, packet, speaker, ids);
    assert forall|i: int| 0 <= i < out.len() implies can_receive(
        sessions,
        (#[trigger] out[i]).session,
    ) && out[i].session != speaker by {
        assert(ids.contains(ids[i]));
    }
}

/// Every recipient can hear, none is the speaker, and each stands once, in ascending
/// order.
pub open spec fn delivers_only_to_listeners(
    sessions: Map<u32, SessionModel>,
    speaker: u32,
    out: Seq<Recipient>,
) -> bool {
    &&& forall|i: int|
        0 <= i < out.len() ==> can_receive(sessions, (#[trigger] out[i]).session)
            && out[i].session != speaker
    &&& forall|i: int, j: int|
        0 <= i < j < out.len() ==> (#[trigger] out[i]).session < (#[trigger] out[j]).session
}

/// Add the audience of the channel `id` to `set`.
fn add_audience(set: &mut IdSet, channels: &ChannelStore, id: u32)
    requires
        old(set).wf(),
        channels.wf(),
    ensures
        final(set).wf(),
        final(set)@ == old(set)@.union(channel_audience(channels@, id)),
{
    match channels.get(id) {
        Some(ch) => {
            let members = ch.members();
            add_all(set, &members);
            let listeners = ch.listeners();
            add_all(set, &listeners);
            proof {
                assert(members@.to_set() =~= ch@.members);
                assert(listeners@.to_set() =~= ch@.listeners);
                assert(set@ =~= old(set)@.union(channel_audience(channels@, id)));
            }
        },
        None => {
            assert(set@ =~= old(set)@.union(channel_audience(channels@, id)));
        },
    }
}

/// Add every id of `ids` to `set`.
fn add_all(set: &mut IdSet, ids: &Vec<u32>)
    requires
        old(set).wf(),
    ensures
        final(set).wf(),
        final(set)@ == old(set)@.union(ids@.to_set()),
{
    let mut i: usize = 0;
    assert(set@ =~= old(set)@.union(ids@.take(0).to_set()));
    while i < ids.len()
        invariant
            set.wf(),
            i <= ids@.len(),
            set@ == old(set)@.union(ids@.take(i as int).to_set()),
        decreases ids@.len() - i,
    {
        let ghost before = ids@.take(i as int);
        set.insert(ids[i]);
        i = i + 1;
        proof {
            let now = ids@.take(i as int);
            assert(now =~= before.push(ids@[i - 1]));
            assert forall|x: u32| now.to_set().contains(x) <==> (x == ids@[i - 1]
                || before.to_set().contains(x)) by {
                if before.contains(x) {
                    let k = choose|k: int| 0 <= k < before.len() && before[k] == x;
                    assert(now[k] == x);
                }
                assert(now[i - 1] == ids@[i - 1]);
                if now.contains(x) {
                    let k = choose|k: int| 0 <= k < now.len() && now[k] == x;
                    if k < i - 1 {
                        assert(before[k] == x);
                    }
                }
            }
            assert(set@ =~= old(set)@.union(now.to_set()));
        }
    }
    assert(ids@.take(ids@.len() as int) =~= ids@);
}

/// The members of `scope` that can receive, without the speaker, ascending.
fn listeners_of(sessions: &SessionRegistry, scope: &IdSet, speaker: u32) -> (ids: Vec<u32>)
    requires
        sessions.wf(),
        scope.wf(),
    ensures
        lists(ids@, listeners_in(sessions@, scope@, speaker)),
{
    let all = scope.items();
    let mut ids: Vec<u32> = Vec::new();
    let mut i: usize = 0;
    while i < all.len()
        invariant
            i <= all@.len(),
            sessions.wf(),
            lists(all@, scope@),
            ascending(ids@),
            forall|k: int|
                0 <= k < ids@.len() ==> exists|j: int|
                    0 <= j < i && all@[j] == #[trigger] ids@[k],
            forall|j: int|
                0 <= j < i ==> (ids@.contains(#[trigger] all@[j]) <==> all@[j] != speaker
                    && can_receive(sessions@, all@[j])),
        decreases all@.len() - i,
    {
        let id = all[i];
        if id != speaker && can_deliver(id, sessions) {
            let ghost before = ids@;
            ids.push(id);
            proof {
                assert(ids@[before.len() as int] == id);
                assert forall|j: int| 0 <= j < i + 1 implies (ids@.contains(#[trigger] all@[j])
                    <==> all@[j] != speaker && can_receive(sessions@, all@[j])) by {
                    if j < i {
                        if before.contains(all@[j]) {
                            let k = choose|k: int| 0 <= k < before.len() && before[k] == all@[j];
                            assert(ids@[k] == all@[j]);
                        }
                        if ids@.contains(all@[j]) {
                            let k = choose|k: int| 0 <= k < ids@.len() && ids@[k] == all@[j];
                            assert(all@[j] < all@[i as int]);
                            assert(before[k] == all@[j]);
                        }
                    }
                }
                assert forall|a: int, b: int| 0 <= a < b < ids@.len() implies ids@[a] < ids@[b] by {
                    if b == before.len() {
                        let j = choose|j: int| 0 <= j < i && all@[j] == before[a];
                        assert(all@[j] < all@[i as int]);
                    }
                }
                assert forall|k: int| 0 <= k < ids@.len() implies exists|j: int|
                    0 <= j < i + 1 && all@[j] == #[trigger] ids@[k] by {
                    if k < before.len() {
                        let j = choose|j: int| 0 <= j < i && all@[j] == before[k];
                        assert(all@[j] == ids@[k]);
                    } else {
                        assert(all@[i as int] == ids@[k]);
                    }
                }
            }
        } else {
            proof {
                if ids@.contains(id) {
                    let k = choose|k: int| 0 <= k < ids@.len() && ids@[k] == id;
                    let j = choose|j: int| 0 <= j < i && all@[j] == ids@[k];
                    assert(all@[j] < all@[i as int]);
                }
            }
        }
        i = i + 1;
    }
    proof {
        let want = listeners_in(sessions@, scope@, speaker);
        assert forall|x: u32| #[trigger] ids@.contains(x) <==> want.contains(x) by {
            if ids@.contains(x) {
                let k = choose|k: int| 0 <= k < ids@.len() && ids@[k] == x;
                let j = choose|j: int| 0 <= j < i && all@[j] == ids@[k];
                assert(all@.contains(x));
            }
            if want.contains(x) {
                assert(all@.contains(x));
                let j = choose|j: int| 0 <= j < all@.len() && all@[j] == x;
                assert(ids@.contains(all@[j]));
            }
        }
    }
    ids
}

/// Can anything be delivered to `listener`? Gates on its deaf flags.
fn can_deliver(listener: u32, sessions: &SessionRegistry) -> (yes: bool)
    requires
        sessions.wf(),
    ensures
        yes == can_receive(sessions@, listener),
{
    match sessions.get(listener) {
        Some(s) => s.can_hear(),
        None => false,
    }
}

fn recipient(
    speaker: u32,
    listener: u32,
    packet: &VoicePacket,
    sessions: &SessionRegistry,
) -> (r: Recipient)
    requires
        sessions.wf(),
    ensures
        r == recipient_for(sessions@, *packet, speaker, listener),
{
    let with_position = packet.has_position() && sessions.contexts_match(speaker, listener);
    Recipient { session: listener, with_position }
}

/// The listeners in scope of normal talk by `speaker`, ascending.
pub fn normal_listeners(speaker: u32, sessions: &SessionRegistry, channels: &ChannelStore) -> (ids:
    Vec<u32>)
    requires
        sessions.wf(),
        channels.wf(),
    ensures
        lists(ids@, listeners_in(sessions@, normal_scope(channels@, speaker), speaker)),
{
    let mut scope = IdSet::new();
    if let Some(id) = channels.find(speaker) {
        add_audience(&mut scope, channels, id);
        assert(scope@ =~= channel_audience(channels@, id));
    }
    assert(scope@ =~= normal_scope(channels@, speaker));
    listeners_of(sessions, &scope, speaker)
}

/// The listeners in scope of a whisper by `speaker` to its target `id`, ascending.
pub fn whisper_listeners(
    speaker: u32,
    id: u8,
    sessions: &SessionRegistry,
    channels: &ChannelStore,
) -> (ids: Vec<u32>)
    requires
        sessions.wf(),
        channels.wf(),
    ensures
        lists(
            ids@,
            listeners_in(sessions@, whisper_scope(sessions@, channels@, speaker, id), speaker),
        ),
{
    let mut scope = IdSet::new();
    if let Some(session) = sessions.get(speaker) {
        if let Some(target) = session.targets.get(id) {
            add_all(&mut scope, &target.sessions);
            let mut i: usize = 0;
            assert(scope@ =~= target.sessions@.to_set());
            while i < target.channels.len()
                invariant
                    scope.wf(),
                    channels.wf(),
                    i <= target.channels@.len(),
                    forall|s: u32|
                        #![trigger scope@.contains(s)]
                        scope@.contains(s) <==> (target.sessions@.contains(s) || exists|j: int|
                            0 <= j < i && channel_audience(
                                channels@,
                                (#[trigger] target.channels@[j]).channel_id,
                            ).contains(s)),
                decreases target.channels@.len() - i,
            {
                let ghost before = scope@;
                add_audience(&mut scope, channels, target.channels[i].channel_id);
                proof {
                    let audience = channel_audience(channels@, target.channels@[i as int].channel_id);
                    assert forall|s: u32| #![trigger scope@.contains(s)]
                        scope@.contains(s) <==> (target.sessions@.contains(s) || exists|j: int|
                            0 <= j < i + 1 && channel_audience(
                                channels@,
                                (#[trigger] target.channels@[j]).channel_id,
                            ).contains(s)) by {
                        assert(scope@.contains(s) <==> before.contains(s) || audience.contains(s));
                        if before.contains(s) && !target.sessions@.contains(s) {
                            let j = choose|j: int|
                                0 <= j < i && channel_audience(
                                    channels@,
                                    (#[trigger] target.channels@[j]).channel_id,
                                ).contains(s);
                            assert(target.channels@[j].channel_id == target.channels@[j].channel_id);
                        }
                        if audience.contains(s) {
                            assert(target.channels@[i as int].channel_id
                                == target.channels@[i as int].channel_id);
                        }
                    }
                }
                i = i + 1;
            }
            proof {
                let model = target@;
                assert forall|s: u32| #![trigger scope@.contains(s)]
                    scope@.contains(s) <==> target_reaches(model, channels@, s) by {
                    if scope@.contains(s) && !model.sessions.contains(s) {
                        let j = choose|j: int|
                            0 <= j < i && channel_audience(
                                channels@,
                                (#[trigger] target.channels@[j]).channel_id,
                            ).contains(s);
                        assert(channel_audience(channels@, model.channels[j].channel_id).contains(s));
                    }
                    if target_reaches(model, channels@, s) && !model.sessions.contains(s) {
                        let j = choose|j: int|
                            0 <= j < model.channels.len() && channel_audience(
                                channels@,
                                (#[trigger] model.channels[j]).channel_id,
                            ).contains(s);
                        assert(channel_audience(
                            channels@,
                            target.channels@[j].channel_id,
                        ).contains(s));
                    }
                }
                assert(sessions@[speaker].targets[id] == model);
                assert(scope@ =~= whisper_scope(sessions@, channels@, speaker, id));
            }
        }
    }
    assert(scope@ =~= whisper_scope(sessions@, channels@, speaker, id));
    listeners_of(sessions, &scope, speaker)
}

/// The recipients among `listeners` that the oracle's `verdicts` leave.
pub fn deliver_to(
    speaker: u32,
    packet: &VoicePacket,
    sessions: &SessionRegistry,
    listeners: &Vec<u32>,
    verdicts: &Vec<Option<bool>>,
) -> (out: Vec<Recipient>)
    requires
        sessions.wf(),
        verdicts@.len() == listeners@.len(),
    ensures
        out@ == recipients_for(
            sessions@,
            *packet,
            speaker,
            not_excluded(listeners@, verdicts@),
        ),
{
    let mut out: Vec<Recipient> = Vec::new();
    let mut i: usize = 0;
    while i < listeners.len()
        invariant
            i <= listeners@.len(),
            sessions.wf(),
            verdicts@.len() == listeners@.len(),
            out@ == recipients_for(
                sessions@,
                *packet,
                speaker,
                not_excluded(listeners@.take(i as int), verdicts@.take(i as int)),
            ),
        decreases listeners@.len() - i,
    {
        let excluded = match verdicts[i] {
            Some(audible) => !audible,
            None => false,
        };
        if !excluded {
            out.push(recipient(speaker, listeners[i], packet, sessions));
        }
        i = i + 1;
        proof {
            let ls = listeners@.take(i as int);
            let vs = verdicts@.take(i as int);
            assert(ls.drop_last() =~= listeners@.take(i - 1));
            assert(vs.drop_last() =~= verdicts@.take(i - 1));
            assert(out@ =~= recipients_for(sessions@, *packet, speaker, not_excluded(ls, vs)));
        }
    }
    assert(listeners@.take(listeners@.len() as int) =~= listeners@);
    assert(verdicts@.take(verdicts@.len() as int) =~= verdicts@);
    out
}

/// Ask the oracle about each listener.
fn ask<A: AoiOracle>(speaker: u32, listeners: &Vec<u32>, aoi: &A) -> (verdicts: Vec<Option<bool>>)
    ensures
        asked(aoi, speaker, listeners@, verdicts@),
{
    let mut verdicts: Vec<Option<bool>> = Vec::new();
    let mut i: usize = 0;
    while i < listeners.len()
        invariant
            i <= listeners@.len(),
            verdicts@.len() == i,
            forall|j: int|
                0 <= j < i ==> call_ensures(
                    A::audible,
                    (aoi, speaker, #[trigger] listeners@[j]),
                    verdicts@[j],
                ),
        decreases listeners@.len() - i,
    {
        verdicts.push(aoi.audible(speaker, listeners[i]));
        i = i + 1;
    }
    verdicts
}

proof fn lemma_none_excluded(listeners: Seq<u32>, verdicts: Seq<Option<bool>>)
    requires
        verdicts.len() == listeners.len(),
        forall|i: int| 0 <= i < verdicts.len() ==> verdicts[i] is None,
    ensures
        not_excluded(listeners, verdicts) == listeners,
    decreases listeners.len(),
{
    if listeners.len() > 0 {
        lemma_none_excluded(listeners.drop_last(), verdicts.drop_last());
        assert(not_excluded(listeners, verdicts) =~= listeners);
    }
}

/// Without culling, normal talk reaches every listener in scope.
pub proof fn no_culling_reaches_everyone(
    sessions: Map<u32, SessionModel>,
    channels: Map<u32, ChannelModel>,
    packet: VoicePacket,
    speaker: u32,
    aoi: &NoCulling,
    out: Seq<Recipient>,
)
    requires
        resolves_normal(sessions, channels, packet, speaker, aoi, out),
    ensures
        out == normal_recipients(sessions, channels, packet, speaker),
{
    let ids = listing_of(listeners_in(sessions, normal_scope(channels, speaker), speaker));
    let verdicts = choose|verdicts: Seq<Option<bool>>| #[trigger]
        asked(aoi, speaker, ids, verdicts) && out == recipients_for(
            sessions,
            packet,
            speaker,
            not_excluded(ids, verdicts),
        );
    assert forall|i: int| 0 <= i < verdicts.len() implies verdicts[i] is None by {
        assert(call_ensures(NoCulling::audible, (aoi, speaker, ids[i]), verdicts[i]));
    }
    lemma_none_excluded(ids, verdicts);
}

/// Compute the recipients for `packet` sent by `speaker`.
///
/// `aoi` is consulted only for `Normal` (proximity) talk: whisper and loopback are
/// explicit and bypass culling, as pma-voice expects.
pub fn resolve<A: AoiOracle>(
    speaker: u32,
    packet: &VoicePacket,
    sessions: &SessionRegistry,
    channels: &ChannelStore,
    aoi: &A,
) -> (out: Vec<Recipient>)
    requires
        sessions.wf(),
        channels.wf(),
    ensures
        !can_transmit(sessions@, speaker) ==> out@.len() == 0,
        can_transmit(sessions@, speaker) ==> match packet.target {
            VoiceTargetKind::Loopback => out@ == seq![
                Recipient { session: speaker, with_position: false },
            ],
            VoiceTargetKind::Normal => resolves_normal(
                sessions@,
                channels@,
                *packet,
                speaker,
                aoi,
                out@,
            ),
            VoiceTargetKind::Whisper(id) => out@ == whisper_recipients(
                sessions@,
                channels@,
                *packet,
                speaker,
                id,
            ),
        },
        packet.target != VoiceTargetKind::Loopback ==> delivers_only_to_listeners(
            sessions@,
            speaker,
            out@,
        ),
{
    // A muted (server-forced) speaker is silent.
    let speaks = match sessions.get(speaker) {
        Some(s) => s.can_speak(),
        None => false,
    };
    if !speaks {
        return Vec::new();
    }
    match packet.target {
        VoiceTargetKind::Loopback => {
            let mut out: Vec<Recipient> = Vec::new();
            out.push(Recipient { session: speaker, with_position: false });
            assert(out@ =~= seq![Recipient { session: speaker, with_position: false }]);
            out
        },
        VoiceTargetKind::Normal => {
            let listeners = normal_listeners(speaker, sessions, channels);
            let verdicts = ask(speaker, &listeners, aoi);
            let out = deliver_to(speaker, packet, sessions, &listeners, &verdicts);
            proof {
                let kept = not_excluded(listeners@, verdicts@);
                lemma_not_excluded(listeners@, verdicts@);
                let scope = normal_scope(channels@, speaker);
                lemma_is_listing(listeners@, listeners_in(sessions@, scope, speaker));
                assert forall|x: u32| #[trigger] kept.contains(x) implies listeners_in(
                    sessions@,
                    scope,
                    speaker,
                ).contains(x) by {
                    assert(listeners@.contains(x));
                }
                lemma_recipients(sessions@, *packet, speaker, scope, kept);
            }
            out
        },
        VoiceTargetKind::Whisper(id) => {
            // Whisper bypasses proximity culling (explicit intent).
            let listeners = whisper_listeners(speaker, id, sessions, channels);
            let mut verdicts: Vec<Option<bool>> = Vec::new();
            let mut i: usize = 0;
            while i < listeners.len()
                invariant
                    i <= listeners@.len(),
                    verdicts@.len() == i,
                    forall|j: int| 0 <= j < i ==> verdicts@[j] is None,
                decreases listeners@.len() - i,
            {
                verdicts.push(None);
                i = i + 1;
            }
            proof {
                lemma_none_excluded(listeners@, verdicts@);
                let scope = whisper_scope(sessions@, channels@, speaker, id);
                lemma_is_listing(listeners@, listeners_in(sessions@, scope, speaker));
                assert forall|x: u32| #[trigger] listeners@.contains(x) implies listeners_in(
                    sessions@,
                    scope,
                    speaker,
                ).contains(x) by {}
                lemma_recipients(sessions@, *packet, speaker, scope, listeners@);
            }
            deliver_to(speaker, packet, sessions, &listeners, &verdicts)
        },
    }
}

} // verus!
