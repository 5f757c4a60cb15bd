//! Who hears whom: what the members and the listeners of a channel, and those that a
//! whisper names, can rely on.
use crate::VoiceTargetKind;
use crate::channel::{channel_of, channels_wf, is_in, ChannelModel};
use crate::ordered::{finite_set_has_a_listing, listing_of, lists};
use crate::router::{
    asked, channel_audience, listeners_in, normal_scope, not_excluded, recipients_for,
    resolves_normal, target_reaches, unculled_recipients, whisper_recipients, whisper_scope,
    AoiOracle, NoCulling, Recipient,
};
use crate::session::SessionModel;
use crate::voice::VoicePacket;
use vstd::prelude::*;

verus! {

/// `session` is among the recipients.
pub open spec fn reached(out: Seq<Recipient>, session: u32) -> bool {
    exists|i: int| 0 <= i < out.len() && (#[trigger] out[i]).session == session
}

/// `session` is connected and neither deaf by itself nor by an admin.
pub open spec fn has_ears(sessions: Map<u32, SessionModel>, session: u32) -> bool {
    sessions.contains_key(session) && !sessions[session].deaf && !sessions[session].self_deaf
}

/// `session` is in the channel `id` or listens to it.
pub open spec fn attends(channels: Map<u32, ChannelModel>, id: u32, session: u32) -> bool {
    channels.contains_key(id) && (channels[id].members.contains(session)
        || channels[id].listeners.contains(session))
}

proof fn lemma_ids_are_finite(set: Set<u32>)
    ensures
        set.finite(),
{
    let all = vstd::set_lib::set_int_range(0, 0x1_0000_0000);
    vstd::set_lib::lemma_int_range(0, 0x1_0000_0000);
    let numbers = all.map(|n: int| n as u32);
    all.lemma_map_finite(|n: int| n as u32);
    assert forall|x: u32| #[trigger] set.contains(x) implies numbers.contains(x) by {
        assert(all.contains(x as int));
        assert((x as int) as u32 == x);
    }
    vstd::set_lib::lemma_set_subset_finite(numbers, set);
}

proof fn lemma_listing(set: Set<u32>)
    ensures
        lists(listing_of(set), set),
{
    lemma_ids_are_finite(set);
    finite_set_has_a_listing(set);
}

proof fn lemma_reached(
    sessions: Map<u32, SessionModel>,
    packet: VoicePacket,
    speaker: u32,
    ids: Seq<u32>,
    session: u32,
)
    ensures
        reached(recipients_for(sessions, packet, speaker, ids), session) <==> ids.contains(session),
{
    let out = recipients_for(sessions, packet, speaker, ids);
    if reached(out, session) {
        let i = choose|i: int| 0 <= i < out.len() && (#[trigger] out[i]).session == session;
        assert(ids[i] == session);
    }
    if ids.contains(session) {
        let i = choose|i: int| 0 <= i < ids.len() && ids[i] == session;
        assert(out[i].session == session);
    }
}

proof fn lemma_kept(ids: Seq<u32>, verdicts: Seq<Option<bool>>, session: u32)
    requires
        ids.len() == verdicts.len(),
    ensures
        not_excluded(ids, verdicts).contains(session) <==> exists|i: int|
            0 <= i < ids.len() && #[trigger] ids[i] == session && verdicts[i] != Some(false),
    decreases ids.len(),
{
    if ids.len() > 0 {
        let front = ids.drop_last();
        let before = verdicts.drop_last();
        lemma_kept(front, before, session);
        let head = not_excluded(front, before);
        let out = not_excluded(ids, verdicts);
        if out.contains(session) {
            let k = choose|k: int| 0 <= k < out.len() && out[k] == session;
            if k < head.len() {
                assert(head.contains(session));
                let i = choose|i: int|
                    0 <= i < front.len() && #[trigger] front[i] == session && before[i] != Some(
                        false,
                    );
                assert(ids[i] == session && verdicts[i] != Some(false));
            } else {
                assert(ids[ids.len() - 1] == session);
            }
        }
        if exists|i: int|
            0 <= i < ids.len() && #[trigger] ids[i] == session && verdicts[i] != Some(false) {
            let i = choose|i: int|
                0 <= i < ids.len() && #[trigger] ids[i] == session && verdicts[i] != Some(false);
            if i < front.len() {
                assert(front[i] == session && before[i] != Some(false));
                assert(head.contains(session));
                let k = choose|k: int| 0 <= k < head.len() && head[k] == session;
                assert(out[k] == session);
            } else {
                assert(out[out.len() - 1] == session);
            }
        }
    }
}

proof fn lemma_speakers_channel(channels: Map<u32, ChannelModel>, speaker: u32, id: u32)
    requires
        channels_wf(channels),
        channels.contains_key(id),
        channels[id].members.contains(speaker),
    ensures
        channel_of(channels, speaker) == Some(id),
{
    assert(is_in(channels, speaker, id));
    let found = choose|id: u32| is_in(channels, speaker, id);
    assert(channels[found].members.contains(speaker) && channels[id].members.contains(speaker));
}

/// Without culling, normal talk reaches exactly those who are in the speaker's channel or
/// listen to it, can hear, and are not the speaker.
pub proof fn normal_talk_reaches_members_and_listeners(
    sessions: Map<u32, SessionModel>,
    channels: Map<u32, ChannelModel>,
    packet: VoicePacket,
    speaker: u32,
    id: u32,
    aoi: &NoCulling,
    out: Seq<Recipient>,
    session: u32,
)
    requires
        channels_wf(channels),
        channels.contains_key(id),
        channels[id].members.contains(speaker),
        resolves_normal(sessions, channels, packet, speaker, aoi, out),
    ensures
        reached(out, session) <==> session != speaker && has_ears(sessions, session) && (
        channels[id].members.contains(session) || channels[id].listeners.contains(session)),
{
    crate::router::no_culling_reaches_everyone(sessions, channels, packet, speaker, aoi, out);
    lemma_speakers_channel(channels, speaker, id);
    let set = listeners_in(sessions, normal_scope(channels, speaker), speaker);
    lemma_listing(set);
    lemma_reached(sessions, packet, speaker, listing_of(set), session);
}

/// Whoever is in no channel talks to nobody.
pub proof fn nobody_hears_who_is_in_no_channel(
    sessions: Map<u32, SessionModel>,
    channels: Map<u32, ChannelModel>,
    packet: VoicePacket,
    speaker: u32,
    aoi: &NoCulling,
    out: Seq<Recipient>,
)
    requires
        forall|id: u32| #[trigger]
            channels.contains_key(id) ==> !channels[id].members.contains(speaker),
        resolves_normal(sessions, channels, packet, speaker, aoi, out),
    ensures
        out.len() == 0,
{
    crate::router::no_culling_reaches_everyone(sessions, channels, packet, speaker, aoi, out);
    assert forall|id: u32| !is_in(channels, speaker, id) by {
        if is_in(channels, speaker, id) {
            assert(channels.contains_key(id));
        }
    }
    let set = listeners_in(sessions, normal_scope(channels, speaker), speaker);
    lemma_listing(set);
    let ids = listing_of(set);
    if ids.len() > 0 {
        assert(ids.contains(ids[0]));
    }
}

/// An oracle can take listeners out of normal talk and nothing else: of those in the
/// speaker's channel or listening to it, who can hear, exactly those are reached that it
/// does not declare inaudible. It brings nobody in.
pub proof fn the_oracle_only_excludes<A: AoiOracle>(
    sessions: Map<u32, SessionModel>,
    channels: Map<u32, ChannelModel>,
    packet: VoicePacket,
    speaker: u32,
    id: u32,
    aoi: &A,
    out: Seq<Recipient>,
    session: u32,
)
    requires
        channels_wf(channels),
        channels.contains_key(id),
        channels[id].members.contains(speaker),
        resolves_normal(sessions, channels, packet, speaker, aoi, out),
    ensures
        reached(out, session) ==> session != speaker && has_ears(sessions, session) && attends(
            channels,
            id,
            session,
        ),
        session != speaker && has_ears(sessions, session) && attends(channels, id, session)
            ==> exists|verdict: Option<bool>| #[trigger]
            call_ensures(A::audible, (aoi, speaker, session), verdict) && (reached(out, session)
                <==> verdict != Some(false)),
{
    lemma_speakers_channel(channels, speaker, id);
    let set = listeners_in(sessions, normal_scope(channels, speaker), speaker);
    lemma_listing(set);
    let ids = listing_of(set);
    let verdicts = choose|verdicts: Seq<Option<bool>>| #[trigger]
        asked(aoi, speaker, ids, verdicts) && out == recipients_for(
            sessions,
            packet,
            speaker,
            not_excluded(ids, verdicts),
        );
    lemma_reached(sessions, packet, speaker, not_excluded(ids, verdicts), session);
    lemma_kept(ids, verdicts, session);
    if reached(out, session) {
        assert(ids.contains(session));
    }
    if set.contains(session) {
        assert(ids.contains(session));
        let i = choose|i: int| 0 <= i < ids.len() && ids[i] == session;
        assert(call_ensures(A::audible, (aoi, speaker, ids[i]), verdicts[i]));
        if reached(out, session) {
            let k = choose|k: int|
                0 <= k < ids.len() && #[trigger] ids[k] == session && verdicts[k] != Some(false);
            assert(k == i);
        }
    }
}

/// A whisper reaches exactly those that its target names itself, and those who are in one
/// of the target's channels or listen to it, if they can hear and are not the speaker.
pub proof fn a_whisper_reaches_its_target(
    sessions: Map<u32, SessionModel>,
    channels: Map<u32, ChannelModel>,
    packet: VoicePacket,
    speaker: u32,
    id: u8,
    session: u32,
)
    ensures
        reached(whisper_recipients(sessions, channels, packet, speaker, id), session) <==> session
            != speaker && has_ears(sessions, session) && sessions.contains_key(speaker)
            && sessions[speaker].targets.contains_key(id) && (
        sessions[speaker].targets[id].sessions.contains(session) || exists|i: int|
            0 <= i < sessions[speaker].targets[id].channels.len() && attends(
                channels,
                (#[trigger] sessions[speaker].targets[id].channels[i]).channel_id,
                session,
            )),
{
    let set = listeners_in(sessions, whisper_scope(sessions, channels, speaker, id), speaker);
    lemma_listing(set);
    lemma_reached(sessions, packet, speaker, listing_of(set), session);
    if sessions.contains_key(speaker) && sessions[speaker].targets.contains_key(id) {
        let target = sessions[speaker].targets[id];
        if target_reaches(target, channels, session) && !target.sessions.contains(session) {
            let i = choose|i: int|
                0 <= i < target.channels.len() && channel_audience(
                    channels,
                    (#[trigger] target.channels[i]).channel_id,
                ).contains(session);
            assert(attends(channels, target.channels[i].channel_id, session));
        }
        if exists|i: int|
            0 <= i < target.channels.len() && attends(
                channels,
                (#[trigger] target.channels[i]).channel_id,
                session,
            ) {
            let i = choose|i: int|
                0 <= i < target.channels.len() && attends(
                    channels,
                    (#[trigger] target.channels[i]).channel_id,
                    session,
                );
            assert(channel_audience(channels, target.channels[i].channel_id).contains(session));
        }
    }
}

/// The position goes along where the packet holds one and speaker and recipient are in
/// the same context; it never goes to another context.
pub proof fn position_stays_in_its_context(
    sessions: Map<u32, SessionModel>,
    packet: VoicePacket,
    speaker: u32,
    ids: Seq<u32>,
    i: int,
)
    requires
        0 <= i < ids.len(),
        sessions.contains_key(speaker),
        sessions.contains_key(ids[i]),
    ensures
        recipients_for(sessions, packet, speaker, ids).len() == ids.len(),
        recipients_for(sessions, packet, speaker, ids)[i].session == ids[i],
        recipients_for(sessions, packet, speaker, ids)[i].with_position <==> (packet.position is Some
            && sessions[speaker].context is Some && sessions[ids[i]].context is Some
            && sessions[speaker].context->0 == sessions[ids[i]].context->0),
{
}

/// Who is not connected or was muted by an admin reaches nobody; who speaks to itself
/// hears itself, without a position, and nobody else does.
pub proof fn muted_speakers_are_silent(
    sessions: Map<u32, SessionModel>,
    channels: Map<u32, ChannelModel>,
    packet: VoicePacket,
    speaker: u32,
)
    ensures
        !sessions.contains_key(speaker) || sessions[speaker].mute ==> unculled_recipients(
            sessions,
            channels,
            packet,
            speaker,
        ).len() == 0,
        sessions.contains_key(speaker) && !sessions[speaker].mute && packet.target
            == VoiceTargetKind::Loopback ==> unculled_recipients(sessions, channels, packet, speaker)
            == seq![Recipient { session: speaker, with_position: false }],
        crate::router::can_transmit(sessions, speaker) <==> sessions.contains_key(speaker)
            && !sessions[speaker].mute,
{
}

/// The audience of a channel does not depend on other channels, nor on what the speaker's
/// own listening is.
pub proof fn other_channels_hear_nothing(
    sessions: Map<u32, SessionModel>,
    channels: Map<u32, ChannelModel>,
    packet: VoicePacket,
    speaker: u32,
    id: u32,
    aoi: &NoCulling,
    out: Seq<Recipient>,
    other: u32,
    session: u32,
)
    requires
        channels_wf(channels),
        channels.contains_key(id),
        channels[id].members.contains(speaker),
        channels.contains_key(other),
        other != id,
        channels[other].members.contains(session),
        !channels[id].listeners.contains(session),
        resolves_normal(sessions, channels, packet, speaker, aoi, out),
    ensures
        !reached(out, session),
{
    normal_talk_reaches_members_and_listeners(
        sessions,
        channels,
        packet,
        speaker,
        id,
        aoi,
        out,
        session,
    );
    assert(channels[other].members.contains(session));
}

} // verus!
