//! How the operations of the protocol undo and follow each other, and what the containers
//! give back of what was put into them.
use crate::{VoicePacketType, VoiceTargetKind};
use crate::channel::ChannelStore;
use crate::crypto::{sealed_packet_opens_in_order, CryptState};
use crate::framing::{encode, next_frame, Frame, FrameError, MessageType};
use crate::named::{precedes, TextMap};
use crate::natives::{voice_question, VoiceQuestion};
use crate::ordered::{lists, IdMap, IdSet};
use crate::pds::{pds_encode, write_u64, PdsReader};
use crate::router::{resolve, AoiOracle, Recipient};
use crate::session::SessionRegistry;
use crate::slots::{NamedSlots, SlotMap};
use crate::voice::VoicePacket;
use vstd::prelude::*;

verus! {

// --- encryption ---

/// What one side encrypts the other side decrypts, if both have the key and the receiver's
/// nonce is the one that the sender's counts from: the text comes back, both count on by
/// one, and the packet is a good one.
pub proof fn what_is_encrypted_is_decrypted(
    source: &[u8],
    sent: &[u8],
    packet: Vec<u8>,
    plain: Option<Vec<u8>>,
)
    requires
        packet@ == sent@,
    ensures
        forall|a: &mut CryptState, b: &mut CryptState|
            #![trigger call_ensures(CryptState::encrypt, (a, source), packet), call_ensures(CryptState::decrypt, (b, sent), plain)]
            call_ensures(CryptState::encrypt, (a, source), packet) && call_ensures(
                CryptState::decrypt,
                (b, sent),
                plain,
            ) && (*a)@.key == (*b)@.key && (*a)@.encrypt_iv == (*b)@.decrypt_iv && (
            *b)@.decrypt_iv.len() == 16 && (*b)@.history.len() == 256 && (*b)@.good < u32::MAX ==> {
                &&& plain is Some && plain->0@ == source@
                &&& (*final(b))@.good == (*b)@.good + 1
                &&& (*final(b))@.decrypt_iv == (*final(a))@.encrypt_iv
                &&& packet@.len() == source@.len() + 4
            },
{
    assert forall|a: &mut CryptState, b: &mut CryptState|
        #![trigger call_ensures(CryptState::encrypt, (a, source), packet), call_ensures(CryptState::decrypt, (b, sent), plain)]
        call_ensures(CryptState::encrypt, (a, source), packet) && call_ensures(
            CryptState::decrypt,
            (b, sent),
            plain,
        ) && (*a)@.key == (*b)@.key && (*a)@.encrypt_iv == (*b)@.decrypt_iv && (
        *b)@.decrypt_iv.len() == 16 && (*b)@.history.len() == 256 && (*b)@.good < u32::MAX implies {
        &&& plain is Some && plain->0@ == source@
        &&& (*final(b))@.good == (*b)@.good + 1
        &&& (*final(b))@.decrypt_iv == (*final(a))@.encrypt_iv
        &&& packet@.len() == source@.len() + 4
    } by {
        sealed_packet_opens_in_order((*b)@, source@, packet@);
    }
}

/// A nonce that the other side asked for is the one that its next packet is measured by;
/// the counters and the own nonce are read as they are.
pub proof fn counters_and_nonces_are_read(
    nonce: &[u8; 16],
    state: CryptState,
    counters: (u32, u32, u32),
    own: [u8; 16],
)
    ensures
        forall|c: &mut CryptState| #[trigger]
            call_ensures(CryptState::resync, (c, nonce), ()) ==> (*final(c))@.decrypt_iv == nonce@
                && (*final(c))@.encrypt_iv == (*c)@.encrypt_iv && (*final(c))@.key == (*c)@.key && (
            *final(c))@.good == (*c)@.good,
        call_ensures(CryptState::counters, (&state,), counters) ==> counters.0 == state@.good
            && counters.1 == state@.late && counters.2 == state@.lost,
        call_ensures(CryptState::server_nonce, (&state,), own) ==> own@ == state@.encrypt_iv,
{
}

// --- frames and numbers ---

/// A message that is framed is read back as it was, whatever follows it; one that is too
/// large is not framed.
pub proof fn a_framed_message_is_read_back(
    ty: MessageType,
    payload: &[u8],
    framed: Result<Vec<u8>, FrameError>,
    rest: Seq<u8>,
    buf: &[u8],
    frame: Result<Frame, FrameError>,
)
    requires
        call_ensures(encode, (ty, payload), framed),
    ensures
        framed is Err <==> payload@.len() > 8186,
        framed is Ok && buf@ == framed->Ok_0@ + rest && call_ensures(next_frame, (buf,), frame)
            ==> (frame matches Ok(Frame::Message { ty: read, payload: bytes, consumed }) && read == ty
            && bytes@ == payload@ && consumed == payload@.len() + 6),
{
    if framed is Ok {
        crate::framing::a_sent_frame_is_received(ty, payload@, rest);
    }
}

/// A number that was written is read back, whatever follows it, and nothing else is read.
pub proof fn a_written_number_is_read_back<'a>(
    value: u64,
    buf: &'a [u8],
    rest: Seq<u8>,
    read: Option<u64>,
)
    requires
        buf@ == pds_encode(value) + rest,
    ensures
        forall|out: &mut Vec<u8>| #[trigger]
            call_ensures(write_u64, (out, value), ()) ==> (*final(out))@ == (*out)@ + pds_encode(
                value,
            ),
        forall|r: &mut PdsReader<'a>| #[trigger]
            call_ensures(PdsReader::<'a>::read_u64, (r,), read) && (*r).rest() == buf@ ==> read
                == Some(value) && (*final(r)).consumed() == (*r).consumed() + pds_encode(
                value,
            ).len(),
{
    crate::pds::pds_roundtrip(value, rest);
}

// --- voice packets ---

/// A packet goes on without its position up to the end of its audio, or with another one
/// behind it.
pub proof fn a_position_is_left_out_or_replaced(
    packet: VoicePacket,
    bytes: &[u8],
    rewritten: Vec<u8>,
    place: [u32; 3],
)
    requires
        packet.audio_end <= packet.payload@.len(),
    ensures
        call_ensures(VoicePacket::without_position, (&packet,), bytes) ==> bytes@
            == packet.payload@.subrange(0, packet.audio_end as int),
        call_ensures(VoicePacket::with_rewritten_position, (&packet, place), rewritten)
            ==> rewritten@.len() == packet.audio_end + 12 && rewritten@.subrange(
            0,
            packet.audio_end as int,
        ) == packet.payload@.subrange(0, packet.audio_end as int)
            && crate::voice::position_of(
            rewritten@.subrange(packet.audio_end as int, packet.audio_end + 12),
        ) == Some(place@),
{
    assert(packet.payload@.take(packet.audio_end as int) =~= packet.payload@.subrange(
        0,
        packet.audio_end as int,
    ));
    if call_ensures(VoicePacket::with_rewritten_position, (&packet, place), rewritten) {
        let tail = crate::voice::position_bytes(place@);
        crate::wire_laws::a_position_is_three_words(tail, place@);
        assert(rewritten@.subrange(packet.audio_end as int, packet.audio_end + 12) =~= tail);
        assert(rewritten@.subrange(0, packet.audio_end as int) =~= packet.payload@.take(
            packet.audio_end as int,
        ));
    }
}

/// A muted or unknown speaker reaches nobody, and the echo test only the speaker, who is
/// not told its own position.
pub proof fn the_echo_test_reaches_the_speaker<A: AoiOracle>(
    speaker: u32,
    packet: VoicePacket,
    sessions: SessionRegistry,
    channels: ChannelStore,
    aoi: A,
    out: Vec<Recipient>,
)
    requires
        call_ensures(resolve::<A>, (speaker, &packet, &sessions, &channels, &aoi), out),
    ensures
        !sessions@.contains_key(speaker) || sessions@[speaker].mute ==> out@.len() == 0,
        sessions@.contains_key(speaker) && !sessions@[speaker].mute && packet.target
            is Loopback ==> out@.len() == 1 && out@[0].session == speaker && !out@[0].with_position,
{
}

/// The three upper bits of a header name the codec, and the five lower ones the target;
/// written again they are the same.
pub proof fn header_bits_are_read(
    bits: u8,
    codec: Option<VoicePacketType>,
    kind: VoiceTargetKind,
    back: u8,
)
    ensures
        call_ensures(VoicePacketType::from_bits, (bits,), codec) ==> {
            &&& bits % 8 == 0 ==> codec == Some(VoicePacketType::CeltAlpha)
            &&& bits % 8 == 1 ==> codec == Some(VoicePacketType::Ping)
            &&& bits % 8 == 2 ==> codec == Some(VoicePacketType::Speex)
            &&& bits % 8 == 3 ==> codec == Some(VoicePacketType::CeltBeta)
            &&& bits % 8 == 4 ==> codec == Some(VoicePacketType::Opus)
            &&& bits % 8 > 4 ==> codec is None
        },
        call_ensures(VoiceTargetKind::from_bits, (bits,), kind) ==> {
            &&& bits % 32 == 0 ==> kind == VoiceTargetKind::Normal
            &&& bits % 32 == 31 ==> kind == VoiceTargetKind::Loopback
            &&& 1 <= bits % 32 <= 30 ==> kind == VoiceTargetKind::Whisper(bits % 32)
            &&& call_ensures(VoiceTargetKind::to_bits, (kind,), back) ==> back == bits % 32
        },
{
}

// --- questions to the voice server ---

/// The voice server is asked by three natives, of the channel or the player that the first
/// argument names, and by no other.
pub proof fn three_natives_ask_the_voice_server(
    name: &str,
    text: &str,
    question: Option<VoiceQuestion>,
    id: u32,
    args: Seq<crate::json::JsonModel>,
)
    requires
        call_ensures(voice_question, (name, text), question),
        crate::json::json_array(text@) == Ok::<Seq<crate::json::JsonModel>, Seq<char>>(args),
        args.len() > 0,
        args[0] == crate::json::JsonModel::Unsigned(id as u64),
    ensures
        name@ == "MUMBLE_DOES_CHANNEL_EXIST"@ ==> question == Some(VoiceQuestion::ChannelExists(id)),
        name@ == "MUMBLE_IS_PLAYER_MUTED"@ ==> question == Some(VoiceQuestion::PlayerMuted(id)),
        name@ == "NETWORK_GET_VOICE_PROXIMITY_OVERRIDE_FOR_PLAYER"@ ==> question == Some(
            VoiceQuestion::Proximity(id),
        ),
        name@ == "MUMBLE_CREATE_CHANNEL"@ || name@ == "MUMBLE_SET_PLAYER_MUTED"@ ==> question
            is None,
{
    crate::native_names::lemma_names_differ();
    crate::value_laws::a_suitable_argument_is_read(args, 0);
}

// --- order ---

/// Names are ordered by the first letter in which they differ, and a name comes before one
/// that only goes on behind it.
pub proof fn the_first_difference_orders(
    common: Seq<char>,
    a: char,
    b: char,
    rest: Seq<char>,
    other: Seq<char>,
)
    requires
        a < b,
    ensures
        precedes(common + seq![a] + rest, common + seq![b] + other),
        precedes(common, common + seq![a] + rest),
        !precedes(common, common),
    decreases common.len(),
{
    let x = common + seq![a] + rest;
    let y = common + seq![b] + other;
    if common.len() == 0 {
        assert(x[0] == a && y[0] == b);
    } else {
        let shorter = common.skip(1);
        assert(x.skip(1) =~= shorter + seq![a] + rest);
        assert(y.skip(1) =~= shorter + seq![b] + other);
        assert(x[0] == common[0] && y[0] == common[0]);
        the_first_difference_orders(shorter, a, b, rest, other);
    }
}

/// A listing goes up, holds what it lists and nothing else, and holds nothing twice.
pub proof fn a_listing_goes_up(s: Seq<u32>, set: Set<u32>, i: int, j: int)
    requires
        lists(s, set),
    ensures
        0 <= i < j < s.len() ==> s[i] < s[j],
        0 <= i < s.len() ==> set.contains(s[i]),
        forall|x: u32| #[trigger] set.contains(x) ==> s.contains(x),
{
    if 0 <= i < s.len() {
        assert(s.contains(s[i]));
    }
}

// --- containers ---

/// What is put under a name is found there, replaces what was there, and is gone once it is
/// taken out; other names keep what they hold.
pub proof fn a_named_value_is_found<V>(
    name: String,
    same: &str,
    value: V,
    previous: Option<V>,
    found: Option<&V>,
    other: Seq<char>,
)
    requires
        name@ == same@,
    ensures
        forall|m: &mut TextMap<V>| #[trigger]
            call_ensures(TextMap::<V>::insert, (m, name, value), previous) ==> {
                &&& call_ensures(TextMap::<V>::get, (&*final(m), same), found) ==> found == Some(
                    &value,
                )
                &&& (*m)@.contains_key(name@) ==> previous == Some((*m)@[name@])
                &&& !(*m)@.contains_key(name@) ==> previous is None
                &&& other != name@ ==> (*final(m))@[other] == (*m)@[other] && ((
                *final(m))@.contains_key(other) <==> (*m)@.contains_key(other))
            },
        forall|m: &mut TextMap<V>| #[trigger]
            call_ensures(TextMap::<V>::remove, (m, same), previous) ==> {
                &&& call_ensures(TextMap::<V>::get, (&*final(m), same), found) ==> found is None
                &&& (*m)@.contains_key(same@) ==> previous == Some((*m)@[same@])
                &&& other != same@ ==> (*final(m))@[other] == (*m)@[other]
            },
        forall|m: &mut NamedSlots<V>| #[trigger]
            call_ensures(NamedSlots::<V>::insert, (m, name, value), previous) ==> {
                &&& call_ensures(NamedSlots::<V>::get, (&*final(m), same), found) ==> found == Some(
                    &value,
                )
                &&& other != name@ ==> (*final(m))@[other] == (*m)@[other]
            },
        forall|m: &mut NamedSlots<V>| #[trigger]
            call_ensures(NamedSlots::<V>::remove, (m, same), previous) ==> (call_ensures(
                NamedSlots::<V>::get,
                (&*final(m), same),
                found,
            ) ==> found is None),
{
}

/// The same holds of what is put under an id.
pub proof fn a_numbered_value_is_found<V>(
    id: u32,
    value: V,
    previous: Option<V>,
    found: Option<&V>,
    other: u32,
)
    ensures
        forall|m: &mut IdMap<V>| #[trigger]
            call_ensures(IdMap::<V>::insert, (m, id, value), previous) ==> {
                &&& call_ensures(IdMap::<V>::get, (&*final(m), id), found) ==> found == Some(&value)
                &&& (*m)@.contains_key(id) ==> previous == Some((*m)@[id])
                &&& !(*m)@.contains_key(id) ==> previous is None
                &&& other != id ==> (*final(m))@[other] == (*m)@[other]
            },
        forall|m: &mut IdMap<V>| #[trigger]
            call_ensures(IdMap::<V>::remove, (m, id), previous) ==> {
                &&& call_ensures(IdMap::<V>::get, (&*final(m), id), found) ==> found is None
                &&& other != id ==> (*final(m))@[other] == (*m)@[other]
            },
        forall|m: &mut SlotMap<V>| #[trigger]
            call_ensures(SlotMap::<V>::insert, (m, id, value), previous) ==> {
                &&& call_ensures(SlotMap::<V>::get, (&*final(m), id), found) ==> found == Some(
                    &value,
                )
                &&& (*m)@.contains_key(id) ==> previous == Some((*m)@[id])
                &&& other != id ==> (*final(m))@[other] == (*m)@[other]
            },
        forall|m: &mut SlotMap<V>| #[trigger]
            call_ensures(SlotMap::<V>::remove, (m, id), previous) ==> {
                &&& call_ensures(SlotMap::<V>::get, (&*final(m), id), found) ==> found is None
                &&& (*m)@.contains_key(id) ==> previous == Some((*m)@[id])
                &&& other != id ==> (*final(m))@[other] == (*m)@[other]
            },
{
}

/// A set holds what was put into it until it is taken out, and says whether that changed
/// anything.
pub proof fn a_set_holds_what_was_put_in(x: u32, other: u32, added: bool, yes: bool)
    ensures
        forall|s: &mut IdSet| #[trigger]
            call_ensures(IdSet::insert, (s, x), added) ==> {
                &&& call_ensures(IdSet::contains, (&*final(s), x), yes) ==> yes
                &&& added == !(*s)@.contains(x)
                &&& other != x ==> ((*final(s))@.contains(other) <==> (*s)@.contains(other))
            },
        forall|s: &mut IdSet| #[trigger]
            call_ensures(IdSet::remove, (s, x), added) ==> {
                &&& call_ensures(IdSet::contains, (&*final(s), x), yes) ==> !yes
                &&& added == (*s)@.contains(x)
                &&& other != x ==> ((*final(s))@.contains(other) <==> (*s)@.contains(other))
            },
{
}

} // verus!
