//! What stands on the wire, byte by byte: the numbers, the frames and the voice packets
//! that a stock client reads and writes.
use crate::framing::{first_frame, framed, type_with, FrameError, FrameModel, MessageType};
use crate::{packet_type, target_kind, VoicePacketType, VoiceTargetKind};
use crate::pds::{be_bytes, be_value, pds_decode, pds_encode, pds_len, pds_roundtrip};
use crate::voice::{audio_len, frames_len, position_bytes, position_of, voice_of};
use vstd::prelude::*;

verus! {

// --- numbers ---

/// A number is written in the shortest form that holds it: the leading bits of the first
/// byte tell the form, and the bytes follow from the most significant on.
pub proof fn numbers_are_written_in_their_form(v: u64)
    ensures
        v < 0x80 ==> pds_encode(v) == seq![v as u8],
        0x80 <= v < 0x4000 ==> pds_encode(v) == seq![(0x80 + v / 256) as u8, (v % 256) as u8],
        0x4000 <= v < 0x20_0000 ==> pds_encode(v) == seq![
            (0xC0 + v / 0x1_0000) as u8,
            (v / 256 % 256) as u8,
            (v % 256) as u8,
        ],
        0x20_0000 <= v < 0x1000_0000 ==> pds_encode(v) == seq![
            (0xE0 + v / 0x100_0000) as u8,
            (v / 0x1_0000 % 256) as u8,
            (v / 256 % 256) as u8,
            (v % 256) as u8,
        ],
        0x1000_0000 <= v < 0x1_0000_0000 ==> pds_encode(v) == seq![
            0xF0u8,
            (v / 0x100_0000) as u8,
            (v / 0x1_0000 % 256) as u8,
            (v / 256 % 256) as u8,
            (v % 256) as u8,
        ],
        0x1_0000_0000 <= v ==> pds_encode(v) == seq![
            0xF4u8,
            (v / 0x100_0000_0000_0000) as u8,
            (v / 0x1_0000_0000_0000 % 256) as u8,
            (v / 0x100_0000_0000 % 256) as u8,
            (v / 0x1_0000_0000 % 256) as u8,
            (v / 0x100_0000 % 256) as u8,
            (v / 0x1_0000 % 256) as u8,
            (v / 256 % 256) as u8,
            (v % 256) as u8,
        ],
{
    reveal_with_fuel(be_bytes, 10);
    let n = v as nat;
    if v < 0x80 {
        assert(pds_encode(v) =~= seq![v as u8]);
    } else if v < 0x4000 {
        assert(pds_encode(v) =~= seq![(0x80 + v / 256) as u8, (v % 256) as u8]);
    } else if v < 0x20_0000 {
        assert(n / 256 / 256 == n / 0x1_0000);
        assert(pds_encode(v) =~= seq![
            (0xC0 + v / 0x1_0000) as u8,
            (v / 256 % 256) as u8,
            (v % 256) as u8,
        ]);
    } else if v < 0x1000_0000 {
        assert(n / 256 / 256 == n / 0x1_0000);
        assert(n / 256 / 256 / 256 == n / 0x100_0000);
        assert(pds_encode(v) =~= seq![
            (0xE0 + v / 0x100_0000) as u8,
            (v / 0x1_0000 % 256) as u8,
            (v / 256 % 256) as u8,
            (v % 256) as u8,
        ]);
    } else if v < 0x1_0000_0000 {
        assert(n / 256 / 256 == n / 0x1_0000);
        assert(n / 256 / 256 / 256 == n / 0x100_0000);
        assert(n / 256 / 256 / 256 / 256 == 0);
        assert(pds_encode(v) =~= seq![
            0xF0u8,
            (v / 0x100_0000) as u8,
            (v / 0x1_0000 % 256) as u8,
            (v / 256 % 256) as u8,
            (v % 256) as u8,
        ]);
    } else {
        assert(n / 256 / 256 == n / 0x1_0000);
        assert(n / 256 / 256 / 256 == n / 0x100_0000);
        assert(n / 256 / 256 / 256 / 256 == n / 0x1_0000_0000);
        assert(n / 256 / 256 / 256 / 256 / 256 == n / 0x100_0000_0000);
        assert(n / 256 / 256 / 256 / 256 / 256 / 256 == n / 0x1_0000_0000_0000);
        assert(n / 256 / 256 / 256 / 256 / 256 / 256 / 256 == n / 0x100_0000_0000_0000);
        assert(n / 256 / 256 / 256 / 256 / 256 / 256 / 256 / 256 == 0);
        assert(pds_encode(v) =~= seq![
            0xF4u8,
            (v / 0x100_0000_0000_0000) as u8,
            (v / 0x1_0000_0000_0000 % 256) as u8,
            (v / 0x100_0000_0000 % 256) as u8,
            (v / 0x1_0000_0000 % 256) as u8,
            (v / 0x100_0000 % 256) as u8,
            (v / 0x1_0000 % 256) as u8,
            (v / 256 % 256) as u8,
            (v % 256) as u8,
        ]);
    }
}

/// A number of any form is read, whether or not it is the shortest one: the first byte
/// tells how many follow. A stream that ends inside a number holds none.
pub proof fn numbers_are_read_from_any_form(s: Seq<u8>)
    requires
        s.len() > 0,
    ensures
        s[0] < 0x80 ==> pds_decode(s) == Some((s[0] as u64, 1nat)),
        0x80 <= s[0] < 0xC0 ==> pds_decode(s) == (if s.len() < 2 {
            None
        } else {
            Some((((s[0] - 0x80) * 256 + s[1]) as u64, 2nat))
        }),
        0xC0 <= s[0] < 0xE0 ==> pds_decode(s) == (if s.len() < 3 {
            None
        } else {
            Some((((s[0] - 0xC0) * 0x1_0000 + s[1] * 256 + s[2]) as u64, 3nat))
        }),
        0xE0 <= s[0] < 0xF0 ==> pds_decode(s) == (if s.len() < 4 {
            None
        } else {
            Some(
                (
                    ((s[0] - 0xE0) * 0x100_0000 + s[1] * 0x1_0000 + s[2] * 256 + s[3]) as u64,
                    4nat,
                ),
            )
        }),
        0xF0 <= s[0] < 0xF4 ==> pds_decode(s) == (if s.len() < 5 {
            None
        } else {
            Some((be_value(s.subrange(1, 5)) as u64, 5nat))
        }),
        0xF4 <= s[0] < 0xF8 ==> pds_decode(s) == (if s.len() < 9 {
            None
        } else {
            Some((be_value(s.subrange(1, 9)) as u64, 9nat))
        }),
        0xF8 <= s[0] < 0xFC ==> pds_decode(s) == (match pds_decode(s.skip(1)) {
            None => None,
            Some(read) => Some((0u64, read.1 + 1)),
        }),
        0xFC <= s[0] ==> pds_decode(s) == Some(
            ((0x1_0000_0000_0000_0000 - 1 - (s[0] - 0xFC)) as u64, 1nat),
        ),
{
    reveal_with_fuel(be_value, 5);
    if s[0] < 0x80 {
        let d = seq![s[0]] + s.subrange(1, 1);
        assert(d =~= seq![s[0]]);
        assert(d.drop_last() =~= Seq::empty());
    } else if s[0] < 0xC0 {
        if s.len() >= 2 {
            let d = seq![(s[0] - 0x80) as u8] + s.subrange(1, 2);
            assert(d =~= seq![(s[0] - 0x80) as u8, s[1]]);
            assert(d.drop_last() =~= seq![(s[0] - 0x80) as u8]);
        }
    } else if s[0] < 0xE0 {
        if s.len() >= 3 {
            let d = seq![(s[0] - 0xC0) as u8] + s.subrange(1, 3);
            assert(d =~= seq![(s[0] - 0xC0) as u8, s[1], s[2]]);
            assert(d.drop_last() =~= seq![(s[0] - 0xC0) as u8, s[1]]);
            assert(d.drop_last().drop_last() =~= seq![(s[0] - 0xC0) as u8]);
        }
    } else if s[0] < 0xF0 {
        if s.len() >= 4 {
            let d = seq![(s[0] - 0xE0) as u8] + s.subrange(1, 4);
            assert(d =~= seq![(s[0] - 0xE0) as u8, s[1], s[2], s[3]]);
            assert(d.drop_last() =~= seq![(s[0] - 0xE0) as u8, s[1], s[2]]);
            assert(d.drop_last().drop_last() =~= seq![(s[0] - 0xE0) as u8, s[1]]);
            assert(d.drop_last().drop_last().drop_last() =~= seq![(s[0] - 0xE0) as u8]);
        }
    } else if s[0] < 0xF4 {
        if s.len() >= 5 {
            lemma_leading_zero(s.subrange(1, 5));
        }
    } else if s[0] < 0xF8 {
        if s.len() >= 9 {
            lemma_leading_zero(s.subrange(1, 9));
        }
    }
}

proof fn lemma_leading_zero(s: Seq<u8>)
    ensures
        be_value(seq![0u8] + s) == be_value(s),
    decreases s.len(),
{
    let d = seq![0u8] + s;
    if s.len() == 0 {
        assert(d.drop_last() =~= Seq::empty());
        reveal_with_fuel(be_value, 2);
    } else {
        assert(d.drop_last() =~= seq![0u8] + s.drop_last());
        lemma_leading_zero(s.drop_last());
    }
}

/// Four bytes are a number, most significant byte first.
pub proof fn words_are_big_endian(s: Seq<u8>, v: nat)
    requires
        s.len() == 4,
    ensures
        be_value(s) == s[0] * 0x100_0000 + s[1] * 0x1_0000 + s[2] * 256 + s[3],
        v < 0x1_0000_0000 ==> be_bytes(v, 4) == seq![
            (v / 0x100_0000) as u8,
            (v / 0x1_0000 % 256) as u8,
            (v / 256 % 256) as u8,
            (v % 256) as u8,
        ],
{
    reveal_with_fuel(be_value, 5);
    reveal_with_fuel(be_bytes, 5);
    assert(s.drop_last().drop_last().drop_last().drop_last() =~= Seq::empty());
    assert(v / 256 / 256 == v / 0x1_0000);
    assert(v / 256 / 256 / 256 == v / 0x100_0000);
    if v < 0x1_0000_0000 {
        assert(be_bytes(v, 4) =~= seq![
            (v / 0x100_0000) as u8,
            (v / 0x1_0000 % 256) as u8,
            (v / 256 % 256) as u8,
            (v % 256) as u8,
        ]);
    }
}

// --- control frames ---

/// A frame starts with its tag in two bytes and the length of its payload in four, both
/// most significant byte first; the payload follows as it is.
pub proof fn a_frame_is_laid_out_on_the_wire(ty: MessageType, payload: Seq<u8>)
    requires
        payload.len() <= 8186,
    ensures
        framed(ty, payload) == seq![
            0u8,
            ty.wire_tag() as u8,
            0u8,
            0u8,
            (payload.len() / 256) as u8,
            (payload.len() % 256) as u8,
        ] + payload,
        ty.wire_tag() <= 25,
{
    reveal_with_fuel(be_bytes, 5);
    let n = payload.len();
    let tag = ty.wire_tag() as nat;
    assert(be_bytes(tag, 2) =~= seq![0u8, tag as u8]);
    assert(n / 256 / 256 == 0);
    assert(be_bytes(n, 4) =~= seq![0u8, 0u8, (n / 256) as u8, (n % 256) as u8]);
    assert(framed(ty, payload) =~= seq![
        0u8,
        tag as u8,
        0u8,
        0u8,
        (n / 256) as u8,
        (n % 256) as u8,
    ] + payload);
}

/// The tags are those of the stock client.
pub proof fn tags_are_those_of_the_client()
    ensures
        MessageType::Version.wire_tag() == 0,
        MessageType::UdpTunnel.wire_tag() == 1,
        MessageType::Authenticate.wire_tag() == 2,
        MessageType::Ping.wire_tag() == 3,
        MessageType::Reject.wire_tag() == 4,
        MessageType::ServerSync.wire_tag() == 5,
        MessageType::ChannelRemove.wire_tag() == 6,
        MessageType::ChannelState.wire_tag() == 7,
        MessageType::UserRemove.wire_tag() == 8,
        MessageType::UserState.wire_tag() == 9,
        MessageType::BanList.wire_tag() == 10,
        MessageType::TextMessage.wire_tag() == 11,
        MessageType::PermissionDenied.wire_tag() == 12,
        MessageType::Acl.wire_tag() == 13,
        MessageType::QueryUsers.wire_tag() == 14,
        MessageType::CryptSetup.wire_tag() == 15,
        MessageType::ContextActionModify.wire_tag() == 16,
        MessageType::ContextAction.wire_tag() == 17,
        MessageType::UserList.wire_tag() == 18,
        MessageType::VoiceTarget.wire_tag() == 19,
        MessageType::PermissionQuery.wire_tag() == 20,
        MessageType::CodecVersion.wire_tag() == 21,
        MessageType::UserStats.wire_tag() == 22,
        MessageType::RequestBlob.wire_tag() == 23,
        MessageType::ServerConfig.wire_tag() == 24,
        MessageType::SuggestConfig.wire_tag() == 25,
{
}

/// A frame that declares more than a client may send is an error as soon as its header is
/// there; one of a type that nobody knows is skipped whole.
pub proof fn oversized_and_unknown_frames_are_told_apart(buf: Seq<u8>)
    requires
        buf.len() >= 6,
    ensures
        ({
            let tag = buf[0] * 256 + buf[1];
            let len = buf[2] * 0x100_0000 + buf[3] * 0x1_0000 + buf[4] * 256 + buf[5];
            &&& len > 8186 ==> first_frame(buf) == Err::<FrameModel, _>(
                FrameError::TooLarge(len as usize),
            )
            &&& len <= 8186 && buf.len() < 6 + len ==> first_frame(buf) == Ok::<_, FrameError>(
                FrameModel::Incomplete,
            )
            &&& len <= 8186 && buf.len() >= 6 + len && tag > 25 ==> first_frame(buf) == Ok::<
                _,
                FrameError,
            >(FrameModel::Skipped { tag: tag as u16, consumed: (6 + len) as nat })
            &&& len <= 8186 && buf.len() >= 6 + len && tag <= 25 ==> (first_frame(buf) matches Ok(
                FrameModel::Message { ty, payload, consumed },
            ) && ty.wire_tag() == tag && payload == buf.subrange(6, 6 + len) && consumed == 6 + len)
        }),
{
    let tag = buf[0] * 256 + buf[1];
    let len = buf[2] * 0x100_0000 + buf[3] * 0x1_0000 + buf[4] * 256 + buf[5];
    words_are_big_endian(buf.subrange(2, 6), 0);
    reveal_with_fuel(be_value, 3);
    let head = buf.subrange(0, 2);
    assert(head.drop_last().drop_last() =~= Seq::empty());
    assert(be_value(head) == tag);
    assert(be_value(buf.subrange(2, 6)) == len);
    if let Some(ty) = type_with(tag as u16) {
        crate::framing::tags_are_distinct(ty, ty);
    }
    if tag <= 25 {
        lemma_some_type(tag as u16);
    }
}

proof fn lemma_some_type(tag: u16)
    requires
        tag <= 25,
    ensures
        type_with(tag) matches Some(ty) && ty.wire_tag() == tag,
{
    tags_are_those_of_the_client();
    if tag == 0 {
        assert(MessageType::Version.wire_tag() == tag);
    } else if tag == 1 {
        assert(MessageType::UdpTunnel.wire_tag() == tag);
    } else if tag == 2 {
        assert(MessageType::Authenticate.wire_tag() == tag);
    } else if tag == 3 {
        assert(MessageType::Ping.wire_tag() == tag);
    } else if tag == 4 {
        assert(MessageType::Reject.wire_tag() == tag);
    } else if tag == 5 {
        assert(MessageType::ServerSync.wire_tag() == tag);
    } else if tag == 6 {
        assert(MessageType::ChannelRemove.wire_tag() == tag);
    } else if tag == 7 {
        assert(MessageType::ChannelState.wire_tag() == tag);
    } else if tag == 8 {
        assert(MessageType::UserRemove.wire_tag() == tag);
    } else if tag == 9 {
        assert(MessageType::UserState.wire_tag() == tag);
    } else if tag == 10 {
        assert(MessageType::BanList.wire_tag() == tag);
    } else if tag == 11 {
        assert(MessageType::TextMessage.wire_tag() == tag);
    } else if tag == 12 {
        assert(MessageType::PermissionDenied.wire_tag() == tag);
    } else if tag == 13 {
        assert(MessageType::Acl.wire_tag() == tag);
    } else if tag == 14 {
        assert(MessageType::QueryUsers.wire_tag() == tag);
    } else if tag == 15 {
        assert(MessageType::CryptSetup.wire_tag() == tag);
    } else if tag == 16 {
        assert(MessageType::ContextActionModify.wire_tag() == tag);
    } else if tag == 17 {
        assert(MessageType::ContextAction.wire_tag() == tag);
    } else if tag == 18 {
        assert(MessageType::UserList.wire_tag() == tag);
    } else if tag == 19 {
        assert(MessageType::VoiceTarget.wire_tag() == tag);
    } else if tag == 20 {
        assert(MessageType::PermissionQuery.wire_tag() == tag);
    } else if tag == 21 {
        assert(MessageType::CodecVersion.wire_tag() == tag);
    } else if tag == 22 {
        assert(MessageType::UserStats.wire_tag() == tag);
    } else if tag == 23 {
        assert(MessageType::RequestBlob.wire_tag() == tag);
    } else if tag == 24 {
        assert(MessageType::ServerConfig.wire_tag() == tag);
    } else {
        assert(MessageType::SuggestConfig.wire_tag() == tag);
    }
}

// --- voice packets ---

/// The first byte of a voice packet holds the codec in its upper three bits and the target
/// in its lower five.
pub proof fn the_header_names_codec_and_target(tag: nat, bits: u8)
    ensures
        packet_type(tag) == (if tag == 0 {
            Some(VoicePacketType::CeltAlpha)
        } else if tag == 1 {
            Some(VoicePacketType::Ping)
        } else if tag == 2 {
            Some(VoicePacketType::Speex)
        } else if tag == 3 {
            Some(VoicePacketType::CeltBeta)
        } else if tag == 4 {
            Some(VoicePacketType::Opus)
        } else {
            None
        }),
        bits == 0 ==> target_kind(bits) == VoiceTargetKind::Normal,
        bits == 31 ==> target_kind(bits) == VoiceTargetKind::Loopback,
        1 <= bits <= 30 ==> target_kind(bits) == VoiceTargetKind::Whisper(bits),
{
}

/// The coordinates of a position are three words of four bytes each, and exactly twelve
/// bytes are a position.
pub proof fn a_position_is_three_words(tail: Seq<u8>, pos: Seq<u32>)
    ensures
        tail.len() != 12 ==> position_of(tail) is None,
        tail.len() == 12 ==> (position_of(tail) matches Some(p) && p.len() == 3 && p[0] == tail[0]
            * 0x100_0000 + tail[1] * 0x1_0000 + tail[2] * 256 + tail[3] && p[1] == tail[4]
            * 0x100_0000 + tail[5] * 0x1_0000 + tail[6] * 256 + tail[7] && p[2] == tail[8]
            * 0x100_0000 + tail[9] * 0x1_0000 + tail[10] * 256 + tail[11]),
        pos.len() == 3 ==> position_bytes(pos).len() == 12 && position_of(position_bytes(pos))
            == Some(pos),
{
    if tail.len() == 12 {
        lemma_position_read(tail);
    }
    if pos.len() == 3 {
        lemma_position_written(pos);
    }
}

#[verifier::spinoff_prover]
#[verifier::rlimit(40)]
proof fn lemma_position_read(tail: Seq<u8>)
    requires
        tail.len() == 12,
    ensures
        position_of(tail) matches Some(p) && p.len() == 3 && p[0] == tail[0] * 0x100_0000 + tail[1]
            * 0x1_0000 + tail[2] * 256 + tail[3] && p[1] == tail[4] * 0x100_0000 + tail[5]
            * 0x1_0000 + tail[6] * 256 + tail[7] && p[2] == tail[8] * 0x100_0000 + tail[9]
            * 0x1_0000 + tail[10] * 256 + tail[11],
{
    words_are_big_endian(tail.subrange(0, 4), 0);
    words_are_big_endian(tail.subrange(4, 8), 0);
    words_are_big_endian(tail.subrange(8, 12), 0);
}

#[verifier::spinoff_prover]
#[verifier::rlimit(40)]
proof fn lemma_position_written(pos: Seq<u32>)
    requires
        pos.len() == 3,
    ensures
        position_bytes(pos).len() == 12,
        position_of(position_bytes(pos)) == Some(pos),
{
    let any = seq![0u8, 0u8, 0u8, 0u8];
    words_are_big_endian(any, pos[0] as nat);
    words_are_big_endian(any, pos[1] as nat);
    words_are_big_endian(any, pos[2] as nat);
    let b = position_bytes(pos);
    assert(b.subrange(0, 4) =~= be_bytes(pos[0] as nat, 4));
    assert(b.subrange(4, 8) =~= be_bytes(pos[1] as nat, 4));
    assert(b.subrange(8, 12) =~= be_bytes(pos[2] as nat, 4));
    words_are_big_endian(b.subrange(0, 4), 0);
    words_are_big_endian(b.subrange(4, 8), 0);
    words_are_big_endian(b.subrange(8, 12), 0);
    assert(position_of(b)->0 =~= pos);
}

/// An Opus packet is a header byte, a sequence number, a frame header whose low thirteen
/// bits are the length of the frame, the frame, and what is left: a position where it is
/// twelve bytes long. A packet that ends inside its frame is none.
#[verifier::spinoff_prover]
#[verifier::rlimit(40)]
pub proof fn an_opus_packet_is_read(
    header: u8,
    sequence: u64,
    frame_header: u64,
    frame: Seq<u8>,
    tail: Seq<u8>,
)
    requires
        header / 32 == 4,
        frame.len() == frame_header % 0x2000,
    ensures
        ({
            let body = pds_encode(sequence) + pds_encode(frame_header) + frame;
            let payload = seq![header] + body + tail;
            &&& voice_of(payload) == Some(
                (
                    VoicePacketType::Opus,
                    target_kind(header % 32),
                    if tail.len() == 12 {
                        1 + body.len()
                    } else {
                        payload.len()
                    },
                    position_of(tail),
                ),
            )
            &&& frame.len() > 0 ==> voice_of(payload.take(body.len() as int)) is None
        }),
{
    let first = pds_encode(sequence);
    let second = pds_encode(frame_header);
    let body = first + second + frame;
    let payload = seq![header] + body + tail;
    let s = payload.skip(1);
    assert(s =~= first + (second + frame + tail));
    pds_roundtrip(sequence, second + frame + tail);
    assert(s.skip(first.len() as int) =~= second + (frame + tail));
    pds_roundtrip(frame_header, frame + tail);
    assert(audio_len(VoicePacketType::Opus, s) == Some(body.len()));
    assert(payload.skip(1 + body.len() as int) =~= tail);
    if frame.len() > 0 {
        lemma_opus_cut(header, sequence, frame_header, frame, tail);
    }
}

#[verifier::spinoff_prover]
#[verifier::rlimit(40)]
proof fn lemma_opus_cut(
    header: u8,
    sequence: u64,
    frame_header: u64,
    frame: Seq<u8>,
    tail: Seq<u8>,
)
    requires
        header / 32 == 4,
        frame.len() == frame_header % 0x2000,
        frame.len() > 0,
    ensures
        ({
            let body = pds_encode(sequence) + pds_encode(frame_header) + frame;
            let payload = seq![header] + body + tail;
            voice_of(payload.take(body.len() as int)) is None
        }),
{
    let first = pds_encode(sequence);
    let second = pds_encode(frame_header);
    let body = first + second + frame;
    let payload = seq![header] + body + tail;
    let cut = payload.take(body.len() as int);
    let t = cut.skip(1);
    let less = frame.drop_last();
    assert(t =~= first + (second + less));
    pds_roundtrip(sequence, second + less);
    assert(t.skip(first.len() as int) =~= second + less);
    pds_roundtrip(frame_header, less);
    assert(cut[0] == header);
}

/// The frames of the older codecs follow each other as long as the high bit of a frame's
/// header says so; the other seven bits are the length of the frame.
pub proof fn older_frames_follow_each_other(header: u64, frame: Seq<u8>, rest: Seq<u8>)
    requires
        header < 256,
        frame.len() == header % 128,
    ensures
        header < 128 ==> frames_len(pds_encode(header) + frame + rest) == Some(
            pds_len(header) + frame.len(),
        ),
        header >= 128 ==> frames_len(pds_encode(header) + frame + rest) == match frames_len(rest) {
            None => None,
            Some(more) => Some(pds_len(header) + frame.len() + more),
        },
{
    let first = pds_encode(header);
    let s = first + frame + rest;
    assert(s =~= first + (frame + rest));
    pds_roundtrip(header, frame + rest);
    let end = first.len() + frame.len();
    assert(s.skip(end as int) =~= rest);
}

/// A packet of one of the older codecs is a header byte, a sequence number, its frames, and
/// what is left; a ping is a header byte and a number, and never has a position.
pub proof fn older_packets_and_pings_are_read(
    header: u8,
    sequence: u64,
    frames: Seq<u8>,
    tail: Seq<u8>,
)
    requires
        header / 32 <= 3,
    ensures
        ({
            let body = pds_encode(sequence) + frames;
            let payload = seq![header] + body + tail;
            &&& header / 32 == 1 ==> voice_of(payload) == Some(
                (
                    VoicePacketType::Ping,
                    target_kind(header % 32),
                    payload.len(),
                    None::<Seq<u32>>,
                ),
            )
            &&& header / 32 != 1 && frames_len(frames + tail) == Some(frames.len()) ==> voice_of(
                payload,
            ) == Some(
                (
                    packet_type((header / 32) as nat)->0,
                    target_kind(header % 32),
                    if tail.len() == 12 {
                        1 + body.len()
                    } else {
                        payload.len()
                    },
                    position_of(tail),
                ),
            )
        }),
{
    let first = pds_encode(sequence);
    let body = first + frames;
    let payload = seq![header] + body + tail;
    let s = payload.skip(1);
    assert(s =~= first + (frames + tail));
    pds_roundtrip(sequence, frames + tail);
    assert(s.skip(first.len() as int) =~= frames + tail);
    assert(payload.skip(1 + body.len() as int) =~= tail);
}

/// A packet of a codec that nobody knows is none, and neither is an empty one.
pub proof fn unknown_codecs_are_refused(payload: Seq<u8>)
    ensures
        payload.len() == 0 ==> voice_of(payload) is None,
        payload.len() > 0 && payload[0] >= 160 ==> voice_of(payload) is None,
{
}

} // verus!
