//! The voice protocol on the wire: varints, framing, headers and voice packets.
use baston::framing::{encode, next_frame, Frame, FrameError, MessageType, Preamble};
use baston::framing::{MAX_MSGSIZE, PREAMBLE_SIZE};
use baston::pds::{write_u64, PdsReader};
use baston::voice::{encode_outbound, parse};
use baston::{VoicePacketType, VoiceTargetKind, PROTOCOL_VERSION};

#[test]
fn protocol_version_is_1_4_0() {
    assert_eq!(PROTOCOL_VERSION, 0x0001_0400);
}

#[test]
fn voice_type_decodes_known_codecs() {
    assert_eq!(VoicePacketType::from_bits(0), Some(VoicePacketType::CeltAlpha));
    assert_eq!(VoicePacketType::from_bits(4), Some(VoicePacketType::Opus));
    assert_eq!(VoicePacketType::from_bits(1), Some(VoicePacketType::Ping));
    assert_eq!(VoicePacketType::from_bits(5), None);
}

#[test]
fn target_kind_roundtrips() {
    assert_eq!(VoiceTargetKind::from_bits(0), VoiceTargetKind::Normal);
    assert_eq!(VoiceTargetKind::from_bits(31), VoiceTargetKind::Loopback);
    assert_eq!(VoiceTargetKind::from_bits(7), VoiceTargetKind::Whisper(7));
    for n in 1u8..=30 {
        let k = VoiceTargetKind::Whisper(n);
        assert_eq!(VoiceTargetKind::from_bits(k.to_bits()), k);
    }
}

#[test]
fn only_the_low_bits_of_a_header_count() {
    assert_eq!(VoicePacketType::from_bits(0xFC), Some(VoicePacketType::Opus));
    assert_eq!(VoiceTargetKind::from_bits(0xE3), VoiceTargetKind::Whisper(3));
    assert_eq!(VoiceTargetKind::Whisper(35).to_bits(), 3);
}

// --- varints ---

fn roundtrip(v: u64) {
    let mut buf = Vec::new();
    write_u64(&mut buf, v);
    let mut r = PdsReader::new(&buf);
    assert_eq!(r.read_u64(), Some(v), "value {v} did not roundtrip");
    assert_eq!(r.offset(), buf.len(), "reader consumed wrong length for {v}");
}

#[test]
fn roundtrips_all_size_classes() {
    for v in [
        0u64,
        1,
        0x7F,
        0x80,
        0x3FFF,
        0x4000,
        0x1F_FFFF,
        0x20_0000,
        0x0FFF_FFFF,
        0x1000_0000,
        0xFFFF_FFFF,
        0x1_0000_0000,
        u64::MAX,
    ] {
        roundtrip(v);
    }
}

#[test]
fn minimal_encoding_lengths() {
    let lens = |v: u64| {
        let mut b = Vec::new();
        write_u64(&mut b, v);
        b.len()
    };
    assert_eq!(lens(0x7F), 1);
    assert_eq!(lens(0x80), 2);
    assert_eq!(lens(0x3FFF), 2);
    assert_eq!(lens(0x4000), 3);
    assert_eq!(lens(0x1F_FFFF), 3);
    assert_eq!(lens(0x20_0000), 4);
    assert_eq!(lens(0x0FFF_FFFF), 4);
    assert_eq!(lens(0x1000_0000), 5);
    assert_eq!(lens(0x1_0000_0000), 9);
}

#[test]
fn truncated_input_returns_none() {
    // Leading byte claims a 3-byte form but only 1 byte present.
    let mut r = PdsReader::new(&[0xC0]);
    assert_eq!(r.read_u64(), None);
}

#[test]
fn remaining_exposes_trailing_positional_block() {
    // session varint (0x2A) then 12 trailing bytes (fake position floats).
    let mut buf = Vec::new();
    write_u64(&mut buf, 42);
    buf.extend_from_slice(&[9u8; 12]);
    let mut r = PdsReader::new(&buf);
    assert_eq!(r.read_u32(), Some(42));
    assert_eq!(r.remaining(), &[9u8; 12]);
}

#[test]
fn varints_have_their_exact_bytes() {
    let bytes = |v: u64| {
        let mut b = Vec::new();
        write_u64(&mut b, v);
        b
    };
    assert_eq!(bytes(0x12), vec![0x12]);
    assert_eq!(bytes(0x1234), vec![0x92, 0x34]);
    assert_eq!(bytes(0x12345), vec![0xC1, 0x23, 0x45]);
    assert_eq!(bytes(0x1000_0000), vec![0xF0, 0x10, 0, 0, 0]);
    let mut empty = PdsReader::new(&[]);
    assert_eq!(empty.read_raw_byte(), None);
}

// --- frames ---

#[test]
fn type_table_roundtrips_every_tag() {
    for tag in 0u16..=25 {
        let ty = MessageType::from_u16(tag).expect("known tag");
        assert_eq!(ty.tag(), tag);
    }
    assert!(MessageType::from_u16(26).is_none());
    assert!(MessageType::from_u16(9999).is_none());
}

#[test]
fn preamble_needs_six_bytes() {
    assert!(Preamble::parse(&[0, 0, 0, 0, 0]).is_none());
    let p = Preamble::parse(&[0, 5, 0, 0, 0, 42, 0xAA]).unwrap();
    assert_eq!(p.ty, 5); // ServerSync
    assert_eq!(p.len, 42);
    assert_eq!(p.frame_len(), PREAMBLE_SIZE + 42);
}

#[test]
fn encode_then_decode_a_real_message() {
    // A ServerSync: session, bandwidth, welcome text and permissions.
    let mut body: Vec<u8> = Vec::new();
    prost::encoding::uint32::encode(1, &7u32, &mut body);
    prost::encoding::uint32::encode(2, &128_000u32, &mut body);
    prost::encoding::string::encode(3, &"hi".to_owned(), &mut body);
    prost::encoding::uint64::encode(4, &0xf0eu64, &mut body);
    let frame = encode(MessageType::ServerSync, &body).unwrap();

    let pre = Preamble::parse(&frame).unwrap();
    assert_eq!(pre.ty, MessageType::ServerSync.tag());
    assert_eq!(pre.frame_len(), frame.len());

    match next_frame(&frame).unwrap() {
        Frame::Message { ty, payload, consumed } => {
            assert_eq!(ty, MessageType::ServerSync);
            assert_eq!(consumed, frame.len());
            let mut rest = &payload[..];
            prost::encoding::decode_key(&mut rest).unwrap();
            assert_eq!(prost::encoding::decode_varint(&mut rest).unwrap(), 7);
            prost::encoding::decode_key(&mut rest).unwrap();
            assert_eq!(prost::encoding::decode_varint(&mut rest).unwrap(), 128_000);
            let tail = rest.len() - 2;
            let mut last = &rest[tail - 1..];
            prost::encoding::decode_key(&mut last).unwrap();
            assert_eq!(prost::encoding::decode_varint(&mut last).unwrap(), 0xf0e);
        }
        other => panic!("unexpected frame: {other:?}"),
    }
}

#[test]
fn oversized_payload_is_refused() {
    let big = vec![b'x'; MAX_MSGSIZE + 10];
    assert!(matches!(encode(MessageType::TextMessage, &big), Err(FrameError::TooLarge(_))));
}

#[test]
fn frames_that_cannot_be_read_are_told_apart() {
    // A payload longer than the limit is refused from the preamble alone.
    assert_eq!(
        next_frame(&[0, 3, 0, 0, 0x40, 0]).unwrap_err(),
        FrameError::TooLarge(0x4000)
    );
    // Not all there yet.
    assert!(matches!(next_frame(&[0, 3, 0, 0, 0, 2, 1]), Ok(Frame::Incomplete)));
    // An unknown tag is skipped whole.
    match next_frame(&[0, 99, 0, 0, 0, 1, 7, 8]) {
        Ok(Frame::Skipped { tag, consumed }) => {
            assert_eq!(tag, 99);
            assert_eq!(consumed, 7);
        }
        other => panic!("unexpected frame: {other:?}"),
    }
    assert_eq!(
        FrameError::UnknownType(99).message(),
        "unknown message type tag 99"
    );
}

// --- voice packets ---

/// Build a minimal Opus voice packet: header, session, one opus frame of
/// `audio` bytes, optional trailing position.
fn opus_packet(
    target: VoiceTargetKind,
    session: u64,
    audio: &[u8],
    pos: Option<[f32; 3]>,
) -> Vec<u8> {
    let mut p = Vec::new();
    p.push((VoicePacketType::Opus as u8) << 5 | target.to_bits());
    write_u64(&mut p, session);
    write_u64(&mut p, audio.len() as u64); // opus frame header (len in low 13 bits)
    p.extend_from_slice(audio);
    if let Some(c) = pos {
        for v in c {
            p.extend_from_slice(&v.to_be_bytes());
        }
    }
    p
}

/// A position as the bit patterns of its coordinates.
fn bits(pos: [f32; 3]) -> [u32; 3] {
    [pos[0].to_bits(), pos[1].to_bits(), pos[2].to_bits()]
}

#[test]
fn parses_opus_without_position() {
    let pkt = opus_packet(VoiceTargetKind::Normal, 7, &[1, 2, 3, 4], None);
    let v = parse(&pkt).unwrap();
    assert_eq!(v.codec, VoicePacketType::Opus);
    assert_eq!(v.target, VoiceTargetKind::Normal);
    assert!(!v.has_position());
    assert_eq!(v.audio_end, pkt.len());
    assert_eq!(v.without_position(), &pkt[..]);
}

/// Without a positional block the audio goes on to the end of the payload, whatever else
/// stands there.
#[test]
fn without_a_block_the_audio_ends_with_the_payload() {
    let v = parse(&[0x80, 0x01, 0x01, 0xAA, 0xFF]).unwrap();
    assert_eq!(v.position, None);
    assert_eq!(v.audio_end, 5);
    assert_eq!(v.without_position(), &[0x80, 0x01, 0x01, 0xAA, 0xFF]);
    // A ping never has one.
    let ping = parse(&[0x20, 0x07, 1, 2, 3, 4, 5, 6, 7, 8, 9, 10, 11, 12]).unwrap();
    assert_eq!(ping.position, None);
    assert_eq!(ping.audio_end, 14);
}

#[test]
fn parses_opus_with_position() {
    let pos = [12.5f32, -80.0, 30.25];
    let pkt = opus_packet(VoiceTargetKind::Whisper(3), 42, &[9; 10], Some(pos));
    let v = parse(&pkt).unwrap();
    assert_eq!(v.target, VoiceTargetKind::Whisper(3));
    assert_eq!(v.position, Some(bits(pos)));
    // without_position strips exactly the 12-byte tail.
    assert_eq!(v.without_position().len(), pkt.len() - 12);
}

#[test]
fn rewrite_position_replaces_tail() {
    let pkt = opus_packet(VoiceTargetKind::Normal, 1, &[5; 8], Some([0.0, 0.0, 0.0]));
    let v = parse(&pkt).unwrap();
    let rewritten = v.with_rewritten_position(bits([1.0, 2.0, 3.0]));
    let v2 = parse(&rewritten).unwrap();
    assert_eq!(v2.position, Some(bits([1.0, 2.0, 3.0])));
    assert_eq!(v2.without_position(), v.without_position());
}

#[test]
fn encode_outbound_inserts_session_and_strips_position() {
    let pos = [4.0f32, 5.0, 6.0];
    let pkt = opus_packet(VoiceTargetKind::Normal, 9, &[7; 6], Some(pos));
    let v = parse(&pkt).unwrap();

    // With position: header + session varint + original body (seq..pos).
    let out = encode_outbound(42, &v, true);
    let mut r = PdsReader::new(&out[1..]);
    assert_eq!(r.read_u64(), Some(42), "speaker session prepended");
    assert_eq!(out[0], pkt[0]);
    assert_eq!(&out[1 + r.offset()..], &pkt[1..]);

    // Without position: the 12-byte tail is gone.
    let stripped = encode_outbound(42, &v, false);
    assert_eq!(stripped.len(), out.len() - 12);
}

/// What is forwarded with its position is forwarded whole, wherever the audio ends.
#[test]
fn encode_outbound_with_position_ignores_where_the_audio_ends() {
    let pkt = opus_packet(VoiceTargetKind::Normal, 9, &[7; 6], Some([4.0f32, 5.0, 6.0]));
    let mut v = parse(&pkt).unwrap();
    let whole = encode_outbound(42, &v, true);
    v.audio_end = 0;
    assert_eq!(encode_outbound(42, &v, true), whole);
    v.audio_end = pkt.len() + 1;
    assert_eq!(encode_outbound(42, &v, false), whole, "there is no tail to strip");
}

#[test]
fn truncated_packet_is_rejected() {
    // Claims an 8-byte opus frame but supplies only 2 bytes.
    let mut p = Vec::new();
    p.push((VoicePacketType::Opus as u8) << 5);
    write_u64(&mut p, 1);
    write_u64(&mut p, 8);
    p.extend_from_slice(&[0, 0]);
    assert!(parse(&p).is_none());
}

#[test]
fn empty_payload_is_rejected() {
    assert!(parse(&[]).is_none());
}

#[test]
fn a_frame_is_read_whatever_follows_it_and_awaited_until_it_is_whole() {
    let frame = encode(MessageType::Ping, &[8, 1]).unwrap();
    let mut wire = frame.clone();
    wire.extend_from_slice(&[0, 3, 0]);
    match next_frame(&wire) {
        Ok(Frame::Message { ty, payload, consumed }) => {
            assert_eq!(ty, MessageType::Ping);
            assert_eq!(payload, vec![8, 1]);
            assert_eq!(consumed, frame.len());
        }
        other => panic!("{other:?}"),
    }
    for arrived in 0..frame.len() {
        assert!(matches!(next_frame(&frame[..arrived]), Ok(Frame::Incomplete)));
    }
}
