//! Decrypted UDP voice packets.
//!
//! After decryption a voice datagram is:
//!
//! ```text
//! byte 0        (type << 5) | target
//! bytes 1..     PDS varint: session id            (skipped on ingest: the
//!                                                   server trusts the socket,
//!                                                   not the self-declared id)
//!               PDS varint(s): codec frame headers + Opus/CELT payload
//!               optional 12-byte positional block (3 big-endian f32)
//! ```
//!
//! The server never re-encodes audio: it parses just enough to know the codec and
//! the target, to find where the optional positional block starts so it can strip
//! or rewrite it, and to forward the opaque payload. A coordinate is held as the
//! bits of its `f32`.
use crate::pds::{be_bytes, be_value, pds_decode, pds_encode, write_u64, PdsReader};
use crate::{packet_type, target_kind, VoicePacketType, VoiceTargetKind};
use vstd::prelude::*;

verus! {

/// A parsed-but-opaque inbound voice packet. `audio_end` marks the byte offset
/// where the optional positional block begins (the payload's length when absent).
#[derive(Debug, Clone)]
pub struct VoicePacket {
    pub codec: VoicePacketType,
    pub target: VoiceTargetKind,
    /// The full decrypted payload (header byte at index 0).
    pub payload: Vec<u8>,
    /// Offset in `payload` where the positional block starts.
    pub audio_end: usize,
    /// The bits of the three coordinates, if a 12-byte block was present.
    pub position: Option<[u32; 3]>,
}

/// How many bytes the CELT or Speex frames at the head of `s` take: frame headers
/// whose bit 7 says that another frame follows, each with its frame.
pub open spec fn frames_len(s: Seq<u8>) -> Option<nat>
    decreases s.len(),
{
    match pds_decode(s) {
        None => None,
        Some((h, n)) => {
            let end = n + (h % 128) as nat;
            if n == 0 || s.len() < end {
                None
            } else if h % 256 < 128 {
                Some(end)
            } else {
                match frames_len(s.skip(end as int)) {
                    None => None,
                    Some(more) => Some(end + more),
                }
            }
        },
    }
}

/// How many bytes the session id and the audio at the head of `s` take.
pub open spec fn audio_len(codec: VoicePacketType, s: Seq<u8>) -> Option<nat> {
    match pds_decode(s) {
        None => None,
        Some((_, n)) => match codec {
            VoicePacketType::Ping => Some(n),
            VoicePacketType::Opus => match pds_decode(s.skip(n as int)) {
                None => None,
                Some((header, m)) => {
                    let end = n + m + (header % 0x2000) as nat;
                    if s.len() < end {
                        None
                    } else {
                        Some(end)
                    }
                },
            },
            _ => match frames_len(s.skip(n as int)) {
                None => None,
                Some(frames) => Some(n + frames),
            },
        },
    }
}

/// The coordinates of a positional block: exactly three big-endian words.
pub open spec fn position_of(tail: Seq<u8>) -> Option<Seq<u32>> {
    if tail.len() == 12 {
        Some(
            seq![
                be_value(tail.subrange(0, 4)) as u32,
                be_value(tail.subrange(4, 8)) as u32,
                be_value(tail.subrange(8, 12)) as u32,
            ],
        )
    } else {
        None
    }
}

/// What a voice payload says: codec, target, where its positional block starts (its end
/// where it has none), and its position.
pub open spec fn voice_of(payload: Seq<u8>) -> Option<
    (VoicePacketType, VoiceTargetKind, nat, Option<Seq<u32>>),
> {
    if payload.len() == 0 {
        None
    } else {
        match packet_type((payload[0] / 32) as nat) {
            None => None,
            Some(codec) => match audio_len(codec, payload.skip(1)) {
                None => None,
                Some(n) => {
                    let position = if codec == VoicePacketType::Ping {
                        None
                    } else {
                        position_of(payload.skip(1 + n as int))
                    };
                    let audio_end = if position is Some {
                        1 + n
                    } else {
                        payload.len()
                    };
                    Some((codec, target_kind(payload[0] % 32), audio_end, position))
                },
            },
        }
    }
}

/// The bytes of a positional block.
pub open spec fn position_bytes(pos: Seq<u32>) -> Seq<u8> {
    be_bytes(pos[0] as nat, 4) + be_bytes(pos[1] as nat, 4) + be_bytes(pos[2] as nat, 4)
}

impl VoicePacket {
    /// The coordinates as a sequence.
    pub open spec fn coordinates(self) -> Option<Seq<u32>> {
        match self.position {
            Some(p) => Some(p@),
            None => None,
        }
    }

    /// The packet says what its payload says.
    pub open spec fn wf(self) -> bool {
        voice_of(self.payload@) == Some(
            (self.codec, self.target, self.audio_end as nat, self.coordinates()),
        )
    }

    /// Whether a positional block is present.
    pub fn has_position(&self) -> (yes: bool)
        ensures
            yes == (self.coordinates() is Some),
    {
        self.position.is_some()
    }

    /// The bytes to forward when the receiver must not get positional data
    /// (context mismatch, or proximity disabled): audio only.
    pub fn without_position(&self) -> (bytes: &[u8])
        requires
            self.audio_end <= self.payload@.len(),
        ensures
            bytes@ == self.payload@.take(self.audio_end as int),
    {
        vstd::slice::slice_subrange(self.payload.as_slice(), 0, self.audio_end)
    }

    /// Re-emit the packet with a rewritten positional block (server-authoritative
    /// position): header, audio and the new position.
    pub fn with_rewritten_position(&self, pos: [u32; 3]) -> (bytes: Vec<u8>)
        requires
            self.audio_end <= self.payload@.len(),
        ensures
            bytes@ == self.payload@.take(self.audio_end as int) + position_bytes(pos@),
    {
        let mut out: Vec<u8> = Vec::new();
        out.extend_from_slice(self.without_position());
        push_word(&mut out, pos[0]);
        push_word(&mut out, pos[1]);
        push_word(&mut out, pos[2]);
        assert(out@ =~= self.payload@.take(self.audio_end as int) + position_bytes(pos@));
        out
    }
}

/// Append a 32-bit word, most significant byte first.
fn push_word(out: &mut Vec<u8>, word: u32)
    ensures
        final(out)@ == old(out)@ + be_bytes(word as nat, 4),
{
    out.push((word / 0x100_0000) as u8);
    out.push((word / 0x1_0000 % 256) as u8);
    out.push((word / 256 % 256) as u8);
    out.push((word % 256) as u8);
    proof {
        reveal_with_fuel(be_bytes, 5);
    }
    assert(out@ =~= old(out)@ + be_bytes(word as nat, 4));
}

/// A packet whose position is rewritten parses to the same audio with the new
/// position, unless it is a ping, which carries no position, or its audio is followed by
/// bytes that are no position.
pub proof fn rewritten_position_reads_back(packet: VoicePacket, pos: Seq<u32>)
    requires
        packet.wf(),
        packet.codec != VoicePacketType::Ping,
        audio_len(packet.codec, packet.payload@.skip(1)) == Some((packet.audio_end - 1) as nat),
        pos.len() == 3,
    ensures
        voice_of(packet.payload@.take(packet.audio_end as int) + position_bytes(pos)) == Some(
            (packet.codec, packet.target, packet.audio_end as nat, Some(pos)),
        ),
{
    let audio = packet.payload@.take(packet.audio_end as int);
    let block = position_bytes(pos);
    let body = packet.payload@.skip(1);
    lemma_audio_len_bound(packet.codec, body);
    reveal_with_fuel(be_bytes, 5);
    assert(block.len() == 12);
    let n = audio_len(packet.codec, body).unwrap();
    let new_payload = audio + block;
    assert(new_payload.skip(1).take(n as int) =~= body.take(n as int));
    lemma_audio_len_prefix(packet.codec, body, new_payload.skip(1));
    assert(new_payload.skip(1 + n as int) =~= block);
    assert(block.subrange(0, 4) =~= be_bytes(pos[0] as nat, 4));
    assert(block.subrange(4, 8) =~= be_bytes(pos[1] as nat, 4));
    assert(block.subrange(8, 12) =~= be_bytes(pos[2] as nat, 4));
    lemma_word_reads_back(pos[0]);
    lemma_word_reads_back(pos[1]);
    lemma_word_reads_back(pos[2]);
    assert(position_of(block)->0 =~= pos);
}

proof fn lemma_word_reads_back(word: u32)
    ensures
        be_value(be_bytes(word as nat, 4)) == word,
{
    reveal_with_fuel(be_bytes, 5);
    reveal_with_fuel(be_value, 5);
    let v = word as nat;
    let s = be_bytes(v, 4);
    assert(s =~= seq![
        (v / 256 / 256 / 256 % 256) as u8,
        (v / 256 / 256 % 256) as u8,
        (v / 256 % 256) as u8,
        (v % 256) as u8,
    ]);
    assert(be_value(s) == s[0] * 0x100_0000 + s[1] * 0x1_0000 + s[2] * 256 + s[3]);
}

/// Decoding takes at least one byte, and none that is not there.
proof fn lemma_decode_bound(s: Seq<u8>)
    ensures
        pds_decode(s) matches Some((_, n)) ==> 1 <= n <= s.len(),
    decreases s.len(),
{
    if s.len() > 0 && 0xF8 <= s[0] < 0xFC {
        lemma_decode_bound(s.skip(1));
    }
}

/// What an integer decodes to depends on its own bytes alone.
proof fn lemma_decode_prefix(s: Seq<u8>, t: Seq<u8>)
    requires
        pds_decode(s) is Some,
        pds_decode(s).unwrap().1 <= t.len(),
        t.take(pds_decode(s).unwrap().1 as int) == s.take(pds_decode(s).unwrap().1 as int),
    ensures
        pds_decode(t) == pds_decode(s),
    decreases s.len(),
{
    let n = pds_decode(s).unwrap().1 as int;
    lemma_decode_bound(s);
    assert(t.take(n)[0] == s.take(n)[0]);
    if s[0] < 0xF8 {
        assert(s.subrange(1, n) =~= s.take(n).subrange(1, n));
        assert(t.subrange(1, n) =~= t.take(n).subrange(1, n));
    } else if s[0] < 0xFC {
        let m = pds_decode(s.skip(1)).unwrap().1 as int;
        assert(t.skip(1).take(m) =~= t.take(n).skip(1));
        assert(s.skip(1).take(m) =~= s.take(n).skip(1));
        lemma_decode_prefix(s.skip(1), t.skip(1));
    }
}

proof fn lemma_frames_bound(s: Seq<u8>)
    ensures
        frames_len(s) matches Some(n) ==> n <= s.len(),
    decreases s.len(),
{
    if let Some((h, n)) = pds_decode(s) {
        let end = n + (h % 128) as nat;
        if n > 0 && s.len() >= end && h % 256 >= 128 {
            lemma_frames_bound(s.skip(end as int));
        }
    }
}

proof fn lemma_frames_prefix(s: Seq<u8>, t: Seq<u8>)
    requires
        frames_len(s) is Some,
        frames_len(s).unwrap() <= t.len(),
        t.take(frames_len(s).unwrap() as int) == s.take(frames_len(s).unwrap() as int),
    ensures
        frames_len(t) == frames_len(s),
    decreases s.len(),
{
    let total = frames_len(s).unwrap() as int;
    let (h, n) = pds_decode(s).unwrap();
    let end = (n + h % 128) as int;
    lemma_frames_bound(s);
    lemma_decode_bound(s);
    if h % 256 >= 128 {
        lemma_frames_bound(s.skip(end));
    }
    assert(t.take(n as int) =~= t.take(total).take(n as int));
    assert(s.take(n as int) =~= s.take(total).take(n as int));
    lemma_decode_prefix(s, t);
    if h % 256 >= 128 {
        let more = frames_len(s.skip(end)).unwrap() as int;
        assert(t.skip(end).take(more) =~= t.take(total).skip(end));
        assert(s.skip(end).take(more) =~= s.take(total).skip(end));
        lemma_frames_prefix(s.skip(end), t.skip(end));
    }
}

proof fn lemma_audio_len_bound(codec: VoicePacketType, s: Seq<u8>)
    ensures
        audio_len(codec, s) matches Some(n) ==> n <= s.len(),
{
    lemma_decode_bound(s);
    if let Some((_, n)) = pds_decode(s) {
        lemma_frames_bound(s.skip(n as int));
    }
}

proof fn lemma_audio_len_prefix(codec: VoicePacketType, s: Seq<u8>, t: Seq<u8>)
    requires
        audio_len(codec, s) is Some,
        audio_len(codec, s).unwrap() <= t.len(),
        t.take(audio_len(codec, s).unwrap() as int) == s.take(
            audio_len(codec, s).unwrap() as int,
        ),
    ensures
        audio_len(codec, t) == audio_len(codec, s),
{
    let total = audio_len(codec, s).unwrap() as int;
    let n = pds_decode(s).unwrap().1 as int;
    lemma_audio_len_bound(codec, s);
    lemma_decode_bound(s);
    lemma_decode_bound(s.skip(n));
    assert(t.take(n) =~= t.take(total).take(n));
    assert(s.take(n) =~= s.take(total).take(n));
    lemma_decode_prefix(s, t);
    match codec {
        VoicePacketType::Ping => {},
        VoicePacketType::Opus => {
            let m = pds_decode(s.skip(n)).unwrap().1 as int;
            assert(t.skip(n).take(m) =~= t.take(total).subrange(n, n + m));
            assert(s.skip(n).take(m) =~= s.take(total).subrange(n, n + m));
            lemma_decode_prefix(s.skip(n), t.skip(n));
        },
        _ => {
            let frames = frames_len(s.skip(n)).unwrap() as int;
            assert(t.skip(n).take(frames) =~= t.take(total).skip(n));
            assert(s.skip(n).take(frames) =~= s.take(total).skip(n));
            lemma_frames_prefix(s.skip(n), t.skip(n));
        },
    }
}

/// Encode a server-to-client voice packet: the speaker's session id is inserted
/// after the header byte (the client-to-server form carries the sequence varint
/// first; the server prepends who is speaking). The remaining payload, with its
/// position when `with_position`, is forwarded verbatim.
pub fn encode_outbound(session: u64, packet: &VoicePacket, with_position: bool) -> (out: Vec<u8>)
    requires
        packet.payload@.len() > 0,
        with_position || packet.audio_end > 0,
    ensures
        out@ == seq![packet.payload@[0]] + pds_encode(session) + if with_position {
            packet.payload@.skip(1)
        } else if packet.audio_end <= packet.payload@.len() {
            packet.payload@.subrange(1, packet.audio_end as int)
        } else {
            packet.payload@.skip(1)
        },
{
    let end: usize = if with_position || packet.audio_end > packet.payload.len() {
        packet.payload.len()
    } else {
        packet.audio_end
    };
    let body = vstd::slice::slice_subrange(packet.payload.as_slice(), 1, end);
    assert(packet.payload@.subrange(1, packet.payload@.len() as int) =~= packet.payload@.skip(1));
    let mut out: Vec<u8> = Vec::new();
    out.push(packet.payload[0]);
    write_u64(&mut out, session);
    out.extend_from_slice(body);
    assert(out@ =~= seq![packet.payload@[0]] + pds_encode(session) + body@);
    out
}

proof fn lemma_header_bits(header: u8)
    by (bit_vector)
    ensures
        (header >> 5) == header / 32,
        header & 0x1F == header % 32,
        header & 0x7F == header % 128,
        (header & 0x80 == 0) <==> header < 128,
{
}

proof fn lemma_frame_bits(header: u64)
    by (bit_vector)
    ensures
        header & 0x1FFF == header % 0x2000,
        header as u8 == header % 256,
{
}

/// Advance the reader by `n` bytes of opaque frame data, failing on truncation.
fn skip(r: &mut PdsReader, n: usize) -> (ok: Option<()>)
    requires
        old(r).wf(),
    ensures
        final(r).wf(),
        final(r).bytes() == old(r).bytes(),
        ok is Some <==> old(r).rest().len() >= n,
        ok is Some ==> final(r).consumed() == old(r).consumed() + n,
{
    let mut i: usize = 0;
    while i < n
        invariant
            i <= n,
            r.wf(),
            old(r).wf(),
            r.bytes() == old(r).bytes(),
            r.consumed() == old(r).consumed() + i,
            old(r).rest().len() >= i,
        decreases n - i,
    {
        match r.read_raw_byte() {
            Some(_) => {},
            None => {
                return None;
            },
        }
        i = i + 1;
    }
    Some(())
}

/// Decode a 12-byte positional block (3 big-endian words). Anything else is none.
fn decode_position(tail: &[u8]) -> (position: Option<[u32; 3]>)
    ensures
        match position_of(tail@) {
            Some(p) => position is Some && position->0@ == p,
            None => position is None,
        },
{
    if tail.len() != 12 {
        return None;
    }
    let position = [word_at(tail, 0), word_at(tail, 4), word_at(tail, 8)];
    assert(position@ =~= position_of(tail@)->0);
    Some(position)
}

/// The big-endian word at `at`.
fn word_at(s: &[u8], at: usize) -> (word: u32)
    requires
        at + 4 <= s@.len(),
        at <= 8,
    ensures
        word == be_value(s@.subrange(at as int, at + 4)),
{
    proof {
        reveal_with_fuel(be_value, 5);
        let w = s@.subrange(at as int, at + 4);
        assert(be_value(w) == w[0] * 0x100_0000 + w[1] * 0x1_0000 + w[2] * 256 + w[3]);
    }
    s[at] as u32 * 0x100_0000 + s[at + 1] as u32 * 0x1_0000 + s[at + 2] as u32 * 256 + s[at
        + 3] as u32
}

/// Read past the CELT or Speex frames.
fn skip_frames(r: &mut PdsReader) -> (ok: Option<()>)
    requires
        old(r).wf(),
    ensures
        final(r).wf(),
        final(r).bytes() == old(r).bytes(),
        match frames_len(old(r).rest()) {
            Some(n) => ok is Some && final(r).consumed() == old(r).consumed() + n,
            None => ok is None,
        },
    decreases old(r).rest().len(),
{
    let ghost s = r.rest();
    proof {
        lemma_decode_bound(s);
    }
    let header: u64 = match r.read_u64() {
        Some(h) => h,
        None => {
            return None;
        },
    };
    proof {
        lemma_frame_bits(header);
        lemma_header_bits(header as u8);
    }
    let h: u8 = header as u8;
    let ghost n = pds_decode(s).unwrap().1;
    assert(r.rest() =~= s.skip(n as int));
    match skip(r, (h & 0x7F) as usize) {
        Some(_) => {},
        None => {
            return None;
        },
    }
    assert(r.rest() =~= s.skip((n + header % 128) as int));
    if h & 0x80 == 0 {
        Some(())
    } else {
        skip_frames(r)
    }
}

/// Parse a decrypted voice payload. Returns `None` on a malformed or truncated
/// packet (the caller drops it: hostile input never panics).
pub fn parse(payload: &[u8]) -> (packet: Option<VoicePacket>)
    ensures
        match packet {
            Some(p) => p.wf() && p.payload@ == payload@ && 1 <= p.audio_end <= payload@.len(),
            None => voice_of(payload@) is None,
        },
{
    if payload.len() == 0 {
        return None;
    }
    let header: u8 = payload[0];
    proof {
        lemma_header_bits(header);
    }
    let codec = match VoicePacketType::from_bits(header >> 5) {
        Some(codec) => codec,
        None => {
            return None;
        },
    };
    let target = VoiceTargetKind::from_bits(header & 0x1F);
    let body = vstd::slice::slice_subrange(payload, 1, payload.len());
    assert(body@ =~= payload@.skip(1));
    proof {
        lemma_decode_bound(body@);
        lemma_audio_len_bound(codec, body@);
    }
    let mut r = PdsReader::new(body);
    assert(r.rest() =~= body@);
    // Session id (self-declared): read and discard; routing is keyed on the
    // authenticated socket, not on this field.
    if r.read_u64().is_none() {
        return None;
    }
    let ghost n = pds_decode(body@).unwrap().1;
    assert(r.rest() =~= body@.skip(n as int));
    match codec {
        VoicePacketType::Opus => {
            // Opus: one varint header, low 13 bits = frame length.
            let hdr: u64 = match r.read_u64() {
                Some(h) => h,
                None => {
                    return None;
                },
            };
            proof {
                lemma_frame_bits(hdr);
                lemma_decode_bound(body@.skip(n as int));
            }
            if skip(&mut r, (hdr & 0x1FFF) as usize).is_none() {
                return None;
            }
        },
        VoicePacketType::Ping => {
            // A UDP ping is not a voice packet; positional logic does not apply.
            return Some(
                VoicePacket {
                    codec,
                    target,
                    payload: vstd::slice::slice_to_vec(payload),
                    audio_end: payload.len(),
                    position: None,
                },
            );
        },
        _ => {
            // CELT/Speex: sequence of frame headers; continuation bit 0x80.
            if skip_frames(&mut r).is_none() {
                return None;
            }
        },
    }
    // Everything after the audio frames is the optional positional block.
    let frames_end: usize = 1 + r.offset();
    let tail = vstd::slice::slice_subrange(payload, frames_end, payload.len());
    assert(tail@ =~= payload@.skip(frames_end as int));
    let position = decode_position(tail);
    let audio_end: usize = if position.is_some() {
        frames_end
    } else {
        payload.len()
    };
    Some(
        VoicePacket {
            codec,
            target,
            payload: vstd::slice::slice_to_vec(payload),
            audio_end,
            position,
        },
    )
}

} // verus!
