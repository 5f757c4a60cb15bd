//! Mumble TCP control-channel framing.
//!
//! Every control message on the wire is a 6-byte preamble followed by a
//! protobuf payload:
//!
//! ```text
//! bytes 0..2  message type   (u16, big-endian)
//! bytes 2..6  payload length (u32, big-endian)
//! bytes 6..   protobuf payload
//! ```
//!
//! The type table is a hard contract with the stock client.
use crate::pds::{be_bytes, be_value};
use crate::text::{decimal, print_decimal};
use vstd::prelude::*;
use vstd::string::StringExecFns;

verus! {

/// Preamble size in bytes (type u16 + length u32).
pub const PREAMBLE_SIZE: usize = 6;

/// Maximum payload accepted: a buffer of 8192 bytes less the preamble. Anything
/// larger is a protocol error, refused rather than allocated.
pub const MAX_MSGSIZE: usize = 8186;

/// Mumble control message types, in the order of their on-wire tags from 0 to 25.
#[derive(Debug, Clone, Copy, PartialEq, Eq, Structural)]
pub enum MessageType {
    Version,
    UdpTunnel,
    Authenticate,
    Ping,
    Reject,
    ServerSync,
    ChannelRemove,
    ChannelState,
    UserRemove,
    UserState,
    BanList,
    TextMessage,
    PermissionDenied,
    Acl,
    QueryUsers,
    CryptSetup,
    ContextActionModify,
    ContextAction,
    UserList,
    VoiceTarget,
    PermissionQuery,
    CodecVersion,
    UserStats,
    RequestBlob,
    ServerConfig,
    SuggestConfig,
}

impl MessageType {
    /// The on-wire type tag.
    pub open spec fn wire_tag(self) -> u16 {
        match self {
            MessageType::Version => 0,
            MessageType::UdpTunnel => 1,
            MessageType::Authenticate => 2,
            MessageType::Ping => 3,
            MessageType::Reject => 4,
            MessageType::ServerSync => 5,
            MessageType::ChannelRemove => 6,
            MessageType::ChannelState => 7,
            MessageType::UserRemove => 8,
            MessageType::UserState => 9,
            MessageType::BanList => 10,
            MessageType::TextMessage => 11,
            MessageType::PermissionDenied => 12,
            MessageType::Acl => 13,
            MessageType::QueryUsers => 14,
            MessageType::CryptSetup => 15,
            MessageType::ContextActionModify => 16,
            MessageType::ContextAction => 17,
            MessageType::UserList => 18,
            MessageType::VoiceTarget => 19,
            MessageType::PermissionQuery => 20,
            MessageType::CodecVersion => 21,
            MessageType::UserStats => 22,
            MessageType::RequestBlob => 23,
            MessageType::ServerConfig => 24,
            MessageType::SuggestConfig => 25,
        }
    }

    /// Map an on-wire type tag to its message type. Unknown tags return `None`:
    /// the caller drops the frame rather than guessing.
    pub fn from_u16(v: u16) -> (ty: Option<Self>)
        ensures
            ty is Some <==> v <= 25,
            ty is Some ==> ty->0.wire_tag() == v,
    {
        match v {
            0 => Some(MessageType::Version),
            1 => Some(MessageType::UdpTunnel),
            2 => Some(MessageType::Authenticate),
            3 => Some(MessageType::Ping),
            4 => Some(MessageType::Reject),
            5 => Some(MessageType::ServerSync),
            6 => Some(MessageType::ChannelRemove),
            7 => Some(MessageType::ChannelState),
            8 => Some(MessageType::UserRemove),
            9 => Some(MessageType::UserState),
            10 => Some(MessageType::BanList),
            11 => Some(MessageType::TextMessage),
            12 => Some(MessageType::PermissionDenied),
            13 => Some(MessageType::Acl),
            14 => Some(MessageType::QueryUsers),
            15 => Some(MessageType::CryptSetup),
            16 => Some(MessageType::ContextActionModify),
            17 => Some(MessageType::ContextAction),
            18 => Some(MessageType::UserList),
            19 => Some(MessageType::VoiceTarget),
            20 => Some(MessageType::PermissionQuery),
            21 => Some(MessageType::CodecVersion),
            22 => Some(MessageType::UserStats),
            23 => Some(MessageType::RequestBlob),
            24 => Some(MessageType::ServerConfig),
            25 => Some(MessageType::SuggestConfig),
            _ => None,
        }
    }

    /// The on-wire type tag.
    pub fn tag(self) -> (tag: u16)
        ensures
            tag == self.wire_tag(),
    {
        match self {
            MessageType::Version => 0,
            MessageType::UdpTunnel => 1,
            MessageType::Authenticate => 2,
            MessageType::Ping => 3,
            MessageType::Reject => 4,
            MessageType::ServerSync => 5,
            MessageType::ChannelRemove => 6,
            MessageType::ChannelState => 7,
            MessageType::UserRemove => 8,
            MessageType::UserState => 9,
            MessageType::BanList => 10,
            MessageType::TextMessage => 11,
            MessageType::PermissionDenied => 12,
            MessageType::Acl => 13,
            MessageType::QueryUsers => 14,
            MessageType::CryptSetup => 15,
            MessageType::ContextActionModify => 16,
            MessageType::ContextAction => 17,
            MessageType::UserList => 18,
            MessageType::VoiceTarget => 19,
            MessageType::PermissionQuery => 20,
            MessageType::CodecVersion => 21,
            MessageType::UserStats => 22,
            MessageType::RequestBlob => 23,
            MessageType::ServerConfig => 24,
            MessageType::SuggestConfig => 25,
        }
    }
}

/// Two message types never share a tag, so a tag that was written names the type
/// that was meant.
pub proof fn tags_are_distinct(a: MessageType, b: MessageType)
    ensures
        a.wire_tag() == b.wire_tag() ==> a == b,
        a.wire_tag() <= 25,
{
}

/// Framing errors on the control channel.
#[derive(Debug, PartialEq, Eq, Clone, Copy, Structural)]
pub enum FrameError {
    /// The payload is longer than [`MAX_MSGSIZE`].
    TooLarge(usize),
    /// No message type has this tag.
    UnknownType(u16),
}

impl FrameError {
    /// The message shown for the error.
    pub open spec fn text(self) -> Seq<char> {
        match self {
            FrameError::TooLarge(n) => "frame payload length "@ + decimal(n as nat)
                + " exceeds MAX_MSGSIZE (8186)"@,
            FrameError::UnknownType(t) => "unknown message type tag "@ + decimal(t as nat),
        }
    }

    pub fn message(&self) -> (s: String)
        ensures
            s@ == self.text(),
    {
        match self {
            FrameError::TooLarge(n) => {
                let mut s = "frame payload length ".to_owned();
                s.append(print_decimal(*n as u64).as_str());
                s.append(" exceeds MAX_MSGSIZE (8186)");
                s
            },
            FrameError::UnknownType(t) => {
                let mut s = "unknown message type tag ".to_owned();
                s.append(print_decimal(*t as u64).as_str());
                s
            },
        }
    }
}

/// A parsed preamble: message type plus the declared payload length.
#[derive(Debug, Clone, Copy, PartialEq, Eq, Structural)]
pub struct Preamble {
    pub ty: u16,
    pub len: u32,
}

/// The preamble that a buffer starts with, once six bytes of it are there.
pub open spec fn preamble_of(buf: Seq<u8>) -> Option<Preamble> {
    if buf.len() < 6 {
        None
    } else {
        Some(
            Preamble {
                ty: be_value(buf.subrange(0, 2)) as u16,
                len: be_value(buf.subrange(2, 6)) as u32,
            },
        )
    }
}

impl Preamble {
    /// Parse the 6-byte preamble. Returns `None` if fewer than 6 bytes are
    /// available yet (the caller keeps buffering).
    pub fn parse(buf: &[u8]) -> (preamble: Option<Preamble>)
        ensures
            preamble == preamble_of(buf@),
    {
        if buf.len() < PREAMBLE_SIZE {
            return None;
        }
        let ty: u16 = buf[0] as u16 * 256 + buf[1] as u16;
        let len: u32 = buf[2] as u32 * 0x100_0000 + buf[3] as u32 * 0x1_0000 + buf[4] as u32 * 256
            + buf[5] as u32;
        proof {
            reveal_with_fuel(be_value, 5);
        }
        Some(Preamble { ty, len })
    }

    /// Total frame size (preamble + payload).
    pub fn frame_len(&self) -> (n: usize)
        requires
            PREAMBLE_SIZE + self.len <= usize::MAX,
        ensures
            n == PREAMBLE_SIZE + self.len,
    {
        PREAMBLE_SIZE + self.len as usize
    }
}

/// The frame that carries `payload`: tag, length and payload.
pub open spec fn framed(ty: MessageType, payload: Seq<u8>) -> Seq<u8> {
    be_bytes(ty.wire_tag() as nat, 2) + be_bytes(payload.len(), 4) + payload
}

/// Put an encoded protobuf message into a full Mumble frame (preamble + payload).
///
/// Returns `TooLarge` rather than emitting a frame the peer would reject.
pub fn encode(ty: MessageType, payload: &[u8]) -> (frame: Result<Vec<u8>, FrameError>)
    ensures
        match frame {
            Ok(bytes) => payload@.len() <= MAX_MSGSIZE && bytes@ == framed(ty, payload@),
            Err(e) => payload@.len() > MAX_MSGSIZE && e == FrameError::TooLarge(
                payload@.len() as usize,
            ),
        },
{
    let len: usize = payload.len();
    if len > MAX_MSGSIZE {
        return Err(FrameError::TooLarge(len));
    }
    let mut out: Vec<u8> = Vec::new();
    let tag: u16 = ty.tag();
    out.push((tag / 256) as u8);
    out.push((tag % 256) as u8);
    out.push(0);
    out.push(0);
    out.push((len / 256) as u8);
    out.push((len % 256) as u8);
    proof {
        reveal_with_fuel(be_bytes, 5);
    }
    assert(out@ =~= be_bytes(tag as nat, 2) + be_bytes(len as nat, 4));
    out.extend_from_slice(payload);
    assert(out@ =~= framed(ty, payload@));
    Ok(out)
}

/// A frame that was written parses back to its type and length, and its payload
/// follows the preamble.
pub proof fn frame_reads_back(ty: MessageType, payload: Seq<u8>)
    requires
        payload.len() <= MAX_MSGSIZE,
    ensures
        preamble_of(framed(ty, payload)) == Some(
            Preamble { ty: ty.wire_tag(), len: payload.len() as u32 },
        ),
        framed(ty, payload).len() == PREAMBLE_SIZE + payload.len(),
        framed(ty, payload).skip(PREAMBLE_SIZE as int) == payload,
{
    reveal_with_fuel(be_bytes, 5);
    reveal_with_fuel(be_value, 5);
    let frame = framed(ty, payload);
    tags_are_distinct(ty, ty);
    assert(frame.skip(6) =~= payload);
    assert(be_value(frame.subrange(0, 2)) == ty.wire_tag());
    assert(be_value(frame.subrange(2, 6)) == payload.len());
}

/// What stands at the head of the receive buffer.
#[derive(Debug, PartialEq, Eq)]
pub enum Frame {
    /// The frame is not complete yet.
    Incomplete,
    /// A whole frame of a known type, and how many bytes it took.
    Message { ty: MessageType, payload: Vec<u8>, consumed: usize },
    /// A whole frame of an unknown type: skipped, not guessed at.
    Skipped { tag: u16, consumed: usize },
}

/// What a [`Frame`] is.
#[verifier::ext_equal]
pub enum FrameModel {
    Incomplete,
    Message { ty: MessageType, payload: Seq<u8>, consumed: nat },
    Skipped { tag: u16, consumed: nat },
}

impl View for Frame {
    type V = FrameModel;

    open spec fn view(&self) -> FrameModel {
        match self {
            Frame::Incomplete => FrameModel::Incomplete,
            Frame::Message { ty, payload, consumed } => FrameModel::Message {
                ty: *ty,
                payload: payload@,
                consumed: *consumed as nat,
            },
            Frame::Skipped { tag, consumed } => FrameModel::Skipped {
                tag: *tag,
                consumed: *consumed as nat,
            },
        }
    }
}

/// The message type with a tag, if there is one.
pub open spec fn type_with(tag: u16) -> Option<MessageType> {
    if exists|ty: MessageType| #[trigger] ty.wire_tag() == tag {
        Some(choose|ty: MessageType| #[trigger] ty.wire_tag() == tag)
    } else {
        None
    }
}

/// The first frame of the receive buffer. A frame that declares more than
/// [`MAX_MSGSIZE`] bytes is an error before any of its payload is awaited.
pub open spec fn first_frame(buf: Seq<u8>) -> Result<FrameModel, FrameError> {
    match preamble_of(buf) {
        None => Ok(FrameModel::Incomplete),
        Some(p) => if p.len > MAX_MSGSIZE {
            Err(FrameError::TooLarge(p.len as usize))
        } else if buf.len() < PREAMBLE_SIZE + p.len {
            Ok(FrameModel::Incomplete)
        } else {
            let consumed = (PREAMBLE_SIZE + p.len) as nat;
            match type_with(p.ty) {
                Some(ty) => Ok(
                    FrameModel::Message {
                        ty,
                        payload: buf.subrange(PREAMBLE_SIZE as int, consumed as int),
                        consumed,
                    },
                ),
                None => Ok(FrameModel::Skipped { tag: p.ty, consumed }),
            }
        },
    }
}

/// Take the first frame off the receive buffer.
pub fn next_frame(buf: &[u8]) -> (frame: Result<Frame, FrameError>)
    ensures
        match frame {
            Ok(f) => first_frame(buf@) == Ok::<_, FrameError>(f@),
            Err(e) => first_frame(buf@) == Err::<FrameModel, _>(e),
        },
{
    match Preamble::parse(buf) {
        None => Ok(Frame::Incomplete),
        Some(p) => {
            if p.len > MAX_MSGSIZE as u32 {
                return Err(FrameError::TooLarge(p.len as usize));
            }
            let total = p.frame_len();
            if buf.len() < total {
                return Ok(Frame::Incomplete);
            }
            match MessageType::from_u16(p.ty) {
                Some(ty) => {
                    let body = vstd::slice::slice_subrange(buf, PREAMBLE_SIZE, total);
                    let payload = vstd::slice::slice_to_vec(body);
                    proof {
                        assert(ty.wire_tag() == p.ty);
                        tags_are_distinct(ty, type_with(p.ty).unwrap());
                    }
                    Ok(Frame::Message { ty, payload, consumed: total })
                },
                None => {
                    proof {
                        if let Some(ty) = type_with(p.ty) {
                            tags_are_distinct(ty, ty);
                        }
                    }
                    Ok(Frame::Skipped { tag: p.ty, consumed: total })
                },
            }
        },
    }
}

/// A frame that was written is the first that is read, whatever follows it on the wire.
pub proof fn a_sent_frame_is_received(ty: MessageType, payload: Seq<u8>, rest: Seq<u8>)
    requires
        payload.len() <= MAX_MSGSIZE,
    ensures
        first_frame(framed(ty, payload) + rest) == Ok::<_, FrameError>(
            FrameModel::Message { ty, payload, consumed: framed(ty, payload).len() },
        ),
{
    frame_reads_back(ty, payload);
    let frame = framed(ty, payload);
    let buf = frame + rest;
    assert(buf.subrange(0, 2) =~= frame.subrange(0, 2));
    assert(buf.subrange(2, 6) =~= frame.subrange(2, 6));
    assert(preamble_of(buf) == preamble_of(frame));
    assert(ty.wire_tag() == ty.wire_tag());
    tags_are_distinct(ty, type_with(ty.wire_tag()).unwrap());
    assert(buf.subrange(PREAMBLE_SIZE as int, frame.len() as int) =~= frame.skip(
        PREAMBLE_SIZE as int,
    ));
}

/// A frame that has not arrived whole is waited for.
pub proof fn a_partial_frame_is_awaited(ty: MessageType, payload: Seq<u8>, arrived: int)
    requires
        payload.len() <= MAX_MSGSIZE,
        0 <= arrived < framed(ty, payload).len(),
    ensures
        first_frame(framed(ty, payload).take(arrived)) == Ok::<_, FrameError>(
            FrameModel::Incomplete,
        ),
{
    frame_reads_back(ty, payload);
    let frame = framed(ty, payload);
    let buf = frame.take(arrived);
    if arrived >= 6 {
        assert(buf.subrange(0, 2) =~= frame.subrange(0, 2));
        assert(buf.subrange(2, 6) =~= frame.subrange(2, 6));
    }
}

} // verus!
