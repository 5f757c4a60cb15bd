//! Server-side core of a FiveM-compatible game server: the Mumble voice
//! protocol and the engine-neutral half of the scripting layer.
//!
//! The stock FiveM client embeds an unmodified Mumble client, so the voice side
//! speaks the Mumble protocol on the wire ([`framing`], [`pds`], [`crypto`],
//! [`voice`]) while routing and culling behind it are its own ([`router`],
//! [`channel`], [`session`], [`target`]). [`server`] puts them together.
//!
//! Scripts reach the server through [`natives`], which work on what a host shares
//! between resources: [`state_bag`], [`kvp`], [`routing`], [`entity_world`],
//! [`convars`], [`http_bridge`] and the rest. [`host`] and [`runtime`] keep the books
//! of the resources and their runtimes; [`script_laws`] says what scripts can rely on
//! across calls.
//!
//! The modules whose names end in `_laws` say what holds of the others for every input: how
//! calls relate to each other, and what their results must satisfy.
use vstd::prelude::*;

pub mod args;
pub mod bindings;
pub mod call_laws;
pub mod cfx_lua;
pub mod cfx_lua_laws;
pub mod channel;
pub mod client_calls;
pub mod console;
pub mod convars;
pub mod crypto;
pub mod crypto_laws;
pub mod dash;
pub mod deferrals;
pub mod engine;
pub mod entity_laws;
pub mod entity_world;
pub mod entry_laws;
pub mod error;
pub mod format_laws;
pub mod framing;
pub mod host;
pub mod host_laws;
pub mod http_bridge;
pub mod http_handler;
pub mod json;
pub mod kvp;
pub mod mirror_laws;
pub mod named;
pub mod native_names;
pub mod native_state;
pub mod natives;
pub mod natives_world;
pub mod net_bridge;
pub mod observability;
pub mod observability_laws;
pub mod operation_laws;
pub mod ordered;
pub mod password;
pub mod pds;
pub mod protocol_laws;
pub mod resource_control;
pub mod resource_laws;
pub mod resource_registry;
pub mod router;
pub mod router_laws;
pub mod routing;
pub mod rpc;
pub mod runtime;
pub mod runtime_laws;
pub mod script_laws;
pub mod server;
pub mod server_laws;
pub mod service_laws;
pub mod session;
pub mod slots;
pub mod state_bag;
pub mod state_bag_laws;
pub mod tally;
pub mod target;
pub mod text;
pub mod value_laws;
pub mod voice;
pub mod wire_laws;
pub mod world_laws;

verus! {

/// Mumble wire protocol version advertised by the server (1.4.0). Encoded
/// `(major << 16) | (minor << 8) | patch`.
pub const PROTOCOL_VERSION: u32 = 0x0001_0400;

/// UDP voice payload codec tag, carried in the top 3 bits of byte 0 of a
/// decrypted voice packet.
#[derive(Debug, Clone, Copy, PartialEq, Eq, Structural)]
pub enum VoicePacketType {
    CeltAlpha,
    Ping,
    Speex,
    CeltBeta,
    Opus,
}

/// The codec with the given 3-bit tag.
pub open spec fn packet_type(tag: nat) -> Option<VoicePacketType> {
    if tag == 0 {
        Some(VoicePacketType::CeltAlpha)
    } else if tag == 1 {
        Some(VoicePacketType::Ping)
    } else if tag == 2 {
        Some(VoicePacketType::Speex)
    } else if tag == 3 {
        Some(VoicePacketType::CeltBeta)
    } else if tag == 4 {
        Some(VoicePacketType::Opus)
    } else {
        None
    }
}

proof fn lemma_low_bits(bits: u8)
    by (bit_vector)
    ensures
        bits & 0x07 == bits % 8,
        bits & 0x1F == bits % 32,
{
}

impl VoicePacketType {
    /// Decode the 3-bit type field. Unknown values return `None`.
    pub fn from_bits(bits: u8) -> (codec: Option<Self>)
        ensures
            codec == packet_type((bits % 8) as nat),
    {
        proof {
            lemma_low_bits(bits);
        }
        match bits & 0x07 {
            0 => Some(VoicePacketType::CeltAlpha),
            1 => Some(VoicePacketType::Ping),
            2 => Some(VoicePacketType::Speex),
            3 => Some(VoicePacketType::CeltBeta),
            4 => Some(VoicePacketType::Opus),
            _ => None,
        }
    }
}

/// The 5-bit target field of a voice packet header: normal channel talk, a
/// whisper target id (1..=30), or the loopback echo test (31).
#[derive(Debug, Clone, Copy, PartialEq, Eq, Structural)]
pub enum VoiceTargetKind {
    /// Speak to the sender's current channel (proximity).
    Normal,
    /// Whisper via a registered target id (1..=30).
    Whisper(u8),
    /// Loopback: echo back to the sender only (mic test).
    Loopback,
}

/// The target that the 5-bit field `tag` names.
pub open spec fn target_kind(tag: u8) -> VoiceTargetKind {
    if tag == 0 {
        VoiceTargetKind::Normal
    } else if tag == 31 {
        VoiceTargetKind::Loopback
    } else {
        VoiceTargetKind::Whisper(tag)
    }
}

impl VoiceTargetKind {
    /// The 5-bit on-wire value of the target.
    pub open spec fn bits(self) -> u8 {
        match self {
            VoiceTargetKind::Normal => 0,
            VoiceTargetKind::Loopback => 31,
            VoiceTargetKind::Whisper(n) => n % 32,
        }
    }

    /// Decode the 5-bit target field (`byte0 & 0x1F`).
    pub fn from_bits(bits: u8) -> (kind: Self)
        ensures
            kind == target_kind(bits % 32),
    {
        proof {
            lemma_low_bits(bits);
        }
        match bits & 0x1F {
            0 => VoiceTargetKind::Normal,
            31 => VoiceTargetKind::Loopback,
            n => VoiceTargetKind::Whisper(n),
        }
    }

    /// The 5-bit on-wire value.
    pub fn to_bits(self) -> (bits: u8)
        ensures
            bits == self.bits(),
    {
        match self {
            VoiceTargetKind::Normal => 0,
            VoiceTargetKind::Loopback => 31,
            VoiceTargetKind::Whisper(n) => {
                proof {
                    lemma_low_bits(n);
                }
                n & 0x1F
            },
        }
    }
}

/// Every target that a client can address survives the trip over the wire: both
/// reserved ones and each whisper id from 1 to 30.
pub proof fn target_kind_survives_the_wire(kind: VoiceTargetKind)
    requires
        kind matches VoiceTargetKind::Whisper(n) ==> 1 <= n <= 30,
    ensures
        target_kind(kind.bits()) == kind,
{
}

} // verus!
