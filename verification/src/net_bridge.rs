//! Bridge between script runtimes and the game transport.
//!
//! Runtimes queue outbound traffic (client events, native calls) here; the gateway
//! forwards it.
use crate::text::{decimal, print_decimal};
use vstd::prelude::*;

verus! {

/// Who a server-to-client event is for.
///
/// FiveM spells "everyone" as a source of `-1`, which scripts pass constantly. It stops
/// being a number here, at the first boundary.
#[derive(Debug, Clone, Copy, PartialEq, Eq, Structural)]
pub enum EventTarget {
    /// Every connected client.
    All,
    /// One player, by source id.
    One(u32),
}

/// Whom the number that a script passed means: anything that is no source id means
/// everyone.
pub open spec fn target_of(raw: int) -> EventTarget {
    if 0 <= raw <= u32::MAX {
        EventTarget::One(raw as u32)
    } else {
        EventTarget::All
    }
}

/// The number a script would have written.
pub open spec fn target_number(target: EventTarget) -> int {
    match target {
        EventTarget::All => -1,
        EventTarget::One(source) => source as int,
    }
}

impl EventTarget {
    /// Read the value a script passed. Negative means everyone, as in FiveM.
    pub fn from_script(raw: i64) -> (target: Self)
        ensures
            target == target_of(raw as int),
    {
        if 0 <= raw && raw <= u32::MAX as i64 {
            EventTarget::One(raw as u32)
        } else {
            EventTarget::All
        }
    }

    /// Back to the number a script would have written, for relaying over a wire that
    /// carries JSON rather than Rust types.
    pub fn to_script(self) -> (raw: i64)
        ensures
            raw == target_number(self),
    {
        match self {
            EventTarget::All => -1,
            EventTarget::One(source) => source as i64,
        }
    }

    /// How a target is shown: `all`, or the source id.
    pub fn label(self) -> (text: String)
        ensures
            text@ == match self {
                EventTarget::All => "all"@,
                EventTarget::One(source) => decimal(source as nat),
            },
    {
        match self {
            EventTarget::All => "all".to_owned(),
            EventTarget::One(source) => print_decimal(source as u64),
        }
    }
}

/// A target survives the way over a wire.
pub proof fn target_survives_a_round_trip(target: EventTarget)
    ensures
        target_of(target_number(target)) == target,
{
}

/// Outbound message from a script runtime to the game transport.
#[derive(Debug, Clone, PartialEq, Eq)]
pub enum NetOutbound {
    /// `TriggerClientEvent(name, target, ...args)`: args as JSON array text.
    ClientEvent { target: EventTarget, event: String, args_json: String },
    /// `TriggerClientEventInternal`: the payload is already packed by the caller. Kept
    /// distinct so the gateway does not re-encode bytes that are already in wire form.
    ClientEventRaw { target: EventTarget, event: String, payload: Vec<u8> },
}

/// What a [`NetOutbound`] says.
#[verifier::ext_equal]
pub enum OutboundModel {
    ClientEvent { target: EventTarget, event: Seq<char>, args_json: Seq<char> },
    ClientEventRaw { target: EventTarget, event: Seq<char>, payload: Seq<u8> },
}

impl View for NetOutbound {
    type V = OutboundModel;

    open spec fn view(&self) -> OutboundModel {
        match self {
            NetOutbound::ClientEvent { target, event, args_json } => OutboundModel::ClientEvent {
                target: *target,
                event: event@,
                args_json: args_json@,
            },
            NetOutbound::ClientEventRaw { target, event, payload } => {
                OutboundModel::ClientEventRaw {
                    target: *target,
                    event: event@,
                    payload: payload@,
                }
            },
        }
    }
}

/// Bounded so a script emitting client events or native calls in a tight loop applies
/// backpressure (drop on overflow) instead of growing the queue without limit.
pub const NET_BRIDGE_CAPACITY: usize = 2048;

/// The bridge's content.
#[verifier::ext_equal]
pub struct NetModel {
    /// What the gateway has not taken yet, oldest first.
    pub queue: Seq<OutboundModel>,
    /// Whether there is a gateway.
    pub open: bool,
}

/// Whether a bridge takes another message.
pub open spec fn net_takes(m: NetModel) -> bool {
    m.open && m.queue.len() < NET_BRIDGE_CAPACITY
}

/// The bridge after a message was offered to it.
pub open spec fn net_sent(m: NetModel, message: OutboundModel) -> NetModel {
    if net_takes(m) {
        NetModel { queue: m.queue.push(message), ..m }
    } else {
        m
    }
}

pub open spec fn outbound_models(queue: Seq<NetOutbound>) -> Seq<OutboundModel> {
    queue.map_values(|o: NetOutbound| o@)
}

/// The bridge every runtime sends through.
#[derive(Debug)]
pub struct NetBridge {
    queue: Vec<NetOutbound>,
    open: bool,
}

impl View for NetBridge {
    type V = NetModel;

    closed spec fn view(&self) -> NetModel {
        NetModel { queue: outbound_models(self.queue@), open: self.open }
    }
}

impl NetBridge {
    pub fn new() -> (bridge: Self)
        ensures
            bridge@ == (NetModel { queue: Seq::empty(), open: true }),
    {
        let bridge = NetBridge { queue: Vec::new(), open: true };
        assert(bridge@.queue =~= Seq::empty());
        bridge
    }

    /// The gateway is gone.
    pub fn close(&mut self)
        ensures
            final(self)@ == (NetModel { open: false, ..old(self)@ }),
    {
        self.open = false;
    }

    /// Queue a message; `false` when the bridge is full or closed.
    pub fn send(&mut self, message: NetOutbound) -> (sent: bool)
        ensures
            sent == net_takes(old(self)@),
            final(self)@ == net_sent(old(self)@, message@),
    {
        if self.open && self.queue.len() < NET_BRIDGE_CAPACITY {
            let ghost before = self.queue@;
            let ghost model = message@;
            self.queue.push(message);
            assert(outbound_models(self.queue@) =~= outbound_models(before).push(model));
            true
        } else {
            false
        }
    }

    /// Take everything that is queued, oldest first.
    pub fn drain(&mut self) -> (messages: Vec<NetOutbound>)
        ensures
            outbound_models(messages@) == old(self)@.queue,
            final(self)@ == (NetModel { queue: Seq::empty(), ..old(self)@ }),
    {
        let mut messages: Vec<NetOutbound> = Vec::new();
        std::mem::swap(&mut messages, &mut self.queue);
        assert(self@.queue =~= Seq::empty());
        messages
    }
}

/// The bridge never holds more than its capacity, as long as it started out so.
pub proof fn bridge_stays_bounded(m: NetModel, message: OutboundModel)
    requires
        m.queue.len() <= NET_BRIDGE_CAPACITY,
    ensures
        net_sent(m, message).queue.len() <= NET_BRIDGE_CAPACITY,
{
}

} // verus!
