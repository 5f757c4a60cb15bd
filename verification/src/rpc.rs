//! Context-routed natives: the server-to-client bridge.
//!
//! A large part of the FiveM "server" native surface is not server-side at all. Natives
//! like `TASK_PLAY_ANIM` only exist inside the game client; the server forwards them to
//! exactly one client, which executes them locally. *Which* client is decided by the
//! call's **context**: for most natives the client that owns the entity passed as an
//! argument, for a handful the player passed as an argument.
//!
//! A script handle is a network id and the client resolves network ids locally, so
//! arguments are forwarded verbatim. Every such native is a void mutation: the call is
//! queued on the net bridge and nobody waits for it. A missing target is not an error:
//! the call is dropped.
use crate::args::{arg_netid, json_arg_netid};
use crate::entity_world::{owner_of, EntityWorldView, WorldModel};
use crate::json::{array_of, json_quoted, json_text, models, quote, Json, JsonModel};
use crate::named::{comes_before, precedes, precedes_is_total, precedes_is_transitive};
use crate::net_bridge::{
    net_sent, net_takes, EventTarget, NetBridge, NetModel, NetOutbound, OutboundModel,
};
use crate::observability::{hash_label, print_hash};
use crate::text::{decimal, print_decimal, same};
use vstd::prelude::*;
use vstd::string::StringExecFns;

verus! {

/// The event that carries a native call to a client.
pub const INVOKE_NATIVE_EVENT: &'static str = "__baston:invokeNative";

/// Which argument decides where a context native is dispatched, by its position.
#[derive(Debug, Clone, Copy, PartialEq, Eq, Structural)]
pub enum RpcContext {
    /// Dispatch to the client that owns the entity in `args[idx]`.
    Entity { idx: usize },
    /// Dispatch to the player whose server net id is in `args[idx]`.
    Player { idx: usize },
    /// The argument is a server-created object handle (a blip). Not routable: there is
    /// no server-side object registry.
    ObjectRef { idx: usize },
    /// As `ObjectRef`, and the call also destroys the handle.
    ObjectDelete { idx: usize },
}

/// The position of the argument that carries the routing target.
pub open spec fn context_index(context: RpcContext) -> usize {
    match context {
        RpcContext::Entity { idx } => idx,
        RpcContext::Player { idx } => idx,
        RpcContext::ObjectRef { idx } => idx,
        RpcContext::ObjectDelete { idx } => idx,
    }
}

impl RpcContext {
    /// Index of the argument carrying the routing target.
    pub fn idx(self) -> (idx: usize)
        ensures
            idx == context_index(self),
    {
        match self {
            RpcContext::Entity { idx } => idx,
            RpcContext::Player { idx } => idx,
            RpcContext::ObjectRef { idx } => idx,
            RpcContext::ObjectDelete { idx } => idx,
        }
    }
}

/// One context-routed native.
#[derive(Debug, Clone)]
pub struct RpcNative {
    /// Screaming-snake native name, the key scripts reach it by.
    pub name: String,
    /// Hash of the *client* native to invoke.
    pub hash: u64,
    /// How to resolve the target client.
    pub context: RpcContext,
    /// Argument count the client native expects.
    pub arg_count: usize,
}

/// What an [`RpcNative`] says beside its name.
#[verifier::ext_equal]
pub struct RouteModel {
    pub hash: u64,
    pub context: RpcContext,
    pub arg_count: usize,
}

pub open spec fn route_of(native: RpcNative) -> RouteModel {
    RouteModel { hash: native.hash, context: native.context, arg_count: native.arg_count }
}

/// Why a context native was recognised but not put on the wire.
#[derive(Debug, Clone, Copy, PartialEq, Eq, Structural)]
pub enum SkipReason {
    /// No client owns the entity: server-owned, unknown handle, or no sync state
    /// published yet.
    NoOwner,
    /// The player argument was 0: the script has no target.
    NoTarget,
    /// The routing argument is an object handle that cannot be resolved.
    UnsupportedContext,
    /// The script passed the wrong number of arguments; forwarding them would make the
    /// client invoke a native with a malformed stack.
    BadArity,
    /// The net bridge is full or closed (backpressure).
    BridgeFull,
}

impl SkipReason {
    /// Stable label for metrics and logs.
    pub fn as_str(self) -> (label: &'static str)
        ensures
            label@ == match self {
                SkipReason::NoOwner => "no_owner"@,
                SkipReason::NoTarget => "no_target"@,
                SkipReason::UnsupportedContext => "unsupported_context"@,
                SkipReason::BadArity => "bad_arity"@,
                SkipReason::BridgeFull => "bridge_full"@,
            },
    {
        match self {
            SkipReason::NoOwner => "no_owner",
            SkipReason::NoTarget => "no_target",
            SkipReason::UnsupportedContext => "unsupported_context",
            SkipReason::BadArity => "bad_arity",
            SkipReason::BridgeFull => "bridge_full",
        }
    }
}

/// The natives that are routed by context, ascending by name.
#[derive(Debug)]
pub struct RpcTable {
    natives: Vec<RpcNative>,
}

/// Names stand in strictly ascending order.
pub open spec fn sorted_by_name(natives: Seq<RpcNative>) -> bool {
    forall|i: int, j: int|
        0 <= i < j < natives.len() ==> precedes(
            (#[trigger] natives[i]).name@,
            (#[trigger] natives[j]).name@,
        )
}

impl View for RpcTable {
    type V = Map<Seq<char>, RouteModel>;

    closed spec fn view(&self) -> Map<Seq<char>, RouteModel> {
        routes(self.natives@)
    }
}

/// The routes that a list of natives spells out.
pub open spec fn routes(natives: Seq<RpcNative>) -> Map<Seq<char>, RouteModel> {
    Map::new(
        |name: Seq<char>| listed(natives, name),
        |name: Seq<char>| route_of(natives[place_of(natives, name)]),
    )
}

pub open spec fn listed(natives: Seq<RpcNative>, name: Seq<char>) -> bool {
    exists|i: int| 0 <= i < natives.len() && (#[trigger] natives[i]).name@ == name
}

pub open spec fn place_of(natives: Seq<RpcNative>, name: Seq<char>) -> int {
    choose|i: int| 0 <= i < natives.len() && (#[trigger] natives[i]).name@ == name
}

impl RpcTable {
    pub closed spec fn wf(&self) -> bool {
        sorted_by_name(self.natives@)
    }

    /// A table of the given natives; nothing where they are not in order.
    pub fn new(natives: Vec<RpcNative>) -> (table: Option<Self>)
        ensures
            match table {
                Some(t) => sorted_by_name(natives@) && t.wf() && t@ == routes(natives@),
                None => !sorted_by_name(natives@),
            },
    {
        let mut i: usize = 1;
        while i < natives.len()
            invariant
                1 <= i,
                i <= natives@.len() || natives@.len() == 0,
                forall|a: int, b: int|
                    0 <= a < b < i && b < natives@.len() ==> precedes(
                        (#[trigger] natives@[a]).name@,
                        (#[trigger] natives@[b]).name@,
                    ),
            decreases natives@.len() - i,
        {
            if !comes_before(natives[i - 1].name.as_str(), natives[i].name.as_str()) {
                assert(!precedes(natives@[i - 1].name@, natives@[i as int].name@));
                return None;
            }
            proof {
                assert forall|a: int| 0 <= a < i implies precedes(
                    (#[trigger] natives@[a]).name@,
                    natives@[i as int].name@,
                ) by {
                    if a < i - 1 {
                        assert(precedes(natives@[a].name@, natives@[i - 1].name@));
                        precedes_is_transitive(
                            natives@[a].name@,
                            natives@[i - 1].name@,
                            natives@[i as int].name@,
                        );
                    }
                }
            }
            i = i + 1;
        }
        Some(RpcTable { natives })
    }

    /// Look up a native.
    pub fn lookup(&self, name: &str) -> (native: Option<&RpcNative>)
        requires
            self.wf(),
        ensures
            match native {
                Some(n) => self@.contains_key(name@) && self@[name@] == route_of(*n) && n.name@
                    == name@,
                None => !self@.contains_key(name@),
            },
    {
        let mut lo: usize = 0;
        let mut hi: usize = self.natives.len();
        while lo < hi
            invariant
                self.wf(),
                lo <= hi <= self.natives@.len(),
                forall|i: int|
                    0 <= i < lo ==> precedes((#[trigger] self.natives@[i]).name@, name@),
                forall|i: int|
                    hi <= i < self.natives@.len() ==> precedes(
                        name@,
                        (#[trigger] self.natives@[i]).name@,
                    ),
            decreases hi - lo,
        {
            let mid: usize = lo + (hi - lo) / 2;
            let here = self.natives[mid].name.as_str();
            if same(here, name) {
                proof {
                    let p = place_of(self.natives@, name@);
                    assert(self.natives@[mid as int].name@ == name@);
                    precedes_is_total(name@, name@);
                    if p < mid {
                        assert(precedes(self.natives@[p].name@, self.natives@[mid as int].name@));
                    } else if mid < p {
                        assert(precedes(self.natives@[mid as int].name@, self.natives@[p].name@));
                    }
                }
                return Some(&self.natives[mid]);
            }
            proof {
                precedes_is_total(here@, name@);
            }
            if comes_before(here, name) {
                proof {
                    assert forall|i: int| 0 <= i <= mid implies precedes(
                        (#[trigger] self.natives@[i]).name@,
                        name@,
                    ) by {
                        if i < mid {
                            assert(precedes(
                                self.natives@[i].name@,
                                self.natives@[mid as int].name@,
                            ));
                            precedes_is_transitive(self.natives@[i].name@, here@, name@);
                        }
                    }
                }
                lo = mid + 1;
            } else {
                proof {
                    assert forall|i: int| mid <= i < self.natives@.len() implies precedes(
                        name@,
                        (#[trigger] self.natives@[i]).name@,
                    ) by {
                        if mid < i {
                            assert(precedes(
                                self.natives@[mid as int].name@,
                                self.natives@[i].name@,
                            ));
                            precedes_is_transitive(name@, here@, self.natives@[i].name@);
                        }
                    }
                }
                hi = mid;
            }
        }
        proof {
            if listed(self.natives@, name@) {
                let p = place_of(self.natives@, name@);
                precedes_is_total(self.natives@[p].name@, name@);
            }
        }
        None
    }
}

/// The client that must execute a native.
pub open spec fn routed(
    world: WorldModel,
    context: RpcContext,
    args: Seq<JsonModel>,
) -> Result<u32, SkipReason> {
    let argument = arg_netid(args, context_index(context) as int);
    match context {
        RpcContext::Entity { .. } => match owner_of(world, argument) {
            Some(owner) => if owner != 0 {
                Ok(owner)
            } else {
                Err(SkipReason::NoOwner)
            },
            None => Err(SkipReason::NoOwner),
        },
        RpcContext::Player { .. } => if argument == 0 {
            Err(SkipReason::NoTarget)
        } else {
            Ok(argument)
        },
        _ => Err(SkipReason::UnsupportedContext),
    }
}

/// The client that must execute the native, per the context rules.
///
/// A script handle is a network id, so the argument indexes the entity mirror directly.
/// Owner 0 means "nobody simulates this". A player argument already *is* the server net
/// id of the target player.
pub fn resolve_target(world: &EntityWorldView, native: &RpcNative, args: &Vec<Json>) -> (target:
    Result<u32, SkipReason>)
    requires
        world.wf(),
    ensures
        target == routed(world@, native.context, models(args@)),
{
    let argument: u32 = json_arg_netid(args, native.context.idx());
    match native.context {
        RpcContext::Entity { .. } => match world.owner(argument) {
            Some(owner) => {
                if owner != 0 {
                    Ok(owner)
                } else {
                    Err(SkipReason::NoOwner)
                }
            },
            None => Err(SkipReason::NoOwner),
        },
        RpcContext::Player { .. } => {
            if argument == 0 {
                Err(SkipReason::NoTarget)
            } else {
                Ok(argument)
            }
        },
        _ => Err(SkipReason::UnsupportedContext),
    }
}

/// The payload of a native call.
pub open spec fn call_text(id: u64, hash: u64, args: Seq<JsonModel>) -> Seq<char> {
    "[{\"args\":"@ + json_text(array_of(args)) + ",\"hash\":"@ + json_quoted(hash_label(hash))
        + ",\"id\":"@ + decimal(id as nat) + "}]"@
}

/// The message that carries a native call to a client.
pub open spec fn call_message(source: u32, id: u64, hash: u64, args: Seq<JsonModel>) -> OutboundModel {
    OutboundModel::ClientEvent {
        target: EventTarget::One(source),
        event: INVOKE_NATIVE_EVENT@,
        args_json: call_text(id, hash, args),
    }
}

/// Queue one native call on the net bridge, addressed to `source`'s client. Returns
/// `false` when the bridge is full or closed: backpressure, not a fatal error.
pub fn queue_native_call(net: &mut NetBridge, source: u32, id: u64, hash: u64, args: &Vec<Json>) -> (
    queued: bool)
    ensures
        queued == net_takes(old(net)@),
        final(net)@ == net_sent(old(net)@, call_message(source, id, hash, models(args@))),
{
    let mut text = "[{\"args\":".to_owned();
    text.append(Json::array(args).to_json().as_str());
    text.append(",\"hash\":");
    text.append(quote(print_hash(hash).as_str()).as_str());
    text.append(",\"id\":");
    text.append(print_decimal(id).as_str());
    text.append("}]");
    let message = NetOutbound::ClientEvent {
        target: EventTarget::One(source),
        event: INVOKE_NATIVE_EVENT.to_owned(),
        args_json: text,
    };
    assert(message@ == call_message(source, id, hash, models(args@)));
    net.send(message)
}

/// Where a call to a context native goes, or why it is dropped; and the bridge after it.
pub open spec fn dispatched(
    world: WorldModel,
    net: NetModel,
    route: RouteModel,
    id: u64,
    args: Seq<JsonModel>,
) -> (Result<u32, SkipReason>, NetModel) {
    if args.len() != route.arg_count {
        (Err(SkipReason::BadArity), net)
    } else {
        match routed(world, route.context, args) {
            Err(reason) => (Err(reason), net),
            Ok(target) => if net_takes(net) {
                (Ok(target), net_sent(net, call_message(target, id, route.hash, args)))
            } else {
                (Err(SkipReason::BridgeFull), net)
            },
        }
    }
}

/// Resolve the target client and queue the call. `Err` carries the reason the call was
/// dropped.
pub fn dispatch(
    world: &EntityWorldView,
    net: &mut NetBridge,
    native: &RpcNative,
    id: u64,
    args: &Vec<Json>,
) -> (outcome: Result<u32, SkipReason>)
    requires
        world.wf(),
    ensures
        (outcome, final(net)@) == dispatched(
            world@,
            old(net)@,
            route_of(*native),
            id,
            models(args@),
        ),
{
    if args.len() != native.arg_count {
        return Err(SkipReason::BadArity);
    }
    match resolve_target(world, native, args) {
        Err(reason) => Err(reason),
        Ok(target) => {
            if queue_native_call(net, target, id, native.hash, args) {
                Ok(target)
            } else {
                Err(SkipReason::BridgeFull)
            }
        },
    }
}

/// A call reaches nobody but the client its context names: a dropped call leaves the
/// bridge as it was, and a sent one is addressed to the routed target.
pub proof fn a_call_reaches_its_target_only(
    world: WorldModel,
    net: NetModel,
    route: RouteModel,
    id: u64,
    args: Seq<JsonModel>,
)
    ensures
        match dispatched(world, net, route, id, args).0 {
            Ok(target) => {
                &&& routed(world, route.context, args) == Ok::<u32, SkipReason>(target)
                &&& target != 0
                &&& dispatched(world, net, route, id, args).1.queue == net.queue.push(
                    call_message(target, id, route.hash, args),
                )
            },
            Err(_) => dispatched(world, net, route, id, args).1 == net,
        },
{
}

} // verus!
