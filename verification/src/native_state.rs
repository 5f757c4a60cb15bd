//! The state behind the natives of one resource, and what belongs to that resource
//! rather than to the process.
//!
//! [`NativeState`] is a locator with one slot for each kind of service: the host fills
//! it once and every runtime borrows from it, whichever engine it runs.
use crate::client_calls::{ClientCalls, PendingClientNative};
use crate::error::ScriptError;
use crate::named::{lists_names, names_in_order, TextMap};
use crate::routing::bumped;
use crate::runtime::Watchdog;
use crate::state_bag::optional;
use vstd::prelude::*;

verus! {

/// A set of numbered slots, each of which can hold one service.
pub trait Slots: Sized {
    /// A service of any of the slots.
    type Service;

    /// The slots before anything was put into them.
    spec fn none() -> Self;

    /// What the slot with this number holds.
    spec fn service(&self, number: u32) -> Option<Self::Service>;

    proof fn starts_empty(number: u32)
        ensures
            Self::none().service(number) is None,
    ;

    fn empty() -> (slots: Self)
        ensures
            slots == Self::none(),
    ;
}

/// Slots with one for a `T`.
pub trait Holds<T>: Slots {
    /// The number of the slot.
    spec fn number() -> u32;

    /// A `T` as one of the services.
    spec fn service_of(value: T) -> Self::Service;

    /// What the slot holds.
    spec fn held(&self) -> Option<T>;

    /// The slots with something else in this one.
    spec fn with(&self, value: Option<T>) -> Self;

    proof fn services_differ(a: T, b: T)
        ensures
            Self::service_of(a) == Self::service_of(b) ==> a == b,
    ;

    proof fn is_numbered(&self)
        ensures
            self.service(Self::number()) == match self.held() {
                Some(value) => Some(Self::service_of(value)),
                None => None,
            },
    ;

    proof fn keeps_the_others(&self, value: Option<T>, number: u32)
        requires
            number != Self::number(),
        ensures
            self.with(value).service(number) == self.service(number),
    ;

    proof fn holds_what_was_put(&self, value: Option<T>)
        ensures
            self.with(value).held() == value,
    ;

    fn slot(&self) -> (slot: &Option<T>)
        ensures
            *slot == self.held(),
    ;

    fn slot_mut(&mut self) -> (slot: &mut Option<T>)
        ensures
            *slot == old(self).held(),
            *final(self) == old(self).with(*final(slot)),
    ;
}

/// Something is in the slot with this number now, and the other slots hold what they
/// held.
pub open spec fn fills<S: Slots>(before: S, after: S, number: u32) -> bool {
    &&& after.service(number) is Some
    &&& forall|other: u32| other != number ==> #[trigger] after.service(other) == before.service(
        other,
    )
}

/// Putting a value in fills its slot and leaves the others as they are.
pub proof fn put_fills_one_slot<S: Holds<T>, T>(slots: S, value: T)
    ensures
        slots.with(Some(value)).held() == Some(value),
        fills(slots, slots.with(Some(value)), S::number()),
{
    let after = slots.with(Some(value));
    slots.holds_what_was_put(Some(value));
    after.is_numbered();
    assert forall|other: u32| other != S::number() implies #[trigger] after.service(other)
        == slots.service(other) by {
        slots.keeps_the_others(Some(value), other);
    }
}

/// Putting a value of one type in leaves the value of every other type where it is.
pub proof fn put_keeps_other_types<S, T, U>(slots: S, value: T) where S: Holds<T> + Holds<U>
    requires
        <S as Holds<T>>::number() != <S as Holds<U>>::number(),
    ensures
        <S as Holds<U>>::held(&<S as Holds<T>>::with(&slots, Some(value))) == <S as Holds<
            U,
        >>::held(&slots),
{
    let after = <S as Holds<T>>::with(&slots, Some(value));
    <S as Holds<T>>::keeps_the_others(&slots, Some(value), <S as Holds<U>>::number());
    <S as Holds<U>>::is_numbered(&slots);
    <S as Holds<U>>::is_numbered(&after);
    let before_u = <S as Holds<U>>::held(&slots);
    let after_u = <S as Holds<U>>::held(&after);
    if before_u is Some && after_u is Some {
        <S as Holds<U>>::services_differ(before_u.unwrap(), after_u.unwrap());
    }
}

/// After any number of puts, each into the slot named in `numbers`, a slot of a state
/// that started empty holds something exactly where one of the puts went into it.
pub proof fn only_puts_fill_a_slot<S: Holds<T>, T>(states: Seq<S>, numbers: Seq<u32>)
    requires
        states.len() == numbers.len() + 1,
        states[0] == S::none(),
        forall|i: int|
            0 <= i < numbers.len() ==> #[trigger] fills(states[i], states[i + 1], numbers[i]),
    ensures
        states.last().held() is Some <==> numbers.contains(S::number()),
    decreases numbers.len(),
{
    let slots = states.last();
    slots.is_numbered();
    if numbers.len() == 0 {
        S::starts_empty(S::number());
    } else {
        let n = numbers.len() - 1;
        assert forall|i: int| 0 <= i < numbers.drop_last().len() implies #[trigger] fills(
            states.drop_last()[i],
            states.drop_last()[i + 1],
            numbers.drop_last()[i],
        ) by {
            assert(fills(states[i], states[i + 1], numbers[i]));
        }
        only_puts_fill_a_slot::<S, T>(states.drop_last(), numbers.drop_last());
        states[n].is_numbered();
        assert(fills(states[n], states[n + 1], numbers[n]));
        assert(numbers.drop_last().push(numbers[n]) =~= numbers);
        if numbers.contains(S::number()) {
            let i = choose|i: int| 0 <= i < numbers.len() && numbers[i] == S::number();
            if i < n {
                assert(numbers.drop_last()[i] == S::number());
            }
        }
        if numbers.drop_last().contains(S::number()) {
            let i = choose|i: int| 0 <= i < n && numbers.drop_last()[i] == S::number();
            assert(numbers[i] == S::number());
        }
    }
}

/// Everything a native may need, one value of each kind.
///
/// One per resource runtime, owned by that runtime's thread. Values are put in by the
/// host before any script runs; a missing one is a wiring bug, so a borrow asks for it to
/// be there rather than returning an `Option` nobody could act on.
pub struct NativeState<S: Slots> {
    entries: S,
}

impl<S: Slots> NativeState<S> {
    /// What is in the slots.
    pub closed spec fn slots(&self) -> S {
        self.entries
    }

    pub fn new() -> (state: Self)
        ensures
            state.slots() == S::none(),
    {
        NativeState { entries: S::empty() }
    }

    /// Put a value in, replacing any previous one of the same type.
    ///
    /// The host installs placeholder services at construction and swaps in the real ones
    /// once the process has them.
    pub fn put<T>(&mut self, value: T) where S: Holds<T>
        ensures
            final(self).slots() == <S as Holds<T>>::with(&old(self).slots(), Some(value)),
            <S as Holds<T>>::held(&final(self).slots()) == Some(value),
            fills(old(self).slots(), final(self).slots(), <S as Holds<T>>::number()),
    {
        proof {
            put_fills_one_slot::<S, T>(self.entries, value);
        }
        *self.entries.slot_mut() = Some(value);
    }

    pub fn borrow<T>(&self) -> (value: &T) where S: Holds<T>
        requires
            <S as Holds<T>>::held(&self.slots()) is Some,
        ensures
            <S as Holds<T>>::held(&self.slots()) == Some(*value),
    {
        let slot: &Option<T> = self.entries.slot();
        slot.as_ref().unwrap()
    }

    pub fn borrow_mut<T>(&mut self) -> (value: &mut T) where S: Holds<T>
        requires
            <S as Holds<T>>::held(&old(self).slots()) is Some,
        ensures
            <S as Holds<T>>::held(&old(self).slots()) == Some(*value),
            final(self).slots() == <S as Holds<T>>::with(&old(self).slots(), Some(*final(value))),
    {
        let slot: &mut Option<T> = self.entries.slot_mut();
        slot.as_mut().unwrap()
    }

    /// Borrow a service that legitimately may not be installed.
    pub fn try_borrow<T>(&self) -> (value: Option<&T>) where S: Holds<T>
        ensures
            match value {
                Some(v) => <S as Holds<T>>::held(&self.slots()) == Some(*v),
                None => <S as Holds<T>>::held(&self.slots()) is None,
            },
    {
        let slot: &Option<T> = self.entries.slot();
        slot.as_ref()
    }

    pub fn contains<T>(&self) -> (yes: bool) where S: Holds<T>
        ensures
            yes == (<S as Holds<T>>::held(&self.slots()) is Some),
    {
        let slot: &Option<T> = self.entries.slot();
        slot.is_some()
    }
}

/// Events queued by a script, by what they say.
pub open spec fn event_models(events: Seq<(String, String)>) -> Seq<(Seq<char>, Seq<char>)> {
    events.map_values(|e: (String, String)| (e.0@, e.1@))
}

/// Everything that belongs to one resource rather than to the process.
#[derive(Debug)]
pub struct RuntimeContext {
    pub resource_name: String,
    /// When the script host started: the epoch of `GetGameTimer()`, in milliseconds.
    pub host_started_ms: u64,
    /// Events queued by `TriggerEvent` during script execution; drained by the host after
    /// each dispatch and broadcast to every runtime.
    pub queued_events: Vec<(String, String)>,
    /// Event names with at least one registered handler.
    pub handled_events: TextMap<()>,
    /// Export names registered by this resource.
    pub exports: TextMap<()>,
    /// Server commands registered by this resource, and whether they are restricted.
    pub commands: TextMap<bool>,
    /// Whether this resource registered a `RegisterZoneTransferState` callback.
    pub has_zone_transfer_state: bool,
    /// JSON collected during the last transfer-state dispatch.
    pub collected_transfer_state: Option<String>,
    /// Handler exceptions caught by the runtime.
    pub handler_errors: u64,
}

/// What a [`RuntimeContext`] holds.
#[verifier::ext_equal]
pub struct ContextModel {
    pub resource: Seq<char>,
    pub host_started_ms: u64,
    pub queued: Seq<(Seq<char>, Seq<char>)>,
    pub handled: Set<Seq<char>>,
    pub exports: Set<Seq<char>>,
    pub commands: Map<Seq<char>, bool>,
    pub transfers: bool,
    pub collected: Option<Seq<char>>,
    pub handler_errors: u64,
}

impl View for RuntimeContext {
    type V = ContextModel;

    open spec fn view(&self) -> ContextModel {
        ContextModel {
            resource: self.resource_name@,
            host_started_ms: self.host_started_ms,
            queued: event_models(self.queued_events@),
            handled: self.handled_events@.dom(),
            exports: self.exports@.dom(),
            commands: self.commands@,
            transfers: self.has_zone_transfer_state,
            collected: optional(self.collected_transfer_state),
            handler_errors: self.handler_errors,
        }
    }
}

/// A context with nothing registered.
pub open spec fn fresh_context(resource: Seq<char>, host_started_ms: u64) -> ContextModel {
    ContextModel {
        resource,
        host_started_ms,
        queued: Seq::empty(),
        handled: Set::empty(),
        exports: Set::empty(),
        commands: Map::empty(),
        transfers: false,
        collected: None,
        handler_errors: 0,
    }
}

/// The milliseconds since the host started.
pub open spec fn elapsed(m: ContextModel, now_ms: u64) -> u64 {
    if now_ms < m.host_started_ms {
        0
    } else {
        (now_ms - m.host_started_ms) as u64
    }
}

impl RuntimeContext {
    pub open spec fn wf(&self) -> bool {
        &&& self.handled_events.wf()
        &&& self.exports.wf()
        &&& self.commands.wf()
    }

    /// A context for `resource_name`, with nothing registered.
    pub fn new(resource_name: &str, host_started_ms: u64) -> (context: Self)
        ensures
            context.wf(),
            context@ == fresh_context(resource_name@, host_started_ms),
    {
        let context = RuntimeContext {
            resource_name: resource_name.to_owned(),
            host_started_ms,
            queued_events: Vec::new(),
            handled_events: TextMap::new(),
            exports: TextMap::new(),
            commands: TextMap::new(),
            has_zone_transfer_state: false,
            collected_transfer_state: None,
            handler_errors: 0,
        };
        assert(context@.queued =~= Seq::empty());
        assert(context@.handled =~= Set::empty());
        assert(context@.exports =~= Set::empty());
        context
    }

    /// `AddEventHandler`: the callback stays with the script.
    pub fn add_event_handler(&mut self, event: String)
        requires
            old(self).wf(),
        ensures
            final(self).wf(),
            final(self)@ == (ContextModel {
                handled: old(self)@.handled.insert(event@),
                ..old(self)@
            }),
    {
        let ghost name = event@;
        self.handled_events.insert(event, ());
        assert(self@.handled =~= old(self)@.handled.insert(name));
    }

    /// Whether this resource registered at least one handler for `event`.
    pub fn has_handler(&self, event: &str) -> (yes: bool)
        requires
            self.wf(),
        ensures
            yes == self@.handled.contains(event@),
    {
        self.handled_events.contains(event)
    }

    /// `RegisterCommand`.
    pub fn register_command(&mut self, name: String, restricted: bool)
        requires
            old(self).wf(),
        ensures
            final(self).wf(),
            final(self)@ == (ContextModel {
                commands: old(self)@.commands.insert(name@, restricted),
                ..old(self)@
            }),
    {
        self.commands.insert(name, restricted);
    }

    /// Whether this resource registered a command. One that it does not own is no error:
    /// there is simply nothing to run.
    pub fn owns_command(&self, name: &str) -> (yes: bool)
        requires
            self.wf(),
        ensures
            yes == self@.commands.contains_key(name@),
    {
        self.commands.contains(name)
    }

    /// Commands this resource registered, so the host can route them; ascending.
    pub fn registered_commands(&self) -> (names: Vec<String>)
        requires
            self.wf(),
        ensures
            names@.map_values(|s: String| s@) == names_in_order(self@.commands.dom()),
            lists_names(names@.map_values(|s: String| s@), self@.commands.dom()),
    {
        self.commands.names()
    }

    /// `exports(name, ...)`.
    pub fn add_export(&mut self, name: String)
        requires
            old(self).wf(),
        ensures
            final(self).wf(),
            final(self)@ == (ContextModel {
                exports: old(self)@.exports.insert(name@),
                ..old(self)@
            }),
    {
        let ghost text = name@;
        self.exports.insert(name, ());
        assert(self@.exports =~= old(self)@.exports.insert(text));
    }

    /// `TriggerEvent`: queue an event for the host to broadcast.
    pub fn trigger_event(&mut self, event: String, args_json: String)
        requires
            old(self).wf(),
        ensures
            final(self).wf(),
            final(self)@ == (ContextModel {
                queued: old(self)@.queued.push((event@, args_json@)),
                ..old(self)@
            }),
    {
        let ghost entry = (event@, args_json@);
        self.queued_events.push((event, args_json));
        assert(self@.queued =~= old(self)@.queued.push(entry));
    }

    /// Events queued during the last dispatch, oldest first.
    pub fn drain_queued_events(&mut self) -> (events: Vec<(String, String)>)
        requires
            old(self).wf(),
        ensures
            final(self).wf(),
            event_models(events@) == old(self)@.queued,
            final(self)@ == (ContextModel { queued: Seq::empty(), ..old(self)@ }),
    {
        let mut events: Vec<(String, String)> = Vec::new();
        std::mem::swap(&mut events, &mut self.queued_events);
        assert(self@.queued =~= Seq::empty());
        events
    }

    /// What the host gets back from a dispatch: the events it queued. One that failed
    /// leaves its events for the next to hand over.
    pub fn reply(&mut self, outcome: Result<(), ScriptError>) -> (reply: Result<
        Vec<(String, String)>,
        ScriptError,
    >)
        requires
            old(self).wf(),
        ensures
            final(self).wf(),
            match outcome {
                Ok(_) => reply matches Ok(events) && event_models(events@) == old(self)@.queued
                    && final(self)@ == (ContextModel { queued: Seq::empty(), ..old(self)@ }),
                Err(e) => reply == Err::<Vec<(String, String)>, ScriptError>(e) && *final(self)
                    == *old(self),
            },
    {
        match outcome {
            Ok(_) => Ok(self.drain_queued_events()),
            Err(e) => Err(e),
        }
    }

    /// A handler threw, and the runtime caught it.
    pub fn report_handler_error(&mut self)
        requires
            old(self).wf(),
        ensures
            final(self).wf(),
            final(self)@ == (ContextModel {
                handler_errors: bumped(old(self)@.handler_errors),
                ..old(self)@
            }),
    {
        self.handler_errors = if self.handler_errors == u64::MAX {
            0
        } else {
            self.handler_errors + 1
        };
    }

    /// `RegisterZoneTransferState`: the callback stays with the script.
    pub fn register_zone_transfer_state(&mut self)
        requires
            old(self).wf(),
        ensures
            final(self).wf(),
            final(self)@ == (ContextModel { transfers: true, ..old(self)@ }),
    {
        self.has_zone_transfer_state = true;
    }

    /// Prepare for a transfer-state dispatch: what an earlier one collected is dropped.
    /// `false` means that there is nothing to dispatch, which is the common case.
    pub fn begin_zone_transfer(&mut self) -> (registered: bool)
        requires
            old(self).wf(),
        ensures
            final(self).wf(),
            registered == old(self)@.transfers,
            final(self)@ == if registered {
                ContextModel { collected: None, ..old(self)@ }
            } else {
                old(self)@
            },
    {
        if self.has_zone_transfer_state {
            self.collected_transfer_state = None;
        }
        self.has_zone_transfer_state
    }

    /// The merged state that the callbacks came to.
    pub fn report_zone_transfer_state(&mut self, json: String)
        requires
            old(self).wf(),
        ensures
            final(self).wf(),
            final(self)@ == (ContextModel { collected: Some(json@), ..old(self)@ }),
    {
        self.collected_transfer_state = Some(json);
    }

    /// Take what the dispatch collected.
    pub fn take_zone_transfer(&mut self) -> (json: Option<String>)
        requires
            old(self).wf(),
        ensures
            final(self).wf(),
            optional(json) == old(self)@.collected,
            final(self)@ == (ContextModel { collected: None, ..old(self)@ }),
    {
        let mut json: Option<String> = None;
        std::mem::swap(&mut json, &mut self.collected_transfer_state);
        json
    }

    /// `GetGameTimer`: the milliseconds since the host started, in 32 bits.
    pub fn game_timer(&self, now_ms: u64) -> (timer: u32)
        ensures
            timer == elapsed(self@, now_ms) % 0x1_0000_0000,
    {
        if now_ms < self.host_started_ms {
            0
        } else {
            ((now_ms - self.host_started_ms) % 0x1_0000_0000) as u32
        }
    }
}

// --- the services of one runtime ---

/// What a runtime keeps for itself.
pub struct RuntimeServices {
    pub context: Option<RuntimeContext>,
    pub calls: Option<ClientCalls>,
    pub watchdog: Option<Watchdog>,
}

/// One of the services of a runtime.
pub enum RuntimeService {
    Context(RuntimeContext),
    Calls(ClientCalls),
    Watchdog(Watchdog),
}

impl Slots for RuntimeServices {
    type Service = RuntimeService;

    open spec fn none() -> Self {
        RuntimeServices { context: None, calls: None, watchdog: None }
    }

    open spec fn service(&self, number: u32) -> Option<RuntimeService> {
        if number == 0 {
            match self.context {
                Some(context) => Some(RuntimeService::Context(context)),
                None => None,
            }
        } else if number == 1 {
            match self.calls {
                Some(calls) => Some(RuntimeService::Calls(calls)),
                None => None,
            }
        } else if number == 2 {
            match self.watchdog {
                Some(watchdog) => Some(RuntimeService::Watchdog(watchdog)),
                None => None,
            }
        } else {
            None
        }
    }

    proof fn starts_empty(number: u32) {
    }

    fn empty() -> (slots: Self) {
        RuntimeServices { context: None, calls: None, watchdog: None }
    }
}

impl Holds<RuntimeContext> for RuntimeServices {
    open spec fn number() -> u32 {
        0
    }

    open spec fn service_of(value: RuntimeContext) -> RuntimeService {
        RuntimeService::Context(value)
    }

    open spec fn held(&self) -> Option<RuntimeContext> {
        self.context
    }

    open spec fn with(&self, value: Option<RuntimeContext>) -> Self {
        RuntimeServices { context: value, ..*self }
    }

    proof fn services_differ(a: RuntimeContext, b: RuntimeContext) {
    }

    proof fn is_numbered(&self) {
    }

    proof fn keeps_the_others(&self, value: Option<RuntimeContext>, number: u32) {
    }

    proof fn holds_what_was_put(&self, value: Option<RuntimeContext>) {
    }

    fn slot(&self) -> (slot: &Option<RuntimeContext>) {
        &self.context
    }

    fn slot_mut(&mut self) -> (slot: &mut Option<RuntimeContext>) {
        &mut self.context
    }
}

impl Holds<ClientCalls> for RuntimeServices {
    open spec fn number() -> u32 {
        1
    }

    open spec fn service_of(value: ClientCalls) -> RuntimeService {
        RuntimeService::Calls(value)
    }

    open spec fn held(&self) -> Option<ClientCalls> {
        self.calls
    }

    open spec fn with(&self, value: Option<ClientCalls>) -> Self {
        RuntimeServices { calls: value, ..*self }
    }

    proof fn services_differ(a: ClientCalls, b: ClientCalls) {
    }

    proof fn is_numbered(&self) {
    }

    proof fn keeps_the_others(&self, value: Option<ClientCalls>, number: u32) {
    }

    proof fn holds_what_was_put(&self, value: Option<ClientCalls>) {
    }

    fn slot(&self) -> (slot: &Option<ClientCalls>) {
        &self.calls
    }

    fn slot_mut(&mut self) -> (slot: &mut Option<ClientCalls>) {
        &mut self.calls
    }
}

impl Holds<Watchdog> for RuntimeServices {
    open spec fn number() -> u32 {
        2
    }

    open spec fn service_of(value: Watchdog) -> RuntimeService {
        RuntimeService::Watchdog(value)
    }

    open spec fn held(&self) -> Option<Watchdog> {
        self.watchdog
    }

    open spec fn with(&self, value: Option<Watchdog>) -> Self {
        RuntimeServices { watchdog: value, ..*self }
    }

    proof fn services_differ(a: Watchdog, b: Watchdog) {
    }

    proof fn is_numbered(&self) {
    }

    proof fn keeps_the_others(&self, value: Option<Watchdog>, number: u32) {
    }

    proof fn holds_what_was_put(&self, value: Option<Watchdog>) {
    }

    fn slot(&self) -> (slot: &Option<Watchdog>) {
        &self.watchdog
    }

    fn slot_mut(&mut self) -> (slot: &mut Option<Watchdog>) {
        &mut self.watchdog
    }
}

impl NativeState<RuntimeServices> {
    /// The state of a runtime that is about to run its first script.
    pub fn for_resource(resource_name: &str, host_started_ms: u64, budget_ms: u64) -> (state: Self)
        ensures
            state.slots().context matches Some(context) && context.wf() && context@ == fresh_context(
                resource_name@,
                host_started_ms,
            ),
            state.slots().calls matches Some(calls) && calls@ == Map::<
                u64,
                PendingClientNative,
            >::empty(),
            state.slots().watchdog == Some(
                Watchdog { deadline_ms: 0, fired: false, budget_ms },
            ),
    {
        let mut state = NativeState::<RuntimeServices>::new();
        state.put(RuntimeContext::new(resource_name, host_started_ms));
        state.put(ClientCalls::new());
        state.put(Watchdog::new(budget_ms));
        state
    }
}

/// A service that is put in leaves the others where they are.
pub proof fn services_do_not_disturb_each_other(
    services: RuntimeServices,
    context: RuntimeContext,
    calls: ClientCalls,
    watchdog: Watchdog,
)
    ensures
        ({
            let changed = services.with(Some(context));
            changed.context == Some(context) && changed.calls == services.calls
                && changed.watchdog == services.watchdog
        }),
        ({
            let changed = services.with(Some(calls));
            changed.calls == Some(calls) && changed.context == services.context
                && changed.watchdog == services.watchdog
        }),
        ({
            let changed = services.with(Some(watchdog));
            changed.watchdog == Some(watchdog) && changed.context == services.context
                && changed.calls == services.calls
        }),
{
}

} // verus!
