//! Connection deferral state shared between the HTTP gateway and the script runtimes.
//!
//! One entry exists per in-flight `playerConnecting`. The gateway registers it and waits
//! for the outcome; the script's `deferrals` object resolves it.
use crate::slots::SlotMap;
use crate::state_bag::optional;
use crate::text::same;
use vstd::prelude::*;

verus! {

/// Outcome of a `playerConnecting` deferral: `Ok(())` = allowed, `Err(reason)` =
/// rejected with a kick reason.
pub type DeferralOutcome = Result<(), String>;

#[derive(Debug)]
struct DeferralEntry {
    outcome: Option<DeferralOutcome>,
    deferred: bool,
    kick_reason: Option<String>,
    last_update: Option<String>,
}

/// The state of one deferral.
#[verifier::ext_equal]
pub struct DeferralModel {
    /// How it was decided, once it was.
    pub outcome: Option<Result<(), Seq<char>>>,
    /// Whether a handler took the decision over.
    pub deferred: bool,
    pub kick_reason: Option<Seq<char>>,
    pub last_update: Option<Seq<char>>,
}

/// What an outcome says.
pub open spec fn outcome_model(outcome: DeferralOutcome) -> Result<(), Seq<char>> {
    match outcome {
        Ok(()) => Ok(()),
        Err(reason) => Err(reason@),
    }
}

impl DeferralEntry {
    spec fn model(&self) -> DeferralModel {
        DeferralModel {
            outcome: match self.outcome {
                Some(outcome) => Some(outcome_model(outcome)),
                None => None,
            },
            deferred: self.deferred,
            kick_reason: optional(self.kick_reason),
            last_update: optional(self.last_update),
        }
    }
}

/// A fresh, undecided deferral.
pub open spec fn fresh() -> DeferralModel {
    DeferralModel { outcome: None, deferred: false, kick_reason: None, last_update: None }
}

/// The outcome that `deferrals.done(reason)` stands for: no reason, or an empty one,
/// accepts the connection.
pub open spec fn outcome_of(reason: Option<Seq<char>>) -> Result<(), Seq<char>> {
    match reason {
        Some(text) => if text.len() == 0 {
            Ok(())
        } else {
            Err(text)
        },
        None => Ok(()),
    }
}

/// A deferral after a decision: the first one counts.
pub open spec fn decided(m: DeferralModel, reason: Option<Seq<char>>) -> DeferralModel {
    if m.outcome is None {
        DeferralModel { outcome: Some(outcome_of(reason)), ..m }
    } else {
        m
    }
}

/// The state with one entry changed, where there is one.
pub open spec fn changed(
    all: Map<u32, DeferralModel>,
    source: u32,
    entry: DeferralModel,
) -> Map<u32, DeferralModel> {
    if all.contains_key(source) {
        all.insert(source, entry)
    } else {
        all
    }
}

/// Whether a deferral waits for a decision.
pub open spec fn pending(all: Map<u32, DeferralModel>, source: u32) -> bool {
    all.contains_key(source) && all[source].outcome is None
}

/// Registry of in-flight connection deferrals, keyed by player source id.
pub struct DeferralRegistry {
    entries: SlotMap<DeferralEntry>,
}

spec fn entry_models(entries: Map<u32, DeferralEntry>) -> Map<u32, DeferralModel> {
    entries.map_values(|e: DeferralEntry| e.model())
}

impl View for DeferralRegistry {
    type V = Map<u32, DeferralModel>;

    closed spec fn view(&self) -> Map<u32, DeferralModel> {
        entry_models(self.entries@)
    }
}

impl DeferralRegistry {
    pub closed spec fn wf(&self) -> bool {
        self.entries.wf()
    }

    pub fn new() -> (registry: Self)
        ensures
            registry.wf(),
            registry@ == Map::<u32, DeferralModel>::empty(),
    {
        let registry = DeferralRegistry { entries: SlotMap::new() };
        assert(registry@ =~= Map::<u32, DeferralModel>::empty());
        registry
    }

    /// Register a new in-flight connection. The gateway asks for its outcome.
    pub fn register(&mut self, source: u32)
        requires
            old(self).wf(),
        ensures
            final(self).wf(),
            final(self)@ == old(self)@.insert(source, fresh()),
    {
        let entry = DeferralEntry {
            outcome: None,
            deferred: false,
            kick_reason: None,
            last_update: None,
        };
        self.entries.insert(source, entry);
        assert(self@ =~= old(self)@.insert(source, fresh()));
    }

    /// `deferrals.defer()`: marks the connection as asynchronously handled.
    pub fn defer(&mut self, source: u32)
        requires
            old(self).wf(),
        ensures
            final(self).wf(),
            final(self)@ == changed(
                old(self)@,
                source,
                DeferralModel { deferred: true, ..old(self)@[source] },
            ),
    {
        if let Some(entry) = self.entries.remove(source) {
            let mut entry = entry;
            entry.deferred = true;
            self.entries.insert(source, entry);
            assert(self@ =~= old(self)@.insert(source, entry.model()));
        } else {
            assert(self@ =~= old(self)@);
        }
    }

    /// `deferrals.update(msg)`: progress message shown on the player's loading screen.
    pub fn update(&mut self, source: u32, message: String)
        requires
            old(self).wf(),
        ensures
            final(self).wf(),
            final(self)@ == changed(
                old(self)@,
                source,
                DeferralModel { last_update: Some(message@), ..old(self)@[source] },
            ),
    {
        if let Some(entry) = self.entries.remove(source) {
            let mut entry = entry;
            entry.last_update = Some(message);
            self.entries.insert(source, entry);
            assert(self@ =~= old(self)@.insert(source, entry.model()));
        } else {
            assert(self@ =~= old(self)@);
        }
    }

    /// `setKickReason(reason)`: stored for a connection that is cancelled without an
    /// explicit `done(reason)`.
    pub fn set_kick_reason(&mut self, source: u32, reason: String)
        requires
            old(self).wf(),
        ensures
            final(self).wf(),
            final(self)@ == changed(
                old(self)@,
                source,
                DeferralModel { kick_reason: Some(reason@), ..old(self)@[source] },
            ),
    {
        if let Some(entry) = self.entries.remove(source) {
            let mut entry = entry;
            entry.kick_reason = Some(reason);
            self.entries.insert(source, entry);
            assert(self@ =~= old(self)@.insert(source, entry.model()));
        } else {
            assert(self@ =~= old(self)@);
        }
    }

    /// `deferrals.done()` / `deferrals.done(reason)`. An empty reason accepts the
    /// connection. Subsequent calls for the same source do nothing.
    pub fn done(&mut self, source: u32, reason: Option<String>)
        requires
            old(self).wf(),
        ensures
            final(self).wf(),
            final(self)@ == changed(
                old(self)@,
                source,
                decided(old(self)@[source], optional(reason)),
            ),
    {
        let outcome: DeferralOutcome = match reason {
            Some(text) => {
                if same(text.as_str(), "") {
                    proof {
                        reveal_strlit("");
                    }
                    Ok(())
                } else {
                    proof {
                        reveal_strlit("");
                        if text@.len() == 0 {
                            assert(text@ =~= ""@);
                        }
                    }
                    Err(text)
                }
            },
            None => Ok(()),
        };
        let ghost said = outcome_model(outcome);
        assert(said == outcome_of(optional(reason)));
        if let Some(entry) = self.entries.remove(source) {
            let mut entry = entry;
            if entry.outcome.is_none() {
                entry.outcome = Some(outcome);
            }
            self.entries.insert(source, entry);
            assert(self@ =~= old(self)@.insert(source, entry.model()));
        } else {
            assert(self@ =~= old(self)@);
        }
    }

    /// Called after every `playerConnecting` handler ran: if no handler called `defer()`
    /// (and none resolved it yet), the connection proceeds, as on FXServer.
    pub fn resolve_if_not_deferred(&mut self, source: u32)
        requires
            old(self).wf(),
        ensures
            final(self).wf(),
            final(self)@ == if pending(old(self)@, source) && !old(self)@[source].deferred {
                old(self)@.insert(source, decided(old(self)@[source], None))
            } else {
                old(self)@
            },
    {
        let resolve = match self.entries.get(source) {
            Some(entry) => !entry.deferred && entry.outcome.is_none(),
            None => false,
        };
        if resolve {
            self.done(source, None);
        }
    }

    /// Whether the deferral is still unresolved.
    pub fn is_pending(&self, source: u32) -> (yes: bool)
        requires
            self.wf(),
        ensures
            yes == pending(self@, source),
    {
        match self.entries.get(source) {
            Some(entry) => entry.outcome.is_none(),
            None => false,
        }
    }

    /// How a deferral was decided, once it was.
    pub fn outcome(&self, source: u32) -> (outcome: Option<DeferralOutcome>)
        requires
            self.wf(),
        ensures
            match outcome {
                Some(o) => self@.contains_key(source) && self@[source].outcome == Some(
                    outcome_model(o),
                ),
                None => self@.contains_key(source) ==> self@[source].outcome is None,
            },
    {
        match self.entries.get(source) {
            Some(entry) => match &entry.outcome {
                Some(Ok(())) => Some(Ok(())),
                Some(Err(reason)) => Some(Err(reason.clone())),
                None => None,
            },
            None => None,
        }
    }

    /// Drop all state for a source (after the connection flow finishes).
    pub fn remove(&mut self, source: u32)
        requires
            old(self).wf(),
        ensures
            final(self).wf(),
            final(self)@ == old(self)@.remove(source),
    {
        self.entries.remove(source);
        assert(self@ =~= old(self)@.remove(source));
    }
}

/// A decision stands: whatever is said later changes nothing.
pub proof fn the_first_decision_counts(
    m: DeferralModel,
    first: Option<Seq<char>>,
    second: Option<Seq<char>>,
)
    requires
        m.outcome is None,
    ensures
        decided(decided(m, first), second) == decided(m, first),
        decided(m, first).outcome == Some(outcome_of(first)),
{
}

} // verus!
