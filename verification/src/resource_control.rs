//! Lifecycle control a script can exercise over other resources.
//!
//! The resource manager lives above the script host: it *calls* the host to load a
//! resource, so a native cannot reach back into it. The native queues the transition for
//! the manager to perform on its own; the answer says that the request was accepted.
use crate::tally::{count_one, one_more};
use vstd::prelude::*;

verus! {

/// A lifecycle transition a script asked for.
#[derive(Debug, Clone, PartialEq, Eq)]
pub enum ResourceCommand {
    Start(String),
    Stop(String),
    Restart(String),
    /// Rescan a directory for resources (`ScanResourceRoot`).
    ScanRoot(String),
}

/// What a [`ResourceCommand`] asks for.
#[verifier::ext_equal]
pub enum CommandModel {
    Start(Seq<char>),
    Stop(Seq<char>),
    Restart(Seq<char>),
    ScanRoot(Seq<char>),
}

impl View for ResourceCommand {
    type V = CommandModel;

    open spec fn view(&self) -> CommandModel {
        match self {
            ResourceCommand::Start(s) => CommandModel::Start(s@),
            ResourceCommand::Stop(s) => CommandModel::Stop(s@),
            ResourceCommand::Restart(s) => CommandModel::Restart(s@),
            ResourceCommand::ScanRoot(s) => CommandModel::ScanRoot(s@),
        }
    }
}

/// Queue depth. A resource looping on `StartResource` hits this instead of growing the
/// queue until the process dies.
pub const COMMAND_CAPACITY: usize = 256;

/// The write side scripts see.
pub trait ResourceControl {
    /// The transitions that were accepted and not yet taken, oldest first.
    spec fn accepted(&self) -> Seq<CommandModel>;

    /// Whether the next transition would be accepted.
    spec fn accepts(&self) -> bool;

    /// Queue a transition. Returns whether it was accepted for execution, not whether it
    /// has happened.
    fn submit(&mut self, command: ResourceCommand) -> (taken: bool)
        ensures
            taken == old(self).accepts(),
            final(self).accepted() == if taken {
                old(self).accepted().push(command@)
            } else {
                old(self).accepted()
            },
    ;
}

/// No manager wired: every request is refused rather than silently dropped, so a
/// script's `StartResource` returns false instead of appearing to work.
pub struct NoResourceControl;

impl ResourceControl for NoResourceControl {
    open spec fn accepted(&self) -> Seq<CommandModel> {
        Seq::empty()
    }

    open spec fn accepts(&self) -> bool {
        false
    }

    fn submit(&mut self, _command: ResourceCommand) -> (taken: bool) {
        false
    }
}

/// The queue between the scripts and the manager.
#[derive(Debug)]
pub struct QueuedResourceControl {
    queue: Vec<ResourceCommand>,
    open: bool,
    dropped: u64,
}

pub open spec fn command_models(queue: Seq<ResourceCommand>) -> Seq<CommandModel> {
    queue.map_values(|c: ResourceCommand| c@)
}

impl QueuedResourceControl {
    /// Whether there is a manager.
    pub closed spec fn is_open(&self) -> bool {
        self.open
    }

    /// How many transitions were dropped.
    pub closed spec fn losses(&self) -> u64 {
        self.dropped
    }

    pub fn new() -> (control: Self)
        ensures
            control.accepted() == Seq::<CommandModel>::empty(),
            control.is_open(),
            control.accepts(),
            control.losses() == 0,
    {
        let control = QueuedResourceControl { queue: Vec::new(), open: true, dropped: 0 };
        assert(control.accepted() =~= Seq::<CommandModel>::empty());
        control
    }

    /// The manager is gone: nobody will ever run another command.
    pub fn close(&mut self)
        ensures
            !final(self).is_open(),
            !final(self).accepts(),
            final(self).accepted() == old(self).accepted(),
            final(self).losses() == old(self).losses(),
    {
        self.open = false;
    }

    /// Take every queued command, oldest first.
    pub fn drain(&mut self) -> (commands: Vec<ResourceCommand>)
        ensures
            command_models(commands@) == old(self).accepted(),
            final(self).accepted() == Seq::<CommandModel>::empty(),
            final(self).is_open() == old(self).is_open(),
            final(self).accepts() == old(self).is_open(),
            final(self).losses() == old(self).losses(),
    {
        let mut commands: Vec<ResourceCommand> = Vec::new();
        std::mem::swap(&mut commands, &mut self.queue);
        assert(self.accepted() =~= Seq::<CommandModel>::empty());
        commands
    }

    /// How many commands were dropped: the queue was full, or the manager was gone.
    pub fn dropped(&self) -> (count: u64)
        ensures
            count == self.losses(),
    {
        self.dropped
    }
}

impl ResourceControl for QueuedResourceControl {
    closed spec fn accepted(&self) -> Seq<CommandModel> {
        command_models(self.queue@)
    }

    open spec fn accepts(&self) -> bool {
        self.is_open() && self.accepted().len() < COMMAND_CAPACITY
    }

    fn submit(&mut self, command: ResourceCommand) -> (taken: bool)
        ensures
            final(self).is_open() == old(self).is_open(),
            final(self).losses() == if taken {
                old(self).losses()
            } else {
                one_more(old(self).losses())
            },
    {
        if self.open && self.queue.len() < COMMAND_CAPACITY {
            let ghost before = self.queue@;
            let ghost model = command@;
            self.queue.push(command);
            assert(command_models(self.queue@) =~= command_models(before).push(model));
            true
        } else {
            self.dropped = count_one(self.dropped);
            false
        }
    }
}

} // verus!
