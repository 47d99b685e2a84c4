//! The supervisor: the single authority over the registry of running
//! servers, and the commands it takes.
//!
//! The supervisor decides; it does not spawn, signal, send or wait. Each
//! command is answered by a [`Decision`]. Where the decision asks for a
//! spawn or a termination, the caller does it and reports back, and the
//! supervisor decides again. A reply ends the command, and so does a signal
//! or a text to hand over, whose answer follows from whether it was
//! delivered. One command is handled at a time.

use crate::servers::processes::{
    launch_plan, plan_of_split, shell_split, LaunchPlan, LaunchPlanView, SpawnError,
};
use crate::servers::server_handle::ServerHandle;
use crate::servers::server_info::{ServerInfo, ServerInfoView};
use std::collections::HashMap;
use vstd::prelude::*;

verus! {

broadcast use vstd::std_specs::hash::group_hash_axioms;

/// What a client asks of a server.
#[derive(Debug, PartialEq, Eq)]
pub enum ServerInteraction {
    Start,
    Restart,
    Stop,
    /// Deliver the signal with this number to the process.
    Signal(i32),
    /// Write this text to the standard input of the process.
    Command(String),
}

/// An interaction as plain values.
pub enum Interaction {
    Start,
    Restart,
    Stop,
    Signal(i32),
    Command(Seq<char>),
}

impl View for ServerInteraction {
    type V = Interaction;

    open spec fn view(&self) -> Interaction {
        match *self {
            ServerInteraction::Start => Interaction::Start,
            ServerInteraction::Restart => Interaction::Restart,
            ServerInteraction::Stop => Interaction::Stop,
            ServerInteraction::Signal(kind) => Interaction::Signal(kind),
            ServerInteraction::Command(text) => Interaction::Command(text@),
        }
    }
}

/// A request to the supervisor: the server it is about and what to do.
#[derive(Debug, PartialEq, Eq)]
pub struct ServerCommand {
    pub id: u128,
    pub interaction: ServerInteraction,
}

/// A command as plain values.
pub struct CommandView {
    pub id: u128,
    pub interaction: Interaction,
}

impl View for ServerCommand {
    type V = CommandView;

    open spec fn view(&self) -> CommandView {
        CommandView { id: self.id, interaction: self.interaction@ }
    }
}

impl ServerCommand {
    /// The command that asks `interaction` of the server `id`.
    pub fn new(id: u128, interaction: ServerInteraction) -> (command: Self)
        ensures
            command.id == id,
            command.interaction == interaction,
    {
        ServerCommand { id, interaction }
    }
}

/// The answer to a command.
#[derive(Debug, Clone, Copy, PartialEq, Eq, Structural)]
pub enum InteractionResult {
    /// Done as asked.
    Success,
    /// Start of a server that runs: nothing was spawned.
    AlreadyRunning,
    /// The server is known but does not run.
    NotRunning,
    /// No server of that identifier is known.
    UnknownServer,
    /// The server could not be started.
    SpawnError(SpawnError),
    /// A channel is closed: the input channel of the process, so that the
    /// text was not delivered, or the channel to the supervisor itself.
    ChannelClosed,
}

/// The command being worked on, if any.
#[derive(Debug, Clone, Copy, PartialEq, Eq, Structural)]
pub enum Pending {
    /// No command is in progress: the next one can be taken.
    Idle,
    /// The caller was asked to spawn this server, as the instance of this
    /// number, and has not reported yet.
    Spawning { id: u128, instance: u64 },
    /// The caller was asked to terminate this server and has not reported
    /// yet. With `restart` the server is started again once it is gone.
    Stopping { id: u128, restart: bool },
}

/// What the caller has to do next.
#[derive(Debug, PartialEq, Eq)]
pub enum Decision {
    /// The command is done: answer with this result.
    Reply(InteractionResult),
    /// Spawn the process of this plan for the server `id`, then report with
    /// [`Supervisor::spawn_finished`]. The process is the instance of the
    /// number `instance`, which goes with the notice of its end.
    Spawn { id: u128, instance: u64, plan: LaunchPlan },
    /// Ask the process of the server `id` to terminate and wait until it is
    /// gone, then report with [`Supervisor::exit_confirmed`].
    Terminate { id: u128 },
    /// Deliver the signal `kind` to the process of the server `id`. The
    /// command is done with that: answer with [`signal_result`] of whether
    /// the process could be reached.
    Signal { id: u128, kind: i32 },
    /// Hand `text` as it is to the input channel of the server `id`, whose
    /// handle the registry holds. The command is done with that: answer
    /// with [`input_result`] of whether the channel took the text.
    Forward { id: u128, text: String },
}

/// A decision as plain values.
pub enum DecisionView {
    Reply(InteractionResult),
    Spawn { id: u128, instance: u64, plan: LaunchPlanView },
    Terminate { id: u128 },
    Signal { id: u128, kind: i32 },
    Forward { id: u128, text: Seq<char> },
}

impl View for Decision {
    type V = DecisionView;

    open spec fn view(&self) -> DecisionView {
        match *self {
            Decision::Reply(result) => DecisionView::Reply(result),
            Decision::Spawn { id, instance, plan } => DecisionView::Spawn {
                id: id,
                instance: instance,
                plan: plan@,
            },
            Decision::Terminate { id } => DecisionView::Terminate { id: id },
            Decision::Signal { id, kind } => DecisionView::Signal { id: id, kind: kind },
            Decision::Forward { id, text } => DecisionView::Forward { id: id, text: text@ },
        }
    }
}

/// The state of the supervisor as plain values: the known servers, the
/// instance number of each server that runs, the command in progress, and
/// how many instance numbers have been given out.
pub struct SupervisorView {
    pub known: Map<u128, ServerInfoView>,
    pub running: Map<u128, u64>,
    pub pending: Pending,
    pub spawned: u64,
}

/// A new state together with the decision that led to it.
pub struct Outcome {
    pub state: SupervisorView,
    pub decision: DecisionView,
}

/// The answer to text handed to the input channel of a process: success if
/// the channel took it, `ChannelClosed` if not.
pub open spec fn forwarded(delivered: bool) -> InteractionResult {
    if delivered {
        InteractionResult::Success
    } else {
        InteractionResult::ChannelClosed
    }
}

/// The answer to a signal sent to a process: success if the process could
/// be reached, `NotRunning` if it is gone already.
pub open spec fn signalled(delivered: bool) -> InteractionResult {
    if delivered {
        InteractionResult::Success
    } else {
        InteractionResult::NotRunning
    }
}

impl SupervisorView {
    /// The invariant of the supervisor: every description is filed under its
    /// own identifier, only known servers run, a server being spawned is
    /// known and does not run, a server being stopped runs, and every
    /// instance number in use has been given out.
    pub open spec fn wf(self) -> bool {
        &&& forall|id: u128| #[trigger] self.known.contains_key(id) ==> self.known[id].id == id
        &&& forall|id: u128|
            #[trigger] self.running.contains_key(id) ==> self.known.contains_key(id)
                && self.running[id] < self.spawned
        &&& match self.pending {
            Pending::Idle => true,
            Pending::Spawning { id, instance } => self.known.contains_key(id)
                && !self.running.contains_key(id) && instance < self.spawned,
            Pending::Stopping { id, restart } => self.running.contains_key(id),
        }
    }

    /// This state with another command in progress.
    pub open spec fn with_pending(self, pending: Pending) -> SupervisorView {
        SupervisorView { pending: pending, ..self }
    }

    /// The state once `info` has been offered: it is filed under its
    /// identifier unless a server of that identifier is known already.
    pub open spec fn on_register(self, info: ServerInfoView) -> SupervisorView {
        if self.known.contains_key(info.id) {
            self
        } else {
            SupervisorView { known: self.known.insert(info.id, info), ..self }
        }
    }

    /// The decision to start the known server `id`: spawn what its command
    /// line says as the instance of the next number, or fail at once if the
    /// command line says nothing usable or the numbers have run out.
    pub open spec fn starting(self, id: u128) -> Outcome {
        let fail = |error: SpawnError|
            Outcome {
                state: self.with_pending(Pending::Idle),
                decision: DecisionView::Reply(InteractionResult::SpawnError(error)),
            };
        match plan_of_split(shell_split(self.known[id].exec_str)) {
            Ok(plan) => if self.spawned < u64::MAX {
                Outcome {
                    state: SupervisorView {
                        pending: Pending::Spawning { id: id, instance: self.spawned },
                        spawned: (self.spawned + 1) as u64,
                        ..self
                    },
                    decision: DecisionView::Spawn { id: id, instance: self.spawned, plan: plan },
                }
            } else {
                fail(SpawnError::Refused)
            },
            Err(error) => fail(error),
        }
    }

    /// The decision on a command.
    pub open spec fn on_command(self, command: CommandView) -> Outcome {
        let id = command.id;
        let refuse = |result: InteractionResult|
            Outcome { state: self, decision: DecisionView::Reply(result) };
        if !self.known.contains_key(id) {
            refuse(InteractionResult::UnknownServer)
        } else if !self.running.contains_key(id) {
            match command.interaction {
                Interaction::Start => self.starting(id),
                _ => refuse(InteractionResult::NotRunning),
            }
        } else {
            match command.interaction {
                Interaction::Start => refuse(InteractionResult::AlreadyRunning),
                Interaction::Stop => Outcome {
                    state: self.with_pending(Pending::Stopping { id: id, restart: false }),
                    decision: DecisionView::Terminate { id: id },
                },
                Interaction::Restart => Outcome {
                    state: self.with_pending(Pending::Stopping { id: id, restart: true }),
                    decision: DecisionView::Terminate { id: id },
                },
                Interaction::Signal(kind) => Outcome {
                    state: self,
                    decision: DecisionView::Signal { id: id, kind: kind },
                },
                Interaction::Command(text) => Outcome {
                    state: self,
                    decision: DecisionView::Forward { id: id, text: text },
                },
            }
        }
    }

    /// The state and the answer once a spawn has been reported: `Ok` with the
    /// identifier on the handle, or the error. Only a handle for the server
    /// whose spawn was asked for is taken; a report that nothing asked for
    /// changes nothing.
    pub open spec fn on_spawn_finished(self, report: Result<u128, SpawnError>) -> (
        SupervisorView,
        InteractionResult,
    ) {
        let idle = self.with_pending(Pending::Idle);
        let refused = InteractionResult::SpawnError(SpawnError::Refused);
        match self.pending {
            Pending::Spawning { id, instance } => match report {
                Ok(handle_id) => if handle_id == id {
                    (
                        SupervisorView { running: self.running.insert(id, instance), ..idle },
                        InteractionResult::Success,
                    )
                } else {
                    (idle, refused)
                },
                Err(error) => (idle, InteractionResult::SpawnError(error)),
            },
            _ => (self, refused),
        }
    }

    /// The state and the decision once the process that was to be terminated
    /// is gone: its entry is removed; a restart goes on to start the server.
    /// Where no stop is in progress nothing changes.
    pub open spec fn on_exit_confirmed(self) -> Outcome {
        match self.pending {
            Pending::Stopping { id, restart } => {
                let gone = SupervisorView {
                    running: self.running.remove(id),
                    pending: Pending::Idle,
                    ..self
                };
                if restart {
                    gone.starting(id)
                } else {
                    Outcome {
                        state: gone,
                        decision: DecisionView::Reply(InteractionResult::Success),
                    }
                }
            },
            _ => Outcome {
                state: self,
                decision: DecisionView::Reply(InteractionResult::NotRunning),
            },
        }
    }

    /// True when the server `id` runs as the instance of that number.
    pub open spec fn runs_as(self, id: u128, instance: u64) -> bool {
        self.running.contains_key(id) && self.running[id] == instance
    }

    /// The state once the end of an instance of the server `id` has been
    /// noticed: if that instance is the one that runs, its entry is removed.
    /// The notice of an earlier instance, whose entry is gone already,
    /// changes nothing.
    pub open spec fn on_child_exited(self, id: u128, instance: u64) -> SupervisorView {
        if self.runs_as(id, instance) {
            SupervisorView { running: self.running.remove(id), ..self }
        } else {
            self
        }
    }
}

/// An entry of the registry: the handle of a running server and the number
/// of the instance that it belongs to.
struct Entry {
    instance: u64,
    handle: ServerHandle,
}

/// The supervisor: the known servers, the registry of those that run, the
/// command in progress, and the count of the instances made so far.
pub struct Supervisor {
    known: HashMap<u128, ServerInfo>,
    running: HashMap<u128, Entry>,
    pending: Pending,
    spawned: u64,
}

impl View for Supervisor {
    type V = SupervisorView;

    closed spec fn view(&self) -> SupervisorView {
        SupervisorView {
            known: self.known@.map_values(|info: ServerInfo| info@),
            running: self.running@.map_values(|entry: Entry| entry.instance),
            pending: self.pending,
            spawned: self.spawned,
        }
    }
}

impl Supervisor {
    /// The invariant: that of the plain state, and every handle in the
    /// registry is filed under its own identifier.
    pub closed spec fn wf(&self) -> bool {
        &&& self@.wf()
        &&& forall|id: u128| #[trigger]
            self.running@.contains_key(id) ==> self.running@[id].handle.server_id() == id
    }

    /// The handle of each server that runs.
    pub closed spec fn handles(&self) -> Map<u128, ServerHandle> {
        self.running@.map_values(|entry: Entry| entry.handle)
    }

    /// What is known of a well-formed supervisor: its plain state is well
    /// formed, and the registry holds one handle for each server that runs,
    /// filed under the identifier that the handle bears.
    pub proof fn lemma_wf(&self)
        requires
            self.wf(),
        ensures
            self@.wf(),
            self.handles().dom() == self@.running.dom(),
            forall|id: u128| #[trigger]
                self.handles().contains_key(id) ==> self.handles()[id].server_id() == id,
    {
        assert(self.handles().dom() =~= self@.running.dom());
    }

    /// A supervisor that knows no server and runs none.
    pub fn new() -> (supervisor: Self)
        ensures
            supervisor.wf(),
            supervisor@.known == Map::<u128, ServerInfoView>::empty(),
            supervisor@.running == Map::<u128, u64>::empty(),
            supervisor@.pending == Pending::Idle,
            supervisor@.spawned == 0,
            supervisor.handles() == Map::<u128, ServerHandle>::empty(),
    {
        Supervisor {
            known: HashMap::new(),
            running: HashMap::new(),
            pending: Pending::Idle,
            spawned: 0,
        }
    }

    /// Makes a server known. A description whose identifier is known already
    /// is turned down and changes nothing.
    pub fn register(&mut self, info: ServerInfo) -> (added: bool)
        requires
            old(self).wf(),
        ensures
            final(self).wf(),
            added == !old(self)@.known.contains_key(info@.id),
            final(self)@ == old(self)@.on_register(info@),
            final(self).handles() == old(self).handles(),
    {
        let id = *info.uuid();
        if self.known.contains_key(&id) {
            false
        } else {
            self.known.insert(id, info);
            assert(self@.known =~= old(self)@.known.insert(id, info@));
            true
        }
    }

    /// True when no command is in progress.
    pub fn is_idle(&self) -> (idle: bool)
        ensures
            idle == (self@.pending == Pending::Idle),
    {
        match self.pending {
            Pending::Idle => true,
            _ => false,
        }
    }

    /// The command in progress.
    pub fn pending(&self) -> (pending: Pending)
        ensures
            pending == self@.pending,
    {
        self.pending
    }

    /// True when a server of that identifier is known.
    pub fn is_known(&self, id: u128) -> (known: bool)
        ensures
            known == self@.known.contains_key(id),
    {
        self.known.contains_key(&id)
    }

    /// True when the registry holds an entry for the server `id`.
    pub fn is_running(&self, id: u128) -> (running: bool)
        ensures
            running == self@.running.contains_key(id),
    {
        self.running.contains_key(&id)
    }

    /// The number of the instance that the server `id` runs as, if it runs.
    pub fn instance(&self, id: u128) -> (found: Option<u64>)
        ensures
            found == (if self@.running.contains_key(id) {
                Some(self@.running[id])
            } else {
                None
            }),
    {
        match self.running.get(&id) {
            Some(entry) => Some(entry.instance),
            None => None,
        }
    }

    /// The description of the server `id`, if it is known.
    pub fn info(&self, id: u128) -> (found: Option<&ServerInfo>)
        ensures
            found is Some == self@.known.contains_key(id),
            found matches Some(info) ==> info@ == self@.known[id],
    {
        ServerInfo::fetch(&self.known, id)
    }

    /// The handle of the server `id`, if it runs.
    pub fn handle(&self, id: u128) -> (found: Option<&ServerHandle>)
        requires
            self.wf(),
        ensures
            found is Some == self@.running.contains_key(id),
            found matches Some(handle) ==> *handle == self.handles()[id] && handle.server_id()
                == id,
    {
        match self.running.get(&id) {
            Some(entry) => Some(&entry.handle),
            None => None,
        }
    }

    /// Takes the report on the spawn that the last decision asked for: the
    /// handle of the new process, or why there is none. A handle is entered
    /// into the registry and the command answered with `Success`; an error
    /// is passed on. With this the command is done.
    pub fn spawn_finished(&mut self, report: Result<ServerHandle, SpawnError>) -> (result:
        InteractionResult)
        requires
            old(self).wf(),
        ensures
            final(self).wf(),
            (final(self)@, result) == old(self)@.on_spawn_finished(
                match report {
                    Ok(handle) => Ok(handle.server_id()),
                    Err(error) => Err(error),
                },
            ),
            final(self).handles() == match (old(self)@.pending, report) {
                (Pending::Spawning { id, instance }, Ok(handle)) => if handle.server_id() == id {
                    old(self).handles().insert(id, handle)
                } else {
                    old(self).handles()
                },
                _ => old(self).handles(),
            },
    {
        match self.pending {
            Pending::Spawning { id, instance } => {
                self.pending = Pending::Idle;
                match report {
                    Ok(handle) => {
                        if handle.id() == id {
                            self.running.insert(id, Entry { instance: instance, handle: handle });
                            assert(self@.running =~= old(self)@.running.insert(id, instance));
                            InteractionResult::Success
                        } else {
                            InteractionResult::SpawnError(SpawnError::Refused)
                        }
                    },
                    Err(error) => InteractionResult::SpawnError(error),
                }
            },
            _ => InteractionResult::SpawnError(SpawnError::Refused),
        }
    }

    /// Takes the report that the process which the last decision asked to
    /// terminate is gone. Its entry leaves the registry. A stop is done with
    /// that; a restart goes on to start the server again, now that the old
    /// process is gone.
    pub fn exit_confirmed(&mut self) -> (decision: Decision)
        requires
            old(self).wf(),
        ensures
            final(self).wf(),
            final(self)@ == old(self)@.on_exit_confirmed().state,
            decision@ == old(self)@.on_exit_confirmed().decision,
            final(self).handles() == match old(self)@.pending {
                Pending::Stopping { id, restart } => old(self).handles().remove(id),
                _ => old(self).handles(),
            },
    {
        match self.pending {
            Pending::Stopping { id, restart } => {
                self.running.remove(&id);
                self.pending = Pending::Idle;
                assert(self@.running =~= old(self)@.running.remove(id));
                if restart {
                    self.start(id)
                } else {
                    Decision::Reply(InteractionResult::Success)
                }
            },
            _ => Decision::Reply(InteractionResult::NotRunning),
        }
    }

    /// Takes the notice that an instance of the server `id` has ended by
    /// itself. If that instance is the one in the registry, its entry leaves
    /// the registry; a notice that comes late, after the entry has gone or
    /// has been taken by a later instance, changes nothing. Returns whether
    /// an entry was removed.
    pub fn child_exited(&mut self, id: u128, instance: u64) -> (removed: bool)
        requires
            old(self).wf(),
            old(self)@.pending == Pending::Idle,
        ensures
            final(self).wf(),
            final(self)@ == old(self)@.on_child_exited(id, instance),
            removed == old(self)@.runs_as(id, instance),
            final(self).handles() == if removed {
                old(self).handles().remove(id)
            } else {
                old(self).handles()
            },
    {
        if self.instance(id) == Some(instance) {
            self.running.remove(&id);
            assert(self@.running =~= old(self)@.running.remove(id));
            true
        } else {
            false
        }
    }

    /// Decides how to start the known server `id`, which does not run.
    fn start(&mut self, id: u128) -> (decision: Decision)
        requires
            old(self).wf(),
            old(self)@.pending == Pending::Idle,
            old(self)@.known.contains_key(id),
            !old(self)@.running.contains_key(id),
        ensures
            final(self).wf(),
            final(self)@ == old(self)@.starting(id).state,
            decision@ == old(self)@.starting(id).decision,
            final(self).handles() == old(self).handles(),
    {
        let planned = match self.known.get(&id) {
            Some(info) => launch_plan(info.get_exec_str()),
            None => Err(SpawnError::EmptyCommand),
        };
        match planned {
            Ok(plan) => {
                if self.spawned < u64::MAX {
                    let instance = self.spawned;
                    self.pending = Pending::Spawning { id: id, instance: instance };
                    self.spawned = instance + 1;
                    Decision::Spawn { id: id, instance: instance, plan: plan }
                } else {
                    Decision::Reply(InteractionResult::SpawnError(SpawnError::Refused))
                }
            },
            Err(error) => Decision::Reply(InteractionResult::SpawnError(error)),
        }
    }
}

/// The answer to text that was handed to the input channel of a process.
pub fn input_result(delivered: bool) -> (result: InteractionResult)
    ensures
        result == forwarded(delivered),
{
    if delivered {
        InteractionResult::Success
    } else {
        InteractionResult::ChannelClosed
    }
}

/// The answer to a signal that was sent to a process.
pub fn signal_result(delivered: bool) -> (result: InteractionResult)
    ensures
        result == signalled(delivered),
{
    if delivered {
        InteractionResult::Success
    } else {
        InteractionResult::NotRunning
    }
}

/// Decides on a command. The registry changes only when a report comes in;
/// here the supervisor notes the command in progress and says what is to be
/// done. No handle enters, leaves or changes.
pub fn handle_server_command(command: ServerCommand, supervisor: &mut Supervisor) -> (decision:
    Decision)
    requires
        old(supervisor).wf(),
        old(supervisor)@.pending == Pending::Idle,
    ensures
        final(supervisor).wf(),
        final(supervisor)@ == old(supervisor)@.on_command(command@).state,
        decision@ == old(supervisor)@.on_command(command@).decision,
        final(supervisor).handles() == old(supervisor).handles(),
{
    let id = command.id;
    if !supervisor.is_known(id) {
        return Decision::Reply(InteractionResult::UnknownServer);
    }
    if !supervisor.is_running(id) {
        return match command.interaction {
            ServerInteraction::Start => supervisor.start(id),
            _ => Decision::Reply(InteractionResult::NotRunning),
        };
    }
    match command.interaction {
        ServerInteraction::Start => Decision::Reply(InteractionResult::AlreadyRunning),
        ServerInteraction::Stop => {
            supervisor.pending = Pending::Stopping { id: id, restart: false };
            Decision::Terminate { id: id }
        },
        ServerInteraction::Restart => {
            supervisor.pending = Pending::Stopping { id: id, restart: true };
            Decision::Terminate { id: id }
        },
        ServerInteraction::Signal(kind) => Decision::Signal { id: id, kind: kind },
        ServerInteraction::Command(text) => Decision::Forward { id: id, text: text },
    }
}

} // verus!
