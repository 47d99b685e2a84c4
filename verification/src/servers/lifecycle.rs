//! The supervisor together with the processes it stands for: what holds of
//! the children in every state that the system can reach.
//!
//! The supervisor never sees a process; it sees commands and reports. This
//! module adds the other half, the children that are alive, and states how
//! each thing that can happen changes both halves. A child counts as alive
//! from the moment it was spawned until its exit has been reported.

use crate::servers::command::{
    CommandView, DecisionView, Interaction, InteractionResult, Pending, SupervisorView,
};
use crate::servers::processes::SpawnError;
use crate::servers::server_info::ServerInfoView;
use vstd::multiset::Multiset;
use vstd::prelude::*;

verus! {

/// The supervisor and the children that are alive, each child counted under
/// the identifier of its server.
pub struct World {
    pub supervisor: SupervisorView,
    pub alive: Multiset<u128>,
}

/// The things that can happen to the system.
pub enum Happening {
    /// The description of a server is offered to the supervisor.
    Registered(ServerInfoView),
    /// A command arrives.
    Command(CommandView),
    /// The spawn that was asked for has made a child, whose handle is
    /// reported.
    Spawned,
    /// The spawn that was asked for has failed and is reported as such.
    SpawnFailed(SpawnError),
    /// The child that was to be terminated is gone and reaped, which is
    /// reported.
    Terminated,
    /// The notice that an instance of this server has ended by itself is
    /// taken. It may come late, when the instance has long been reaped.
    Exited { id: u128, instance: u64 },
}

impl World {
    /// The system at the start: no server known, no child alive.
    pub open spec fn initial() -> World {
        World {
            supervisor: SupervisorView {
                known: Map::empty(),
                running: Map::empty(),
                pending: Pending::Idle,
                spawned: 0,
            },
            alive: Multiset::empty(),
        }
    }

    /// True when `happening` can come about in this state: a command or a
    /// notice only while no command is in progress, and a report only of
    /// what was asked for.
    pub open spec fn allows(self, happening: Happening) -> bool {
        match happening {
            Happening::Registered(info) => true,
            Happening::Command(command) => self.supervisor.pending == Pending::Idle,
            Happening::Spawned => self.supervisor.pending is Spawning,
            Happening::SpawnFailed(error) => self.supervisor.pending is Spawning,
            Happening::Terminated => self.supervisor.pending is Stopping,
            Happening::Exited { id, instance } => self.supervisor.pending == Pending::Idle,
        }
    }

    /// The server that the command in progress is about.
    pub open spec fn pending_id(self) -> u128 {
        match self.supervisor.pending {
            Pending::Idle => 0,
            Pending::Spawning { id, instance } => id,
            Pending::Stopping { id, restart } => id,
        }
    }

    /// What the supervisor decides when `happening` comes about, where it
    /// decides anything.
    pub open spec fn decision(self, happening: Happening) -> Option<DecisionView> {
        match happening {
            Happening::Registered(info) => None,
            Happening::Command(command) => Some(self.supervisor.on_command(command).decision),
            Happening::Spawned => Some(
                DecisionView::Reply(self.supervisor.on_spawn_finished(Ok(self.pending_id())).1),
            ),
            Happening::SpawnFailed(error) => Some(
                DecisionView::Reply(self.supervisor.on_spawn_finished(Err(error)).1),
            ),
            Happening::Terminated => Some(self.supervisor.on_exit_confirmed().decision),
            Happening::Exited { id, instance } => None,
        }
    }

    /// The system after `happening`.
    pub open spec fn after(self, happening: Happening) -> World {
        match happening {
            Happening::Registered(info) => World {
                supervisor: self.supervisor.on_register(info),
                ..self
            },
            Happening::Command(command) => World {
                supervisor: self.supervisor.on_command(command).state,
                ..self
            },
            Happening::Spawned => World {
                supervisor: self.supervisor.on_spawn_finished(Ok(self.pending_id())).0,
                alive: self.alive.insert(self.pending_id()),
            },
            Happening::SpawnFailed(error) => World {
                supervisor: self.supervisor.on_spawn_finished(Err(error)).0,
                ..self
            },
            Happening::Terminated => World {
                supervisor: self.supervisor.on_exit_confirmed().state,
                alive: self.alive.remove(self.pending_id()),
            },
            Happening::Exited { id, instance } => World {
                supervisor: self.supervisor.on_child_exited(id, instance),
                alive: if self.supervisor.runs_as(id, instance) {
                    self.alive.remove(id)
                } else {
                    self.alive
                },
            },
        }
    }

    /// The registry tells the truth: a server has an entry exactly when it
    /// has a child alive, and then it has one child.
    pub open spec fn consistent(self) -> bool {
        &&& self.supervisor.wf()
        &&& forall|id: u128|
            #[trigger] self.alive.count(id) == (if self.supervisor.running.contains_key(id) {
                1nat
            } else {
                0nat
            })
    }

    /// The system after each of `happenings` in turn.
    pub open spec fn after_all(self, happenings: Seq<Happening>) -> World
        decreases happenings.len(),
    {
        if happenings.len() == 0 {
            self
        } else {
            self.after(happenings[0]).after_all(happenings.drop_first())
        }
    }

    /// True when each of `happenings` can come about in the state that the
    /// ones before it lead to.
    pub open spec fn allows_all(self, happenings: Seq<Happening>) -> bool
        decreases happenings.len(),
    {
        happenings.len() == 0 || (self.allows(happenings[0]) && self.after(
            happenings[0],
        ).allows_all(happenings.drop_first()))
    }
}

/// The system starts out consistent.
pub proof fn lemma_initial_consistent()
    ensures
        World::initial().consistent(),
{
}

/// Nothing that can happen makes the registry lie.
pub proof fn lemma_consistency_kept(world: World, happening: Happening)
    requires
        world.consistent(),
        world.allows(happening),
    ensures
        world.after(happening).consistent(),
{
}

/// Whatever happens, in whatever order, the registry tells the truth.
pub proof fn lemma_always_consistent(world: World, happenings: Seq<Happening>)
    requires
        world.consistent(),
        world.allows_all(happenings),
    ensures
        world.after_all(happenings).consistent(),
    decreases happenings.len(),
{
    if happenings.len() > 0 {
        lemma_consistency_kept(world, happenings[0]);
        lemma_always_consistent(world.after(happenings[0]), happenings.drop_first());
    }
}

/// One running instance per identifier: in no state that the system can
/// reach do two children of one server live at the same time.
pub proof fn lemma_never_two_children(happenings: Seq<Happening>, id: u128)
    requires
        World::initial().allows_all(happenings),
    ensures
        World::initial().after_all(happenings).alive.count(id) <= 1,
{
    lemma_always_consistent(World::initial(), happenings);
}

/// A spawn is asked for only when no child of that server is alive. This
/// holds of the spawn that ends a restart too: the old child is gone and
/// reaped before the new one is asked for.
pub proof fn lemma_spawn_only_after_reaping(world: World, happening: Happening)
    requires
        world.consistent(),
        world.allows(happening),
    ensures
        world.decision(happening) matches Some(DecisionView::Spawn { id, instance, plan })
            ==> world.after(happening).alive.count(id) == 0,
{
    lemma_consistency_kept(world, happening);
}

/// A restart of a running server first asks for its termination and leaves
/// the registry as it is; the spawn of the new child is decided only on the
/// report that the old one is gone, and by then its entry has left the
/// registry and no child of the server is alive.
pub proof fn lemma_restart_reaps_first(world: World, id: u128)
    requires
        world.consistent(),
        world.supervisor.pending == Pending::Idle,
        world.supervisor.running.contains_key(id),
    ensures
        ({
            let restart = Happening::Command(CommandView { id: id, interaction: Interaction::Restart });
            let stopping = world.after(restart);
            let gone = stopping.after(Happening::Terminated);
            &&& world.decision(restart) == Some(DecisionView::Terminate { id: id })
            &&& stopping.supervisor.running == world.supervisor.running
            &&& stopping.alive == world.alive
            &&& stopping.allows(Happening::Terminated)
            &&& !stopping.allows(Happening::Spawned)
            &&& gone.alive.count(id) == 0
            &&& !gone.supervisor.running.contains_key(id)
            &&& stopping.decision(Happening::Terminated) is Some
            &&& stopping.decision(Happening::Terminated)->0 is Spawn
                || stopping.decision(Happening::Terminated)->0 is Reply
        }),
{
    let restart = Happening::Command(CommandView { id: id, interaction: Interaction::Restart });
    lemma_consistency_kept(world, restart);
    lemma_consistency_kept(world.after(restart), Happening::Terminated);
}

/// Starting twice starts once: after a start that succeeded, a second start
/// of the same server is answered with `AlreadyRunning`, asks for no spawn
/// and changes nothing, and the server has exactly one child.
pub proof fn lemma_second_start_is_refused(world: World, id: u128)
    requires
        world.consistent(),
        world.supervisor.pending == Pending::Idle,
        world.supervisor.known.contains_key(id),
    ensures
        ({
            let start = Happening::Command(CommandView { id: id, interaction: Interaction::Start });
            let first = world.after(start);
            let started = if first.supervisor.pending is Spawning {
                first.after(Happening::Spawned)
            } else {
                first
            };
            started.supervisor.running.contains_key(id) ==> {
                &&& started.allows(start)
                &&& started.decision(start) == Some(
                    DecisionView::Reply(InteractionResult::AlreadyRunning),
                )
                &&& started.after(start) == started
                &&& started.alive.count(id) == 1
            }
        }),
{
    let start = Happening::Command(CommandView { id: id, interaction: Interaction::Start });
    lemma_consistency_kept(world, start);
    let first = world.after(start);
    if first.supervisor.pending is Spawning {
        lemma_consistency_kept(first, Happening::Spawned);
    }
}

/// True when the decision ends the command: the caller answers, after
/// delivering the signal or the text that the decision may carry, and the
/// supervisor is free for the next command.
pub open spec fn ends_command(decision: DecisionView, next: World) -> bool {
    (decision is Reply || decision is Signal || decision is Forward) && next.supervisor.pending
        == Pending::Idle
}

/// True when the decision asks for a spawn whose report, whatever it says,
/// ends the command.
pub open spec fn ends_after_spawn(decision: DecisionView, next: World, report: Happening) -> bool {
    &&& decision is Spawn
    &&& next.allows(report)
    &&& next.decision(report) matches Some(last)
    &&& ends_command(last, next.after(report))
}

/// Every command is answered, and after a bounded number of reports: the
/// decision on a command either ends it, or asks for a spawn whose report
/// ends it, or asks for a termination whose report ends it or leads to such
/// a spawn. While a command is in progress no other is taken, so each
/// command has one answer.
pub proof fn lemma_every_command_is_answered(
    world: World,
    command: CommandView,
    failure: Option<SpawnError>,
)
    requires
        world.consistent(),
        world.supervisor.pending == Pending::Idle,
    ensures
        ({
            let arrival = Happening::Command(command);
            let report = match failure {
                None => Happening::Spawned,
                Some(error) => Happening::SpawnFailed(error),
            };
            let first = world.after(arrival);
            let stopped = first.after(Happening::Terminated);
            &&& world.allows(arrival)
            &&& world.decision(arrival) matches Some(decision)
            &&& {
                ||| ends_command(decision, first)
                ||| ends_after_spawn(decision, first, report)
                ||| {
                    &&& decision is Terminate
                    &&& !first.allows(arrival)
                    &&& first.allows(Happening::Terminated)
                    &&& first.decision(Happening::Terminated) matches Some(then)
                    &&& (ends_command(then, stopped) || ends_after_spawn(then, stopped, report))
                }
            }
        }),
{
    let arrival = Happening::Command(command);
    lemma_consistency_kept(world, arrival);
    let first = world.after(arrival);
    if first.supervisor.pending is Stopping {
        lemma_consistency_kept(first, Happening::Terminated);
    }
}

/// Instance numbers are never used twice: the instance that a spawn is
/// asked for has a number that no running server has, and from then on no
/// spawn is asked for under that number again.
pub proof fn lemma_instances_are_fresh(world: World, happening: Happening)
    requires
        world.consistent(),
        world.allows(happening),
    ensures
        world.supervisor.spawned <= world.after(happening).supervisor.spawned,
        world.decision(happening) matches Some(DecisionView::Spawn { id, instance, plan }) ==> {
            &&& instance == world.supervisor.spawned
            &&& instance < world.after(happening).supervisor.spawned
            &&& forall|other: u128| #[trigger]
                world.after(happening).supervisor.running.contains_key(other)
                    ==> world.after(happening).supervisor.running[other] != instance
        },
{
    lemma_consistency_kept(world, happening);
}

/// A notice that comes late changes nothing: the end of an instance that is
/// not the one in the registry touches neither the registry nor any child.
pub proof fn lemma_late_notice_changes_nothing(world: World, id: u128, instance: u64)
    requires
        !world.supervisor.runs_as(id, instance),
    ensures
        world.after(Happening::Exited { id: id, instance: instance }) == world,
{
}

/// Stopping what does not run does nothing: a stop of a known server
/// without an entry in the registry is answered with `NotRunning`, and
/// neither the supervisor nor any child is touched.
pub proof fn lemma_stop_of_absent_is_refused(world: World, id: u128)
    requires
        world.supervisor.pending == Pending::Idle,
        world.supervisor.known.contains_key(id),
        !world.supervisor.running.contains_key(id),
    ensures
        ({
            let stop = Happening::Command(CommandView { id: id, interaction: Interaction::Stop });
            &&& world.decision(stop) == Some(DecisionView::Reply(InteractionResult::NotRunning))
            &&& world.after(stop) == world
        }),
{
}

/// An interaction with a server that is not known is answered with
/// `UnknownServer`, whatever it asks, and touches nothing.
pub proof fn lemma_unknown_server_is_refused(world: World, command: CommandView)
    requires
        !world.supervisor.known.contains_key(command.id),
    ensures
        ({
            let happening = Happening::Command(command);
            &&& world.decision(happening) == Some(
                DecisionView::Reply(InteractionResult::UnknownServer),
            )
            &&& world.after(happening) == world
        }),
{
}

} // verus!
