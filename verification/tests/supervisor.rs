use parking_lot::Mutex;
use std::sync::Arc;
use tokio::sync::mpsc::{unbounded_channel, UnboundedReceiver};
use whack::servers::command::{
    handle_server_command, input_result, signal_result, Decision, InteractionResult, Pending,
    ServerCommand, ServerInteraction, Supervisor,
};
use whack::servers::processes::{LaunchPlan, OutputPump, ReadOutcome, SpawnError, Stream};
use whack::servers::server_handle::ServerHandle;
use whack::servers::server_info::ServerInfo;
use whack::util::log_cache::LogCache;

const ECHO: u128 = 0x8d7d8cfd_5e77_4cbb_8108_0e36c7201f42;
const OTHER: u128 = 0x6a16edc7_02f6_4f9c_b7df_07ae4a9db1c2;

fn handle_for(id: u128) -> (ServerHandle, UnboundedReceiver<String>, Arc<Mutex<LogCache>>) {
    let (sender, receiver) = unbounded_channel::<String>();
    let log = Arc::new(Mutex::new(LogCache::new(64)));
    (ServerHandle::new(id, sender, log.clone()), receiver, log)
}

fn supervisor_with_echo() -> Supervisor {
    let mut supervisor = Supervisor::new();
    assert!(supervisor.register(ServerInfo::new(
        ECHO,
        "echo".to_string(),
        "echo hello".to_string()
    )));
    supervisor
}

fn echo_plan() -> LaunchPlan {
    LaunchPlan { program: "echo".to_string(), args: vec!["hello".to_string()] }
}

fn start(supervisor: &mut Supervisor, id: u128) -> Decision {
    handle_server_command(ServerCommand::new(id, ServerInteraction::Start), supervisor)
}

fn running_echo() -> (Supervisor, UnboundedReceiver<String>, Arc<Mutex<LogCache>>) {
    let mut supervisor = supervisor_with_echo();
    assert_eq!(
        start(&mut supervisor, ECHO),
        Decision::Spawn { id: ECHO, instance: 0, plan: echo_plan() }
    );
    let (handle, receiver, log) = handle_for(ECHO);
    assert_eq!(supervisor.spawn_finished(Ok(handle)), InteractionResult::Success);
    (supervisor, receiver, log)
}

#[test]
fn new_supervisor_knows_and_runs_nothing() {
    let supervisor = Supervisor::new();
    assert!(supervisor.is_idle());
    assert_eq!(supervisor.pending(), Pending::Idle);
    assert!(!supervisor.is_known(ECHO));
    assert!(!supervisor.is_running(ECHO));
    assert!(supervisor.info(ECHO).is_none());
    assert!(supervisor.handle(ECHO).is_none());
}

#[test]
fn register_turns_down_a_known_identifier() {
    let mut supervisor = supervisor_with_echo();
    assert!(supervisor.is_known(ECHO));
    assert!(!supervisor.register(ServerInfo::new(ECHO, "again".to_string(), "true".to_string())));
    assert_eq!(supervisor.info(ECHO).unwrap().name(), "echo");
    assert_eq!(supervisor.info(ECHO).unwrap().get_exec_str(), "echo hello");
}

#[test]
fn command_new_holds_its_parts() {
    let command = ServerCommand::new(ECHO, ServerInteraction::Signal(15));
    assert_eq!(command.id, ECHO);
    assert_eq!(command.interaction, ServerInteraction::Signal(15));
}

#[test]
fn start_asks_for_a_spawn_and_enters_the_handle() {
    let mut supervisor = supervisor_with_echo();
    let decision = start(&mut supervisor, ECHO);
    assert_eq!(decision, Decision::Spawn { id: ECHO, instance: 0, plan: echo_plan() });
    assert_eq!(supervisor.pending(), Pending::Spawning { id: ECHO, instance: 0 });
    assert!(!supervisor.is_idle());
    assert!(!supervisor.is_running(ECHO));
    let (handle, _receiver, _log) = handle_for(ECHO);
    assert_eq!(supervisor.spawn_finished(Ok(handle)), InteractionResult::Success);
    assert!(supervisor.is_idle());
    assert!(supervisor.is_running(ECHO));
    assert_eq!(supervisor.handle(ECHO).unwrap().id(), ECHO);
}

#[test]
fn start_twice_spawns_once() {
    let (mut supervisor, _receiver, _log) = running_echo();
    let second = start(&mut supervisor, ECHO);
    assert_eq!(second, Decision::Reply(InteractionResult::AlreadyRunning));
    assert!(supervisor.is_idle());
    assert!(supervisor.is_running(ECHO));
    let third = start(&mut supervisor, ECHO);
    assert_eq!(third, Decision::Reply(InteractionResult::AlreadyRunning));
}

#[test]
fn stop_of_a_server_that_does_not_run_changes_nothing() {
    let mut supervisor = supervisor_with_echo();
    let decision =
        handle_server_command(ServerCommand::new(ECHO, ServerInteraction::Stop), &mut supervisor);
    assert_eq!(decision, Decision::Reply(InteractionResult::NotRunning));
    assert!(supervisor.is_idle());
    assert!(supervisor.is_known(ECHO));
    assert!(!supervisor.is_running(ECHO));
}

#[test]
fn every_interaction_with_an_unknown_server_is_refused() {
    let interactions = vec![
        ServerInteraction::Start,
        ServerInteraction::Restart,
        ServerInteraction::Stop,
        ServerInteraction::Signal(2),
        ServerInteraction::Command("say hi\n".to_string()),
    ];
    for interaction in interactions {
        let mut supervisor = supervisor_with_echo();
        let decision =
            handle_server_command(ServerCommand::new(OTHER, interaction), &mut supervisor);
        assert_eq!(decision, Decision::Reply(InteractionResult::UnknownServer));
        assert!(supervisor.is_idle());
        assert!(!supervisor.is_known(OTHER));
        assert!(!supervisor.is_running(OTHER));
    }
}

#[test]
fn interactions_with_a_stopped_server_are_not_running() {
    let interactions = vec![
        ServerInteraction::Restart,
        ServerInteraction::Stop,
        ServerInteraction::Signal(2),
        ServerInteraction::Command("say hi\n".to_string()),
    ];
    for interaction in interactions {
        let mut supervisor = supervisor_with_echo();
        let decision =
            handle_server_command(ServerCommand::new(ECHO, interaction), &mut supervisor);
        assert_eq!(decision, Decision::Reply(InteractionResult::NotRunning));
        assert!(supervisor.is_idle());
    }
}

#[test]
fn stop_terminates_then_removes_the_entry() {
    let (mut supervisor, _receiver, _log) = running_echo();
    let decision =
        handle_server_command(ServerCommand::new(ECHO, ServerInteraction::Stop), &mut supervisor);
    assert_eq!(decision, Decision::Terminate { id: ECHO });
    assert_eq!(supervisor.pending(), Pending::Stopping { id: ECHO, restart: false });
    assert!(supervisor.is_running(ECHO));
    assert_eq!(supervisor.exit_confirmed(), Decision::Reply(InteractionResult::Success));
    assert!(supervisor.is_idle());
    assert!(!supervisor.is_running(ECHO));
    assert!(supervisor.is_known(ECHO));
}

#[test]
fn restart_spawns_only_after_the_old_process_is_gone() {
    let (mut supervisor, _receiver, _log) = running_echo();
    let decision = handle_server_command(
        ServerCommand::new(ECHO, ServerInteraction::Restart),
        &mut supervisor,
    );
    assert_eq!(decision, Decision::Terminate { id: ECHO });
    assert_eq!(supervisor.pending(), Pending::Stopping { id: ECHO, restart: true });
    assert!(supervisor.is_running(ECHO));
    let next = supervisor.exit_confirmed();
    assert_eq!(next, Decision::Spawn { id: ECHO, instance: 1, plan: echo_plan() });
    assert_eq!(supervisor.pending(), Pending::Spawning { id: ECHO, instance: 1 });
    assert!(!supervisor.is_running(ECHO));
    let (handle, _second_receiver, _second_log) = handle_for(ECHO);
    assert_eq!(supervisor.spawn_finished(Ok(handle)), InteractionResult::Success);
    assert!(supervisor.is_idle());
    assert!(supervisor.is_running(ECHO));
}

#[test]
fn restart_whose_spawn_fails_leaves_the_server_stopped() {
    let (mut supervisor, _receiver, _log) = running_echo();
    handle_server_command(ServerCommand::new(ECHO, ServerInteraction::Restart), &mut supervisor);
    assert_eq!(
        supervisor.exit_confirmed(),
        Decision::Spawn { id: ECHO, instance: 1, plan: echo_plan() }
    );
    assert_eq!(
        supervisor.spawn_finished(Err(SpawnError::Refused)),
        InteractionResult::SpawnError(SpawnError::Refused)
    );
    assert!(supervisor.is_idle());
    assert!(!supervisor.is_running(ECHO));
}

#[test]
fn signal_is_passed_on_and_changes_nothing() {
    let (mut supervisor, _receiver, _log) = running_echo();
    let decision = handle_server_command(
        ServerCommand::new(ECHO, ServerInteraction::Signal(15)),
        &mut supervisor,
    );
    assert_eq!(decision, Decision::Signal { id: ECHO, kind: 15 });
    assert!(supervisor.is_idle());
    assert!(supervisor.is_running(ECHO));
}

/// Does what a `Forward` decision asks for, as the caller of the supervisor
/// would.
fn forward(supervisor: &Supervisor, decision: Decision) -> InteractionResult {
    match decision {
        Decision::Forward { id, text } => {
            let handle = supervisor.handle(id).unwrap();
            input_result(handle.command().send(text).is_ok())
        }
        other => panic!("unexpected decision {:?}", other),
    }
}

#[test]
fn command_text_is_handed_over_as_it_is() {
    let (mut supervisor, _receiver, _log) = running_echo();
    let decision = handle_server_command(
        ServerCommand::new(ECHO, ServerInteraction::Command("say hi\n".to_string())),
        &mut supervisor,
    );
    assert_eq!(decision, Decision::Forward { id: ECHO, text: "say hi\n".to_string() });
    assert!(supervisor.is_idle());
    assert!(supervisor.is_running(ECHO));
}

#[test]
fn command_text_reaches_the_input_channel() {
    let (mut supervisor, mut receiver, _log) = running_echo();
    let decision = handle_server_command(
        ServerCommand::new(ECHO, ServerInteraction::Command("say hi\n".to_string())),
        &mut supervisor,
    );
    assert_eq!(forward(&supervisor, decision), InteractionResult::Success);
    assert_eq!(receiver.try_recv().ok(), Some("say hi\n".to_string()));
    assert!(receiver.try_recv().is_err());
}

#[test]
fn command_text_for_a_closed_channel_is_reported() {
    let (mut supervisor, receiver, _log) = running_echo();
    drop(receiver);
    let decision = handle_server_command(
        ServerCommand::new(ECHO, ServerInteraction::Command("say hi\n".to_string())),
        &mut supervisor,
    );
    assert_eq!(forward(&supervisor, decision), InteractionResult::ChannelClosed);
    assert!(supervisor.is_running(ECHO));
}

#[test]
fn input_result_tells_delivery_from_a_closed_channel() {
    assert_eq!(input_result(true), InteractionResult::Success);
    assert_eq!(input_result(false), InteractionResult::ChannelClosed);
}

#[test]
fn signal_result_tells_delivery_from_a_process_that_is_gone() {
    assert_eq!(signal_result(true), InteractionResult::Success);
    assert_eq!(signal_result(false), InteractionResult::NotRunning);
}

#[test]
fn registry_hands_out_the_handle_that_was_reported() {
    let mut supervisor = supervisor_with_echo();
    start(&mut supervisor, ECHO);
    let (handle, mut receiver, log) = handle_for(ECHO);
    assert_eq!(supervisor.spawn_finished(Ok(handle)), InteractionResult::Success);
    let stored = supervisor.handle(ECHO).unwrap();
    assert!(Arc::ptr_eq(stored.log(), &log));
    assert!(stored.command().send("ping\n".to_string()).is_ok());
    assert_eq!(receiver.try_recv().ok(), Some("ping\n".to_string()));
    // A second start changes nothing about the entry.
    assert_eq!(start(&mut supervisor, ECHO), Decision::Reply(InteractionResult::AlreadyRunning));
    assert!(Arc::ptr_eq(supervisor.handle(ECHO).unwrap().log(), &log));
}

#[test]
fn start_with_an_unusable_command_line_fails_at_once() {
    let mut supervisor = Supervisor::new();
    supervisor.register(ServerInfo::new(1, "empty".to_string(), "   ".to_string()));
    supervisor.register(ServerInfo::new(2, "quote".to_string(), "echo 'oops".to_string()));
    assert_eq!(
        start(&mut supervisor, 1),
        Decision::Reply(InteractionResult::SpawnError(SpawnError::EmptyCommand))
    );
    assert!(supervisor.is_idle());
    assert_eq!(
        start(&mut supervisor, 2),
        Decision::Reply(InteractionResult::SpawnError(SpawnError::MissingClosingQuote))
    );
    assert!(supervisor.is_idle());
    assert!(!supervisor.is_running(1));
    assert!(!supervisor.is_running(2));
}

#[test]
fn failed_spawn_is_passed_on_and_enters_nothing() {
    let mut supervisor = supervisor_with_echo();
    start(&mut supervisor, ECHO);
    assert_eq!(
        supervisor.spawn_finished(Err(SpawnError::Refused)),
        InteractionResult::SpawnError(SpawnError::Refused)
    );
    assert!(supervisor.is_idle());
    assert!(!supervisor.is_running(ECHO));
    // A failure does not touch other servers or later attempts.
    assert_eq!(
        start(&mut supervisor, ECHO),
        Decision::Spawn { id: ECHO, instance: 1, plan: echo_plan() }
    );
}

#[test]
fn handle_of_another_server_is_refused() {
    let mut supervisor = supervisor_with_echo();
    start(&mut supervisor, ECHO);
    let (handle, _receiver, _log) = handle_for(OTHER);
    assert_eq!(
        supervisor.spawn_finished(Ok(handle)),
        InteractionResult::SpawnError(SpawnError::Refused)
    );
    assert!(supervisor.is_idle());
    assert!(!supervisor.is_running(ECHO));
    assert!(!supervisor.is_running(OTHER));
}

#[test]
fn reports_that_nothing_asked_for_change_nothing() {
    let (mut supervisor, _receiver, _log) = running_echo();
    let (handle, _second_receiver, _second_log) = handle_for(ECHO);
    assert_eq!(
        supervisor.spawn_finished(Ok(handle)),
        InteractionResult::SpawnError(SpawnError::Refused)
    );
    assert_eq!(supervisor.exit_confirmed(), Decision::Reply(InteractionResult::NotRunning));
    assert!(supervisor.is_idle());
    assert!(supervisor.is_running(ECHO));
}

#[test]
fn child_that_ends_by_itself_leaves_the_registry() {
    let (mut supervisor, _receiver, _log) = running_echo();
    assert_eq!(supervisor.instance(ECHO), Some(0));
    assert!(supervisor.child_exited(ECHO, 0));
    assert!(!supervisor.is_running(ECHO));
    assert_eq!(supervisor.instance(ECHO), None);
    assert!(!supervisor.child_exited(ECHO, 0));
    assert_eq!(
        start(&mut supervisor, ECHO),
        Decision::Spawn { id: ECHO, instance: 1, plan: echo_plan() }
    );
}

#[test]
fn servers_do_not_affect_each_other() {
    let mut supervisor = supervisor_with_echo();
    supervisor.register(ServerInfo::new(OTHER, "other".to_string(), "sleep 100".to_string()));
    start(&mut supervisor, ECHO);
    let (handle, _receiver, _log) = handle_for(ECHO);
    supervisor.spawn_finished(Ok(handle));
    let decision = start(&mut supervisor, OTHER);
    assert_eq!(
        decision,
        Decision::Spawn {
            id: OTHER,
            instance: 1,
            plan: LaunchPlan { program: "sleep".to_string(), args: vec!["100".to_string()] }
        }
    );
    let (other, _other_receiver, _other_log) = handle_for(OTHER);
    assert_eq!(supervisor.spawn_finished(Ok(other)), InteractionResult::Success);
    assert!(supervisor.is_running(ECHO));
    assert!(supervisor.is_running(OTHER));
    assert!(!supervisor.child_exited(ECHO, 1));
    assert!(!supervisor.child_exited(OTHER, 0));
    assert!(supervisor.child_exited(ECHO, 0));
    assert!(supervisor.is_running(OTHER));
}

#[test]
fn handle_reads_the_shared_log() {
    let (handle, _receiver, log) = handle_for(ECHO);
    assert!(Arc::ptr_eq(handle.log(), &log));
    assert_eq!(handle.log().lock().snapshot(), "");
    log.lock().append("hello\n");
    assert_eq!(handle.log().lock().snapshot(), "hello\n");
    assert_eq!(handle.id, ECHO);
    assert_eq!(handle.id(), ECHO);
}

#[test]
fn handle_hands_out_senders_for_its_channel() {
    let (handle, mut receiver, _log) = handle_for(ECHO);
    let sender = handle.command();
    assert!(sender.send("first\n".to_string()).is_ok());
    let again = handle.command();
    assert!(again.send("second\n".to_string()).is_ok());
    assert_eq!(receiver.try_recv().ok(), Some("first\n".to_string()));
    assert_eq!(receiver.try_recv().ok(), Some("second\n".to_string()));
}

#[test]
fn echo_hello_ends_up_in_the_log_and_the_entry_goes_with_the_process() {
    // The supervisor decides to spawn `echo hello`.
    let mut supervisor = supervisor_with_echo();
    let decision = start(&mut supervisor, ECHO);
    assert_eq!(decision, Decision::Spawn { id: ECHO, instance: 0, plan: echo_plan() });
    let (handle, _receiver, log) = handle_for(ECHO);
    assert_eq!(supervisor.spawn_finished(Ok(handle)), InteractionResult::Success);
    // The runner pumps what the child writes into the shared log.
    let mut pump = OutputPump::new();
    pump.on_read(Stream::Stdout, ReadOutcome::Line("hello\n".to_string()), &mut log.lock());
    pump.on_read(Stream::Stdout, ReadOutcome::Eof, &mut log.lock());
    pump.on_read(Stream::Stderr, ReadOutcome::Eof, &mut log.lock());
    assert!(pump.finished());
    assert_eq!(supervisor.handle(ECHO).unwrap().log().lock().snapshot(), "hello\n");
    // The child has ended: its entry leaves the registry.
    assert!(supervisor.child_exited(ECHO, 0));
    assert!(!supervisor.is_running(ECHO));
}

#[test]
fn late_notice_of_an_earlier_instance_changes_nothing() {
    let (mut supervisor, _receiver, _log) = running_echo();
    // The first instance is stopped and a second one started.
    handle_server_command(ServerCommand::new(ECHO, ServerInteraction::Stop), &mut supervisor);
    assert_eq!(supervisor.exit_confirmed(), Decision::Reply(InteractionResult::Success));
    assert_eq!(
        start(&mut supervisor, ECHO),
        Decision::Spawn { id: ECHO, instance: 1, plan: echo_plan() }
    );
    let (handle, _second_receiver, _second_log) = handle_for(ECHO);
    assert_eq!(supervisor.spawn_finished(Ok(handle)), InteractionResult::Success);
    // Only now the notice of the end of the first instance arrives.
    assert!(!supervisor.child_exited(ECHO, 0));
    assert!(supervisor.is_running(ECHO));
    assert_eq!(supervisor.instance(ECHO), Some(1));
    assert!(supervisor.child_exited(ECHO, 1));
    assert!(!supervisor.is_running(ECHO));
}
