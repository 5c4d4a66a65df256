use supervisor::event::{ProcessError, Reason};
use supervisor::process::{
    Action, PauseProcess, Process, ProcessMessage, ProcessState, QuitProcess, ResumeProcess, SendCommand, ServiceConfig,
    ServiceEvent, Sig, StartProcess, StopProcess,
};
use supervisor::protocol::{WorkerCommand, WorkerMessage};

fn cfg(timeout: u32, startup: u32, shutdown: u32) -> ServiceConfig {
    ServiceConfig {
        name: "web".to_string(),
        num: 2,
        timeout,
        startup_timeout: startup,
        shutdown_timeout: shutdown,
        command: "worker".to_string(),
        args: Vec::new(),
    }
}

fn started(pid: i32, now: u64) -> Process {
    let (p, proc_, acts) = Process::start(3, &cfg(5, 1, 4), Ok(pid), now);
    assert_eq!(p, pid);
    assert_eq!(acts.len(), 1);
    assert!(matches!(acts[0], Action::Arm(ProcessMessage::StartupTimeout, 1)));
    proc_.unwrap()
}

fn is_kill_now(acts: &[Action]) -> bool {
    acts.len() == 2 && matches!(acts[0], Action::Signal(Sig::Kill)) && matches!(acts[1], Action::Terminate)
}

#[test]
fn start_records_the_worker() {
    let p = started(42, 1000);
    assert_eq!(p.idx, 3);
    assert_eq!(p.pid, 42);
    assert_eq!(p.state, ProcessState::Starting);
    assert_eq!(p.hb, 1000);
    assert_eq!(p.timeout, 5000);
    assert_eq!(p.startup_timeout, 1);
    assert_eq!(p.shutdown_timeout, 4);
    assert!(!p.failure_reported);
}

#[test]
fn fork_failure_reports_failed_to_start() {
    let (pid, p, acts) = Process::start(1, &cfg(5, 1, 4), Err("Resource temporarily unavailable".to_string()), 0);
    assert_eq!(pid, -1);
    assert!(p.is_none());
    assert_eq!(acts.len(), 1);
    match &acts[0] {
        Action::Notify(ServiceEvent::ProcessFailed(1, -1, ProcessError::FailedToStart(Some(m)))) => {
            assert_eq!(m, "Resource temporarily unavailable")
        },
        other => panic!("unexpected {:?}", other),
    }
}

#[test]
fn happy_start_and_heartbeat() {
    let mut p = started(42, 0);
    let acts = p.handle(ProcessMessage::Message(WorkerMessage::Forked), 10);
    assert!(matches!(acts[..], [Action::Send(WorkerCommand::Prepare)]));
    assert_eq!(p.state, ProcessState::Starting);
    let acts = p.handle(ProcessMessage::Message(WorkerMessage::Loaded), 500);
    assert!(matches!(
        acts[..],
        [Action::Notify(ServiceEvent::ProcessLoaded(3, 42)), Action::Arm(ProcessMessage::Heartbeat, 2)]
    ));
    assert_eq!(p.state, ProcessState::Running);
    assert_eq!(p.hb, 500);
    let acts = p.handle(ProcessMessage::Message(WorkerMessage::Hb), 2400);
    assert!(acts.is_empty());
    assert_eq!(p.hb, 2400);
    let acts = p.handle(ProcessMessage::Heartbeat, 2500);
    assert!(matches!(acts[..], [Action::Send(WorkerCommand::Hb), Action::Arm(ProcessMessage::Heartbeat, 2)]));
    // a late startup timer finds the worker running and does nothing
    let acts = p.handle(ProcessMessage::StartupTimeout, 2600);
    assert!(acts.is_empty());
    assert_eq!(p.state, ProcessState::Running);
}

#[test]
fn startup_timeout_fails_and_kills() {
    let mut p = started(42, 0);
    let acts = p.handle(ProcessMessage::StartupTimeout, 1000);
    assert_eq!(acts.len(), 3);
    assert!(matches!(acts[0], Action::Notify(ServiceEvent::ProcessFailed(3, 42, ProcessError::StartupTimeout))));
    assert!(is_kill_now(&acts[1..]));
    assert_eq!(p.state, ProcessState::Failed);
}

#[test]
fn heartbeat_miss_reports_and_keeps_state() {
    let mut p = started(42, 0);
    p.handle(ProcessMessage::Message(WorkerMessage::Loaded), 0);
    // timeout is 5 s: at 5000 ms the heartbeat is not overdue yet
    let acts = p.handle(ProcessMessage::Heartbeat, 5000);
    assert!(matches!(acts[..], [Action::Send(WorkerCommand::Hb), Action::Arm(ProcessMessage::Heartbeat, 2)]));
    let acts = p.handle(ProcessMessage::Heartbeat, 6000);
    assert!(matches!(acts[..], [Action::Notify(ServiceEvent::ProcessFailed(3, 42, ProcessError::Heartbeat))]));
    assert_eq!(p.state, ProcessState::Running);
}

#[test]
fn loaded_twice_is_ignored() {
    let mut p = started(42, 0);
    p.handle(ProcessMessage::Message(WorkerMessage::Loaded), 0);
    let acts = p.handle(ProcessMessage::Message(WorkerMessage::Loaded), 100);
    assert!(acts.is_empty());
    assert_eq!(p.hb, 0);
}

#[test]
fn worker_requests_are_forwarded() {
    let mut p = started(42, 0);
    let acts = p.handle(ProcessMessage::Message(WorkerMessage::Reload), 0);
    assert!(matches!(acts[..], [Action::Notify(ServiceEvent::ProcessMessage(3, 42, WorkerMessage::Reload))]));
    let acts = p.handle(ProcessMessage::Message(WorkerMessage::Restart), 0);
    assert!(matches!(acts[..], [Action::Notify(ServiceEvent::ProcessMessage(3, 42, WorkerMessage::Restart))]));
    let acts = p.handle(ProcessMessage::Message(WorkerMessage::CfgError("bad".to_string())), 0);
    match &acts[..] {
        [Action::Notify(ServiceEvent::ProcessFailed(3, 42, ProcessError::ConfigError(m)))] => assert_eq!(m, "bad"),
        other => panic!("unexpected {:?}", other),
    }
    assert_eq!(p.state, ProcessState::Starting);
}

#[test]
fn stop_running_worker_then_stop_timeout() {
    let mut p = started(42, 0);
    p.handle(ProcessMessage::Message(WorkerMessage::Loaded), 0);
    let acts = p.stop_process(StopProcess);
    assert!(matches!(
        acts[..],
        [Action::Send(WorkerCommand::Stop), Action::Arm(ProcessMessage::StopTimeout, 4), Action::Signal(Sig::Term)]
    ));
    assert_eq!(p.state, ProcessState::Stopping);
    let acts = p.handle(ProcessMessage::StopTimeout, 9000);
    assert!(matches!(acts[0], Action::Notify(ServiceEvent::ProcessFailed(3, 42, ProcessError::StopTimeout))));
    assert!(is_kill_now(&acts[1..]));
    assert_eq!(p.state, ProcessState::Failed);
}

#[test]
fn stop_starting_worker_quits() {
    let mut p = started(42, 0);
    let acts = p.stop_process(StopProcess);
    assert!(matches!(acts[..], [Action::Signal(Sig::Quit), Action::Terminate]));
    assert_eq!(p.state, ProcessState::Starting);
    // a stop timer finds the worker not stopping and does nothing
    assert!(p.handle(ProcessMessage::StopTimeout, 0).is_empty());
}

#[test]
fn quit_graceful_and_not() {
    let p = started(42, 0);
    let acts = p.quit_process(QuitProcess(true));
    assert!(matches!(acts[..], [Action::Signal(Sig::Quit), Action::Arm(ProcessMessage::Kill, 1)]));
    assert!(is_kill_now(&p.quit_process(QuitProcess(false))));
    let mut p = p;
    assert!(is_kill_now(&p.handle(ProcessMessage::Kill, 0)));
}

#[test]
fn pipe_end_and_errors_kill() {
    let p = started(42, 0);
    assert!(is_kill_now(&p.finished()));
    assert!(is_kill_now(&p.error(supervisor::codec::CodecError::InvalidMessage)));
    assert!(is_kill_now(&p.kill(false)));
    assert!(matches!(p.kill(true)[..], [Action::Arm(ProcessMessage::Kill, 1)]));
}

#[test]
fn teardown_always_kills() {
    let p = started(42, 0);
    assert!(matches!(p.teardown(), Action::Signal(Sig::Kill)));
}

#[test]
fn parent_commands_are_sent() {
    let p = started(42, 0);
    assert!(matches!(p.start_process(StartProcess)[..], [Action::Send(WorkerCommand::Start)]));
    assert!(matches!(p.pause_process(PauseProcess)[..], [Action::Send(WorkerCommand::Pause)]));
    assert!(matches!(p.resume_process(ResumeProcess)[..], [Action::Send(WorkerCommand::Resume)]));
    assert!(matches!(p.send_command(SendCommand(WorkerCommand::Hb))[..], [Action::Send(WorkerCommand::Hb)]));
}

#[test]
fn reserved_exit_codes() {
    assert!(matches!(ProcessError::from(98), ProcessError::StartupTimeout));
    assert!(matches!(ProcessError::from(99), ProcessError::InitFailed));
    assert!(matches!(ProcessError::from(100), ProcessError::BootFailed));
    assert!(matches!(ProcessError::from(0), ProcessError::ExitCode(0)));
    assert!(matches!(ProcessError::from(101), ProcessError::ExitCode(101)));
    assert!(matches!(ProcessError::from(-1), ProcessError::ExitCode(-1)));
}

#[test]
fn reasons_from_errors() {
    assert!(matches!(Reason::from(&ProcessError::Heartbeat), Reason::HeartbeatFailed));
    assert!(matches!(Reason::from(&ProcessError::Signal(9)), Reason::Signal(9)));
    assert!(matches!(Reason::from(&ProcessError::ExitCode(3)), Reason::ExitCode(3)));
    assert!(matches!(Reason::from(&ProcessError::FailedToStart(None)), Reason::FailedToStart(None)));
    match Reason::from(&ProcessError::ConfigError("x".to_string())) {
        Reason::WorkerError(m) => assert_eq!(m, "x"),
        other => panic!("unexpected {:?}", other),
    }
    match Reason::from(&ProcessError::FailedToStart(Some("e".to_string()))) {
        Reason::FailedToStart(Some(m)) => assert_eq!(m, "e"),
        other => panic!("unexpected {:?}", other),
    }
}

#[test]
fn loaded_after_cfgerror_is_not_reported() {
    let mut p = started(42, 0);
    let acts = p.handle(ProcessMessage::Message(WorkerMessage::CfgError("bad".to_string())), 0);
    assert_eq!(acts.len(), 1);
    assert!(p.failure_reported);
    let acts = p.handle(ProcessMessage::Message(WorkerMessage::Loaded), 10);
    assert!(acts.is_empty());
    assert_eq!(p.state, ProcessState::Starting);
    // the startup timer still kills the worker, without a second report
    let acts = p.handle(ProcessMessage::StartupTimeout, 1000);
    assert!(is_kill_now(&acts));
    assert_eq!(p.state, ProcessState::Failed);
}
