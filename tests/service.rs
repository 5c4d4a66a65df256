use supervisor::event::ProcessError;
use supervisor::event::Reason;
use supervisor::protocol::WorkerMessage;
use supervisor::service::{
    FeService, ProcessRequest, ReloadStatus, ServiceAction, ServiceOperationError, ServiceStatus, SlotState,
    StartStatus,
};

fn running(name: &str, pids: &[i32]) -> FeService {
    let (mut s, acts) = FeService::start(name.to_string(), pids.len());
    let forks: Vec<ServiceAction> = (0..pids.len()).map(ServiceAction::Fork).collect();
    assert_eq!(acts, forks);
    for (i, pid) in pids.iter().enumerate() {
        assert!(s.forked(i, *pid).is_empty());
    }
    for (i, pid) in pids.iter().enumerate() {
        s.process_loaded(i, *pid);
    }
    assert_eq!(s.status(), ServiceStatus::Running);
    s
}

#[test]
fn happy_start_two_workers() {
    let (mut s, acts) = FeService::start("web".to_string(), 2);
    assert_eq!(acts, vec![ServiceAction::Fork(0), ServiceAction::Fork(1)]);
    assert_eq!(s.status(), ServiceStatus::Starting);
    s.forked(0, 100);
    s.forked(1, 101);
    assert_eq!(s.process_loaded(0, 100), vec![ServiceAction::Process(0, ProcessRequest::Start)]);
    assert_eq!(s.status(), ServiceStatus::Starting);
    assert_eq!(
        s.process_loaded(1, 101),
        vec![ServiceAction::Process(1, ProcessRequest::Start), ServiceAction::StartDone(StartStatus::Success)]
    );
    assert_eq!(s.status(), ServiceStatus::Running);
    assert_eq!(s.pids(), vec!["100".to_string(), "101".to_string()]);
}

#[test]
fn empty_service_is_running_at_once() {
    let (s, acts) = FeService::start("none".to_string(), 0);
    assert_eq!(acts, vec![ServiceAction::StartDone(StartStatus::Success)]);
    assert_eq!(s.status(), ServiceStatus::Running);
}

#[test]
fn loaded_from_stale_pid_is_ignored() {
    let (mut s, _) = FeService::start("web".to_string(), 1);
    s.forked(0, 100);
    assert!(s.process_loaded(0, 999).is_empty());
    assert!(s.process_loaded(5, 100).is_empty());
    assert_eq!(s.slots[0].state, SlotState::Starting);
}

#[test]
fn reserved_exit_code_fails_slot() {
    let mut s = running("web", &[100]);
    let acts = s.exited(100, &ProcessError::from(99));
    assert!(acts.is_empty());
    assert_eq!(s.slots[0].state, SlotState::Failed);
    assert_eq!(s.slots[0].pid, -1);
    assert_eq!(s.status(), ServiceStatus::Failed);
}

#[test]
fn crash_restarts_slot() {
    let mut s = running("web", &[100, 101]);
    assert_eq!(s.exited(101, &ProcessError::ExitCode(1)), vec![ServiceAction::Fork(1)]);
    assert_eq!(s.slots[1].state, SlotState::Starting);
    assert_eq!(s.status(), ServiceStatus::Running);
    assert!(s.exited(555, &ProcessError::ExitCode(1)).is_empty());
}

#[test]
fn heartbeat_miss_quits_then_restarts() {
    let mut s = running("web", &[100]);
    assert_eq!(
        s.process_failed(0, 100, &ProcessError::Heartbeat),
        vec![ServiceAction::Process(0, ProcessRequest::Quit(false))]
    );
    assert_eq!(s.exited(100, &ProcessError::Signal(9)), vec![ServiceAction::Fork(0)]);
    s.forked(0, 102);
    s.process_loaded(0, 102);
    assert_eq!(s.slots[0].state, SlotState::Running);
}

#[test]
fn config_error_fails_start() {
    let (mut s, _) = FeService::start("web".to_string(), 2);
    s.forked(0, 100);
    s.forked(1, 101);
    let acts = s.process_failed(0, 100, &ProcessError::ConfigError("bad".to_string()));
    assert_eq!(acts, vec![ServiceAction::StartDone(StartStatus::Failed)]);
    assert_eq!(s.status(), ServiceStatus::Failed);
    // the worker dies afterwards; the slot stays failed
    assert!(s.exited(100, &ProcessError::ExitCode(1)).is_empty());
    assert_eq!(s.slots[0].state, SlotState::Failed);
}

#[test]
fn fork_failure_fails_slot() {
    let (mut s, _) = FeService::start("web".to_string(), 1);
    assert_eq!(s.forked(0, -1), vec![ServiceAction::StartDone(StartStatus::Failed)]);
    assert_eq!(s.status(), ServiceStatus::Failed);
}

#[test]
fn start_while_starting_joins_and_while_running_succeeds() {
    let (mut s, _) = FeService::start("web".to_string(), 1);
    assert_eq!(s.start_service(), Ok(vec![]));
    s.forked(0, 100);
    s.process_loaded(0, 100);
    assert_eq!(s.start_service(), Ok(vec![ServiceAction::StartDone(StartStatus::Success)]));
}

#[test]
fn graceful_stop_and_restart() {
    let mut s = running("web", &[100, 101]);
    let acts = s.stop(true, Reason::ConsoleRequest).unwrap();
    assert_eq!(
        acts,
        vec![ServiceAction::Process(0, ProcessRequest::Stop), ServiceAction::Process(1, ProcessRequest::Stop)]
    );
    assert_eq!(s.status(), ServiceStatus::Stopping);
    assert_eq!(s.stop(true, Reason::Exit), Ok(vec![]));
    assert!(s.exited(100, &ProcessError::ExitCode(0)).is_empty());
    assert!(!s.is_stopped());
    assert_eq!(s.exited(101, &ProcessError::ExitCode(0)), vec![ServiceAction::StopDone]);
    assert_eq!(s.status(), ServiceStatus::Stopped);
    assert!(s.is_stopped());
    assert_eq!(s.stop(true, Reason::Exit), Err(ServiceOperationError::Stopped));
    assert_eq!(s.start_service(), Ok(vec![ServiceAction::Fork(0), ServiceAction::Fork(1)]));
    assert_eq!(s.status(), ServiceStatus::Starting);
}

#[test]
fn hard_stop_quits_workers() {
    let mut s = running("web", &[100]);
    let acts = s.stop(false, Reason::Exit).unwrap();
    assert_eq!(acts, vec![ServiceAction::Process(0, ProcessRequest::Quit(false))]);
}

#[test]
fn stop_while_starting_resolves_start() {
    let (mut s, _) = FeService::start("web".to_string(), 1);
    s.forked(0, 100);
    let acts = s.stop(true, Reason::Exit).unwrap();
    assert_eq!(
        acts,
        vec![ServiceAction::StartDone(StartStatus::Stopping), ServiceAction::Process(0, ProcessRequest::Stop)]
    );
}

#[test]
fn reload_replaces_workers() {
    let mut s = running("web", &[100]);
    assert_eq!(s.reload(true), Ok(vec![ServiceAction::Process(0, ProcessRequest::Stop)]));
    assert_eq!(s.status(), ServiceStatus::Reloading);
    assert_eq!(s.reload(true), Ok(vec![]));
    assert_eq!(s.exited(100, &ProcessError::ExitCode(0)), vec![ServiceAction::Fork(0)]);
    s.forked(0, 200);
    assert_eq!(
        s.process_loaded(0, 200),
        vec![ServiceAction::Process(0, ProcessRequest::Start), ServiceAction::ReloadDone(ReloadStatus::Success)]
    );
    assert_eq!(s.status(), ServiceStatus::Running);
}

#[test]
fn stop_during_reload_fails_reload() {
    let mut s = running("web", &[100]);
    s.reload(false).unwrap();
    let acts = s.stop(true, Reason::Exit).unwrap();
    assert_eq!(
        acts,
        vec![ServiceAction::ReloadDone(ReloadStatus::Failed), ServiceAction::Process(0, ProcessRequest::Stop)]
    );
}

#[test]
fn reload_refused_when_not_running() {
    let (mut s, _) = FeService::start("web".to_string(), 1);
    assert_eq!(s.reload(true), Err(ServiceOperationError::Starting));
}

#[test]
fn pause_and_resume_pass_through() {
    let s = running("web", &[100, 101]);
    assert_eq!(
        s.pause(),
        vec![ServiceAction::Process(0, ProcessRequest::Pause), ServiceAction::Process(1, ProcessRequest::Pause)]
    );
    assert_eq!(
        s.resume(),
        vec![ServiceAction::Process(0, ProcessRequest::Resume), ServiceAction::Process(1, ProcessRequest::Resume)]
    );
    assert_eq!(s.status(), ServiceStatus::Running);
}

#[test]
fn worker_reload_request_relaunches_its_slot() {
    let mut s = running("web", &[100, 101]);
    assert_eq!(
        s.process_message(1, 101, &WorkerMessage::Reload),
        vec![ServiceAction::Process(1, ProcessRequest::Stop)]
    );
    assert_eq!(s.slots[1].state, SlotState::Stopping);
    assert_eq!(s.exited(101, &ProcessError::ExitCode(0)), vec![ServiceAction::Fork(1)]);
    let acts = s.process_message(0, 100, &WorkerMessage::Restart);
    assert_eq!(acts, vec![ServiceAction::Process(0, ProcessRequest::Stop)]);
    assert_eq!(s.status(), ServiceStatus::Reloading);
}

#[test]
fn worker_reaped_in_stopped_service_is_not_restarted() {
    let mut s = running("web", &[100]);
    s.stop(true, Reason::Exit).unwrap();
    s.exited(100, &ProcessError::ExitCode(0));
    assert_eq!(s.status(), ServiceStatus::Stopped);
    // a worker forked for the slot after the stop is quit and, once reaped,
    // leaves the slot empty
    s.slots[0].state = SlotState::Idle;
    assert_eq!(s.forked(0, 300), vec![ServiceAction::Process(0, ProcessRequest::Quit(false))]);
    assert!(s.exited(300, &ProcessError::Signal(9)).is_empty());
    assert_eq!(s.slots[0].state, SlotState::Idle);
    assert_eq!(s.status(), ServiceStatus::Stopped);
}
