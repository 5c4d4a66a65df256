use supervisor::cmd::{command_for_signal, CenterAction, Command, CommandCenter, CommandError, ExitStatus, Signal, State};
use supervisor::process::ServiceConfig;
use supervisor::service::{ProcessRequest, ReloadStatus, ServiceAction, ServiceStatus, StartStatus};

fn cfg(name: &str, num: usize) -> ServiceConfig {
    ServiceConfig {
        name: name.to_string(),
        num,
        timeout: 5,
        startup_timeout: 1,
        shutdown_timeout: 3,
        command: "worker".to_string(),
        args: Vec::new(),
    }
}

/// Boots a center whose services each run one worker, with pids from 100.
fn booted(names: &[&str]) -> CommandCenter {
    let mut c = CommandCenter::new();
    let cfgs: Vec<ServiceConfig> = names.iter().map(|n| cfg(n, 1)).collect();
    let acts = c.start(&cfgs);
    let forks: Vec<CenterAction> = (0..names.len()).map(|i| CenterAction::Service(i, ServiceAction::Fork(0))).collect();
    assert_eq!(acts, forks);
    for i in 0..names.len() {
        let pid = 100 + i as i32;
        c.services[i].forked(0, pid);
        c.services[i].process_loaded(0, pid);
    }
    c
}

#[test]
fn requests_before_start_are_not_ready() {
    let mut c = CommandCenter::new();
    assert_eq!(c.service_status("web"), Err(CommandError::NotReady));
    assert_eq!(c.start_service("web"), Err(CommandError::NotReady));
    assert_eq!(c.pause_service("web"), Err(CommandError::NotReady));
}

#[test]
fn unknown_service() {
    let mut c = booted(&["web"]);
    assert_eq!(c.service_status("db"), Err(CommandError::UnknownService));
    assert_eq!(c.service_worker_pids("db"), Err(CommandError::UnknownService));
    assert_eq!(c.reload_service("db", true), Err(CommandError::UnknownService));
    assert_eq!(c.resume_service("db"), Err(CommandError::UnknownService));
}

#[test]
fn happy_start_web_two_workers() {
    let mut c = CommandCenter::new();
    let acts = c.start(&vec![cfg("web", 2)]);
    assert_eq!(
        acts,
        vec![CenterAction::Service(0, ServiceAction::Fork(0)), CenterAction::Service(0, ServiceAction::Fork(1))]
    );
    assert_eq!(c.state, State::Running);
    assert_eq!(c.service_status("web"), Ok(ServiceStatus::Starting));
    c.services[0].forked(0, 10);
    c.services[0].forked(1, 11);
    c.services[0].process_loaded(0, 10);
    let acts = c.services[0].process_loaded(1, 11);
    assert_eq!(acts.last(), Some(&ServiceAction::StartDone(StartStatus::Success)));
    assert_eq!(c.service_status("web"), Ok(ServiceStatus::Running));
    assert_eq!(c.service_worker_pids("web"), Ok(vec!["10".to_string(), "11".to_string()]));
}

#[test]
fn service_operations_dispatch() {
    let mut c = booted(&["web", "db"]);
    assert_eq!(
        c.pause_service("db"),
        Ok(vec![CenterAction::Service(1, ServiceAction::Process(0, ProcessRequest::Pause))])
    );
    assert_eq!(
        c.start_service("web"),
        Ok(vec![CenterAction::Service(0, ServiceAction::StartDone(StartStatus::Success))])
    );
    assert_eq!(
        c.stop_service("web", false),
        Ok(vec![CenterAction::Service(0, ServiceAction::Process(0, ProcessRequest::Quit(false)))])
    );
    c.reaped(ExitStatus::Signaled(100, 9));
    assert_eq!(c.service_status("web"), Ok(ServiceStatus::Stopped));
    assert_eq!(
        c.stop_service("web", true),
        Err(CommandError::Service(supervisor::service::ServiceOperationError::Stopped))
    );
    assert_eq!(
        c.reload_service("web", true),
        Err(CommandError::Service(supervisor::service::ServiceOperationError::Stopped))
    );
}

#[test]
fn graceful_global_shutdown() {
    let mut c = booted(&["web", "db"]);
    c.stop();
    assert_eq!(c.next_command(), Some(Command::Stop));
    assert_eq!(c.next_command(), None);
    let acts = c.call(Command::Stop);
    assert_eq!(
        acts,
        vec![
            CenterAction::Service(0, ServiceAction::Process(0, ProcessRequest::Stop)),
            CenterAction::Service(1, ServiceAction::Process(0, ProcessRequest::Stop)),
        ]
    );
    assert_eq!(c.state, State::Stopping);
    assert_eq!(c.service_status("web"), Err(CommandError::NotReady));
    assert_eq!(c.call(Command::ReapWorkers), vec![CenterAction::Reap]);
    assert_eq!(c.reaped(ExitStatus::Exited(100, 0)), vec![CenterAction::Service(0, ServiceAction::StopDone)]);
    assert_eq!(
        c.reaped(ExitStatus::Exited(101, 0)),
        vec![
            CenterAction::Service(1, ServiceAction::StopDone),
            CenterAction::ResolveStopWaiters(1),
            CenterAction::Terminal(true),
        ]
    );
    // a second stop is a no-op and fires nothing
    assert!(c.call(Command::Quit).is_empty());
}

#[test]
fn shutdown_with_nothing_running_exits_at_once() {
    let mut c = CommandCenter::new();
    c.start(&Vec::new());
    assert_eq!(c.call(Command::Quit), vec![CenterAction::Terminal(true)]);
}

#[test]
fn terminal_fires_once() {
    let mut c = CommandCenter::new();
    assert_eq!(c.exit(true), vec![CenterAction::Terminal(true)]);
    assert!(c.exit(true).is_empty());
    assert!(c.finished().is_empty());
    assert!(c.inbox_failed().is_empty());
}

#[test]
fn inbox_failure_exits_false() {
    let mut c = CommandCenter::new();
    assert_eq!(c.inbox_failed(), vec![CenterAction::Terminal(false)]);
}

#[test]
fn sighup_reloads_all_services() {
    let mut c = booted(&["web", "db"]);
    c.enqueue(Command::Reload);
    let cmd = c.next_command().unwrap();
    let acts = c.call(cmd);
    assert_eq!(
        acts,
        vec![
            CenterAction::Service(0, ServiceAction::Process(0, ProcessRequest::Stop)),
            CenterAction::Service(1, ServiceAction::Process(0, ProcessRequest::Stop)),
        ]
    );
    assert_eq!(c.reaped(ExitStatus::Exited(100, 0)), vec![CenterAction::Service(0, ServiceAction::Fork(0))]);
    assert_eq!(c.reaped(ExitStatus::Exited(101, 0)), vec![CenterAction::Service(1, ServiceAction::Fork(0))]);
    for i in 0..2 {
        let pid = 200 + i as i32;
        c.services[i].forked(0, pid);
        let acts = c.services[i].process_loaded(0, pid);
        assert_eq!(acts.last(), Some(&ServiceAction::ReloadDone(ReloadStatus::Success)));
    }
    assert_eq!(c.service_status("web"), Ok(ServiceStatus::Running));
    assert_eq!(c.service_status("db"), Ok(ServiceStatus::Running));
}

#[test]
fn reaped_init_failure_is_not_restarted() {
    let mut c = booted(&["web"]);
    assert!(c.reaped(ExitStatus::Exited(100, 99)).is_empty());
    assert_eq!(c.service_status("web"), Ok(ServiceStatus::Failed));
}

#[test]
fn reload_all_only_when_running() {
    let mut c = CommandCenter::new();
    assert!(c.reload_all().is_empty());
}

#[test]
fn signals_map_to_commands() {
    assert_eq!(command_for_signal(Signal::Hup), Command::Reload);
    assert_eq!(command_for_signal(Signal::Term), Command::Stop);
    assert_eq!(command_for_signal(Signal::Int), Command::Quit);
    assert_eq!(command_for_signal(Signal::Quit), Command::Quit);
    assert_eq!(command_for_signal(Signal::Chld), Command::ReapWorkers);
}

#[test]
fn shutdown_exits_at_once_when_no_service_accepts() {
    let mut c = booted(&["web"]);
    c.stop_service("web", false).unwrap();
    c.reaped(ExitStatus::Signaled(100, 9));
    assert_eq!(c.service_status("web"), Ok(ServiceStatus::Stopped));
    c.stop();
    let cmd = c.next_command().unwrap();
    assert_eq!(c.call(cmd), vec![CenterAction::ResolveStopWaiters(1), CenterAction::Terminal(true)]);
    assert_eq!(c.state, State::Stopping);
}
