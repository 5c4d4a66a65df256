use vstd::prelude::*;
use crate::event::ProcessError;
use crate::codec::CodecError;
use crate::protocol::{WorkerCommand, WorkerMessage};

verus! {

/// Seconds between two heartbeats sent to a running worker.
pub const HEARTBEAT: u64 = 2;

/// Seconds that a worker asked to quit gets before it is killed.
pub const KILL_GRACE: u64 = 1;

/// What the supervisor needs of a service's configuration.
#[derive(Debug, Clone)]
pub struct ServiceConfig {
    pub name: String,
    /// Number of workers.
    pub num: usize,
    /// Seconds without a heartbeat after which a worker counts as hung.
    pub timeout: u32,
    /// Seconds a worker may take to load.
    pub startup_timeout: u32,
    /// Seconds a worker may take to stop.
    pub shutdown_timeout: u32,
    /// Program of the worker and its arguments.
    pub command: String,
    pub args: Vec<String>,
}

#[derive(Debug, Clone, Copy, PartialEq, Eq, Structural)]
pub enum ProcessState {
    Starting,
    Failed,
    Running,
    Stopping,
}

/// An event delivered to a process supervisor: a message from its worker or
/// one of its timers firing.
#[derive(Debug, Clone)]
pub enum ProcessMessage {
    Message(WorkerMessage),
    StartupTimeout,
    StopTimeout,
    Heartbeat,
    Kill,
}

/// A signal sent to a worker.
#[derive(Debug, Clone, Copy, PartialEq, Eq, Structural)]
pub enum Sig {
    Term,
    Quit,
    Kill,
}

/// What a supervisor reports to its service.
#[derive(Debug, Clone)]
pub enum ServiceEvent {
    ProcessLoaded(usize, i32),
    ProcessFailed(usize, i32, ProcessError),
    ProcessMessage(usize, i32, WorkerMessage),
}

/// What a supervisor asks its runtime to do.
#[derive(Debug, Clone)]
pub enum Action {
    /// Write a command to the worker's pipe.
    Send(WorkerCommand),
    /// Report to the owning service.
    Notify(ServiceEvent),
    /// Signal the worker.
    Signal(Sig),
    /// Deliver the event to this supervisor after the given seconds.
    Arm(ProcessMessage, u64),
    /// End the supervisor; ending it kills the worker.
    Terminate,
}

/// The supervisor of one worker.
#[derive(Debug)]
pub struct Process {
    /// Slot of the worker within its service.
    pub idx: usize,
    pub pid: i32,
    pub state: ProcessState,
    /// Time of the last heartbeat, in milliseconds.
    pub hb: u64,
    /// Heartbeat timeout, in milliseconds.
    pub timeout: u64,
    /// Startup timeout, in seconds.
    pub startup_timeout: u64,
    /// Shutdown timeout, in seconds.
    pub shutdown_timeout: u64,
    /// Whether this incarnation has already been reported failed while
    /// starting; it is then never reported loaded.
    pub failure_reported: bool,
}

/// Send a command to the worker.
pub struct SendCommand(pub WorkerCommand);

/// Tell a loaded worker to start serving.
pub struct StartProcess;

/// Tell the worker to pause.
pub struct PauseProcess;

/// Tell the worker to resume.
pub struct ResumeProcess;

/// Stop the worker, gracefully where it runs.
pub struct StopProcess;

/// Quit the worker: with `true`, after a grace period; else at once.
pub struct QuitProcess(pub bool);

/// Whether the heartbeat of a running worker is overdue at `now`.
pub open spec fn heartbeat_missed(p: Process, now: u64) -> bool {
    now > p.hb && now - p.hb > p.timeout
}

/// The actions that end a supervisor at once.
pub open spec fn hard_kill() -> Seq<Action> {
    seq![Action::Signal(Sig::Kill), Action::Terminate]
}

/// How a supervisor in `p` handles `msg` arriving at `now`: its next record
/// and the actions it asks for.
pub open spec fn transition(p: Process, msg: ProcessMessage, now: u64) -> (Process, Seq<Action>) {
    match msg {
        ProcessMessage::Message(m) => match m {
            WorkerMessage::Forked => (p, seq![Action::Send(WorkerCommand::Prepare)]),
            WorkerMessage::Loaded => if p.state == ProcessState::Starting && !p.failure_reported {
                (
                    Process { state: ProcessState::Running, hb: now, ..p },
                    seq![
                        Action::Notify(ServiceEvent::ProcessLoaded(p.idx, p.pid)),
                        Action::Arm(ProcessMessage::Heartbeat, HEARTBEAT),
                    ],
                )
            } else {
                (p, seq![])
            },
            WorkerMessage::Hb => (Process { hb: now, ..p }, seq![]),
            WorkerMessage::Reload => (
                p,
                seq![Action::Notify(ServiceEvent::ProcessMessage(p.idx, p.pid, WorkerMessage::Reload))],
            ),
            WorkerMessage::Restart => (
                p,
                seq![Action::Notify(ServiceEvent::ProcessMessage(p.idx, p.pid, WorkerMessage::Restart))],
            ),
            WorkerMessage::CfgError(s) => (
                Process { failure_reported: true, ..p },
                seq![Action::Notify(ServiceEvent::ProcessFailed(p.idx, p.pid, ProcessError::ConfigError(s)))],
            ),
        },
        ProcessMessage::StartupTimeout => if p.state == ProcessState::Starting {
            (
                Process { state: ProcessState::Failed, failure_reported: true, ..p },
                if p.failure_reported {
                    hard_kill()
                } else {
                    seq![Action::Notify(ServiceEvent::ProcessFailed(p.idx, p.pid, ProcessError::StartupTimeout))]
                        + hard_kill()
                },
            )
        } else {
            (p, seq![])
        },
        ProcessMessage::StopTimeout => if p.state == ProcessState::Stopping {
            (
                Process { state: ProcessState::Failed, ..p },
                seq![Action::Notify(ServiceEvent::ProcessFailed(p.idx, p.pid, ProcessError::StopTimeout))]
                    + hard_kill(),
            )
        } else {
            (p, seq![])
        },
        ProcessMessage::Heartbeat => if p.state != ProcessState::Running {
            (p, seq![])
        } else if heartbeat_missed(p, now) {
            (p, seq![Action::Notify(ServiceEvent::ProcessFailed(p.idx, p.pid, ProcessError::Heartbeat))])
        } else {
            (p, seq![Action::Send(WorkerCommand::Hb), Action::Arm(ProcessMessage::Heartbeat, HEARTBEAT)])
        },
        ProcessMessage::Kill => (p, hard_kill()),
    }
}

impl Process {
    /// Sets up the supervisor of a freshly forked worker, given the outcome
    /// of the fork: the pid of the child, or why no child was made. On
    /// failure the service hears of it and the pid is -1.
    pub fn start(idx: usize, cfg: &ServiceConfig, forked: Result<i32, String>, now: u64) -> (r: (
        i32,
        Option<Process>,
        Vec<Action>,
    ))
        ensures
            forked matches Err(e) ==> r.0 == -1 && r.1 is None && r.2@ == seq![
                Action::Notify(ServiceEvent::ProcessFailed(idx, -1i32, ProcessError::FailedToStart(Some(e)))),
            ],
            forked matches Ok(pid) ==> r.0 == pid && r.1 == Some(
                Process {
                    idx,
                    pid,
                    state: ProcessState::Starting,
                    hb: now,
                    timeout: (cfg.timeout as u64 * 1000) as u64,
                    startup_timeout: cfg.startup_timeout as u64,
                    shutdown_timeout: cfg.shutdown_timeout as u64,
                    failure_reported: false,
                },
            ) && r.2@ == seq![Action::Arm(ProcessMessage::StartupTimeout, cfg.startup_timeout as u64)],
    {
        match forked {
            Err(e) => {
                let mut acts: Vec<Action> = Vec::new();
                acts.push(
                    Action::Notify(ServiceEvent::ProcessFailed(idx, -1i32, ProcessError::FailedToStart(Some(e)))),
                );
                assert(acts@ =~= seq![
                    Action::Notify(ServiceEvent::ProcessFailed(idx, -1i32, ProcessError::FailedToStart(Some(e)))),
                ]);
                (-1, None, acts)
            },
            Ok(pid) => {
                let p = Process {
                    idx,
                    pid,
                    state: ProcessState::Starting,
                    hb: now,
                    timeout: cfg.timeout as u64 * 1000,
                    startup_timeout: cfg.startup_timeout as u64,
                    shutdown_timeout: cfg.shutdown_timeout as u64,
                    failure_reported: false,
                };
                let mut acts: Vec<Action> = Vec::new();
                acts.push(Action::Arm(ProcessMessage::StartupTimeout, p.startup_timeout));
                assert(acts@ =~= seq![Action::Arm(ProcessMessage::StartupTimeout, cfg.startup_timeout as u64)]);
                (pid, Some(p), acts)
            },
        }
    }

    /// Handles a message from the worker or a timer firing at `now`
    /// (milliseconds).
    pub fn handle(&mut self, msg: ProcessMessage, now: u64) -> (r: Vec<Action>)
        ensures
            *final(self) == transition(*old(self), msg, now).0,
            r@ == transition(*old(self), msg, now).1,
    {
        let mut acts: Vec<Action> = Vec::new();
        match msg {
            ProcessMessage::Message(m) => match m {
                WorkerMessage::Forked => {
                    acts.push(Action::Send(WorkerCommand::Prepare));
                },
                WorkerMessage::Loaded => {
                    if self.state == ProcessState::Starting && !self.failure_reported {
                        acts.push(Action::Notify(ServiceEvent::ProcessLoaded(self.idx, self.pid)));
                        self.state = ProcessState::Running;
                        self.hb = now;
                        acts.push(Action::Arm(ProcessMessage::Heartbeat, HEARTBEAT));
                    }
                },
                WorkerMessage::Hb => {
                    self.hb = now;
                },
                WorkerMessage::Reload => {
                    acts.push(
                        Action::Notify(ServiceEvent::ProcessMessage(self.idx, self.pid, WorkerMessage::Reload)),
                    );
                },
                WorkerMessage::Restart => {
                    acts.push(
                        Action::Notify(ServiceEvent::ProcessMessage(self.idx, self.pid, WorkerMessage::Restart)),
                    );
                },
                WorkerMessage::CfgError(s) => {
                    self.failure_reported = true;
                    acts.push(
                        Action::Notify(
                            ServiceEvent::ProcessFailed(self.idx, self.pid, ProcessError::ConfigError(s)),
                        ),
                    );
                },
            },
            ProcessMessage::StartupTimeout => {
                if self.state == ProcessState::Starting {
                    if !self.failure_reported {
                        acts.push(
                            Action::Notify(
                                ServiceEvent::ProcessFailed(self.idx, self.pid, ProcessError::StartupTimeout),
                            ),
                        );
                    }
                    self.state = ProcessState::Failed;
                    self.failure_reported = true;
                    acts.push(Action::Signal(Sig::Kill));
                    acts.push(Action::Terminate);
                }
            },
            ProcessMessage::StopTimeout => {
                if self.state == ProcessState::Stopping {
                    acts.push(
                        Action::Notify(ServiceEvent::ProcessFailed(self.idx, self.pid, ProcessError::StopTimeout)),
                    );
                    self.state = ProcessState::Failed;
                    acts.push(Action::Signal(Sig::Kill));
                    acts.push(Action::Terminate);
                }
            },
            ProcessMessage::Heartbeat => {
                if self.state == ProcessState::Running {
                    if now > self.hb && now - self.hb > self.timeout {
                        acts.push(
                            Action::Notify(ServiceEvent::ProcessFailed(self.idx, self.pid, ProcessError::Heartbeat)),
                        );
                    } else {
                        acts.push(Action::Send(WorkerCommand::Hb));
                        acts.push(Action::Arm(ProcessMessage::Heartbeat, HEARTBEAT));
                    }
                }
            },
            ProcessMessage::Kill => {
                acts.push(Action::Signal(Sig::Kill));
                acts.push(Action::Terminate);
            },
        }
        assert(acts@ =~= transition(*old(self), msg, now).1);
        acts
    }

    /// The actions that end this supervisor: with `graceful`, a kill after
    /// a grace period; else a kill now and the end of the supervisor.
    pub fn kill(&self, graceful: bool) -> (r: Vec<Action>)
        ensures
            graceful ==> r@ == seq![Action::Arm(ProcessMessage::Kill, KILL_GRACE)],
            !graceful ==> r@ == hard_kill(),
    {
        let mut acts: Vec<Action> = Vec::new();
        if graceful {
            acts.push(Action::Arm(ProcessMessage::Kill, KILL_GRACE));
            assert(acts@ =~= seq![Action::Arm(ProcessMessage::Kill, KILL_GRACE)]);
        } else {
            acts.push(Action::Signal(Sig::Kill));
            acts.push(Action::Terminate);
            assert(acts@ =~= hard_kill());
        }
        acts
    }

    /// The worker's pipe was closed: the worker is killed.
    pub fn finished(&self) -> (r: Vec<Action>)
        ensures
            r@ == hard_kill(),
    {
        self.kill(false)
    }

    /// The worker's pipe could not be read: the worker is killed.
    pub fn error(&self, _err: CodecError) -> (r: Vec<Action>)
        ensures
            r@ == hard_kill(),
    {
        self.kill(false)
    }

    /// What must happen whenever the supervisor goes away, for whatever
    /// reason: its worker is killed.
    pub fn teardown(&self) -> (r: Action)
        ensures
            r == Action::Signal(Sig::Kill),
    {
        Action::Signal(Sig::Kill)
    }

    /// Passes a command on to the worker.
    pub fn send_command(&self, msg: SendCommand) -> (r: Vec<Action>)
        ensures
            r@ == seq![Action::Send(msg.0)],
    {
        self.send_one(msg.0)
    }

    fn send_one(&self, c: WorkerCommand) -> (r: Vec<Action>)
        ensures
            r@ == seq![Action::Send(c)],
    {
        let mut acts: Vec<Action> = Vec::new();
        acts.push(Action::Send(c));
        assert(acts@ =~= seq![Action::Send(c)]);
        acts
    }

    /// Tells the worker to start serving.
    pub fn start_process(&self, _msg: StartProcess) -> (r: Vec<Action>)
        ensures
            r@ == seq![Action::Send(WorkerCommand::Start)],
    {
        self.send_one(WorkerCommand::Start)
    }

    /// Tells the worker to pause.
    pub fn pause_process(&self, _msg: PauseProcess) -> (r: Vec<Action>)
        ensures
            r@ == seq![Action::Send(WorkerCommand::Pause)],
    {
        self.send_one(WorkerCommand::Pause)
    }

    /// Tells the worker to resume.
    pub fn resume_process(&self, _msg: ResumeProcess) -> (r: Vec<Action>)
        ensures
            r@ == seq![Action::Send(WorkerCommand::Resume)],
    {
        self.send_one(WorkerCommand::Resume)
    }

    /// Stops the worker. A running worker is asked to stop, gets a SIGTERM
    /// and has the shutdown timeout to go; any other is sent SIGQUIT and its
    /// supervisor ends.
    pub fn stop_process(&mut self, _msg: StopProcess) -> (r: Vec<Action>)
        ensures
            old(self).state == ProcessState::Running ==> *final(self) == (Process {
                state: ProcessState::Stopping,
                ..*old(self)
            }) && r@ == seq![
                Action::Send(WorkerCommand::Stop),
                Action::Arm(ProcessMessage::StopTimeout, old(self).shutdown_timeout),
                Action::Signal(Sig::Term),
            ],
            old(self).state != ProcessState::Running ==> *final(self) == *old(self) && r@ == seq![
                Action::Signal(Sig::Quit),
                Action::Terminate,
            ],
    {
        let mut acts: Vec<Action> = Vec::new();
        if self.state == ProcessState::Running {
            acts.push(Action::Send(WorkerCommand::Stop));
            self.state = ProcessState::Stopping;
            acts.push(Action::Arm(ProcessMessage::StopTimeout, self.shutdown_timeout));
            acts.push(Action::Signal(Sig::Term));
            assert(acts@ =~= seq![
                Action::Send(WorkerCommand::Stop),
                Action::Arm(ProcessMessage::StopTimeout, old(self).shutdown_timeout),
                Action::Signal(Sig::Term),
            ]);
        } else {
            acts.push(Action::Signal(Sig::Quit));
            acts.push(Action::Terminate);
            assert(acts@ =~= seq![Action::Signal(Sig::Quit), Action::Terminate]);
        }
        acts
    }

    /// Quits the worker: gracefully with a SIGQUIT and a kill after the
    /// grace period, else with a kill now.
    pub fn quit_process(&self, msg: QuitProcess) -> (r: Vec<Action>)
        ensures
            msg.0 ==> r@ == seq![Action::Signal(Sig::Quit), Action::Arm(ProcessMessage::Kill, KILL_GRACE)],
            !msg.0 ==> r@ == hard_kill(),
    {
        if msg.0 {
            let mut acts: Vec<Action> = Vec::new();
            acts.push(Action::Signal(Sig::Quit));
            let mut rest = self.kill(true);
            acts.append(&mut rest);
            assert(acts@ =~= seq![Action::Signal(Sig::Quit), Action::Arm(ProcessMessage::Kill, KILL_GRACE)]);
            acts
        } else {
            self.kill(false)
        }
    }
}

/// Whether an action reports the worker as loaded.
pub open spec fn is_loaded(a: Action) -> bool {
    a matches Action::Notify(ServiceEvent::ProcessLoaded(_, _))
}

/// Whether an action reports the worker as failed.
pub open spec fn is_failed(a: Action) -> bool {
    a matches Action::Notify(ServiceEvent::ProcessFailed(_, _, _))
}

/// Whether the actions report the worker as loaded.
pub open spec fn reports_loaded(acts: Seq<Action>) -> bool {
    exists|i: int| 0 <= i < acts.len() && is_loaded(#[trigger] acts[i])
}

/// Whether the actions report the worker as failed.
pub open spec fn reports_failed(acts: Seq<Action>) -> bool {
    exists|i: int| 0 <= i < acts.len() && is_failed(#[trigger] acts[i])
}

/// Whether a supervisor may still report its worker loaded.
pub open spec fn can_load(p: Process) -> bool {
    p.state == ProcessState::Starting && !p.failure_reported
}

/// A supervisor that handles the events in order, each with its time:
/// its last record and all the actions it asked for.
pub open spec fn run(p: Process, events: Seq<(ProcessMessage, u64)>) -> (Process, Seq<Action>)
    decreases events.len(),
{
    if events.len() == 0 {
        (p, Seq::empty())
    } else {
        let (q, a) = transition(p, events[0].0, events[0].1);
        let (r, b) = run(q, events.drop_first());
        (r, a + b)
    }
}

proof fn lemma_step_reports(p: Process, msg: ProcessMessage, now: u64)
    ensures
        ({
            let (q, a) = transition(p, msg, now);
            &&& reports_loaded(a) ==> can_load(p) && !can_load(q) && a.len() == 2 && is_loaded(a[0])
                && !is_loaded(a[1]) && !is_failed(a[1])
            &&& reports_failed(a) ==> !can_load(q)
            &&& !can_load(p) ==> !can_load(q) && !reports_loaded(a)
        }),
{
    let (q, a) = transition(p, msg, now);
    if reports_loaded(a) {
        let i = choose|i: int| 0 <= i < a.len() && is_loaded(#[trigger] a[i]);
        match msg {
            ProcessMessage::Message(WorkerMessage::Loaded) => {},
            ProcessMessage::StartupTimeout => {
                if p.state == ProcessState::Starting && !p.failure_reported {
                    assert(a[2] == Action::Terminate);
                }
            },
            _ => {},
        }
    }
    if reports_failed(a) {
        let i = choose|i: int| 0 <= i < a.len() && is_failed(#[trigger] a[i]);
    }
}

proof fn lemma_no_load_after(p: Process, events: Seq<(ProcessMessage, u64)>)
    requires
        !can_load(p),
    ensures
        forall|k: int| 0 <= k < run(p, events).1.len() ==> !is_loaded(#[trigger] run(p, events).1[k]),
    decreases events.len(),
{
    if events.len() > 0 {
        let (q, a) = transition(p, events[0].0, events[0].1);
        lemma_step_reports(p, events[0].0, events[0].1);
        lemma_no_load_after(q, events.drop_first());
        let b = run(q, events.drop_first()).1;
        assert forall|k: int| 0 <= k < (a + b).len() implies !is_loaded(#[trigger] (a + b)[k]) by {
            if k < a.len() {
                assert(!is_loaded(a[k]));
            } else {
                assert((a + b)[k] == b[k - a.len()]);
            }
        }
    }
}

/// Over any run of events, a supervisor reports its worker loaded at most
/// once, and never after reporting it failed: a worker reported failed
/// while starting (a configuration error, the startup timeout) is never
/// also reported loaded.
pub proof fn lemma_loaded_at_most_once_never_after_failure(p: Process, events: Seq<(ProcessMessage, u64)>)
    ensures
        ({
            let acts = run(p, events).1;
            forall|i: int, j: int|
                0 <= i < j < acts.len() && is_loaded(#[trigger] acts[j]) ==> !is_loaded(#[trigger] acts[i])
                    && !is_failed(acts[i])
        }),
    decreases events.len(),
{
    if events.len() > 0 {
        let (q, a) = transition(p, events[0].0, events[0].1);
        let b = run(q, events.drop_first()).1;
        let acts = run(p, events).1;
        assert(acts == a + b);
        lemma_step_reports(p, events[0].0, events[0].1);
        lemma_loaded_at_most_once_never_after_failure(q, events.drop_first());
        assert forall|i: int, j: int|
            0 <= i < j < acts.len() && is_loaded(#[trigger] acts[j]) implies !is_loaded(#[trigger] acts[i])
                && !is_failed(acts[i]) by {
            if j < a.len() {
                assert(reports_loaded(a));
            } else if i < a.len() {
                assert(acts[j] == b[j - a.len()]);
                if is_loaded(a[i]) || is_failed(a[i]) {
                    if is_loaded(a[i]) {
                        assert(reports_loaded(a));
                    } else {
                        assert(reports_failed(a));
                    }
                    lemma_no_load_after(q, events.drop_first());
                }
            } else {
                assert(acts[j] == b[j - a.len()]);
                assert(acts[i] == b[i - a.len()]);
            }
        }
    }
}

/// A supervisor still `Starting` when its startup timer fires kills its
/// worker and ends, reporting the startup timeout unless it has already
/// reported a failure: no worker stays in `Starting` past the timer that
/// `start` arms.
pub proof fn lemma_startup_timeout_ends_starting(p: Process, now: u64)
    requires
        p.state == ProcessState::Starting,
    ensures
        transition(p, ProcessMessage::StartupTimeout, now).0.state == ProcessState::Failed,
        !p.failure_reported ==> transition(p, ProcessMessage::StartupTimeout, now).1 == seq![
            Action::Notify(ServiceEvent::ProcessFailed(p.idx, p.pid, ProcessError::StartupTimeout)),
            Action::Signal(Sig::Kill),
            Action::Terminate,
        ],
        p.failure_reported ==> transition(p, ProcessMessage::StartupTimeout, now).1 == hard_kill(),
{
    assert(!p.failure_reported ==> transition(p, ProcessMessage::StartupTimeout, now).1 =~= seq![
        Action::Notify(ServiceEvent::ProcessFailed(p.idx, p.pid, ProcessError::StartupTimeout)),
        Action::Signal(Sig::Kill),
        Action::Terminate,
    ]);
}

} // verus!
