use vstd::prelude::*;
use crate::event::{exit_code_error, ProcessError, Reason};
use crate::process::ServiceConfig;
use crate::service::{
    acts_view, exited_post, stop_result, fork_all, fresh_slots, live_pids, reload_post, start_service_post, stop_post,
    fan_out, FeService, ProcessRequest, ServiceAction, ServiceOperationError, ServiceStatus, StartStatus,
};
use vstd::string::to_string_from_display_ensures;

verus! {

/// Command center errors
#[derive(Debug, Clone, Copy, PartialEq, Eq, Structural)]
pub enum CommandError {
    /// command center is not in Running state
    NotReady,
    /// service is not known
    UnknownService,
    /// service is stopped
    ServiceStopped,
    /// underlying service error
    Service(ServiceOperationError),
}

#[derive(Debug, Clone, Copy, PartialEq, Eq, Structural)]
pub enum State {
    Starting,
    Running,
    Stopping,
}

/// What the command center's inbox carries.
#[derive(Debug, Clone, Copy, PartialEq, Eq, Structural)]
pub enum Command {
    Stop,
    Quit,
    Reload,
    ReapWorkers,
}

/// A signal that the center subscribes to.
#[derive(Debug, Clone, Copy, PartialEq, Eq, Structural)]
pub enum Signal {
    Hup,
    Term,
    Int,
    Quit,
    Chld,
}

/// How a reaped worker ended, as `waitpid` reports it.
#[derive(Debug, Clone, Copy, PartialEq, Eq, Structural)]
pub enum ExitStatus {
    Exited(i32, i8),
    Signaled(i32, usize),
}

/// What the command center asks its runtime to do.
#[derive(Debug, Clone, Copy, PartialEq, Eq, Structural)]
pub enum CenterAction {
    /// An action of the service at this index.
    Service(usize, ServiceAction),
    /// Collect every exited child and hand each to `reaped`.
    Reap,
    /// Resolve this many stop waiters with `true`.
    ResolveStopWaiters(usize),
    /// Fire the terminal notifier.
    Terminal(bool),
}

/// The root controller: owns the services and runs the global lifecycle.
#[derive(Debug)]
pub struct CommandCenter {
    pub state: State,
    pub services: Vec<FeService>,
    /// Whether the terminal notifier has yet to fire.
    pub stop_pending: bool,
    /// Number of callers waiting for the center to stop.
    pub stop_waiters: usize,
    /// Commands not handled yet, oldest first.
    pub inbox: Vec<Command>,
}

/// The first of the first `n` services named `name`.
pub open spec fn find_service(services: Seq<FeService>, name: Seq<char>, n: int) -> Option<int>
    decreases n,
{
    if n <= 0 {
        None
    } else {
        match find_service(services, name, n - 1) {
            Some(i) => Some(i),
            None => if services[n - 1].name@ == name {
                Some(n - 1)
            } else {
                None
            },
        }
    }
}

/// The service that a request names, or why the request is refused.
pub open spec fn gate(c: CommandCenter, name: Seq<char>) -> Result<int, CommandError> {
    if c.state != State::Running {
        Err(CommandError::NotReady)
    } else {
        match find_service(c.services@, name, c.services@.len() as int) {
            Some(i) => Ok(i),
            None => Err(CommandError::UnknownService),
        }
    }
}

/// A service's actions, addressed to it.
pub open spec fn lift(i: int, acts: Seq<ServiceAction>) -> Seq<CenterAction> {
    acts.map_values(|a: ServiceAction| CenterAction::Service(i as usize, a))
}

/// The actions of the terminal exit, and the waiters and notifier it uses
/// up.
pub open spec fn exit_actions(c: CommandCenter, success: bool) -> Seq<CenterAction> {
    (if c.stop_waiters > 0 {
        seq![CenterAction::ResolveStopWaiters(c.stop_waiters)]
    } else {
        Seq::empty()
    }) + (if c.stop_pending {
        seq![CenterAction::Terminal(success)]
    } else {
        Seq::empty()
    })
}

/// Whether every service has come to rest.
pub open spec fn all_stopped(services: Seq<FeService>) -> bool {
    forall|i: int| 0 <= i < services.len() ==> (#[trigger] services[i]).spec_is_stopped()
}

/// The error a reaped worker reports.
pub open spec fn status_error(s: ExitStatus) -> ProcessError {
    match s {
        ExitStatus::Exited(_, code) => exit_code_error(code),
        ExitStatus::Signaled(_, sig) => ProcessError::Signal(sig),
    }
}

pub open spec fn status_pid(s: ExitStatus) -> i32 {
    match s {
        ExitStatus::Exited(pid, _) => pid,
        ExitStatus::Signaled(pid, _) => pid,
    }
}

/// Whether the actions fire the terminal notifier.
pub open spec fn fires_terminal(acts: Seq<CenterAction>) -> bool {
    exists|i: int| 0 <= i < acts.len() && (#[trigger] acts[i] is Terminal)
}

proof fn lemma_find_service_stays(services: Seq<FeService>, name: Seq<char>, n: int, m: int)
    requires
        find_service(services, name, n) is Some,
        n <= m,
    ensures
        find_service(services, name, m) == find_service(services, name, n),
    decreases m - n,
{
    if n < m {
        lemma_find_service_stays(services, name, n, m - 1);
    }
}

/// Appends a service's actions, addressed to it.
fn push_lifted(i: usize, src: &Vec<ServiceAction>, acts: &mut Vec<CenterAction>)
    ensures
        final(acts)@ == old(acts)@ + lift(i as int, src@),
{
    let ghost acts0 = acts@;
    let mut k: usize = 0;
    while k < src.len()
        invariant
            k <= src@.len(),
            acts@ == acts0 + lift(i as int, src@.subrange(0, k as int)),
        decreases src@.len() - k,
    {
        acts.push(CenterAction::Service(i, src[k]));
        k = k + 1;
        assert(acts@ =~= acts0 + lift(i as int, src@.subrange(0, k as int)));
    }
    assert(src@.subrange(0, src@.len() as int) =~= src@);
}

/// What a service does first when the center boots it.
pub open spec fn service_boot(num: usize) -> Seq<ServiceAction> {
    if num > 0 {
        fork_all(num as int)
    } else {
        seq![ServiceAction::StartDone(StartStatus::Success)]
    }
}

/// The actions of booting the first `n` configured services.
pub open spec fn boot_actions(cfg: Seq<ServiceConfig>, n: int) -> Seq<CenterAction>
    decreases n,
{
    if n <= 0 {
        Seq::empty()
    } else {
        boot_actions(cfg, n - 1) + lift(n - 1, service_boot(cfg[n - 1].num))
    }
}

/// The actions of the first `n` services' results, in service order; a
/// refusal adds none.
pub open spec fn gather(rs: Seq<Result<Seq<ServiceAction>, ServiceOperationError>>, n: int) -> Seq<CenterAction>
    decreases n,
{
    if n <= 0 {
        Seq::empty()
    } else {
        gather(rs, n - 1) + match rs[n - 1] {
            Ok(a) => lift(n - 1, a),
            Err(_) => Seq::empty(),
        }
    }
}

/// The actions of the first `n` services' answers to a reaped worker.
pub open spec fn gather_all(rs: Seq<Seq<ServiceAction>>, n: int) -> Seq<CenterAction>
    decreases n,
{
    if n <= 0 {
        Seq::empty()
    } else {
        gather_all(rs, n - 1) + lift(n - 1, rs[n - 1])
    }
}

/// The center's own fields, apart from its services, are as before.
pub open spec fn same_center(a: CommandCenter, b: CommandCenter) -> bool {
    &&& a.state == b.state
    &&& a.stop_pending == b.stop_pending
    &&& a.stop_waiters == b.stop_waiters
    &&& a.inbox == b.inbox
}

/// Services other than `i` are as before.
pub open spec fn others_same(a: Seq<FeService>, b: Seq<FeService>, i: int) -> bool {
    &&& a.len() == b.len()
    &&& forall|j: int| 0 <= j < a.len() && j != i ==> a[j] == b[j]
}

/// A service operation's result, addressed to service `i`, with a refusal
/// reported as `Service(..)`.
pub open spec fn dispatch(
    i: int,
    r: Result<Seq<ServiceAction>, ServiceOperationError>,
) -> Result<Seq<CenterAction>, CommandError> {
    match r {
        Ok(a) => Ok(lift(i, a)),
        Err(e) => Err(CommandError::Service(e)),
    }
}

pub open spec fn center_view(r: Result<Vec<CenterAction>, CommandError>) -> Result<Seq<CenterAction>, CommandError> {
    match r {
        Ok(v) => Ok(v@),
        Err(e) => Err(e),
    }
}

/// What `reload_all` does: a running center reloads every service
/// gracefully, in order; any other does nothing.
pub open spec fn reload_all_post(o: CommandCenter, n: CommandCenter, r: Seq<CenterAction>) -> bool {
    &&& same_center(n, o)
    &&& n.services@.len() == o.services@.len()
    &&& o.state != State::Running ==> n.services == o.services && r == Seq::<CenterAction>::empty()
    &&& o.state == State::Running ==> exists|rs: Seq<Result<Seq<ServiceAction>, ServiceOperationError>>| {
        &&& rs.len() == o.services@.len()
        &&& forall|i: int| 0 <= i < rs.len() ==> #[trigger] reload_post(o.services@[i], n.services@[i], true, rs[i])
        &&& r == gather(rs, rs.len() as int)
    }
}

/// The terminal exit that follows once every service has stopped.
pub open spec fn stop_check(o: CommandCenter, n: CommandCenter, r: Seq<CenterAction>) -> bool {
    &&& n.state == o.state
    &&& n.services == o.services
    &&& n.inbox == o.inbox
    &&& o.state == State::Stopping && all_stopped(o.services@) ==> {
        &&& r == exit_actions(o, true)
        &&& n.stop_waiters == 0
        &&& !n.stop_pending
    }
    &&& !(o.state == State::Stopping && all_stopped(o.services@)) ==> n == o && r == Seq::<CenterAction>::empty()
}

/// Whether some service accepted the stop.
pub open spec fn any_accepted(rs: Seq<Result<Seq<ServiceAction>, ServiceOperationError>>) -> bool {
    exists|j: int| 0 <= j < rs.len() && #[trigger] rs[j] is Ok
}

/// What a global shutdown does: a center that is not stopping yet starts
/// stopping and stops every service, in order. Where no service accepted
/// the stop it exits at once; else it exits once every service has
/// stopped. A stopping center does nothing.
pub open spec fn shutdown_post(o: CommandCenter, n: CommandCenter, graceful: bool, r: Seq<CenterAction>) -> bool {
    &&& n.inbox == o.inbox
    &&& n.services@.len() == o.services@.len()
    &&& o.state == State::Stopping ==> n == o && r == Seq::<CenterAction>::empty()
    &&& o.state != State::Stopping ==> exists|rs: Seq<Result<Seq<ServiceAction>, ServiceOperationError>>, e: Seq<CenterAction>| {
        &&& rs.len() == o.services@.len()
        &&& forall|i: int| 0 <= i < rs.len() ==> #[trigger] stop_post(o.services@[i], n.services@[i], graceful, rs[i])
        &&& any_accepted(rs) ==> stop_check(CommandCenter { state: State::Stopping, services: n.services, ..o }, n, e)
        &&& !any_accepted(rs) ==> {
            &&& e == exit_actions(o, true)
            &&& n.state == State::Stopping
            &&& n.stop_waiters == 0
            &&& !n.stop_pending
        }
        &&& r == gather(rs, rs.len() as int) + e
    }
}

/// What a reaped worker does: every service hears of it, in order, and the
/// center exits if that leaves every service stopped while it stops.
pub open spec fn reaped_post(o: CommandCenter, n: CommandCenter, status: ExitStatus, r: Seq<CenterAction>) -> bool {
    &&& n.services@.len() == o.services@.len()
    &&& exists|rs: Seq<Seq<ServiceAction>>, m: CommandCenter, e: Seq<CenterAction>| {
        &&& rs.len() == o.services@.len()
        &&& same_center(m, o)
        &&& m.services@.len() == o.services@.len()
        &&& forall|i: int|
            0 <= i < rs.len() ==> #[trigger] exited_post(
                o.services@[i],
                m.services@[i],
                status_pid(status),
                status_error(status),
                rs[i],
            )
        &&& stop_check(m, n, e)
        &&& r == gather_all(rs, rs.len() as int) + e
    }
}

/// What handling a command does.
pub open spec fn call_post(o: CommandCenter, n: CommandCenter, cmd: Command, r: Seq<CenterAction>) -> bool {
    match cmd {
        Command::Stop => shutdown_post(o, n, true, r),
        Command::Quit => shutdown_post(o, n, false, r),
        Command::Reload => reload_all_post(o, n, r),
        Command::ReapWorkers => n == o && r == seq![CenterAction::Reap],
    }
}

/// The error that a reaped worker reports.
pub fn exit_error(status: ExitStatus) -> (r: ProcessError)
    ensures
        r == status_error(status),
{
    match status {
        ExitStatus::Exited(_, code) => ProcessError::from(code),
        ExitStatus::Signaled(_, sig) => ProcessError::Signal(sig),
    }
}

/// The command that a signal puts in the inbox: SIGHUP reloads, SIGTERM
/// stops gracefully, SIGINT and SIGQUIT quit, SIGCHLD reaps workers.
pub open spec fn signal_command(sig: Signal) -> Command {
    match sig {
        Signal::Hup => Command::Reload,
        Signal::Term => Command::Stop,
        Signal::Int => Command::Quit,
        Signal::Quit => Command::Quit,
        Signal::Chld => Command::ReapWorkers,
    }
}

/// The command that a received signal stands for.
pub fn command_for_signal(sig: Signal) -> (r: Command)
    ensures
        r == signal_command(sig),
{
    match sig {
        Signal::Hup => Command::Reload,
        Signal::Term => Command::Stop,
        Signal::Int => Command::Quit,
        Signal::Quit => Command::Quit,
        Signal::Chld => Command::ReapWorkers,
    }
}

impl CommandCenter {
    /// A center that has not started: no services yet, the terminal
    /// notifier armed.
    pub fn new() -> (r: CommandCenter)
        ensures
            r.state == State::Starting,
            r.services@.len() == 0,
            r.stop_pending,
            r.stop_waiters == 0,
            r.inbox@.len() == 0,
    {
        CommandCenter {
            state: State::Starting,
            services: Vec::new(),
            stop_pending: true,
            stop_waiters: 0,
            inbox: Vec::new(),
        }
    }

    fn find_service(&self, name: &str) -> (r: Option<usize>)
        ensures
            r matches Some(i) ==> find_service(self.services@, name@, self.services@.len() as int) == Some(
                i as int,
            ) && i < self.services@.len(),
            r is None ==> find_service(self.services@, name@, self.services@.len() as int) is None,
    {
        let key = name.to_owned();
        let mut i: usize = 0;
        while i < self.services.len()
            invariant
                i <= self.services@.len(),
                key@ == name@,
                find_service(self.services@, name@, i as int) is None,
            decreases self.services@.len() - i,
        {
            if self.services[i].name == key {
                assert(find_service(self.services@, name@, i + 1) == Some(i as int));
                proof {
                    lemma_find_service_stays(self.services@, name@, i + 1, self.services@.len() as int);
                }
                return Some(i);
            }
            i = i + 1;
        }
        None
    }

    fn gate(&self, name: &str) -> (r: Result<usize, CommandError>)
        ensures
            r matches Ok(i) ==> gate(*self, name@) == Ok::<int, CommandError>(i as int) && i
                < self.services@.len(),
            r matches Err(e) ==> gate(*self, name@) == Err::<int, CommandError>(e),
    {
        if self.state != State::Running {
            return Err(CommandError::NotReady);
        }
        match self.find_service(name) {
            Some(i) => Ok(i),
            None => Err(CommandError::UnknownService),
        }
    }

    /// Boots the center: every configured service is created and forks its
    /// workers, and the center runs.
    pub fn start(&mut self, cfg: &Vec<ServiceConfig>) -> (r: Vec<CenterAction>)
        requires
            old(self).services@.len() == 0,
        ensures
            final(self).state == State::Running,
            final(self).stop_pending == old(self).stop_pending,
            final(self).stop_waiters == old(self).stop_waiters,
            final(self).inbox == old(self).inbox,
            final(self).services@.len() == cfg@.len(),
            forall|i: int|
                0 <= i < cfg@.len() ==> {
                    let s = #[trigger] final(self).services@[i];
                    &&& s.name == cfg@[i].name
                    &&& s.slots@ == fresh_slots(cfg@[i].num as nat)
                    &&& s.state == if cfg@[i].num > 0 {
                        ServiceStatus::Starting
                    } else {
                        ServiceStatus::Running
                    }
                },
            r@ == boot_actions(cfg@, cfg@.len() as int),
    {
        let mut acts: Vec<CenterAction> = Vec::new();
        let mut i: usize = 0;
        while i < cfg.len()
            invariant
                i <= cfg@.len(),
                self.services@.len() == i,
                self.state == old(self).state,
                self.stop_pending == old(self).stop_pending,
                self.stop_waiters == old(self).stop_waiters,
                self.inbox == old(self).inbox,
                forall|j: int|
                    0 <= j < i ==> {
                        let s = #[trigger] self.services@[j];
                        &&& s.name == cfg@[j].name
                        &&& s.slots@ == fresh_slots(cfg@[j].num as nat)
                        &&& s.state == if cfg@[j].num > 0 {
                            ServiceStatus::Starting
                        } else {
                            ServiceStatus::Running
                        }
                    },
                acts@ == boot_actions(cfg@, i as int),
            decreases cfg@.len() - i,
        {
            let (svc, sacts) = FeService::start(cfg[i].name.clone(), cfg[i].num);
            self.services.push(svc);
            push_lifted(i, &sacts, &mut acts);
            assert(sacts@ == service_boot(cfg@[i as int].num));
            i = i + 1;
        }
        self.state = State::Running;
        acts
    }

    /// Terminal exit: resolves every stop waiter and fires the terminal
    /// notifier, if it has not fired yet.
    pub fn exit(&mut self, success: bool) -> (r: Vec<CenterAction>)
        ensures
            r@ == exit_actions(*old(self), success),
            final(self).stop_waiters == 0,
            !final(self).stop_pending,
            final(self).state == old(self).state,
            final(self).services == old(self).services,
            final(self).inbox == old(self).inbox,
    {
        let mut acts: Vec<CenterAction> = Vec::new();
        if self.stop_waiters > 0 {
            acts.push(CenterAction::ResolveStopWaiters(self.stop_waiters));
            self.stop_waiters = 0;
        }
        if self.stop_pending {
            self.stop_pending = false;
            acts.push(CenterAction::Terminal(success));
        }
        assert(acts@ =~= exit_actions(*old(self), success));
        acts
    }

    /// Asks the center to stop: one more waiter, resolved when the center
    /// has stopped, and a `Stop` command in the inbox.
    pub fn stop(&mut self)
        requires
            old(self).stop_waiters < usize::MAX,
        ensures
            final(self).stop_waiters == old(self).stop_waiters + 1,
            final(self).inbox@ == old(self).inbox@.push(Command::Stop),
            final(self).state == old(self).state,
            final(self).services == old(self).services,
            final(self).stop_pending == old(self).stop_pending,
    {
        self.stop_waiters = self.stop_waiters + 1;
        self.inbox.push(Command::Stop);
    }

    /// Puts a command at the back of the inbox.
    pub fn enqueue(&mut self, cmd: Command)
        ensures
            final(self).inbox@ == old(self).inbox@.push(cmd),
            final(self).state == old(self).state,
            final(self).services == old(self).services,
            final(self).stop_pending == old(self).stop_pending,
            final(self).stop_waiters == old(self).stop_waiters,
    {
        self.inbox.push(cmd);
    }

    /// Takes the oldest command out of the inbox.
    pub fn next_command(&mut self) -> (r: Option<Command>)
        ensures
            old(self).inbox@.len() == 0 ==> r is None && final(self).inbox == old(self).inbox,
            old(self).inbox@.len() > 0 ==> r == Some(old(self).inbox@[0]) && final(self).inbox@
                == old(self).inbox@.drop_first(),
            final(self).state == old(self).state,
            final(self).services == old(self).services,
            final(self).stop_pending == old(self).stop_pending,
            final(self).stop_waiters == old(self).stop_waiters,
    {
        if self.inbox.len() == 0 {
            None
        } else {
            let c = self.inbox.remove(0);
            assert(self.inbox@ =~= old(self).inbox@.drop_first());
            Some(c)
        }
    }

    pub fn service_status(&self, name: &str) -> (r: Result<ServiceStatus, CommandError>)
        ensures
            gate(*self, name@) matches Ok(i) ==> r == Ok::<ServiceStatus, CommandError>(self.services@[i].state),
            gate(*self, name@) matches Err(e) ==> r == Err::<ServiceStatus, CommandError>(e),
    {
        match self.gate(name) {
            Ok(i) => Ok(self.services[i].status()),
            Err(e) => Err(e),
        }
    }

    pub fn service_worker_pids(&self, name: &str) -> (r: Result<Vec<String>, CommandError>)
        ensures
            gate(*self, name@) matches Ok(i) ==> (r matches Ok(v) && {
                let pids = live_pids(self.services@[i].slots@, self.services@[i].slots@.len() as int);
                &&& v@.len() == pids.len()
                &&& forall|k: int|
                    0 <= k < v@.len() ==> to_string_from_display_ensures::<i32>(&pids[k], #[trigger] v@[k])
            }),
            gate(*self, name@) matches Err(e) ==> (r matches Err(e2) && e2 == e),
    {
        match self.gate(name) {
            Ok(i) => Ok(self.services[i].pids()),
            Err(e) => Err(e),
        }
    }

    /// Starts the named service.
    #[verifier::spinoff_prover]
    pub fn start_service(&mut self, name: &str) -> (r: Result<Vec<CenterAction>, CommandError>)
        ensures
            same_center(*final(self), *old(self)),
            gate(*old(self), name@) matches Err(e) ==> final(self).services == old(self).services && center_view(r) == Err::<Seq<CenterAction>, CommandError>(e),
            gate(*old(self), name@) matches Ok(i) ==> others_same(final(self).services@, old(self).services@, i)
                && exists|sr|
                    #[trigger] start_service_post(old(self).services@[i], final(self).services@[i], sr) && center_view(r)
                        == dispatch(i, sr),
    {
        match self.gate(name) {
            Err(e) => Err(e),
            Ok(i) => {
                let res = self.services[i].start_service();
                let ghost sr = acts_view(res);
                let out = match res {
                    Ok(a) => {
                        let mut acts: Vec<CenterAction> = Vec::new();
                        push_lifted(i, &a, &mut acts);
                        assert(acts@ =~= lift(i as int, a@));
                        Ok(acts)
                    },
                    Err(e) => Err(CommandError::Service(e)),
                };
                assert(others_same(self.services@, old(self).services@, i as int));
                assert(start_service_post(old(self).services@[i as int], self.services@[i as int], sr));
                assert(center_view(out) =~= dispatch(i as int, sr));
                assert(exists|sr2|
                    #[trigger] start_service_post(old(self).services@[i as int], self.services@[i as int], sr2)
                        && center_view(out) == dispatch(i as int, sr2));
                out
            },
        }
    }

    /// Stops the named service; a refusal of the service is reported as
    /// `Service(..)`.
    #[verifier::spinoff_prover]
    pub fn stop_service(&mut self, name: &str, graceful: bool) -> (r: Result<Vec<CenterAction>, CommandError>)
        ensures
            same_center(*final(self), *old(self)),
            gate(*old(self), name@) matches Err(e) ==> final(self).services == old(self).services && center_view(r) == Err::<Seq<CenterAction>, CommandError>(e),
            gate(*old(self), name@) matches Ok(i) ==> others_same(final(self).services@, old(self).services@, i),
            gate(*old(self), name@) matches Ok(i) ==> stop_post(
                old(self).services@[i],
                final(self).services@[i],
                graceful,
                stop_result(old(self).services@[i], graceful),
            ) && center_view(r) == dispatch(i, stop_result(old(self).services@[i], graceful)),
    {
        match self.gate(name) {
            Err(e) => Err(e),
            Ok(i) => {
                let res = self.services[i].stop(graceful, Reason::ConsoleRequest);
                let ghost sr = acts_view(res);
                let out = match res {
                    Ok(a) => {
                        let mut acts: Vec<CenterAction> = Vec::new();
                        push_lifted(i, &a, &mut acts);
                        assert(acts@ =~= lift(i as int, a@));
                        Ok(acts)
                    },
                    Err(e) => Err(CommandError::Service(e)),
                };
                assert(others_same(self.services@, old(self).services@, i as int));
                assert(stop_post(old(self).services@[i as int], self.services@[i as int], graceful, sr));
                assert(center_view(out) =~= dispatch(i as int, sr));
                assert(sr == stop_result(old(self).services@[i as int], graceful));
                out
            },
        }
    }

    /// Reloads the named service.
    #[verifier::spinoff_prover]
    pub fn reload_service(&mut self, name: &str, graceful: bool) -> (r: Result<Vec<CenterAction>, CommandError>)
        ensures
            same_center(*final(self), *old(self)),
            gate(*old(self), name@) matches Err(e) ==> final(self).services == old(self).services && center_view(r) == Err::<Seq<CenterAction>, CommandError>(e),
            gate(*old(self), name@) matches Ok(i) ==> others_same(final(self).services@, old(self).services@, i)
                && exists|sr|
                    #[trigger] reload_post(old(self).services@[i], final(self).services@[i], graceful, sr) && center_view(r)
                        == dispatch(i, sr),
    {
        match self.gate(name) {
            Err(e) => Err(e),
            Ok(i) => {
                let res = self.services[i].reload(graceful);
                let ghost sr = acts_view(res);
                let out = match res {
                    Ok(a) => {
                        let mut acts: Vec<CenterAction> = Vec::new();
                        push_lifted(i, &a, &mut acts);
                        assert(acts@ =~= lift(i as int, a@));
                        Ok(acts)
                    },
                    Err(e) => Err(CommandError::Service(e)),
                };
                assert(others_same(self.services@, old(self).services@, i as int));
                assert(reload_post(old(self).services@[i as int], self.services@[i as int], graceful, sr));
                assert(center_view(out) =~= dispatch(i as int, sr));
                assert(exists|sr2|
                    #[trigger] reload_post(old(self).services@[i as int], self.services@[i as int], graceful, sr2)
                        && center_view(out) == dispatch(i as int, sr2));
                out
            },
        }
    }

    /// Pauses the workers of the named service.
    pub fn pause_service(&mut self, name: &str) -> (r: Result<Vec<CenterAction>, CommandError>)
        ensures
            *final(self) == *old(self),
            gate(*old(self), name@) matches Err(e) ==> center_view(r) == Err::<Seq<CenterAction>, CommandError>(e),
            gate(*old(self), name@) matches Ok(i) ==> center_view(r) == Ok::<Seq<CenterAction>, CommandError>(lift(
                i,
                fan_out(
                    old(self).services@[i].slots@,
                    ProcessRequest::Pause,
                    old(self).services@[i].slots@.len() as int,
                ),
            )),
    {
        match self.gate(name) {
            Err(e) => Err(e),
            Ok(i) => {
                let a = self.services[i].pause();
                let mut acts: Vec<CenterAction> = Vec::new();
                push_lifted(i, &a, &mut acts);
                assert(acts@ =~= lift(i as int, a@));
                Ok(acts)
            },
        }
    }

    /// Resumes the workers of the named service.
    pub fn resume_service(&mut self, name: &str) -> (r: Result<Vec<CenterAction>, CommandError>)
        ensures
            *final(self) == *old(self),
            gate(*old(self), name@) matches Err(e) ==> center_view(r) == Err::<Seq<CenterAction>, CommandError>(e),
            gate(*old(self), name@) matches Ok(i) ==> center_view(r) == Ok::<Seq<CenterAction>, CommandError>(lift(
                i,
                fan_out(
                    old(self).services@[i].slots@,
                    ProcessRequest::Resume,
                    old(self).services@[i].slots@.len() as int,
                ),
            )),
    {
        match self.gate(name) {
            Err(e) => Err(e),
            Ok(i) => {
                let a = self.services[i].resume();
                let mut acts: Vec<CenterAction> = Vec::new();
                push_lifted(i, &a, &mut acts);
                assert(acts@ =~= lift(i as int, a@));
                Ok(acts)
            },
        }
    }

    /// Reloads every service gracefully; only a running center does so.
    pub fn reload_all(&mut self) -> (r: Vec<CenterAction>)
        ensures
            reload_all_post(*old(self), *final(self), r@),
    {
        let mut acts: Vec<CenterAction> = Vec::new();
        if self.state != State::Running {
            assert(acts@ =~= Seq::<CenterAction>::empty());
            return acts;
        }
        let ghost mut rs: Seq<Result<Seq<ServiceAction>, ServiceOperationError>> = Seq::empty();
        let mut i: usize = 0;
        while i < self.services.len()
            invariant
                i <= self.services@.len(),
                self.services@.len() == old(self).services@.len(),
                same_center(*self, *old(self)),
                rs.len() == i,
                forall|j: int| 0 <= j < i ==> #[trigger] reload_post(old(self).services@[j], self.services@[j], true, rs[j]),
                forall|j: int| i <= j < self.services@.len() ==> self.services@[j] == old(self).services@[j],
                acts@ == gather(rs, i as int),
            decreases self.services@.len() - i,
        {
            let res = self.services[i].reload(true);
            proof {
                let ghost rs0 = rs;
                rs = rs.push(acts_view(res));
                lemma_gather_agree(rs0, rs, i as int);
            }
            match res {
                Ok(a) => {
                    push_lifted(i, &a, &mut acts);
                },
                Err(_) => {},
            }
            i = i + 1;
            assert(acts@ =~= gather(rs, i as int));
        }
        assert(reload_all_post(*old(self), *self, acts@));
        acts
    }

    /// Exits once every service has stopped while the center stops: the
    /// continuation of a global shutdown.
    pub fn check_stopped(&mut self) -> (r: Vec<CenterAction>)
        ensures
            stop_check(*old(self), *final(self), r@),
    {
        if self.state == State::Stopping && self.all_stopped() {
            self.exit(true)
        } else {
            let acts: Vec<CenterAction> = Vec::new();
            assert(acts@ =~= Seq::<CenterAction>::empty());
            acts
        }
    }

    fn all_stopped(&self) -> (r: bool)
        ensures
            r == all_stopped(self.services@),
    {
        let mut i: usize = 0;
        while i < self.services.len()
            invariant
                i <= self.services@.len(),
                forall|j: int| 0 <= j < i ==> (#[trigger] self.services@[j]).spec_is_stopped(),
            decreases self.services@.len() - i,
        {
            if !self.services[i].is_stopped() {
                return false;
            }
            i = i + 1;
        }
        true
    }

    /// Global shutdown, graceful or not.
    pub fn shutdown(&mut self, graceful: bool) -> (r: Vec<CenterAction>)
        ensures
            shutdown_post(*old(self), *final(self), graceful, r@),
    {
        let mut acts: Vec<CenterAction> = Vec::new();
        if self.state == State::Stopping {
            assert(acts@ =~= Seq::<CenterAction>::empty());
            return acts;
        }
        self.state = State::Stopping;
        let mut waiting = false;
        let ghost mut rs: Seq<Result<Seq<ServiceAction>, ServiceOperationError>> = Seq::empty();
        let mut i: usize = 0;
        while i < self.services.len()
            invariant
                i <= self.services@.len(),
                self.services@.len() == old(self).services@.len(),
                self.state == State::Stopping,
                self.inbox == old(self).inbox,
                self.stop_pending == old(self).stop_pending,
                self.stop_waiters == old(self).stop_waiters,
                rs.len() == i,
                forall|j: int|
                    0 <= j < i ==> #[trigger] stop_post(old(self).services@[j], self.services@[j], graceful, rs[j]),
                forall|j: int| i <= j < self.services@.len() ==> self.services@[j] == old(self).services@[j],
                acts@ == gather(rs, i as int),
                waiting == any_accepted(rs),
            decreases self.services@.len() - i,
        {
            let ghost rs_prev = rs;
            let res = self.services[i].stop(graceful, Reason::Exit);
            proof {
                rs = rs.push(acts_view(res));
                lemma_gather_agree(rs_prev, rs, i as int);
            }
            match res {
                Ok(a) => {
                    waiting = true;
                    push_lifted(i, &a, &mut acts);
                },
                Err(_) => {},
            }
            i = i + 1;
            assert(acts@ =~= gather(rs, i as int));
            assert(waiting == any_accepted(rs)) by {
                if rs[i - 1] is Ok {
                    assert(rs[i - 1] is Ok);
                }
                if any_accepted(rs) && !(rs[i - 1] is Ok) {
                    let j = choose|j: int| 0 <= j < rs.len() && #[trigger] rs[j] is Ok;
                    assert(rs_prev[j] is Ok);
                }
                if any_accepted(rs_prev) {
                    let j = choose|j: int| 0 <= j < rs_prev.len() && #[trigger] rs_prev[j] is Ok;
                    assert(rs[j] is Ok);
                }
            }
        }
        let ghost mid = *self;
        let ghost g = acts@;
        let mut rest = if waiting {
            self.check_stopped()
        } else {
            self.exit(true)
        };
        let ghost e = rest@;
        acts.append(&mut rest);
        proof {
            assert(mid == (CommandCenter { state: State::Stopping, services: mid.services, ..*old(self) }));
            assert(acts@ =~= g + e);
            if waiting {
                assert(stop_check(
                    CommandCenter { state: State::Stopping, services: self.services, ..*old(self) },
                    *self,
                    e,
                ));
            }
            assert(forall|j: int|
                0 <= j < rs.len() ==> #[trigger] stop_post(old(self).services@[j], self.services@[j], graceful, rs[j]));
        }
        acts
    }

    /// A worker was reaped: every service hears of it, and the center exits
    /// if that leaves every service stopped while it stops.
    pub fn reaped(&mut self, status: ExitStatus) -> (r: Vec<CenterAction>)
        ensures
            reaped_post(*old(self), *final(self), status, r@),
    {
        let err = exit_error(status);
        let pid = match status {
            ExitStatus::Exited(pid, _) => pid,
            ExitStatus::Signaled(pid, _) => pid,
        };
        let mut acts: Vec<CenterAction> = Vec::new();
        let ghost mut rs: Seq<Seq<ServiceAction>> = Seq::empty();
        let mut i: usize = 0;
        while i < self.services.len()
            invariant
                i <= self.services@.len(),
                self.services@.len() == old(self).services@.len(),
                same_center(*self, *old(self)),
                pid == status_pid(status),
                err == status_error(status),
                rs.len() == i,
                forall|j: int|
                    0 <= j < i ==> #[trigger] exited_post(old(self).services@[j], self.services@[j], pid, err, rs[j]),
                forall|j: int| i <= j < self.services@.len() ==> self.services@[j] == old(self).services@[j],
                acts@ == gather_all(rs, i as int),
            decreases self.services@.len() - i,
        {
            let a = self.services[i].exited(pid, &err);
            proof {
                let ghost rs0 = rs;
                rs = rs.push(a@);
                lemma_gather_all_agree(rs0, rs, i as int);
            }
            push_lifted(i, &a, &mut acts);
            i = i + 1;
            assert(acts@ =~= gather_all(rs, i as int));
        }
        let ghost mid = *self;
        let ghost g = acts@;
        let mut rest = self.check_stopped();
        let ghost e = rest@;
        acts.append(&mut rest);
        proof {
            assert(acts@ =~= g + e);
            assert(forall|j: int|
                0 <= j < rs.len() ==> #[trigger] exited_post(
                    old(self).services@[j],
                    mid.services@[j],
                    status_pid(status),
                    status_error(status),
                    rs[j],
                ));
            assert(stop_check(mid, *self, e));
        }
        acts
    }

    /// Handles a command from the inbox: `Stop` and `Quit` shut the center
    /// down gracefully or not, `Reload` reloads every service, and
    /// `ReapWorkers` asks the runtime to collect exited children.
    pub fn call(&mut self, cmd: Command) -> (r: Vec<CenterAction>)
        ensures
            call_post(*old(self), *final(self), cmd, r@),
    {
        match cmd {
            Command::Stop => self.shutdown(true),
            Command::Quit => self.shutdown(false),
            Command::Reload => self.reload_all(),
            Command::ReapWorkers => {
                let mut acts: Vec<CenterAction> = Vec::new();
                acts.push(CenterAction::Reap);
                assert(acts@ =~= seq![CenterAction::Reap]);
                acts
            },
        }
    }

    /// The inbox ended: the center exits successfully.
    pub fn finished(&mut self) -> (r: Vec<CenterAction>)
        ensures
            r@ == exit_actions(*old(self), true),
            final(self).stop_waiters == 0,
            !final(self).stop_pending,
            final(self).state == old(self).state,
            final(self).services == old(self).services,
    {
        self.exit(true)
    }

    /// The inbox failed: the center exits with failure.
    pub fn inbox_failed(&mut self) -> (r: Vec<CenterAction>)
        ensures
            r@ == exit_actions(*old(self), false),
            final(self).stop_waiters == 0,
            !final(self).stop_pending,
            final(self).state == old(self).state,
            final(self).services == old(self).services,
    {
        self.exit(false)
    }
}

/// The terminal notifier fires on the first exit exactly when it is still
/// armed, and never on any exit after that: it fires at most once in a
/// center's life, and a new center has it armed.
pub proof fn lemma_terminal_fires_once(c: CommandCenter, first: bool, second: bool)
    ensures
        fires_terminal(exit_actions(c, first)) == c.stop_pending,
        !fires_terminal(exit_actions(CommandCenter { stop_pending: false, stop_waiters: 0, ..c }, second)),
{
    let a = exit_actions(c, first);
    if c.stop_pending {
        assert(a[a.len() - 1] is Terminal);
    } else {
        assert(forall|i: int| 0 <= i < a.len() ==> !(#[trigger] a[i] is Terminal));
    }
    let b = exit_actions(CommandCenter { stop_pending: false, stop_waiters: 0, ..c }, second);
    assert(b =~= Seq::<CenterAction>::empty());
}

proof fn lemma_gather_all_agree(a: Seq<Seq<ServiceAction>>, b: Seq<Seq<ServiceAction>>, n: int)
    requires
        0 <= n <= a.len(),
        n <= b.len(),
        forall|j: int| 0 <= j < n ==> a[j] == b[j],
    ensures
        gather_all(a, n) == gather_all(b, n),
    decreases n,
{
    if n > 0 {
        lemma_gather_all_agree(a, b, n - 1);
    }
}

proof fn lemma_gather_agree(
    a: Seq<Result<Seq<ServiceAction>, ServiceOperationError>>,
    b: Seq<Result<Seq<ServiceAction>, ServiceOperationError>>,
    n: int,
)
    requires
        0 <= n <= a.len(),
        n <= b.len(),
        forall|j: int| 0 <= j < n ==> a[j] == b[j],
    ensures
        gather(a, n) == gather(b, n),
    decreases n,
{
    if n > 0 {
        lemma_gather_agree(a, b, n - 1);
    }
}

} // verus!
