use vstd::prelude::*;
use crate::event::{ProcessError, Reason};
use crate::protocol::WorkerMessage;
use vstd::string::to_string_from_display_ensures;

verus! {

/// State of a service.
#[derive(Debug, Clone, Copy, PartialEq, Eq, Structural)]
pub enum ServiceStatus {
    Starting,
    Running,
    Reloading,
    Stopping,
    Stopped,
    Failed,
}

/// State of one slot of a service.
#[derive(Debug, Clone, Copy, PartialEq, Eq, Structural)]
pub enum SlotState {
    /// No worker is being brought up.
    Idle,
    Starting,
    Running,
    Stopping,
    /// The slot gave up for this configuration.
    Failed,
}

/// One slot: its state and the pid of its worker, -1 where it has none.
#[derive(Debug, Clone, Copy, PartialEq, Eq, Structural)]
pub struct Slot {
    pub pid: i32,
    pub state: SlotState,
}

#[derive(Debug, Clone, Copy, PartialEq, Eq, Structural)]
pub enum StartStatus {
    Success,
    Failed,
    Stopping,
}

#[derive(Debug, Clone, Copy, PartialEq, Eq, Structural)]
pub enum ReloadStatus {
    Success,
    Failed,
    Stopping,
}

/// An operation that the service's state does not allow.
#[derive(Debug, Clone, Copy, PartialEq, Eq, Structural)]
pub enum ServiceOperationError {
    Starting,
    Reloading,
    Stopping,
    Stopped,
    Failed,
}

/// A request for the supervisor of one slot.
#[derive(Debug, Clone, Copy, PartialEq, Eq, Structural)]
pub enum ProcessRequest {
    Start,
    Pause,
    Resume,
    Stop,
    Quit(bool),
}

/// What a service asks its runtime to do.
#[derive(Debug, Clone, Copy, PartialEq, Eq, Structural)]
pub enum ServiceAction {
    /// Fork a worker for the slot and hand its supervisor's outcome back
    /// through `forked`.
    Fork(usize),
    /// Deliver the request to the slot's supervisor.
    Process(usize, ProcessRequest),
    /// Resolve every outstanding start completion.
    StartDone(StartStatus),
    /// Resolve every outstanding stop completion.
    StopDone,
    /// Resolve every outstanding reload completion.
    ReloadDone(ReloadStatus),
}

/// The manager of one service's pool of workers.
#[derive(Debug)]
pub struct FeService {
    pub name: String,
    pub state: ServiceStatus,
    pub slots: Vec<Slot>,
    /// Whether the running reload replaces workers gracefully.
    pub graceful: bool,
}

/// Whether a slot has a worker that has not been reaped.
pub open spec fn live(s: Slot) -> bool {
    s.pid >= 0
}

pub open spec fn all_running(slots: Seq<Slot>) -> bool {
    forall|i: int| 0 <= i < slots.len() ==> (#[trigger] slots[i]).state == SlotState::Running
}

pub open spec fn none_live(slots: Seq<Slot>) -> bool {
    forall|i: int| 0 <= i < slots.len() ==> !live(#[trigger] slots[i])
}

/// The requests to the supervisors of the live slots among the first `n`,
/// in slot order.
pub open spec fn fan_out(slots: Seq<Slot>, req: ProcessRequest, n: int) -> Seq<ServiceAction>
    decreases n,
{
    if n <= 0 {
        Seq::empty()
    } else if live(slots[n - 1]) {
        fan_out(slots, req, n - 1).push(ServiceAction::Process((n - 1) as usize, req))
    } else {
        fan_out(slots, req, n - 1)
    }
}

/// A fork for each of the first `n` slots, in slot order.
pub open spec fn fork_all(n: int) -> Seq<ServiceAction> {
    Seq::new(n as nat, |i: int| ServiceAction::Fork(i as usize))
}

/// The request that stops a worker.
pub open spec fn stop_request(graceful: bool) -> ProcessRequest {
    if graceful {
        ProcessRequest::Stop
    } else {
        ProcessRequest::Quit(false)
    }
}

/// Slots after a stop: live ones are stopping, the others idle.
pub open spec fn stopping_slots(slots: Seq<Slot>) -> Seq<Slot> {
    slots.map_values(
        |s: Slot|
            if live(s) {
                Slot { pid: s.pid, state: SlotState::Stopping }
            } else {
                Slot { pid: -1i32, state: SlotState::Idle }
            },
    )
}

/// Slots when a reload begins: live ones are stopping, the others stay.
pub open spec fn reloading_slots(slots: Seq<Slot>) -> Seq<Slot> {
    slots.map_values(|s: Slot| if live(s) { Slot { pid: s.pid, state: SlotState::Stopping } } else { s })
}

/// The first of the first `n` slots whose worker is `pid`.
pub open spec fn find_pid(slots: Seq<Slot>, pid: i32, n: int) -> Option<int>
    decreases n,
{
    if n <= 0 {
        None
    } else {
        match find_pid(slots, pid, n - 1) {
            Some(i) => Some(i),
            None => if slots[n - 1].pid == pid {
                Some(n - 1)
            } else {
                None
            },
        }
    }
}

/// The slot whose worker is `pid`, if any.
pub open spec fn slot_of(slots: Seq<Slot>, pid: i32) -> Option<int> {
    if pid >= 0 {
        find_pid(slots, pid, slots.len() as int)
    } else {
        None
    }
}

/// What a reaped worker leaves in its slot: an empty slot while the
/// service stops or is stopped, a failed one after a permanent error, an
/// empty one in a failed service, else one that is started again.
pub open spec fn after_exit(state: ServiceStatus, s: Slot, err: ProcessError) -> Slot {
    if state == ServiceStatus::Stopping || state == ServiceStatus::Stopped {
        Slot { pid: -1i32, state: SlotState::Idle }
    } else if err.spec_is_permanent() || s.state == SlotState::Failed {
        Slot { pid: -1i32, state: SlotState::Failed }
    } else if state == ServiceStatus::Failed {
        Slot { pid: -1i32, state: SlotState::Idle }
    } else {
        Slot { pid: -1i32, state: SlotState::Starting }
    }
}

/// The error that `start_service` gives in a state that cannot start.
pub open spec fn state_error(state: ServiceStatus) -> ServiceOperationError {
    match state {
        ServiceStatus::Starting => ServiceOperationError::Starting,
        ServiceStatus::Reloading => ServiceOperationError::Reloading,
        ServiceStatus::Stopping => ServiceOperationError::Stopping,
        ServiceStatus::Failed => ServiceOperationError::Failed,
        _ => ServiceOperationError::Stopped,
    }
}

pub open spec fn any_failed(slots: Seq<Slot>) -> bool {
    exists|i: int| 0 <= i < slots.len() && (#[trigger] slots[i]).state == SlotState::Failed
}

/// Where the service comes to after a change of its slots, and the
/// completions that this resolves.
pub open spec fn settle(state: ServiceStatus, slots: Seq<Slot>) -> (ServiceStatus, Seq<ServiceAction>) {
    match state {
        ServiceStatus::Starting => if any_failed(slots) {
            (ServiceStatus::Failed, seq![ServiceAction::StartDone(StartStatus::Failed)])
        } else if all_running(slots) {
            (ServiceStatus::Running, seq![ServiceAction::StartDone(StartStatus::Success)])
        } else {
            (state, seq![])
        },
        ServiceStatus::Reloading => if any_failed(slots) {
            (ServiceStatus::Failed, seq![ServiceAction::ReloadDone(ReloadStatus::Failed)])
        } else if all_running(slots) {
            (ServiceStatus::Running, seq![ServiceAction::ReloadDone(ReloadStatus::Success)])
        } else {
            (state, seq![])
        },
        ServiceStatus::Running => if any_failed(slots) {
            (ServiceStatus::Failed, seq![])
        } else {
            (state, seq![])
        },
        ServiceStatus::Stopping => if none_live(slots) {
            (ServiceStatus::Stopped, seq![ServiceAction::StopDone])
        } else {
            (state, seq![])
        },
        _ => (state, seq![]),
    }
}

/// Slots about to be started: every slot starts without a worker.
pub open spec fn fresh_slots(n: nat) -> Seq<Slot> {
    Seq::new(n, |i: int| Slot { pid: -1i32, state: SlotState::Starting })
}

/// A result of an operation, with its actions as a sequence.
pub open spec fn acts_view(r: Result<Vec<ServiceAction>, ServiceOperationError>) -> Result<Seq<ServiceAction>, ServiceOperationError> {
    match r {
        Ok(v) => Ok(v@),
        Err(e) => Err(e),
    }
}

/// What `start_service` does: see its doc comment.
pub open spec fn start_service_post(
    o: FeService,
    n: FeService,
    r: Result<Seq<ServiceAction>, ServiceOperationError>,
) -> bool {
    &&& n.name == o.name
    &&& n.graceful == o.graceful
    &&& o.state == ServiceStatus::Running ==> n == o && r == Ok::<Seq<ServiceAction>, ServiceOperationError>(
        seq![ServiceAction::StartDone(StartStatus::Success)],
    )
    &&& o.state == ServiceStatus::Starting ==> n == o && r == Ok::<Seq<ServiceAction>, ServiceOperationError>(
        Seq::empty(),
    )
    &&& o.spec_is_stopped() && o.slots@.len() > 0 ==> n.slots@ == fresh_slots(o.slots@.len()) && n.state
        == ServiceStatus::Starting && r == Ok::<Seq<ServiceAction>, ServiceOperationError>(
        fork_all(o.slots@.len() as int),
    )
    &&& o.spec_is_stopped() && o.slots@.len() == 0 ==> n.slots@ == fresh_slots(0) && n.state == ServiceStatus::Running
        && r == Ok::<Seq<ServiceAction>, ServiceOperationError>(
        seq![ServiceAction::StartDone(StartStatus::Success)],
    )
    &&& o.state != ServiceStatus::Running && o.state != ServiceStatus::Starting && !o.spec_is_stopped() ==> n
        == o && r == Err::<Seq<ServiceAction>, ServiceOperationError>(state_error(o.state))
}

/// The result that `stop` returns (see `stop_post`).
pub open spec fn stop_result(o: FeService, graceful: bool) -> Result<Seq<ServiceAction>, ServiceOperationError> {
    let pre = if o.state == ServiceStatus::Starting {
        seq![ServiceAction::StartDone(StartStatus::Stopping)]
    } else if o.state == ServiceStatus::Reloading {
        seq![ServiceAction::ReloadDone(ReloadStatus::Failed)]
    } else {
        Seq::<ServiceAction>::empty()
    };
    if o.state == ServiceStatus::Stopped || (o.state == ServiceStatus::Failed && none_live(o.slots@)) {
        Err(ServiceOperationError::Stopped)
    } else if o.state == ServiceStatus::Stopping {
        Ok(Seq::empty())
    } else {
        Ok(
            pre + fan_out(o.slots@, stop_request(graceful), o.slots@.len() as int) + settle(
                ServiceStatus::Stopping,
                stopping_slots(o.slots@),
            ).1,
        )
    }
}

/// What `stop` does: see its doc comment.
pub open spec fn stop_post(
    o: FeService,
    n: FeService,
    graceful: bool,
    r: Result<Seq<ServiceAction>, ServiceOperationError>,
) -> bool {
    let at_rest = o.state == ServiceStatus::Stopped || (o.state == ServiceStatus::Failed && none_live(o.slots@));
    let slots = stopping_slots(o.slots@);
    let pre = if o.state == ServiceStatus::Starting {
        seq![ServiceAction::StartDone(StartStatus::Stopping)]
    } else if o.state == ServiceStatus::Reloading {
        seq![ServiceAction::ReloadDone(ReloadStatus::Failed)]
    } else {
        Seq::<ServiceAction>::empty()
    };
    &&& n.name == o.name
    &&& n.graceful == o.graceful
    &&& at_rest ==> n == o && r == Err::<Seq<ServiceAction>, ServiceOperationError>(
        ServiceOperationError::Stopped,
    )
    &&& o.state == ServiceStatus::Stopping ==> n == o && r == Ok::<Seq<ServiceAction>, ServiceOperationError>(
        Seq::empty(),
    )
    &&& !at_rest && o.state != ServiceStatus::Stopping ==> {
        &&& n.slots@ == slots
        &&& n.state == settle(ServiceStatus::Stopping, slots).0
        &&& r == Ok::<Seq<ServiceAction>, ServiceOperationError>(
            pre + fan_out(o.slots@, stop_request(graceful), o.slots@.len() as int) + settle(
                ServiceStatus::Stopping,
                slots,
            ).1,
        )
    }
}

/// What `reload` does: see its doc comment.
pub open spec fn reload_post(
    o: FeService,
    n: FeService,
    graceful: bool,
    r: Result<Seq<ServiceAction>, ServiceOperationError>,
) -> bool {
    let slots = reloading_slots(o.slots@);
    &&& n.name == o.name
    &&& o.state == ServiceStatus::Reloading ==> n == o && r == Ok::<Seq<ServiceAction>, ServiceOperationError>(
        Seq::empty(),
    )
    &&& o.state != ServiceStatus::Running && o.state != ServiceStatus::Reloading ==> n == o && r == Err::<
        Seq<ServiceAction>,
        ServiceOperationError,
    >(state_error(o.state))
    &&& o.state == ServiceStatus::Running ==> {
        &&& n.graceful == graceful
        &&& n.slots@ == slots
        &&& n.state == settle(ServiceStatus::Reloading, slots).0
        &&& r == Ok::<Seq<ServiceAction>, ServiceOperationError>(
            fan_out(o.slots@, stop_request(graceful), o.slots@.len() as int) + settle(
                ServiceStatus::Reloading,
                slots,
            ).1,
        )
    }
}

/// What `exited` does: see its doc comment.
pub open spec fn exited_post(o: FeService, n: FeService, pid: i32, err: ProcessError, r: Seq<ServiceAction>) -> bool {
    &&& n.name == o.name
    &&& n.graceful == o.graceful
    &&& slot_of(o.slots@, pid) is None ==> n == o && r == Seq::<ServiceAction>::empty()
    &&& slot_of(o.slots@, pid) matches Some(i) ==> {
        let s = after_exit(o.state, o.slots@[i], err);
        let slots = o.slots@.update(i, s);
        let restart = if s.state == SlotState::Starting {
            seq![ServiceAction::Fork(i as usize)]
        } else {
            Seq::<ServiceAction>::empty()
        };
        &&& n.slots@ == slots
        &&& n.state == settle(o.state, slots).0
        &&& r == restart + settle(o.state, slots).1
    }
}

impl FeService {
    /// Whether the service has come to rest with no worker left.
    pub open spec fn spec_is_stopped(&self) -> bool {
        (self.state == ServiceStatus::Stopped || self.state == ServiceStatus::Failed) && none_live(self.slots@)
    }

    fn check_all_running(&self) -> (r: bool)
        ensures
            r == all_running(self.slots@),
    {
        let mut i: usize = 0;
        while i < self.slots.len()
            invariant
                i <= self.slots@.len(),
                forall|j: int| 0 <= j < i ==> (#[trigger] self.slots@[j]).state == SlotState::Running,
            decreases self.slots@.len() - i,
        {
            if self.slots[i].state != SlotState::Running {
                return false;
            }
            i = i + 1;
        }
        true
    }

    fn check_any_failed(&self) -> (r: bool)
        ensures
            r == any_failed(self.slots@),
    {
        let mut i: usize = 0;
        while i < self.slots.len()
            invariant
                i <= self.slots@.len(),
                forall|j: int| 0 <= j < i ==> (#[trigger] self.slots@[j]).state != SlotState::Failed,
            decreases self.slots@.len() - i,
        {
            if self.slots[i].state == SlotState::Failed {
                return true;
            }
            i = i + 1;
        }
        false
    }

    fn check_none_live(&self) -> (r: bool)
        ensures
            r == none_live(self.slots@),
    {
        let mut i: usize = 0;
        while i < self.slots.len()
            invariant
                i <= self.slots@.len(),
                forall|j: int| 0 <= j < i ==> !live(#[trigger] self.slots@[j]),
            decreases self.slots@.len() - i,
        {
            if self.slots[i].pid >= 0 {
                return false;
            }
            i = i + 1;
        }
        true
    }

    /// Moves the service to where its slots put it; appends the completions
    /// that this resolves.
    fn settle(&mut self, acts: &mut Vec<ServiceAction>)
        ensures
            final(self).state == settle(old(self).state, old(self).slots@).0,
            final(self).slots == old(self).slots,
            final(self).name == old(self).name,
            final(self).graceful == old(self).graceful,
            final(acts)@ == old(acts)@ + settle(old(self).state, old(self).slots@).1,
    {
        let ghost acts0 = acts@;
        match self.state {
            ServiceStatus::Starting => {
                if self.check_any_failed() {
                    self.state = ServiceStatus::Failed;
                    acts.push(ServiceAction::StartDone(StartStatus::Failed));
                } else if self.check_all_running() {
                    self.state = ServiceStatus::Running;
                    acts.push(ServiceAction::StartDone(StartStatus::Success));
                }
            },
            ServiceStatus::Reloading => {
                if self.check_any_failed() {
                    self.state = ServiceStatus::Failed;
                    acts.push(ServiceAction::ReloadDone(ReloadStatus::Failed));
                } else if self.check_all_running() {
                    self.state = ServiceStatus::Running;
                    acts.push(ServiceAction::ReloadDone(ReloadStatus::Success));
                }
            },
            ServiceStatus::Running => {
                if self.check_any_failed() {
                    self.state = ServiceStatus::Failed;
                }
            },
            ServiceStatus::Stopping => {
                if self.check_none_live() {
                    self.state = ServiceStatus::Stopped;
                    acts.push(ServiceAction::StopDone);
                }
            },
            _ => {},
        }
        assert(acts@ =~= acts0 + settle(old(self).state, old(self).slots@).1);
    }

    /// Appends the request for each live slot, in slot order.
    fn fan_out(&self, req: ProcessRequest, acts: &mut Vec<ServiceAction>)
        ensures
            final(acts)@ == old(acts)@ + fan_out(self.slots@, req, self.slots@.len() as int),
    {
        let ghost acts0 = acts@;
        let mut i: usize = 0;
        while i < self.slots.len()
            invariant
                i <= self.slots@.len(),
                acts@ == acts0 + fan_out(self.slots@, req, i as int),
            decreases self.slots@.len() - i,
        {
            if self.slots[i].pid >= 0 {
                acts.push(ServiceAction::Process(i, req));
            }
            i = i + 1;
            assert(acts@ =~= acts0 + fan_out(self.slots@, req, i as int));
        }
    }

    /// Creates the service and forks a worker for each of its `num` slots.
    pub fn start(name: String, num: usize) -> (r: (FeService, Vec<ServiceAction>))
        ensures
            r.0.name == name,
            r.0.slots@ == fresh_slots(num as nat),
            r.0.graceful,
            num > 0 ==> r.0.state == ServiceStatus::Starting && r.1@ == fork_all(num as int),
            num == 0 ==> r.0.state == ServiceStatus::Running && r.1@ == seq![
                ServiceAction::StartDone(StartStatus::Success),
            ],
    {
        let mut svc = FeService {
            name,
            state: ServiceStatus::Stopped,
            slots: Vec::new(),
            graceful: true,
        };
        let acts = svc.start_slots(num);
        (svc, acts)
    }

    /// Empties every slot and forks a worker for each.
    fn start_slots(&mut self, n: usize) -> (r: Vec<ServiceAction>)
        ensures
            final(self).name == old(self).name,
            final(self).graceful == old(self).graceful,
            final(self).slots@ == fresh_slots(n as nat),
            n > 0 ==> final(self).state == ServiceStatus::Starting && r@ == fork_all(n as int),
            n == 0 ==> final(self).state == ServiceStatus::Running && r@ == seq![
                ServiceAction::StartDone(StartStatus::Success),
            ],
    {
        let mut slots: Vec<Slot> = Vec::new();
        let mut acts: Vec<ServiceAction> = Vec::new();
        let mut i: usize = 0;
        while i < n
            invariant
                i <= n,
                slots@ == fresh_slots(i as nat),
                acts@ == fork_all(i as int),
            decreases n - i,
        {
            slots.push(Slot { pid: -1, state: SlotState::Starting });
            acts.push(ServiceAction::Fork(i));
            i = i + 1;
            assert(slots@ =~= fresh_slots(i as nat));
            assert(acts@ =~= fork_all(i as int));
        }
        self.slots = slots;
        self.state = ServiceStatus::Starting;
        if n == 0 {
            self.state = ServiceStatus::Running;
            acts.push(ServiceAction::StartDone(StartStatus::Success));
            assert(acts@ =~= seq![ServiceAction::StartDone(StartStatus::Success)]);
        }
        acts
    }

    /// Records the outcome of forking a worker for slot `idx`: the pid of
    /// the new worker, or -1 where the fork failed. A worker forked for a
    /// slot that has meanwhile been stopped is quit at once.
    pub fn forked(&mut self, idx: usize, pid: i32) -> (r: Vec<ServiceAction>)
        requires
            idx < old(self).slots@.len(),
            pid >= -1,
        ensures
            final(self).name == old(self).name,
            final(self).graceful == old(self).graceful,
            pid == -1 ==> ({
                let slots = old(self).slots@.update(idx as int, Slot { pid: -1i32, state: SlotState::Failed });
                &&& final(self).slots@ == slots
                &&& final(self).state == settle(old(self).state, slots).0
                &&& r@ == settle(old(self).state, slots).1
            }),
            pid >= 0 && old(self).slots@[idx as int].state == SlotState::Starting ==> final(self).slots@
                == old(self).slots@.update(idx as int, Slot { pid, state: SlotState::Starting })
                && final(self).state == old(self).state && r@ == Seq::<ServiceAction>::empty(),
            pid >= 0 && old(self).slots@[idx as int].state != SlotState::Starting ==> final(self).slots@
                == old(self).slots@.update(idx as int, Slot { pid, state: SlotState::Stopping })
                && final(self).state == old(self).state && r@ == seq![
                ServiceAction::Process(idx, ProcessRequest::Quit(false)),
            ],
    {
        let mut acts: Vec<ServiceAction> = Vec::new();
        if pid < 0 {
            self.slots[idx] = Slot { pid: -1, state: SlotState::Failed };
            self.settle(&mut acts);
        } else if self.slots[idx].state == SlotState::Starting {
            self.slots[idx] = Slot { pid, state: SlotState::Starting };
        } else {
            self.slots[idx] = Slot { pid, state: SlotState::Stopping };
            acts.push(ServiceAction::Process(idx, ProcessRequest::Quit(false)));
        }
        proof {
            if pid >= 0 && old(self).slots@[idx as int].state != SlotState::Starting {
                assert(acts@ =~= seq![ServiceAction::Process(idx, ProcessRequest::Quit(false))]);
            } else if pid >= 0 {
                assert(acts@ =~= Seq::<ServiceAction>::empty());
            } else {
                assert(acts@ =~= settle(old(self).state, final(self).slots@).1);
            }
        }
        acts
    }

    /// The worker of slot `idx` reports that it has loaded: it is told to
    /// start serving, and the service may reach `Running`.
    pub fn process_loaded(&mut self, idx: usize, pid: i32) -> (r: Vec<ServiceAction>)
        ensures
            final(self).name == old(self).name,
            final(self).graceful == old(self).graceful,
            idx < old(self).slots@.len() && pid >= 0 && old(self).slots@[idx as int] == (Slot {
                pid,
                state: SlotState::Starting,
            }) ==> ({
                let slots = old(self).slots@.update(idx as int, Slot { pid, state: SlotState::Running });
                &&& final(self).slots@ == slots
                &&& final(self).state == settle(old(self).state, slots).0
                &&& r@ == seq![ServiceAction::Process(idx, ProcessRequest::Start)] + settle(
                    old(self).state,
                    slots,
                ).1
            }),
            !(idx < old(self).slots@.len() && pid >= 0 && old(self).slots@[idx as int] == (Slot {
                pid,
                state: SlotState::Starting,
            })) ==> final(self).slots == old(self).slots && final(self).state == old(self).state && r@
                == Seq::<ServiceAction>::empty(),
    {
        let mut acts: Vec<ServiceAction> = Vec::new();
        if idx < self.slots.len() && pid >= 0 && self.slots[idx].pid == pid && self.slots[idx].state
            == SlotState::Starting {
            self.slots[idx] = Slot { pid, state: SlotState::Running };
            acts.push(ServiceAction::Process(idx, ProcessRequest::Start));
            self.settle(&mut acts);
        }
        acts
    }

    /// The supervisor of slot `idx` reports its worker failed. A permanent
    /// error fails the slot; any other has the supervisor quit, so that the
    /// worker is killed and started again when it is reaped.
    pub fn process_failed(&mut self, idx: usize, pid: i32, err: &ProcessError) -> (r: Vec<
        ServiceAction,
    >)
        ensures
            final(self).name == old(self).name,
            final(self).graceful == old(self).graceful,
            idx < old(self).slots@.len() && old(self).slots@[idx as int].pid == pid
                && err.spec_is_permanent() ==> ({
                let slots = old(self).slots@.update(idx as int, Slot { pid, state: SlotState::Failed });
                &&& final(self).slots@ == slots
                &&& final(self).state == settle(old(self).state, slots).0
                &&& r@ == settle(old(self).state, slots).1
            }),
            idx < old(self).slots@.len() && old(self).slots@[idx as int].pid == pid && pid >= 0
                && !err.spec_is_permanent() ==> final(self).slots == old(self).slots && final(self).state
                == old(self).state && r@ == seq![ServiceAction::Process(idx, ProcessRequest::Quit(false))],
            !(idx < old(self).slots@.len() && old(self).slots@[idx as int].pid == pid) || (pid < 0
                && !err.spec_is_permanent()) ==> final(self).slots == old(self).slots && final(self).state
                == old(self).state && r@ == Seq::<ServiceAction>::empty(),
    {
        let mut acts: Vec<ServiceAction> = Vec::new();
        if idx < self.slots.len() && self.slots[idx].pid == pid {
            if err.is_permanent() {
                self.slots[idx] = Slot { pid, state: SlotState::Failed };
                self.settle(&mut acts);
            } else if pid >= 0 {
                acts.push(ServiceAction::Process(idx, ProcessRequest::Quit(false)));
                assert(acts@ =~= seq![ServiceAction::Process(idx, ProcessRequest::Quit(false))]);
            }
        }
        proof {
            if !(idx < old(self).slots@.len() && old(self).slots@[idx as int].pid == pid) {
                assert(acts@ =~= Seq::<ServiceAction>::empty());
            }
            if idx < old(self).slots@.len() && old(self).slots@[idx as int].pid == pid && pid < 0
                && !err.spec_is_permanent() {
                assert(acts@ =~= Seq::<ServiceAction>::empty());
            }
            if idx < old(self).slots@.len() && old(self).slots@[idx as int].pid == pid
                && err.spec_is_permanent() {
                assert(acts@ =~= settle(old(self).state, final(self).slots@).1);
            }
        }
        acts
    }

    fn state_error(&self) -> (r: ServiceOperationError)
        ensures
            r == state_error(self.state),
    {
        match self.state {
            ServiceStatus::Starting => ServiceOperationError::Starting,
            ServiceStatus::Reloading => ServiceOperationError::Reloading,
            ServiceStatus::Stopping => ServiceOperationError::Stopping,
            ServiceStatus::Failed => ServiceOperationError::Failed,
            _ => ServiceOperationError::Stopped,
        }
    }

    fn find_pid(&self, pid: i32) -> (r: Option<usize>)
        ensures
            r matches Some(i) ==> slot_of(self.slots@, pid) == Some(i as int),
            r is None ==> slot_of(self.slots@, pid) is None,
    {
        if pid < 0 {
            return None;
        }
        let mut i: usize = 0;
        while i < self.slots.len()
            invariant
                i <= self.slots@.len(),
                pid >= 0,
                find_pid(self.slots@, pid, i as int) is None,
            decreases self.slots@.len() - i,
        {
            if self.slots[i].pid == pid {
                assert(find_pid(self.slots@, pid, i + 1) == Some(i as int));
                proof {
                    lemma_find_pid_stays(self.slots@, pid, i + 1, self.slots@.len() as int);
                }
                return Some(i);
            }
            i = i + 1;
        }
        None
    }

    /// A worker was reaped with `err`. The slot that held it is emptied,
    /// failed, or started again (see `after_exit`); the service may come to
    /// rest. A pid that no slot holds changes nothing.
    pub fn exited(&mut self, pid: i32, err: &ProcessError) -> (r: Vec<ServiceAction>)
        ensures
            exited_post(*old(self), *final(self), pid, *err, r@),
    {
        let mut acts: Vec<ServiceAction> = Vec::new();
        match self.find_pid(pid) {
            None => {
                assert(acts@ =~= Seq::<ServiceAction>::empty());
            },
            Some(i) => {
                proof {
                    lemma_find_pid_in_range(self.slots@, pid, self.slots@.len() as int);
                }
                let s = if self.state == ServiceStatus::Stopping || self.state == ServiceStatus::Stopped {
                    Slot { pid: -1, state: SlotState::Idle }
                } else if err.is_permanent() || self.slots[i].state == SlotState::Failed {
                    Slot { pid: -1, state: SlotState::Failed }
                } else if self.state == ServiceStatus::Failed {
                    Slot { pid: -1, state: SlotState::Idle }
                } else {
                    acts.push(ServiceAction::Fork(i));
                    Slot { pid: -1, state: SlotState::Starting }
                };
                self.slots[i] = s;
                let ghost acts0 = acts@;
                self.settle(&mut acts);
                assert(acts0 =~= (if s.state == SlotState::Starting {
                    seq![ServiceAction::Fork(i)]
                } else {
                    Seq::<ServiceAction>::empty()
                }));
            },
        }
        acts
    }

    /// Starts the service. A running service reports success at once; one
    /// that is starting is joined; one at rest with no worker left forks
    /// all its slots afresh. Any other state is an error.
    pub fn start_service(&mut self) -> (r: Result<Vec<ServiceAction>, ServiceOperationError>)
        ensures
            start_service_post(*old(self), *final(self), acts_view(r)),
    {
        match self.state {
            ServiceStatus::Running => {
                let mut acts: Vec<ServiceAction> = Vec::new();
                acts.push(ServiceAction::StartDone(StartStatus::Success));
                assert(acts@ =~= seq![ServiceAction::StartDone(StartStatus::Success)]);
                Ok(acts)
            },
            ServiceStatus::Starting => {
                let acts: Vec<ServiceAction> = Vec::new();
                assert(acts@ =~= Seq::<ServiceAction>::empty());
                Ok(acts)
            },
            ServiceStatus::Stopped | ServiceStatus::Failed => {
                if self.check_none_live() {
                    let n = self.slots.len();
                    Ok(self.start_slots(n))
                } else {
                    Err(self.state_error())
                }
            },
            _ => Err(self.state_error()),
        }
    }

    /// Marks live slots as stopping; with `clear`, empties the others.
    fn mark_stopping(&mut self, clear: bool)
        ensures
            final(self).name == old(self).name,
            final(self).graceful == old(self).graceful,
            final(self).state == old(self).state,
            clear ==> final(self).slots@ == stopping_slots(old(self).slots@),
            !clear ==> final(self).slots@ == reloading_slots(old(self).slots@),
    {
        let mut i: usize = 0;
        while i < self.slots.len()
            invariant
                i <= self.slots@.len(),
                self.slots@.len() == old(self).slots@.len(),
                self.name == old(self).name,
                self.graceful == old(self).graceful,
                self.state == old(self).state,
                forall|j: int| i <= j < self.slots@.len() ==> self.slots@[j] == old(self).slots@[j],
                clear ==> forall|j: int| 0 <= j < i ==> self.slots@[j] == stopping_slots(old(self).slots@)[j],
                !clear ==> forall|j: int| 0 <= j < i ==> self.slots@[j] == reloading_slots(old(self).slots@)[j],
            decreases self.slots@.len() - i,
        {
            let s = self.slots[i];
            if s.pid >= 0 {
                self.slots[i] = Slot { pid: s.pid, state: SlotState::Stopping };
            } else if clear {
                self.slots[i] = Slot { pid: -1, state: SlotState::Idle };
            }
            i = i + 1;
        }
        proof {
            if clear {
                assert(self.slots@ =~= stopping_slots(old(self).slots@));
            } else {
                assert(self.slots@ =~= reloading_slots(old(self).slots@));
            }
        }
    }

    /// Stops the service: an outstanding start resolves `Stopping`, an
    /// outstanding reload `Failed`, and every live worker is stopped
    /// (gracefully or not). A stopping service is joined; one at rest is
    /// an error.
    pub fn stop(&mut self, graceful: bool, reason: Reason) -> (r: Result<Vec<ServiceAction>, ServiceOperationError>)
        ensures
            stop_post(*old(self), *final(self), graceful, acts_view(r)),
    {
        match self.state {
            ServiceStatus::Stopped => {
                return Err(ServiceOperationError::Stopped);
            },
            ServiceStatus::Stopping => {
                let acts: Vec<ServiceAction> = Vec::new();
                assert(acts@ =~= Seq::<ServiceAction>::empty());
                return Ok(acts);
            },
            ServiceStatus::Failed => {
                if self.check_none_live() {
                    return Err(ServiceOperationError::Stopped);
                }
            },
            _ => {},
        }
        let mut acts: Vec<ServiceAction> = Vec::new();
        if self.state == ServiceStatus::Starting {
            acts.push(ServiceAction::StartDone(StartStatus::Stopping));
        } else if self.state == ServiceStatus::Reloading {
            acts.push(ServiceAction::ReloadDone(ReloadStatus::Failed));
        }
        let ghost pre = acts@;
        let req = if graceful {
            ProcessRequest::Stop
        } else {
            ProcessRequest::Quit(false)
        };
        self.fan_out(req, &mut acts);
        self.mark_stopping(true);
        self.state = ServiceStatus::Stopping;
        self.settle(&mut acts);
        proof {
            let p2 = if old(self).state == ServiceStatus::Starting {
                seq![ServiceAction::StartDone(StartStatus::Stopping)]
            } else if old(self).state == ServiceStatus::Reloading {
                seq![ServiceAction::ReloadDone(ReloadStatus::Failed)]
            } else {
                Seq::<ServiceAction>::empty()
            };
            assert(pre =~= p2);
        }
        Ok(acts)
    }

    /// Replaces every live worker: each is stopped (gracefully or not) and
    /// started again when it is reaped. A reload in flight is joined; a
    /// service that is not running cannot reload.
    pub fn reload(&mut self, graceful: bool) -> (r: Result<Vec<ServiceAction>, ServiceOperationError>)
        ensures
            reload_post(*old(self), *final(self), graceful, acts_view(r)),
    {
        match self.state {
            ServiceStatus::Running => {},
            ServiceStatus::Reloading => {
                let acts: Vec<ServiceAction> = Vec::new();
                assert(acts@ =~= Seq::<ServiceAction>::empty());
                return Ok(acts);
            },
            _ => {
                return Err(self.state_error());
            },
        }
        let mut acts: Vec<ServiceAction> = Vec::new();
        let req = if graceful {
            ProcessRequest::Stop
        } else {
            ProcessRequest::Quit(false)
        };
        self.fan_out(req, &mut acts);
        self.mark_stopping(false);
        self.state = ServiceStatus::Reloading;
        self.graceful = graceful;
        self.settle(&mut acts);
        assert(acts@ =~= fan_out(old(self).slots@, stop_request(graceful), old(self).slots@.len() as int)
            + settle(ServiceStatus::Reloading, reloading_slots(old(self).slots@)).1);
        Ok(acts)
    }

    /// Asks every live worker to pause; nothing else changes.
    pub fn pause(&self) -> (r: Vec<ServiceAction>)
        ensures
            r@ == fan_out(self.slots@, ProcessRequest::Pause, self.slots@.len() as int),
    {
        let mut acts: Vec<ServiceAction> = Vec::new();
        self.fan_out(ProcessRequest::Pause, &mut acts);
        assert(acts@ =~= fan_out(self.slots@, ProcessRequest::Pause, self.slots@.len() as int));
        acts
    }

    /// Asks every live worker to resume; nothing else changes.
    pub fn resume(&self) -> (r: Vec<ServiceAction>)
        ensures
            r@ == fan_out(self.slots@, ProcessRequest::Resume, self.slots@.len() as int),
    {
        let mut acts: Vec<ServiceAction> = Vec::new();
        self.fan_out(ProcessRequest::Resume, &mut acts);
        assert(acts@ =~= fan_out(self.slots@, ProcessRequest::Resume, self.slots@.len() as int));
        acts
    }

    /// The pids of the live workers, in slot order, as decimal text.
    pub fn pids(&self) -> (r: Vec<String>)
        ensures
            r@.len() == live_pids(self.slots@, self.slots@.len() as int).len(),
            forall|k: int|
                0 <= k < r@.len() ==> to_string_from_display_ensures::<i32>(
                    &live_pids(self.slots@, self.slots@.len() as int)[k],
                    #[trigger] r@[k],
                ),
    {
        let mut r: Vec<String> = Vec::new();
        let mut i: usize = 0;
        while i < self.slots.len()
            invariant
                i <= self.slots@.len(),
                r@.len() == live_pids(self.slots@, i as int).len(),
                forall|k: int|
                    0 <= k < r@.len() ==> to_string_from_display_ensures::<i32>(
                        &live_pids(self.slots@, i as int)[k],
                        #[trigger] r@[k],
                    ),
            decreases self.slots@.len() - i,
        {
            let pid = self.slots[i].pid;
            if pid >= 0 {
                let text = pid.to_string();
                r.push(text);
            }
            i = i + 1;
        }
        r
    }

    /// A worker asks for a reload of itself (its slot is stopped and started
    /// again when reaped) or for a restart of the whole service (a graceful
    /// reload). Requests from a worker that no longer holds its slot, and a
    /// restart that the service's state refuses, change nothing.
    pub fn process_message(&mut self, idx: usize, pid: i32, msg: &WorkerMessage) -> (r: Vec<ServiceAction>)
        ensures
            final(self).name == old(self).name,
            ({
                let holds = idx < old(self).slots@.len() && pid >= 0 && old(self).slots@[idx as int].pid == pid;
                &&& holds && *msg is Reload ==> final(self).slots@ == old(self).slots@.update(
                    idx as int,
                    Slot { pid, state: SlotState::Stopping },
                ) && final(self).state == old(self).state && final(self).graceful == old(self).graceful && r@
                    == seq![ServiceAction::Process(idx, ProcessRequest::Stop)]
                &&& holds && *msg is Restart && old(self).state == ServiceStatus::Running ==> {
                    let slots = reloading_slots(old(self).slots@);
                    &&& final(self).slots@ == slots
                    &&& final(self).state == settle(ServiceStatus::Reloading, slots).0
                    &&& r@ == fan_out(old(self).slots@, ProcessRequest::Stop, old(self).slots@.len() as int)
                        + settle(ServiceStatus::Reloading, slots).1
                }
                &&& !(holds && (*msg is Reload || (*msg is Restart && old(self).state == ServiceStatus::Running)))
                    ==> final(self).slots == old(self).slots && final(self).state == old(self).state && r@
                    == Seq::<ServiceAction>::empty()
            }),
    {
        let holds = idx < self.slots.len() && pid >= 0 && self.slots[idx].pid == pid;
        if holds {
            match msg {
                WorkerMessage::Reload => {
                    self.slots[idx] = Slot { pid, state: SlotState::Stopping };
                    let mut acts: Vec<ServiceAction> = Vec::new();
                    acts.push(ServiceAction::Process(idx, ProcessRequest::Stop));
                    assert(acts@ =~= seq![ServiceAction::Process(idx, ProcessRequest::Stop)]);
                    return acts;
                },
                WorkerMessage::Restart => {
                    if self.state == ServiceStatus::Running {
                        match self.reload(true) {
                            Ok(acts) => {
                                return acts;
                            },
                            Err(_) => {},
                        }
                    }
                },
                _ => {},
            }
        }
        let acts: Vec<ServiceAction> = Vec::new();
        assert(acts@ =~= Seq::<ServiceAction>::empty());
        acts
    }

    pub fn status(&self) -> (r: ServiceStatus)
        ensures
            r == self.state,
    {
        self.state
    }

    /// Whether the service has come to rest with no worker left.
    pub fn is_stopped(&self) -> (r: bool)
        ensures
            r == self.spec_is_stopped(),
    {
        (self.state == ServiceStatus::Stopped || self.state == ServiceStatus::Failed) && self.check_none_live()
    }
}

/// The pids of the live slots among the first `n`, in slot order.
pub open spec fn live_pids(slots: Seq<Slot>, n: int) -> Seq<i32>
    decreases n,
{
    if n <= 0 {
        Seq::empty()
    } else if live(slots[n - 1]) {
        live_pids(slots, n - 1).push(slots[n - 1].pid)
    } else {
        live_pids(slots, n - 1)
    }
}

proof fn lemma_find_pid_stays(slots: Seq<Slot>, pid: i32, n: int, m: int)
    requires
        find_pid(slots, pid, n) is Some,
        n <= m,
    ensures
        find_pid(slots, pid, m) == find_pid(slots, pid, n),
    decreases m - n,
{
    if n < m {
        lemma_find_pid_stays(slots, pid, n, m - 1);
    }
}

proof fn lemma_find_pid_in_range(slots: Seq<Slot>, pid: i32, n: int)
    ensures
        find_pid(slots, pid, n) matches Some(i) ==> 0 <= i < n && slots[i].pid == pid,
    decreases n,
{
    if n > 0 {
        lemma_find_pid_in_range(slots, pid, n - 1);
    }
}

/// Whether every fork among the actions is for a slot of `slots` that has
/// no worker.
pub open spec fn forks_only_empty_slots(acts: Seq<ServiceAction>, slots: Seq<Slot>) -> bool {
    forall|k: int|
        0 <= k < acts.len() ==> (#[trigger] acts[k] matches ServiceAction::Fork(i) ==> i < slots.len() && !live(
            slots[i as int],
        ))
}

proof fn lemma_settle_forks_nothing(state: ServiceStatus, slots: Seq<Slot>)
    ensures
        forall|k: int| 0 <= k < settle(state, slots).1.len() ==> !(#[trigger] settle(state, slots).1[k] is Fork),
{
}

/// A service asks for a worker only for a slot that has none, so that a
/// slot never hosts two workers: the forks of a reaped worker's slot, and
/// of a start, are all for empty slots.
pub proof fn lemma_one_worker_per_slot(
    o: FeService,
    n: FeService,
    pid: i32,
    err: ProcessError,
    r: Seq<ServiceAction>,
    sr: Result<Seq<ServiceAction>, ServiceOperationError>,
    m: FeService,
)
    requires
        o.slots@.len() <= usize::MAX,
    ensures
        exited_post(o, n, pid, err, r) ==> forks_only_empty_slots(r, n.slots@),
        start_service_post(o, m, sr) ==> (sr matches Ok(a) ==> forks_only_empty_slots(a, m.slots@)),
{
    if exited_post(o, n, pid, err, r) {
        if let Some(i) = slot_of(o.slots@, pid) {
            lemma_find_pid_in_range(o.slots@, pid, o.slots@.len() as int);
            let s = after_exit(o.state, o.slots@[i], err);
            let slots = o.slots@.update(i, s);
            let rest = settle(o.state, slots).1;
            let restart = if s.state == SlotState::Starting {
                seq![ServiceAction::Fork(i as usize)]
            } else {
                Seq::<ServiceAction>::empty()
            };
            lemma_settle_forks_nothing(o.state, slots);
            assert(r == restart + rest);
            assert(n.slots@[i] == s);
            assert forall|k: int| 0 <= k < r.len() implies (#[trigger] r[k] matches ServiceAction::Fork(j) ==> j
                < n.slots@.len() && !live(n.slots@[j as int])) by {
                if k < restart.len() {
                    assert(r[k] == ServiceAction::Fork(i as usize));
                    assert((i as usize) as int == i);
                } else {
                    assert(r[k] == rest[k - restart.len()]);
                    assert(!(settle(o.state, slots).1[k - restart.len()] is Fork));
                }
            }
        } else {
            assert(r.len() == 0);
        }
    }
    if start_service_post(o, m, sr) {
        if sr is Ok {
            assert(forall|k: int| 0 <= k < fork_all(o.slots@.len() as int).len() ==> (#[trigger] fork_all(
                o.slots@.len() as int,
            )[k]) == ServiceAction::Fork(k as usize));
        }
    }
}

} // verus!
