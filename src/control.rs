//! The control plane: requests an operator sends to the master, the
//! responses it gets, and how the master routes a request to a service.
use vstd::prelude::*;

use crate::config::ServiceConfig;
use crate::event::{last_n, Event, Reason, EVENTS_CAPACITY};
use crate::service::{
    busy_with, Busy, derived_state, fan_out, serving_pids, tagged, Op, Service, ServiceState, SlotAction,
};
use crate::worker::{exited_step, loaded_step, message_step, ProcessError, Step, WorkerMessage, WorkerState};

verus! {

/// Requests of a control client.
#[derive(Clone, Debug, PartialEq, Eq)]
pub enum MasterRequest {
    Ping,
    Pid,
    Version,
    Quit,
    Status(String),
    SPid(String),
    Start(String),
    Pause(String),
    Resume(String),
    Reload(String),
    Restart(String),
    Stop(String),
}

/// Responses of the master.
#[derive(Clone, Debug, PartialEq, Eq)]
pub enum MasterResponse {
    Pong,
    Done,
    Pid(i32),
    Version(String),
    ServiceStarted,
    ServiceStopped,
    ServiceFailed,
    ServiceStatus(ServiceState, Vec<(usize, Vec<Event>)>),
    /// Slot and id of each serving child.
    ServiceWorkerPids(Vec<(usize, u64)>),
    ErrorNotReady,
    ErrorUnknownService,
    ErrorServiceStarting,
    ErrorServiceReloading,
    ErrorServiceStopping,
}

/// What became of a request.
#[derive(Debug, PartialEq, Eq)]
pub enum Dispatch {
    /// Answer at once with this response.
    Reply(MasterResponse),
    /// The operation was applied to the service with this index; carry out
    /// the actions, and answer with `Master::outcome` once it has settled.
    Applied(usize, Op, Vec<SlotAction>),
    /// The master is asked to shut down.
    Shutdown,
}

/// The service a request names, if it names one.
pub open spec fn named(req: MasterRequest) -> Option<Seq<char>> {
    match req {
        MasterRequest::Status(n) | MasterRequest::SPid(n) | MasterRequest::Start(n)
        | MasterRequest::Pause(n) | MasterRequest::Resume(n) | MasterRequest::Reload(n)
        | MasterRequest::Restart(n) | MasterRequest::Stop(n) => Some(n@),
        _ => None,
    }
}

/// The operation a request asks of a service, if it asks one.
pub open spec fn requested_op(req: MasterRequest) -> Option<Op> {
    match req {
        MasterRequest::Start(_) => Some(Op::Start(Reason::ConsoleRequest)),
        MasterRequest::Pause(_) => Some(Op::Pause(Reason::ConsoleRequest)),
        MasterRequest::Resume(_) => Some(Op::Resume(Reason::ConsoleRequest)),
        MasterRequest::Reload(_) => Some(Op::Reload(true, Reason::ConsoleRequest)),
        MasterRequest::Restart(_) => Some(Op::Reload(false, Reason::ConsoleRequest)),
        MasterRequest::Stop(_) => Some(Op::Stop(Reason::ConsoleRequest)),
        _ => None,
    }
}

/// The error for a request that meets a service busy with `b`.
pub open spec fn busy_error(b: Busy) -> MasterResponse {
    match b {
        Busy::Starting => MasterResponse::ErrorServiceStarting,
        Busy::Reloading => MasterResponse::ErrorServiceReloading,
        Busy::Stopping => MasterResponse::ErrorServiceStopping,
    }
}

/// The error a service in state `st`, busy with `busy`, answers the
/// operation `op` with, if it refuses it. A stop is always taken. A start
/// is refused while the service stops; a reload or restart while any slot
/// is in the middle of a transition; a pause or resume likewise, and also
/// unless the service serves or is paused.
pub open spec fn refusal(op: Op, st: ServiceState, busy: Option<Busy>) -> Option<MasterResponse> {
    match op {
        Op::Stop(_) | Op::Quit(_) => None,
        Op::Start(_) => if busy == Some(Busy::Stopping) {
            Some(MasterResponse::ErrorServiceStopping)
        } else {
            None
        },
        Op::Reload(_, _) => match busy {
            Some(b) => Some(busy_error(b)),
            None => None,
        },
        Op::Pause(_) | Op::Resume(_) => match busy {
            Some(b) => Some(busy_error(b)),
            None => if st == ServiceState::Running || st == ServiceState::Paused {
                None
            } else {
                Some(MasterResponse::ErrorNotReady)
            },
        },
    }
}

/// The final answer to `op` on a service now in state `st`, or `None`
/// while the service has not settled.
pub open spec fn settled(op: Op, st: ServiceState) -> Option<MasterResponse> {
    match op {
        Op::Start(_) => match st {
            ServiceState::Running | ServiceState::Paused => Some(MasterResponse::ServiceStarted),
            ServiceState::Failed => Some(MasterResponse::ServiceFailed),
            _ => None,
        },
        Op::Stop(_) | Op::Quit(_) => match st {
            ServiceState::Stopped => Some(MasterResponse::ServiceStopped),
            _ => None,
        },
        Op::Reload(_, _) => match st {
            ServiceState::Running | ServiceState::Paused => Some(MasterResponse::Done),
            ServiceState::Failed => Some(MasterResponse::ServiceFailed),
            _ => None,
        },
        Op::Pause(_) | Op::Resume(_) => Some(MasterResponse::Done),
    }
}

/// `i` is the first service in `ss` named `n`.
pub open spec fn first_index(ss: Seq<Service>, n: Seq<char>, i: int) -> bool {
    &&& 0 <= i < ss.len()
    &&& ss[i].config().name@ == n
    &&& forall|j: int| 0 <= j < i ==> (#[trigger] ss[j]).config().name@ != n
}

/// `after` is `before` with the operation `op` applied to its service `i`.
pub open spec fn applied_to(before: Master, after: Master, i: int, op: Op, now: u64) -> bool {
    let s = before.services()[i];
    let t = after.services()[i];
    &&& after.services().len() == before.services().len()
    &&& forall|j: int| 0 <= j < before.services().len() && j != i ==> (#[trigger] after.services()[j])
        == before.services()[j]
    &&& t.wf()
    &&& t.config() == s.config()
    &&& t.slots().len() == s.slots().len()
    &&& forall|k: int| 0 <= k < s.slots().len() ==> (#[trigger] t.slots()[k]) == crate::service::op_step(
        s.slots()[k],
        op,
        now,
    ).0
    &&& t.is_paused() == (op is Pause)
}

/// `after` is `before` where slot `slot` of service `i` took the step `st`,
/// and `r` are the actions of that step.
pub open spec fn slot_stepped(
    before: Master,
    after: Master,
    i: int,
    slot: int,
    st: Step,
    r: Seq<SlotAction>,
) -> bool {
    let s = before.services()[i];
    let t = after.services()[i];
    &&& after.services().len() == before.services().len()
    &&& forall|j: int| 0 <= j < before.services().len() && j != i ==> (#[trigger] after.services()[j])
        == before.services()[j]
    &&& t.wf()
    &&& t.config() == s.config()
    &&& t.is_paused() == s.is_paused()
    &&& t.slots() == s.slots().update(slot, st.0)
    &&& r == tagged(slot as usize, st.1)
}

/// How a request naming the service `i` of `before` is answered, and what
/// it changes.
pub open spec fn routed(
    before: Master,
    after: Master,
    req: MasterRequest,
    i: int,
    r: Dispatch,
    now: u64,
) -> bool {
    let s = before.services()[i];
    let st = derived_state(s.slots(), s.is_paused());
    match requested_op(req) {
        None => {
            &&& after == before
            &&& match req {
                MasterRequest::Status(_) => {
                    &&& r is Reply
                    &&& r->Reply_0 is ServiceStatus
                    &&& r->Reply_0->ServiceStatus_0 == st
                    &&& r->Reply_0->ServiceStatus_1@.len() == s.slots().len()
                    &&& forall|k: int| 0 <= k < s.slots().len() ==> (#[trigger] r->Reply_0->ServiceStatus_1@[k]).0
                        == k && r->Reply_0->ServiceStatus_1@[k].1@ == last_n(
                        s.slots()[k].log,
                        EVENTS_CAPACITY as nat,
                    )
                },
                MasterRequest::SPid(_) => if st == ServiceState::Running {
                    &&& r is Reply
                    &&& r->Reply_0 is ServiceWorkerPids
                    &&& r->Reply_0->ServiceWorkerPids_0@ == serving_pids(s.slots())
                } else {
                    r == Dispatch::Reply(MasterResponse::ErrorNotReady)
                },
                _ => true,
            }
        },
        Some(op) => if refusal(op, st, busy_with(s.slots())) is Some {
            r == Dispatch::Reply(refusal(op, st, busy_with(s.slots()))->Some_0) && after == before
        } else if !s.can_spawn() {
            r == Dispatch::Reply(MasterResponse::ErrorNotReady) && after == before
        } else {
            &&& r is Applied
            &&& r->Applied_0 == i
            &&& r->Applied_1 == op
            &&& r->Applied_2@ == fan_out(s.slots(), op, now)
            &&& applied_to(before, after, i, op, now)
        },
    }
}

/// `s` is a service just built from `cfg` at `now`: one slot per configured
/// worker, each never started, with an empty history and a full budget.
pub open spec fn fresh_service(s: Service, cfg: ServiceConfig, now: u64) -> bool {
    &&& s.config() == cfg
    &&& s.can_spawn()
    &&& !s.is_paused()
    &&& s.slots().len() == cfg.num
    &&& forall|k: int| 0 <= k < cfg.num ==> (#[trigger] s.slots()[k]).state == WorkerState::Initial
        && s.slots()[k].restarts == 0 && s.slots()[k].max_restarts == cfg.restarts
        && s.slots()[k].log.len() == 0 && !s.slots()[k].restore_from_fail
        && s.slots()[k].started == now && s.slots()[k].next_id == 0
}

/// The services of a master, by name.
pub struct Master {
    services: Vec<Service>,
}

impl Master {
    pub closed spec fn services(&self) -> Seq<Service> {
        self.services@
    }

    pub open spec fn wf(&self) -> bool {
        forall|i: int| 0 <= i < self.services().len() ==> (#[trigger] self.services()[i]).wf()
    }

    /// No service has the name `n`.
    pub open spec fn unknown(&self, n: Seq<char>) -> bool {
        forall|i: int| 0 <= i < self.services().len() ==> (#[trigger] self.services()[i]).config().name@
            != n
    }

    /// A master over one fresh service for each configuration, in order:
    /// each has one slot per configured worker, none of them started yet.
    pub fn new(cfgs: Vec<ServiceConfig>, now: u64) -> (r: Master)
        ensures
            r.wf(),
            r.services().len() == cfgs@.len(),
            forall|i: int| 0 <= i < cfgs@.len() ==> fresh_service(#[trigger] r.services()[i], cfgs@[i], now),
    {
        let mut services: Vec<Service> = Vec::new();
        let mut rest = cfgs;
        let n: usize = rest.len();
        let ghost all = rest@;
        let mut i: usize = 0;
        while rest.len() > 0
            invariant
                i <= all.len(),
                rest@ == all.subrange(i as int, all.len() as int),
                all.len() == n,
                services@.len() == i,
                forall|j: int| 0 <= j < i ==> fresh_service(#[trigger] services@[j], all[j], now)
                    && services@[j].wf(),
            decreases rest@.len(),
        {
            let c = rest.remove(0);
            services.push(Service::new(c, now));
            i = i + 1;
            assert(rest@ =~= all.subrange(i as int, all.len() as int));
        }
        Master { services }
    }

    /// Number of services.
    pub fn len(&self) -> (r: usize)
        ensures
            r == self.services().len(),
    {
        self.services.len()
    }

    /// The service with index `i`.
    pub fn service(&self, i: usize) -> (r: &Service)
        requires
            i < self.services().len(),
        ensures
            *r == self.services()[i as int],
    {
        &self.services[i]
    }

    /// The index of the first service named `name`.
    pub fn find(&self, name: &String) -> (r: Option<usize>)
        ensures
            r is None ==> self.unknown(name@),
            r is Some ==> first_index(self.services(), name@, r->Some_0 as int),
    {
        let mut i: usize = 0;
        while i < self.services.len()
            invariant
                i <= self.services@.len(),
                forall|j: int| 0 <= j < i ==> (#[trigger] self.services@[j]).config().name@ != name@,
            decreases self.services@.len() - i,
        {
            if self.services[i].name().eq(name) {
                return Some(i);
            }
            i = i + 1;
        }
        None
    }

    /// The operation a request asks of a service, if any.
    fn op_of(req: &MasterRequest) -> (r: Option<Op>)
        ensures
            r == requested_op(*req),
    {
        match req {
            MasterRequest::Start(_) => Some(Op::Start(Reason::ConsoleRequest)),
            MasterRequest::Pause(_) => Some(Op::Pause(Reason::ConsoleRequest)),
            MasterRequest::Resume(_) => Some(Op::Resume(Reason::ConsoleRequest)),
            MasterRequest::Reload(_) => Some(Op::Reload(true, Reason::ConsoleRequest)),
            MasterRequest::Restart(_) => Some(Op::Reload(false, Reason::ConsoleRequest)),
            MasterRequest::Stop(_) => Some(Op::Stop(Reason::ConsoleRequest)),
            _ => None,
        }
    }

    /// Why a service in state `st`, busy with `busy`, refuses `op`.
    fn refuse(op: Op, st: ServiceState, busy: Option<Busy>) -> (r: Option<MasterResponse>)
        ensures
            r == refusal(op, st, busy),
    {
        let busy_err = match busy {
            Some(Busy::Starting) => Some(MasterResponse::ErrorServiceStarting),
            Some(Busy::Reloading) => Some(MasterResponse::ErrorServiceReloading),
            Some(Busy::Stopping) => Some(MasterResponse::ErrorServiceStopping),
            None => None,
        };
        match op {
            Op::Stop(_) | Op::Quit(_) => None,
            Op::Start(_) => match busy {
                Some(Busy::Stopping) => Some(MasterResponse::ErrorServiceStopping),
                _ => None,
            },
            Op::Reload(_, _) => busy_err,
            Op::Pause(_) | Op::Resume(_) => match busy_err {
                Some(e) => Some(e),
                None => if st == ServiceState::Running || st == ServiceState::Paused {
                    None
                } else {
                    Some(MasterResponse::ErrorNotReady)
                },
            },
        }
    }

    /// Answers or applies a request that names the service `i`.
    fn route(&mut self, req: &MasterRequest, i: usize, now: u64) -> (r: Dispatch)
        requires
            old(self).wf(),
            i < old(self).services().len(),
        ensures
            final(self).wf(),
            routed(*old(self), *final(self), *req, i as int, r, now),
    {
        let st = self.services[i].state();
        match Master::op_of(req) {
            None => match req {
                MasterRequest::Status(_) => {
                    Dispatch::Reply(MasterResponse::ServiceStatus(st, self.services[i].status()))
                },
                MasterRequest::SPid(_) => if st == ServiceState::Running {
                    Dispatch::Reply(MasterResponse::ServiceWorkerPids(self.services[i].pids()))
                } else {
                    Dispatch::Reply(MasterResponse::ErrorNotReady)
                },
                _ => Dispatch::Reply(MasterResponse::ErrorNotReady),
            },
            Some(op) => match Master::refuse(op, st, self.services[i].busy()) {
                Some(err) => Dispatch::Reply(err),
                None => if !self.services[i].spawn_room() {
                    Dispatch::Reply(MasterResponse::ErrorNotReady)
                } else {
                    let acts = self.services[i].apply(op, now);
                    Dispatch::Applied(i, op, acts)
                },
            },
        }
    }

    /// Handles one control request: the master's own questions are
    /// answered at once, a request for an unknown service is refused with
    /// no change, and the rest is routed to the first service of that name.
    pub fn handle(&mut self, req: &MasterRequest, master_pid: i32, version: &String, now: u64) -> (r: Dispatch)
        requires
            old(self).wf(),
        ensures
            final(self).wf(),
            named(*req) is None ==> *final(self) == *old(self) && match *req {
                MasterRequest::Ping => r == Dispatch::Reply(MasterResponse::Pong),
                MasterRequest::Pid => r == Dispatch::Reply(MasterResponse::Pid(master_pid)),
                MasterRequest::Version => r is Reply && r->Reply_0 is Version
                    && r->Reply_0->Version_0@ == version@,
                _ => r is Shutdown,
            },
            named(*req) is Some && old(self).unknown(named(*req)->Some_0) ==> r == Dispatch::Reply(
                MasterResponse::ErrorUnknownService,
            ) && *final(self) == *old(self),
            forall|i: int| named(*req) is Some && first_index(old(self).services(), named(*req)->Some_0, i)
                ==> #[trigger] routed(*old(self), *final(self), *req, i, r, now),
    {
        let name = match req {
            MasterRequest::Ping => {
                return Dispatch::Reply(MasterResponse::Pong);
            },
            MasterRequest::Pid => {
                return Dispatch::Reply(MasterResponse::Pid(master_pid));
            },
            MasterRequest::Version => {
                return Dispatch::Reply(MasterResponse::Version(version.clone()));
            },
            MasterRequest::Quit => {
                return Dispatch::Shutdown;
            },
            MasterRequest::Status(n) | MasterRequest::SPid(n) | MasterRequest::Start(n)
            | MasterRequest::Pause(n) | MasterRequest::Resume(n) | MasterRequest::Reload(n)
            | MasterRequest::Restart(n) | MasterRequest::Stop(n) => n,
        };
        match self.find(name) {
            None => Dispatch::Reply(MasterResponse::ErrorUnknownService),
            Some(i) => {
                let r = self.route(req, i, now);
                proof {
                    assert forall|j: int| named(*req) is Some && first_index(old(self).services(), named(*req)->Some_0, j)
                        implies #[trigger] routed(*old(self), *final(self), *req, j, r, now) by {
                        if j < i {
                            assert(old(self).services()[j].config().name@ != name@);
                        } else if j > i {
                            assert(old(self).services()[i as int].config().name@ != name@);
                        }
                    }
                }
                r
            },
        }
    }

    /// The child `pid` of slot `slot` of service `i` reported that it loaded.
    pub fn loaded(&mut self, i: usize, slot: usize, pid: u64, now: u64) -> (r: Vec<SlotAction>)
        requires
            old(self).wf(),
            i < old(self).services().len(),
            slot < old(self).services()[i as int].slots().len(),
        ensures
            final(self).wf(),
            slot_stepped(
                *old(self),
                *final(self),
                i as int,
                slot as int,
                loaded_step(old(self).services()[i as int].slots()[slot as int], pid, now),
                r@,
            ),
    {
        let r = self.services[i].loaded(slot, pid, now);
        r
    }

    /// The child `pid` of slot `slot` of service `i` exited for `err`.
    pub fn exited(&mut self, i: usize, slot: usize, pid: u64, err: &ProcessError, now: u64) -> (r: Vec<
        SlotAction,
    >)
        requires
            old(self).wf(),
            i < old(self).services().len(),
            slot < old(self).services()[i as int].slots().len(),
            old(self).services()[i as int].slots()[slot as int].next_id < u64::MAX,
        ensures
            final(self).wf(),
            slot_stepped(
                *old(self),
                *final(self),
                i as int,
                slot as int,
                exited_step(old(self).services()[i as int].slots()[slot as int], pid, *err, now),
                r@,
            ),
    {
        let r = self.services[i].exited(slot, pid, err, now);
        r
    }

    /// A message from the child `pid` of slot `slot` of service `i`.
    pub fn message(&mut self, i: usize, slot: usize, pid: u64, msg: &WorkerMessage, now: u64) -> (r: Vec<
        SlotAction,
    >)
        requires
            old(self).wf(),
            i < old(self).services().len(),
            slot < old(self).services()[i as int].slots().len(),
            old(self).services()[i as int].slots()[slot as int].next_id < u64::MAX,
        ensures
            final(self).wf(),
            slot_stepped(
                *old(self),
                *final(self),
                i as int,
                slot as int,
                message_step(old(self).services()[i as int].slots()[slot as int], pid, *msg, now),
                r@,
            ),
    {
        let r = self.services[i].message(slot, pid, msg, now);
        r
    }

    /// The final answer to `op` on the service `i`, once it has settled.
    pub fn outcome(&self, i: usize, op: Op) -> (r: Option<MasterResponse>)
        requires
            self.wf(),
            i < self.services().len(),
        ensures
            r == settled(op, derived_state(self.services()[i as int].slots(), self.services()[i as int].is_paused())),
    {
        let st = self.services[i].state();
        match op {
            Op::Start(_) => match st {
                ServiceState::Running | ServiceState::Paused => Some(MasterResponse::ServiceStarted),
                ServiceState::Failed => Some(MasterResponse::ServiceFailed),
                _ => None,
            },
            Op::Stop(_) | Op::Quit(_) => match st {
                ServiceState::Stopped => Some(MasterResponse::ServiceStopped),
                _ => None,
            },
            Op::Reload(_, _) => match st {
                ServiceState::Running | ServiceState::Paused => Some(MasterResponse::Done),
                ServiceState::Failed => Some(MasterResponse::ServiceFailed),
                _ => None,
            },
            Op::Pause(_) | Op::Resume(_) => Some(MasterResponse::Done),
        }
    }
}

} // verus!
