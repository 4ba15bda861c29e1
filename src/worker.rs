//! The per-slot worker supervisor: a state machine over at most two child
//! processes. Each transition returns the commands that the caller must carry
//! out on the children (spawning one, or sending it a lifecycle command), so
//! the decisions are made here and the process work is done by the caller.
use vstd::prelude::*;

use crate::config::ServiceConfig;
use crate::event::{Event, Events, Reason, State, EVENTS_CAPACITY};

verus! {

/// A child that exits cleanly after this many milliseconds in `Starting` is
/// not counted against the restart budget.
pub const STARTING_DEBOUNCE_MS: u64 = 10000;

/// The same allowance for the new child of a reload or a restart.
pub const RELOADING_DEBOUNCE_MS: u64 = 3000;

/// Commands the master sends to a worker over its pipe.
#[allow(non_camel_case_types)]
#[derive(Clone, Copy, Debug, PartialEq, Eq, Structural)]
pub enum WorkerCommand {
    prepare,
    start,
    pause,
    resume,
    stop,
    /// master heartbeat
    hb,
}

/// Messages a worker sends to the master over its pipe.
#[allow(non_camel_case_types)]
#[derive(Clone, Debug, PartialEq, Eq)]
pub enum WorkerMessage {
    /// ready to execute worker in forked process
    forked,
    /// worker loaded
    loaded,
    /// worker requests reload
    reload,
    /// worker requests restart
    restart,
    /// worker configuration error
    cfgerror(String),
    /// heartbeat
    hb,
}

/// Why a child went away.
#[derive(Clone, Debug, PartialEq, Eq)]
pub enum ProcessError {
    ExitCode(i32),
    Signaled(i32),
    StartupTimeout,
    HeartbeatFailed,
    ConfigError(String),
    PipeError,
}

/// The reason recorded for an exit.
pub open spec fn exit_reason(err: ProcessError) -> Reason {
    match err {
        ProcessError::ExitCode(c) => Reason::ExitCode(c),
        ProcessError::Signaled(s) => Reason::Signal(s),
        ProcessError::StartupTimeout => Reason::StartupTimeout,
        ProcessError::HeartbeatFailed => Reason::HeartbeatFailed,
        ProcessError::ConfigError(_) => Reason::ConfigError,
        ProcessError::PipeError => Reason::PipeError,
    }
}

impl ProcessError {
    /// The reason recorded in the event log for this exit.
    pub fn reason(&self) -> (r: Reason)
        ensures
            r == exit_reason(*self),
    {
        match self {
            ProcessError::ExitCode(c) => Reason::ExitCode(*c),
            ProcessError::Signaled(s) => Reason::Signal(*s),
            ProcessError::StartupTimeout => Reason::StartupTimeout,
            ProcessError::HeartbeatFailed => Reason::HeartbeatFailed,
            ProcessError::ConfigError(_) => Reason::ConfigError,
            ProcessError::PipeError => Reason::PipeError,
        }
    }
}

/// What the caller must do with a child after a transition.
#[derive(Clone, Copy, Debug, PartialEq, Eq, Structural)]
pub enum Action {
    /// Fork a new child for this slot and know it from now on by this id.
    Spawn(u64),
    /// Tell the loaded child to start serving.
    Start(u64),
    /// Ask the child to stop gracefully.
    Stop(u64),
    /// Terminate the child: gracefully (stop, then a signal after the
    /// shutdown timeout) or at once.
    Quit(u64, bool),
    Pause(u64),
    Resume(u64),
}

/// One child known to the supervisor, by the id it was spawned under.
#[derive(Clone, Copy, Debug, PartialEq, Eq, Structural)]
pub struct ProcessInfo {
    pub pid: u64,
}

/// The state of a worker slot. Two-process states hold the new child first.
#[derive(Clone, Copy, Debug, PartialEq, Eq, Structural)]
pub enum WorkerState {
    Initial,
    Starting(ProcessInfo),
    Reloading(ProcessInfo, ProcessInfo),
    Restarting(ProcessInfo, ProcessInfo),
    Running(ProcessInfo),
    StoppingOld(ProcessInfo, ProcessInfo),
    Stopping(ProcessInfo),
    Failed,
    Stopped,
}

/// The ids of the children a state holds, new child first.
pub open spec fn held_pids(s: WorkerState) -> Seq<u64> {
    match s {
        WorkerState::Starting(c) => seq![c.pid],
        WorkerState::Running(c) => seq![c.pid],
        WorkerState::Stopping(c) => seq![c.pid],
        WorkerState::Reloading(n, o) => seq![n.pid, o.pid],
        WorkerState::Restarting(n, o) => seq![n.pid, o.pid],
        WorkerState::StoppingOld(n, o) => seq![n.pid, o.pid],
        _ => Seq::empty(),
    }
}

/// The state is one where an old and a new child overlap.
pub open spec fn is_overlap(s: WorkerState) -> bool {
    match s {
        WorkerState::Reloading(_, _) | WorkerState::Restarting(_, _)
        | WorkerState::StoppingOld(_, _) => true,
        _ => false,
    }
}

/// What the transitions read and change of a worker slot.
pub struct WorkerModel {
    pub state: WorkerState,
    pub restarts: u16,
    pub max_restarts: u16,
    pub restore_from_fail: bool,
    pub started: u64,
    pub next_id: u64,
    /// Every event the slot recorded, oldest first.
    pub log: Seq<Event>,
}

/// Outcome of a transition: the next model and the actions, in order.
pub type Step = (WorkerModel, Seq<Action>);

pub open spec fn ev(now: u64, state: State, reason: Reason, pid: Option<u64>) -> Event {
    Event { timestamp: now, state, reason, pid }
}

pub open spec fn log_event(m: WorkerModel, e: Event) -> WorkerModel {
    WorkerModel { log: m.log.push(e), ..m }
}

pub open spec fn with_state(m: WorkerModel, s: WorkerState) -> WorkerModel {
    WorkerModel { state: s, ..m }
}

/// The restart counter after one more failure; it stops at the type's bound.
pub open spec fn bumped(r: u16) -> u16 {
    if r < u16::MAX {
        (r + 1) as u16
    } else {
        r
    }
}

/// More than `limit` milliseconds passed from `since` to `now`.
pub open spec fn elapsed_over(since: u64, now: u64, limit: u64) -> bool {
    now >= since && now - since > limit
}

/// A fresh child is spawned under the next id.
pub open spec fn spawned(m: WorkerModel) -> WorkerModel {
    WorkerModel { next_id: (m.next_id + 1) as u64, ..m }
}

/// Starting a slot spawns a child when it holds none; leaving `Stopped` or
/// `Failed` this way also gives it a fresh restart budget.
pub open spec fn start_step(m: WorkerModel, reason: Reason, now: u64) -> Step {
    match m.state {
        WorkerState::Initial | WorkerState::Stopped | WorkerState::Failed => {
            let c = ProcessInfo { pid: m.next_id };
            let base = if m.state is Initial {
                m
            } else {
                WorkerModel { restarts: 0, ..m }
            };
            (
                log_event(
                    with_state(spawned(base), WorkerState::Starting(c)),
                    ev(now, State::Starting, reason, Some(c.pid)),
                ),
                seq![Action::Spawn(c.pid)],
            )
        },
        _ => (m, Seq::empty()),
    }
}

pub open spec fn loaded_step(m: WorkerModel, pid: u64, now: u64) -> Step {
    match m.state {
        WorkerState::Starting(c) => if c.pid == pid {
            (
                WorkerModel {
                    restarts: 0,
                    restore_from_fail: false,
                    ..log_event(
                        with_state(m, WorkerState::Running(c)),
                        ev(now, State::Running, Reason::Unspecified, Some(c.pid)),
                    )
                },
                seq![Action::Start(c.pid)],
            )
        } else {
            (m, Seq::empty())
        },
        WorkerState::Reloading(n, o) => if n.pid == pid {
            (
                WorkerModel {
                    restarts: 0,
                    ..log_event(
                        with_state(m, WorkerState::StoppingOld(n, o)),
                        ev(now, State::StoppingOld, Reason::Unspecified, Some(o.pid)),
                    )
                },
                seq![Action::Stop(o.pid), Action::Start(n.pid)],
            )
        } else {
            (m, Seq::empty())
        },
        WorkerState::Restarting(n, o) => if n.pid == pid {
            (
                WorkerModel {
                    restarts: 0,
                    ..log_event(
                        with_state(m, WorkerState::StoppingOld(n, o)),
                        ev(now, State::StoppingOld, Reason::Unspecified, Some(o.pid)),
                    )
                },
                seq![Action::Quit(o.pid, true), Action::Start(n.pid)],
            )
        } else {
            (m, Seq::empty())
        },
        _ => (m, Seq::empty()),
    }
}

pub open spec fn reload_step(m: WorkerModel, graceful: bool, reason: Reason, now: u64) -> Step {
    match m.state {
        WorkerState::Running(c) => {
            let n = ProcessInfo { pid: m.next_id };
            if graceful {
                (
                    log_event(
                        with_state(spawned(m), WorkerState::Reloading(n, c)),
                        ev(now, State::Reloading, reason, Some(c.pid)),
                    ),
                    seq![Action::Spawn(n.pid)],
                )
            } else {
                (
                    log_event(
                        with_state(spawned(m), WorkerState::Restarting(n, c)),
                        ev(now, State::Restarting, reason, Some(c.pid)),
                    ),
                    seq![Action::Spawn(n.pid)],
                )
            }
        },
        WorkerState::Failed | WorkerState::Stopped => start_step(
            WorkerModel { restarts: 0, state: WorkerState::Initial, ..m },
            reason,
            now,
        ),
        _ => (m, Seq::empty()),
    }
}

/// `stop` when `graceful`, `quit` otherwise: the two differ only in how the
/// surviving child is told to go.
pub open spec fn halt_step(m: WorkerModel, graceful: bool, reason: Reason, now: u64) -> Step {
    match m.state {
        WorkerState::Initial | WorkerState::Failed => (
            log_event(with_state(m, WorkerState::Stopped), ev(now, State::Stopped, reason, None)),
            Seq::empty(),
        ),
        WorkerState::Stopped => (m, Seq::empty()),
        WorkerState::Starting(c) => (
            log_event(
                with_state(m, WorkerState::Stopping(c)),
                ev(now, State::Stopping, reason, Some(c.pid)),
            ),
            seq![Action::Quit(c.pid, true)],
        ),
        WorkerState::Running(c) => (
            log_event(
                with_state(m, WorkerState::Stopping(c)),
                ev(now, State::Stopping, reason, Some(c.pid)),
            ),
            seq![if graceful { Action::Stop(c.pid) } else { Action::Quit(c.pid, true) }],
        ),
        WorkerState::Reloading(n, o) | WorkerState::Restarting(n, o) => (
            log_event(
                with_state(m, WorkerState::Stopping(o)),
                ev(now, State::Stopping, reason, Some(o.pid)),
            ),
            seq![
                Action::Quit(n.pid, true),
                if graceful { Action::Stop(o.pid) } else { Action::Quit(o.pid, true) },
            ],
        ),
        WorkerState::StoppingOld(c, o) => (
            log_event(
                with_state(m, WorkerState::Stopping(c)),
                ev(now, State::Stopping, reason, Some(c.pid)),
            ),
            seq![
                Action::Quit(o.pid, true),
                if graceful { Action::Stop(c.pid) } else { Action::Quit(c.pid, true) },
            ],
        ),
        WorkerState::Stopping(_) => (m, Seq::empty()),
    }
}

pub open spec fn message_step(m: WorkerModel, pid: u64, msg: WorkerMessage, now: u64) -> Step {
    match m.state {
        WorkerState::Running(c) => if c.pid == pid {
            match msg {
                WorkerMessage::reload => reload_step(m, true, Reason::WorkerRequest, now),
                WorkerMessage::restart => reload_step(m, false, Reason::WorkerRequest, now),
                _ => (m, Seq::empty()),
            }
        } else {
            (m, Seq::empty())
        },
        _ => (m, Seq::empty()),
    }
}

pub open spec fn pause_step(m: WorkerModel, resume: bool, reason: Reason, now: u64) -> Step {
    match m.state {
        WorkerState::Running(c) => if resume {
            (
                log_event(m, ev(now, State::Running, reason, Some(c.pid))),
                seq![Action::Resume(c.pid)],
            )
        } else {
            (
                log_event(m, ev(now, State::Paused, reason, Some(c.pid))),
                seq![Action::Pause(c.pid)],
            )
        },
        _ => (m, Seq::empty()),
    }
}

/// The restart counter and start instant after the new child of a start, a
/// reload or a restart exited: a clean exit after the debounce allowance
/// clears the counter, anything else counts one more failure.
pub open spec fn failure_counted(m: WorkerModel, err: ProcessError, now: u64, limit: u64) -> WorkerModel {
    if err == ProcessError::ExitCode(0) && elapsed_over(m.started, now, limit) {
        WorkerModel { restarts: 0, started: now, ..m }
    } else {
        WorkerModel { restarts: bumped(m.restarts), ..m }
    }
}

/// The old child of an overlap exited: the new one carries on alone.
pub open spec fn old_gone_step(m: WorkerModel, n: ProcessInfo, pid: u64, now: u64) -> Step {
    (
        WorkerModel {
            restore_from_fail: false,
            ..log_event(
                log_event(
                    with_state(m, WorkerState::Running(n)),
                    ev(now, State::Stopped, Reason::Unspecified, Some(pid)),
                ),
                ev(now, State::Running, Reason::Unspecified, Some(n.pid)),
            )
        },
        Seq::empty(),
    )
}

/// The new child of a reload (`graceful`) or restart exited before loading.
pub open spec fn new_failed_step(
    m: WorkerModel,
    n: ProcessInfo,
    o: ProcessInfo,
    graceful: bool,
    err: ProcessError,
    now: u64,
) -> Step {
    let m1 = log_event(
        failure_counted(m, err, now, RELOADING_DEBOUNCE_MS),
        ev(
            now,
            if graceful { State::ReloadFailed } else { State::RestartFailed },
            exit_reason(err),
            Some(n.pid),
        ),
    );
    if m1.restarts < m1.max_restarts {
        let n2 = ProcessInfo { pid: m1.next_id };
        (
            with_state(
                spawned(m1),
                if graceful { WorkerState::Reloading(n2, o) } else { WorkerState::Restarting(n2, o) },
            ),
            seq![Action::Spawn(n2.pid)],
        )
    } else {
        (
            WorkerModel {
                restore_from_fail: true,
                ..log_event(
                    with_state(m1, WorkerState::Running(o)),
                    ev(now, State::Running, Reason::RestoreAfterFailed, Some(o.pid)),
                )
            },
            Seq::empty(),
        )
    }
}

/// The child did not answer in time: it never reported that it loaded, or
/// it stopped sending heartbeats after it did. A serving child lost this way
/// is replaced by a hard restart that keeps it as the fallback.
pub open spec fn is_liveness_miss(err: ProcessError) -> bool {
    err == ProcessError::StartupTimeout || err == ProcessError::HeartbeatFailed
}

pub open spec fn exited_step(m: WorkerModel, pid: u64, err: ProcessError, now: u64) -> Step {
    match m.state {
        WorkerState::Running(c) => if c.pid != pid {
            (m, Seq::empty())
        } else if is_liveness_miss(err) {
            reload_step(
                WorkerModel {
                    restore_from_fail: true,
                    ..log_event(m, ev(now, State::Running, exit_reason(err), Some(pid)))
                },
                false,
                Reason::ReloadAfterTimeout,
                now,
            )
        } else {
            let r = start_step(
                log_event(
                    WorkerModel { started: now, state: WorkerState::Initial, ..m },
                    ev(now, State::Stopped, exit_reason(err), Some(pid)),
                ),
                Reason::RestartFailedRunningWorker,
                now,
            );
            (r.0, seq![Action::Quit(c.pid, false)] + r.1)
        },
        WorkerState::Starting(c) => if c.pid != pid {
            (m, Seq::empty())
        } else {
            let m1 = log_event(
                failure_counted(m, err, now, STARTING_DEBOUNCE_MS),
                ev(now, State::Failed, exit_reason(err), Some(pid)),
            );
            if m1.restarts < m1.max_restarts {
                let r = start_step(
                    with_state(m1, WorkerState::Initial),
                    Reason::RestartFailedStartingWorker,
                    now,
                );
                (r.0, seq![Action::Quit(c.pid, false)] + r.1)
            } else {
                (with_state(m1, WorkerState::Failed), Seq::empty())
            }
        },
        WorkerState::Reloading(n, o) => if n.pid == pid {
            new_failed_step(m, n, o, true, err, now)
        } else if o.pid == pid {
            old_gone_step(m, n, pid, now)
        } else {
            (m, Seq::empty())
        },
        WorkerState::Restarting(n, o) => if n.pid == pid {
            new_failed_step(m, n, o, false, err, now)
        } else if o.pid == pid {
            old_gone_step(m, n, pid, now)
        } else {
            (m, Seq::empty())
        },
        WorkerState::StoppingOld(c, o) => if c.pid == pid {
            let r = start_step(
                log_event(
                    WorkerModel { restarts: bumped(m.restarts), state: WorkerState::Initial, ..m },
                    ev(now, State::Failed, exit_reason(err), Some(pid)),
                ),
                Reason::NewProcessDied,
                now,
            );
            (r.0, seq![Action::Quit(o.pid, false)] + r.1)
        } else if o.pid == pid {
            old_gone_step(m, c, pid, now)
        } else {
            (m, Seq::empty())
        },
        WorkerState::Stopping(c) => if c.pid == pid {
            (
                log_event(
                    with_state(m, WorkerState::Stopped),
                    ev(now, State::Stopped, exit_reason(err), Some(pid)),
                ),
                Seq::empty(),
            )
        } else {
            (m, Seq::empty())
        },
        _ => (m, Seq::empty()),
    }
}

/// The state holds the child `p`.
pub open spec fn holds(s: WorkerState, p: u64) -> bool {
    match s {
        WorkerState::Starting(c) | WorkerState::Running(c) | WorkerState::Stopping(c) => c.pid == p,
        WorkerState::Reloading(n, o) | WorkerState::Restarting(n, o)
        | WorkerState::StoppingOld(n, o) => n.pid == p || o.pid == p,
        _ => false,
    }
}

/// Every child the state holds has an id below `next`, and the two children
/// of an overlap are distinct.
pub open spec fn ids_below(s: WorkerState, next: u64) -> bool {
    match s {
        WorkerState::Starting(c) | WorkerState::Running(c) | WorkerState::Stopping(c) => c.pid < next,
        WorkerState::Reloading(n, o) | WorkerState::Restarting(n, o)
        | WorkerState::StoppingOld(n, o) => n.pid < next && o.pid < next && n.pid != o.pid,
        _ => true,
    }
}

/// The slot's invariant: every held child was spawned by it under an id
/// below `next_id`, the two children of an overlap are distinct, every event
/// names only such ids, and no child that is still held has been recorded
/// as stopped.
pub open spec fn model_wf(m: WorkerModel) -> bool {
    &&& ids_below(m.state, m.next_id)
    &&& forall|i: int| 0 <= i < m.log.len() && (#[trigger] m.log[i]).pid.is_some()
        ==> m.log[i].pid.unwrap() < m.next_id
    &&& forall|i: int| 0 <= i < m.log.len() && (#[trigger] m.log[i]).state == State::Stopped
        && m.log[i].pid.is_some() ==> !holds(m.state, m.log[i].pid.unwrap())
}

/// Recording an event keeps the invariant when the event names a known
/// child and does not mark a held child as stopped.
proof fn lemma_log_event_wf(m: WorkerModel, e: Event)
    requires
        model_wf(m),
        e.pid.is_some() ==> e.pid.unwrap() < m.next_id,
        e.state == State::Stopped && e.pid.is_some() ==> !holds(m.state, e.pid.unwrap()),
    ensures
        model_wf(log_event(m, e)),
{
    let m2 = log_event(m, e);
    assert forall|i: int| 0 <= i < m2.log.len() && (#[trigger] m2.log[i]).pid.is_some()
        implies m2.log[i].pid.unwrap() < m2.next_id by {
        if i < m.log.len() {
            assert(m2.log[i] == m.log[i]);
        }
    }
    assert forall|i: int| 0 <= i < m2.log.len() && (#[trigger] m2.log[i]).state == State::Stopped
        && m2.log[i].pid.is_some() implies !holds(m2.state, m2.log[i].pid.unwrap()) by {
        if i < m.log.len() {
            assert(m2.log[i] == m.log[i]);
        }
    }
}

/// The supervisor of one worker slot of a service.
pub struct Worker {
    pub idx: usize,
    /// Failed starts tolerated before the slot is marked failed.
    pub max_restarts: u16,
    pub state: WorkerState,
    pub events: Events,
    pub restore_from_fail: bool,
    /// Instant (milliseconds, monotonic) the current failure run began.
    pub started: u64,
    pub restarts: u16,
    /// Id the next spawned child gets.
    pub next_id: u64,
}

impl View for Worker {
    type V = WorkerModel;

    open spec fn view(&self) -> WorkerModel {
        WorkerModel {
            state: self.state,
            restarts: self.restarts,
            max_restarts: self.max_restarts,
            restore_from_fail: self.restore_from_fail,
            started: self.started,
            next_id: self.next_id,
            log: self.events.history(),
        }
    }
}

impl Worker {
    pub open spec fn wf(&self) -> bool {
        &&& self.events.wf()
        &&& self.events.capacity() == EVENTS_CAPACITY
        &&& model_wf(self@)
    }

    /// `b` is the same slot as `a`, with the same restart budget.
    pub open spec fn same_slot(a: &Worker, b: &Worker) -> bool {
        a.idx == b.idx && a.max_restarts == b.max_restarts
    }

    /// A slot that has never started a child.
    pub fn new(idx: usize, cfg: &ServiceConfig, now: u64) -> (r: Worker)
        ensures
            r.wf(),
            r.idx == idx,
            r.max_restarts == cfg.restarts,
            r@.state == WorkerState::Initial,
            r@.restarts == 0,
            !r@.restore_from_fail,
            r@.started == now,
            r@.next_id == 0,
            r@.log == Seq::<Event>::empty(),
            r.events@ == Seq::<Event>::empty(),
            r.events.capacity() == EVENTS_CAPACITY,
    {
        Worker {
            idx,
            max_restarts: cfg.restarts,
            state: WorkerState::Initial,
            events: Events::new(EVENTS_CAPACITY),
            restore_from_fail: false,
            started: now,
            restarts: 0,
            next_id: 0,
        }
    }

    fn record(&mut self, state: State, reason: Reason, pid: Option<u64>, now: u64)
        requires
            old(self).wf(),
            pid.is_some() ==> pid.unwrap() < old(self).next_id,
            state == State::Stopped && pid.is_some() ==> !holds(old(self).state, pid.unwrap()),
        ensures
            final(self).wf(),
            final(self).events.capacity() == old(self).events.capacity(),
            final(self)@ == log_event(old(self)@, ev(now, state, reason, pid)),
            Worker::same_slot(old(self), final(self)),
            final(self).events@.last() == ev(now, state, reason, pid),
    {
        let e = Event { timestamp: now, state, reason, pid };
        let ghost m = self@;
        self.events.add(e);
        proof {
            lemma_log_event_wf(m, e);
        }
    }

    fn spawn(&mut self) -> (r: ProcessInfo)
        requires
            old(self).next_id < u64::MAX,
        ensures
            r.pid == old(self).next_id,
            final(self)@ == spawned(old(self)@),
            final(self).events == old(self).events,
            Worker::same_slot(old(self), final(self)),
    {
        let p = ProcessInfo { pid: self.next_id };
        self.next_id = self.next_id + 1;
        p
    }

    /// Starts a child if the slot has none (initial, stopped or failed); a
    /// stopped or failed slot gets a fresh restart budget.
    pub fn start(&mut self, reason: Reason, now: u64) -> (r: Vec<Action>)
        requires
            old(self).wf(),
            old(self).next_id < u64::MAX,
        ensures
            final(self).wf(),
            Worker::same_slot(old(self), final(self)),
            (final(self)@, r@) == start_step(old(self)@, reason, now),
    {
        match self.state {
            WorkerState::Initial | WorkerState::Stopped | WorkerState::Failed => {
                if !self.is_initial() {
                    self.restarts = 0;
                }
                let c = self.spawn();
                self.state = WorkerState::Starting(c);
                self.record(State::Starting, reason, Some(c.pid), now);
                let r = vec![Action::Spawn(c.pid)];
                assert(r@ =~= seq![Action::Spawn(c.pid)]);
                r
            },
            _ => Vec::new(),
        }
    }

    /// The child `pid` reported that it loaded.
    pub fn loaded(&mut self, pid: u64, now: u64) -> (r: Vec<Action>)
        requires
            old(self).wf(),
        ensures
            final(self).wf(),
            Worker::same_slot(old(self), final(self)),
            (final(self)@, r@) == loaded_step(old(self)@, pid, now),
    {
        match self.state {
            WorkerState::Starting(c) => {
                if c.pid == pid {
                    self.restarts = 0;
                    self.state = WorkerState::Running(c);
                    self.restore_from_fail = false;
                    self.record(State::Running, Reason::Unspecified, Some(c.pid), now);
                    let r = vec![Action::Start(c.pid)];
                    assert(r@ =~= seq![Action::Start(c.pid)]);
                    r
                } else {
                    Vec::new()
                }
            },
            WorkerState::Reloading(n, o) => {
                if n.pid == pid {
                    self.restarts = 0;
                    self.state = WorkerState::StoppingOld(n, o);
                    self.record(State::StoppingOld, Reason::Unspecified, Some(o.pid), now);
                    let r = vec![Action::Stop(o.pid), Action::Start(n.pid)];
                    assert(r@ =~= seq![Action::Stop(o.pid), Action::Start(n.pid)]);
                    r
                } else {
                    Vec::new()
                }
            },
            WorkerState::Restarting(n, o) => {
                if n.pid == pid {
                    self.restarts = 0;
                    self.state = WorkerState::StoppingOld(n, o);
                    self.record(State::StoppingOld, Reason::Unspecified, Some(o.pid), now);
                    let r = vec![Action::Quit(o.pid, true), Action::Start(n.pid)];
                    assert(r@ =~= seq![Action::Quit(o.pid, true), Action::Start(n.pid)]);
                    r
                } else {
                    Vec::new()
                }
            },
            _ => Vec::new(),
        }
    }

    /// Replaces the running child by a new one: gracefully (the old child is
    /// stopped once the new one loaded) or not (the old child is quit). A
    /// stopped or failed slot is started afresh with a cleared budget.
    pub fn reload(&mut self, graceful: bool, reason: Reason, now: u64) -> (r: Vec<Action>)
        requires
            old(self).wf(),
            old(self).next_id < u64::MAX,
        ensures
            final(self).wf(),
            Worker::same_slot(old(self), final(self)),
            (final(self)@, r@) == reload_step(old(self)@, graceful, reason, now),
    {
        match self.state {
            WorkerState::Running(c) => {
                let n = self.spawn();
                if graceful {
                    self.state = WorkerState::Reloading(n, c);
                    self.record(State::Reloading, reason, Some(c.pid), now);
                } else {
                    self.state = WorkerState::Restarting(n, c);
                    self.record(State::Restarting, reason, Some(c.pid), now);
                }
                let r = vec![Action::Spawn(n.pid)];
                assert(r@ =~= seq![Action::Spawn(n.pid)]);
                r
            },
            WorkerState::Failed | WorkerState::Stopped => {
                self.restarts = 0;
                self.state = WorkerState::Initial;
                self.start(reason, now)
            },
            _ => Vec::new(),
        }
    }

    /// Shared body of `stop` (graceful) and `quit`.
    fn halt(&mut self, graceful: bool, reason: Reason, now: u64) -> (r: Vec<Action>)
        requires
            old(self).wf(),
        ensures
            final(self).wf(),
            Worker::same_slot(old(self), final(self)),
            (final(self)@, r@) == halt_step(old(self)@, graceful, reason, now),
    {
        match self.state {
            WorkerState::Stopped => Vec::new(),
            WorkerState::Initial | WorkerState::Failed => {
                self.state = WorkerState::Stopped;
                self.record(State::Stopped, reason, None, now);
                let r = Vec::new();
                assert(r@ =~= Seq::<Action>::empty());
                r
            },
            WorkerState::Starting(c) => {
                self.state = WorkerState::Stopping(c);
                self.record(State::Stopping, reason, Some(c.pid), now);
                let r = vec![Action::Quit(c.pid, true)];
                assert(r@ =~= seq![Action::Quit(c.pid, true)]);
                r
            },
            WorkerState::Running(c) => {
                self.state = WorkerState::Stopping(c);
                self.record(State::Stopping, reason, Some(c.pid), now);
                let a = if graceful { Action::Stop(c.pid) } else { Action::Quit(c.pid, true) };
                let r = vec![a];
                assert(r@ =~= seq![a]);
                r
            },
            WorkerState::Reloading(n, o) | WorkerState::Restarting(n, o) => {
                self.state = WorkerState::Stopping(o);
                self.record(State::Stopping, reason, Some(o.pid), now);
                let a = if graceful { Action::Stop(o.pid) } else { Action::Quit(o.pid, true) };
                let r = vec![Action::Quit(n.pid, true), a];
                assert(r@ =~= seq![Action::Quit(n.pid, true), a]);
                r
            },
            WorkerState::StoppingOld(c, o) => {
                self.state = WorkerState::Stopping(c);
                self.record(State::Stopping, reason, Some(c.pid), now);
                let a = if graceful { Action::Stop(c.pid) } else { Action::Quit(c.pid, true) };
                let r = vec![Action::Quit(o.pid, true), a];
                assert(r@ =~= seq![Action::Quit(o.pid, true), a]);
                r
            },
            WorkerState::Stopping(_) => Vec::new(),
        }
    }

    /// Stops the slot gracefully: the serving child is asked to stop, a child
    /// that has not loaded yet is quit.
    pub fn stop(&mut self, reason: Reason, now: u64) -> (r: Vec<Action>)
        requires
            old(self).wf(),
        ensures
            final(self).wf(),
            Worker::same_slot(old(self), final(self)),
            (final(self)@, r@) == halt_step(old(self)@, true, reason, now),
    {
        self.halt(true, reason, now)
    }

    /// Stops the slot by quitting every child it holds.
    pub fn quit(&mut self, reason: Reason, now: u64) -> (r: Vec<Action>)
        requires
            old(self).wf(),
        ensures
            final(self).wf(),
            Worker::same_slot(old(self), final(self)),
            (final(self)@, r@) == halt_step(old(self)@, false, reason, now),
    {
        self.halt(false, reason, now)
    }

    /// A message from the child `pid`: the serving child may ask for a reload
    /// or a restart; anything else is ignored here.
    pub fn message(&mut self, pid: u64, message: &WorkerMessage, now: u64) -> (r: Vec<Action>)
        requires
            old(self).wf(),
            old(self).next_id < u64::MAX,
        ensures
            final(self).wf(),
            Worker::same_slot(old(self), final(self)),
            (final(self)@, r@) == message_step(old(self)@, pid, *message, now),
    {
        let serving = match self.state {
            WorkerState::Running(c) => c.pid == pid,
            _ => false,
        };
        if serving {
            match message {
                WorkerMessage::reload => self.reload(true, Reason::WorkerRequest, now),
                WorkerMessage::restart => self.reload(false, Reason::WorkerRequest, now),
                _ => Vec::new(),
            }
        } else {
            Vec::new()
        }
    }

    /// Pauses the serving child.
    pub fn pause(&mut self, reason: Reason, now: u64) -> (r: Vec<Action>)
        requires
            old(self).wf(),
        ensures
            final(self).wf(),
            Worker::same_slot(old(self), final(self)),
            (final(self)@, r@) == pause_step(old(self)@, false, reason, now),
    {
        match self.state {
            WorkerState::Running(c) => {
                self.record(State::Paused, reason, Some(c.pid), now);
                let r = vec![Action::Pause(c.pid)];
                assert(r@ =~= seq![Action::Pause(c.pid)]);
                r
            },
            _ => Vec::new(),
        }
    }

    /// Resumes the serving child.
    pub fn resume(&mut self, reason: Reason, now: u64) -> (r: Vec<Action>)
        requires
            old(self).wf(),
        ensures
            final(self).wf(),
            Worker::same_slot(old(self), final(self)),
            (final(self)@, r@) == pause_step(old(self)@, true, reason, now),
    {
        match self.state {
            WorkerState::Running(c) => {
                self.record(State::Running, reason, Some(c.pid), now);
                let r = vec![Action::Resume(c.pid)];
                assert(r@ =~= seq![Action::Resume(c.pid)]);
                r
            },
            _ => Vec::new(),
        }
    }

    /// Counts the exit of a new child against the restart budget, unless it
    /// was clean and came more than `limit` milliseconds after `started`.
    fn count_failure(&mut self, err: &ProcessError, now: u64, limit: u64)
        requires
            old(self).wf(),
        ensures
            final(self).wf(),
            Worker::same_slot(old(self), final(self)),
            final(self)@ == failure_counted(old(self)@, *err, now, limit),
    {
        let clean = match err {
            ProcessError::ExitCode(c) => *c == 0,
            _ => false,
        };
        if clean && now >= self.started && now - self.started > limit {
            self.restarts = 0;
            self.started = now;
        } else if self.restarts < u16::MAX {
            self.restarts = self.restarts + 1;
        }
    }

    /// Prefixes `first` to the actions of a following transition.
    fn then_start(&mut self, first: Action, reason: Reason, now: u64) -> (r: Vec<Action>)
        requires
            old(self).wf(),
            old(self).next_id < u64::MAX,
        ensures
            final(self).wf(),
            Worker::same_slot(old(self), final(self)),
            (final(self)@, r@) == (start_step(old(self)@, reason, now).0, seq![first] + start_step(
                old(self)@,
                reason,
                now,
            ).1),
    {
        let mut acts = vec![first];
        let mut more = self.start(reason, now);
        acts.append(&mut more);
        assert(acts@ =~= seq![first] + start_step(old(self)@, reason, now).1);
        acts
    }

    /// The new child `n` of a reload (`graceful`) or restart exited before
    /// it loaded: try another one while the budget lasts, else keep `o`.
    fn new_failed(
        &mut self,
        n: ProcessInfo,
        o: ProcessInfo,
        graceful: bool,
        err: &ProcessError,
        now: u64,
    ) -> (r: Vec<Action>)
        requires
            old(self).wf(),
            old(self).next_id < u64::MAX,
            old(self).state == (if graceful {
                WorkerState::Reloading(n, o)
            } else {
                WorkerState::Restarting(n, o)
            }),
        ensures
            final(self).wf(),
            Worker::same_slot(old(self), final(self)),
            (final(self)@, r@) == new_failed_step(old(self)@, n, o, graceful, *err, now),
    {
        self.count_failure(err, now, RELOADING_DEBOUNCE_MS);
        let st = if graceful { State::ReloadFailed } else { State::RestartFailed };
        self.record(st, err.reason(), Some(n.pid), now);
        if self.restarts < self.max_restarts {
            let n2 = self.spawn();
            self.state = if graceful {
                WorkerState::Reloading(n2, o)
            } else {
                WorkerState::Restarting(n2, o)
            };
            let r = vec![Action::Spawn(n2.pid)];
            assert(r@ =~= seq![Action::Spawn(n2.pid)]);
            r
        } else {
            self.state = WorkerState::Running(o);
            self.record(State::Running, Reason::RestoreAfterFailed, Some(o.pid), now);
            self.restore_from_fail = true;
            let r = Vec::new();
            assert(r@ =~= Seq::<Action>::empty());
            r
        }
    }

    /// The old child `o` of an overlap with `n` exited.
    fn old_gone(&mut self, n: ProcessInfo, o: ProcessInfo, now: u64) -> (r: Vec<Action>)
        requires
            old(self).wf(),
            old(self).state == WorkerState::Reloading(n, o) || old(self).state
                == WorkerState::Restarting(n, o) || old(self).state == WorkerState::StoppingOld(n, o),
        ensures
            final(self).wf(),
            Worker::same_slot(old(self), final(self)),
            (final(self)@, r@) == old_gone_step(old(self)@, n, o.pid, now),
    {
        self.state = WorkerState::Running(n);
        self.record(State::Stopped, Reason::Unspecified, Some(o.pid), now);
        self.record(State::Running, Reason::Unspecified, Some(n.pid), now);
        self.restore_from_fail = false;
        let r = Vec::new();
        assert(r@ =~= Seq::<Action>::empty());
        r
    }

    /// The child `pid` exited for the reason `err`. An exit of a child the
    /// slot no longer holds changes nothing.
    pub fn exited(&mut self, pid: u64, err: &ProcessError, now: u64) -> (r: Vec<Action>)
        requires
            old(self).wf(),
            old(self).next_id < u64::MAX,
        ensures
            final(self).wf(),
            Worker::same_slot(old(self), final(self)),
            (final(self)@, r@) == exited_step(old(self)@, pid, *err, now),
    {
        match self.state {
            WorkerState::Running(c) => {
                if c.pid != pid {
                    Vec::new()
                } else if (match err {
                    ProcessError::StartupTimeout | ProcessError::HeartbeatFailed => true,
                    _ => false,
                }) {
                    self.record(State::Running, err.reason(), Some(pid), now);
                    self.restore_from_fail = true;
                    self.reload(false, Reason::ReloadAfterTimeout, now)
                } else {
                    self.started = now;
                    self.state = WorkerState::Initial;
                    self.record(State::Stopped, err.reason(), Some(pid), now);
                    self.then_start(Action::Quit(c.pid, false), Reason::RestartFailedRunningWorker, now)
                }
            },
            WorkerState::Starting(c) => {
                if c.pid != pid {
                    Vec::new()
                } else {
                    self.count_failure(err, now, STARTING_DEBOUNCE_MS);
                    self.record(State::Failed, err.reason(), Some(pid), now);
                    if self.restarts < self.max_restarts {
                        self.state = WorkerState::Initial;
                        self.then_start(
                            Action::Quit(c.pid, false),
                            Reason::RestartFailedStartingWorker,
                            now,
                        )
                    } else {
                        self.state = WorkerState::Failed;
                        Vec::new()
                    }
                }
            },
            WorkerState::Reloading(n, o) => {
                if n.pid == pid {
                    self.new_failed(n, o, true, err, now)
                } else if o.pid == pid {
                    self.old_gone(n, o, now)
                } else {
                    Vec::new()
                }
            },
            WorkerState::Restarting(n, o) => {
                if n.pid == pid {
                    self.new_failed(n, o, false, err, now)
                } else if o.pid == pid {
                    self.old_gone(n, o, now)
                } else {
                    Vec::new()
                }
            },
            WorkerState::StoppingOld(c, o) => {
                if c.pid == pid {
                    self.restarts = if self.restarts < u16::MAX {
                        self.restarts + 1
                    } else {
                        self.restarts
                    };
                    self.state = WorkerState::Initial;
                    self.record(State::Failed, err.reason(), Some(pid), now);
                    self.then_start(Action::Quit(o.pid, false), Reason::NewProcessDied, now)
                } else if o.pid == pid {
                    self.old_gone(c, o, now)
                } else {
                    Vec::new()
                }
            },
            WorkerState::Stopping(c) => {
                if c.pid == pid {
                    self.state = WorkerState::Stopped;
                    self.record(State::Stopped, err.reason(), Some(pid), now);
                }
                Vec::new()
            },
            _ => Vec::new(),
        }
    }

    fn is_initial(&self) -> (r: bool)
        ensures
            r == self.state is Initial,
    {
        match self.state {
            WorkerState::Initial => true,
            _ => false,
        }
    }

    /// The slot has a serving child and no overlap.
    pub fn is_running(&self) -> (r: bool)
        ensures
            r == self.state is Running,
    {
        match self.state {
            WorkerState::Running(_) => true,
            _ => false,
        }
    }

    /// The slot gave up, or serves only with the old child it fell back to.
    pub fn is_failed(&self) -> (r: bool)
        ensures
            r == (self.state is Failed || (self.state is Running && self.restore_from_fail)),
    {
        match self.state {
            WorkerState::Failed => true,
            WorkerState::Running(_) => self.restore_from_fail,
            _ => false,
        }
    }

    pub fn is_stopped(&self) -> (r: bool)
        ensures
            r == self.state is Stopped,
    {
        match self.state {
            WorkerState::Stopped => true,
            _ => false,
        }
    }

    /// The id of the child that serves, if one does.
    pub fn pid(&self) -> (r: Option<u64>)
        ensures
            r == match self.state {
                WorkerState::Running(c) | WorkerState::StoppingOld(c, _) => Some(c.pid),
                _ => None::<u64>,
            },
    {
        match self.state {
            WorkerState::Running(c) | WorkerState::StoppingOld(c, _) => Some(c.pid),
            _ => None,
        }
    }
}

/// A slot holds no more than two children, two exactly while an old and a
/// new child overlap, and then two distinct ones.
pub proof fn lemma_at_most_two_children(m: WorkerModel)
    requires
        model_wf(m),
    ensures
        held_pids(m.state).len() <= 2,
        held_pids(m.state).len() == 2 <==> is_overlap(m.state),
        held_pids(m.state).len() == 2 ==> held_pids(m.state)[0] != held_pids(m.state)[1],
{
}

/// After `start` and `stop` the slot is stopped, or is stopping its one child
/// and is stopped once that child exits; either way the last recorded event
/// is a `Stopped` one.
pub proof fn lemma_start_then_stop(
    m: WorkerModel,
    r1: Reason,
    t1: u64,
    r2: Reason,
    t2: u64,
    err: ProcessError,
    t3: u64,
)
    requires
        model_wf(m),
        m.next_id < u64::MAX,
    ensures
        ({
            let m2 = halt_step(start_step(m, r1, t1).0, true, r2, t2).0;
            match m2.state {
                WorkerState::Stopping(c) => {
                    let m3 = exited_step(m2, c.pid, err, t3).0;
                    &&& m3.state == WorkerState::Stopped
                    &&& m3.log.len() > 0
                    &&& m3.log.last().state == State::Stopped
                    &&& m3.log.last().pid == Some(c.pid)
                },
                _ => {
                    &&& m2.state == WorkerState::Stopped
                    &&& m2.log.len() > 0
                    &&& m2.log.last().state == State::Stopped
                },
            }
        }),
{
}

/// A clean exit of a new child that stayed up longer than the debounce
/// allowance (ten seconds while starting, three during a reload or restart)
/// clears the restart counter.
pub proof fn lemma_debounce_clears_counter(m: WorkerModel, err: ProcessError, now: u64)
    requires
        model_wf(m),
        m.next_id < u64::MAX,
        err == ProcessError::ExitCode(0),
    ensures
        ({
            match m.state {
                WorkerState::Starting(c) => elapsed_over(m.started, now, STARTING_DEBOUNCE_MS)
                    ==> exited_step(m, c.pid, err, now).0.restarts == 0,
                WorkerState::Reloading(n, _) | WorkerState::Restarting(n, _) => elapsed_over(
                    m.started,
                    now,
                    RELOADING_DEBOUNCE_MS,
                ) ==> exited_step(m, n.pid, err, now).0.restarts == 0,
                _ => true,
            }
        }),
{
}

/// Number of events in `log` that record the child `p` as stopped.
pub open spec fn stopped_count(log: Seq<Event>, p: u64) -> nat
    decreases log.len(),
{
    if log.len() == 0 {
        0
    } else {
        stopped_count(log.drop_last(), p) + if log.last().state == State::Stopped && log.last().pid
            == Some(p) {
            1nat
        } else {
            0nat
        }
    }
}

proof fn lemma_stopped_count_push(log: Seq<Event>, e: Event, p: u64)
    ensures
        stopped_count(log.push(e), p) == stopped_count(log, p) + if e.state == State::Stopped
            && e.pid == Some(p) {
            1nat
        } else {
            0nat
        },
{
    assert(log.push(e).drop_last() =~= log);
}

proof fn lemma_stopped_count_none(log: Seq<Event>, p: u64)
    requires
        forall|i: int|
            0 <= i < log.len() && (#[trigger] log[i]).state == State::Stopped ==> log[i].pid != Some(
                p,
            ),
    ensures
        stopped_count(log, p) == 0,
    decreases log.len(),
{
    if log.len() > 0 {
        let d = log.drop_last();
        assert forall|i: int| 0 <= i < d.len() && (#[trigger] d[i]).state == State::Stopped implies d[i].pid
            != Some(p) by {
            assert(d[i] == log[i]);
        }
        lemma_stopped_count_none(d, p);
    }
}

/// A graceful reload of a serving child `c` whose successor loads and which
/// then exits leaves the slot serving with the successor, and `c` is recorded
/// as stopped exactly once in the slot's whole history.
pub proof fn lemma_graceful_reload(
    m: WorkerModel,
    reason: Reason,
    t1: u64,
    t2: u64,
    err: ProcessError,
    t3: u64,
)
    requires
        model_wf(m),
        m.next_id < u64::MAX,
        m.state is Running,
    ensures
        ({
            let c = m.state->Running_0;
            let m1 = reload_step(m, true, reason, t1).0;
            let m2 = loaded_step(m1, m.next_id, t2).0;
            let m3 = exited_step(m2, c.pid, err, t3).0;
            &&& m3.state == WorkerState::Running(ProcessInfo { pid: m.next_id })
            &&& stopped_count(m3.log, c.pid) == 1
            &&& !m3.restore_from_fail
        }),
{
    let c = m.state->Running_0;
    let m1 = reload_step(m, true, reason, t1).0;
    let m2 = loaded_step(m1, m.next_id, t2).0;
    let m3 = exited_step(m2, c.pid, err, t3).0;
    lemma_stopped_count_none(m.log, c.pid);
    let e1 = ev(t1, State::Reloading, reason, Some(c.pid));
    let e2 = ev(t2, State::StoppingOld, Reason::Unspecified, Some(c.pid));
    let e3 = ev(t3, State::Stopped, Reason::Unspecified, Some(c.pid));
    let e4 = ev(t3, State::Running, Reason::Unspecified, Some(m.next_id));
    lemma_stopped_count_push(m.log, e1, c.pid);
    lemma_stopped_count_push(m.log.push(e1), e2, c.pid);
    lemma_stopped_count_push(m.log.push(e1).push(e2), e3, c.pid);
    lemma_stopped_count_push(m.log.push(e1).push(e2).push(e3), e4, c.pid);
    assert(m3.log == m.log.push(e1).push(e2).push(e3).push(e4));
}

/// The model after `k` exits of the starting child, each for `err` at `now`.
pub open spec fn failed_starts(m: WorkerModel, k: nat, err: ProcessError, now: u64) -> WorkerModel
    decreases k,
{
    if k == 0 {
        m
    } else {
        let prev = failed_starts(m, (k - 1) as nat, err, now);
        match prev.state {
            WorkerState::Starting(c) => exited_step(prev, c.pid, err, now).0,
            _ => prev,
        }
    }
}

/// With a restart budget of `R`, a child that keeps failing to start (an
/// exit other than a clean one) is retried until `R` failures were counted:
/// after fewer the slot is starting again, after `R` it has failed.
pub proof fn lemma_restart_budget(m: WorkerModel, k: nat, err: ProcessError, now: u64)
    requires
        model_wf(m),
        m.state is Starting,
        m.restarts == 0,
        1 <= k <= m.max_restarts,
        m.next_id + k < u64::MAX,
        err != ProcessError::ExitCode(0),
    ensures
        ({
            let mk = failed_starts(m, k, err, now);
            &&& mk.restarts == k
            &&& mk.max_restarts == m.max_restarts
            &&& k < m.max_restarts ==> mk.state is Starting && mk.next_id == m.next_id + k
            &&& k == m.max_restarts ==> mk.state == WorkerState::Failed
        }),
    decreases k,
{
    let prev = failed_starts(m, (k - 1) as nat, err, now);
    if k > 1 {
        lemma_restart_budget(m, (k - 1) as nat, err, now);
    } else {
        assert(prev == m);
    }
    let c = prev.state->Starting_0;
    assert(failed_starts(m, k, err, now) == exited_step(prev, c.pid, err, now).0);
    assert(bumped(prev.restarts) == k);
}

/// Every action in `acts` is for a child the slot held in `m`, except a
/// spawn, which is for the next fresh id.
pub open spec fn actions_known(m: WorkerModel, acts: Seq<Action>) -> bool {
    forall|k: int| 0 <= k < acts.len() ==> match #[trigger] acts[k] {
        Action::Spawn(id) => id == m.next_id,
        Action::Start(id) | Action::Stop(id) | Action::Quit(id, _) | Action::Pause(id)
        | Action::Resume(id) => holds(m.state, id),
    }
}

/// Transitions send commands only to children the slot holds, and spawn
/// children only under a fresh id.
pub proof fn lemma_actions_target_held_children(
    m: WorkerModel,
    reason: Reason,
    graceful: bool,
    pid: u64,
    msg: WorkerMessage,
    err: ProcessError,
    now: u64,
)
    requires
        model_wf(m),
    ensures
        actions_known(m, start_step(m, reason, now).1),
        actions_known(m, loaded_step(m, pid, now).1),
        actions_known(m, reload_step(m, graceful, reason, now).1),
        actions_known(m, halt_step(m, graceful, reason, now).1),
        actions_known(m, pause_step(m, graceful, reason, now).1),
        actions_known(m, message_step(m, pid, msg, now).1),
        actions_known(m, exited_step(m, pid, err, now).1),
{
    let e = exited_step(m, pid, err, now).1;
    assert forall|k: int| 0 <= k < e.len() implies match #[trigger] e[k] {
        Action::Spawn(id) => id == m.next_id,
        Action::Start(id) | Action::Stop(id) | Action::Quit(id, _) | Action::Pause(id)
        | Action::Resume(id) => holds(m.state, id),
    } by {
        match m.state {
            WorkerState::Running(c) => if c.pid == pid && err != ProcessError::StartupTimeout {
                if k == 1 {
                    assert(e[1] == Action::Spawn(m.next_id));
                }
            },
            WorkerState::Starting(c) => if c.pid == pid {
                if k == 1 {
                    assert(e[1] == Action::Spawn(m.next_id));
                }
            },
            WorkerState::StoppingOld(c, o) => if c.pid == pid {
                if k == 1 {
                    assert(e[1] == Action::Spawn(m.next_id));
                }
            },
            _ => {},
        }
    }
}

} // verus!
