//! A service: N worker slots run from one configuration, with a state
//! derived from its slots, and operations fanned out to every slot in order.
use vstd::prelude::*;

use crate::config::ServiceConfig;
use crate::event::Reason;
use crate::event::{last_n, Event, EVENTS_CAPACITY};
use crate::worker::{
    is_overlap, exited_step, halt_step, loaded_step, message_step, pause_step, reload_step, start_step, Action,
    ProcessError, Step, Worker, WorkerMessage, WorkerModel, WorkerState,
};

verus! {

/// The state of a whole service.
#[derive(Clone, Copy, Debug, PartialEq, Eq, Structural)]
pub enum ServiceState {
    Loading,
    Running,
    Paused,
    Stopped,
    Failed,
}

/// A transition some slot of a service is in the middle of.
#[derive(Clone, Copy, Debug, PartialEq, Eq, Structural)]
pub enum Busy {
    Starting,
    Reloading,
    Stopping,
}

/// What the slots `ms` are busy with, most pressing first: a slot that is
/// stopping, then one where an old and a new child overlap, then one whose
/// child has not loaded yet.
pub open spec fn busy_with(ms: Seq<WorkerModel>) -> Option<Busy> {
    if exists|i: int| 0 <= i < ms.len() && (#[trigger] ms[i]).state is Stopping {
        Some(Busy::Stopping)
    } else if exists|i: int| 0 <= i < ms.len() && is_overlap((#[trigger] ms[i]).state) {
        Some(Busy::Reloading)
    } else if exists|i: int| 0 <= i < ms.len() && (#[trigger] ms[i]).state is Starting {
        Some(Busy::Starting)
    } else {
        None
    }
}

/// An operator operation applied to every slot.
#[derive(Clone, Copy, Debug, PartialEq, Eq, Structural)]
pub enum Op {
    Start(Reason),
    Stop(Reason),
    Quit(Reason),
    /// Reload (graceful) or restart.
    Reload(bool, Reason),
    Pause(Reason),
    Resume(Reason),
}

/// An action to carry out on a child of the slot `slot`.
#[derive(Clone, Copy, Debug, PartialEq, Eq, Structural)]
pub struct SlotAction {
    pub slot: usize,
    pub action: Action,
}

/// What `op` does to one slot.
pub open spec fn op_step(m: WorkerModel, op: Op, now: u64) -> Step {
    match op {
        Op::Start(r) => start_step(m, r, now),
        Op::Stop(r) => halt_step(m, true, r, now),
        Op::Quit(r) => halt_step(m, false, r, now),
        Op::Reload(g, r) => reload_step(m, g, r, now),
        Op::Pause(r) => pause_step(m, false, r, now),
        Op::Resume(r) => pause_step(m, true, r, now),
    }
}

/// `acts` tagged with the slot they belong to.
pub open spec fn tagged(slot: usize, acts: Seq<Action>) -> Seq<SlotAction> {
    acts.map_values(|a: Action| SlotAction { slot, action: a })
}

/// The actions of applying `op` to the slots `ms`, slot by slot.
pub open spec fn fan_out(ms: Seq<WorkerModel>, op: Op, now: u64) -> Seq<SlotAction>
    decreases ms.len(),
{
    if ms.len() == 0 {
        Seq::empty()
    } else {
        fan_out(ms.drop_last(), op, now) + tagged(
            (ms.len() - 1) as usize,
            op_step(ms.last(), op, now).1,
        )
    }
}

/// The slot and id of each child that serves in the slots `ms`, slot by
/// slot.
pub open spec fn serving_pids(ms: Seq<WorkerModel>) -> Seq<(usize, u64)>
    decreases ms.len(),
{
    if ms.len() == 0 {
        Seq::empty()
    } else {
        serving_pids(ms.drop_last()) + match ms.last().state {
            WorkerState::Running(c) => seq![((ms.len() - 1) as usize, c.pid)],
            _ => Seq::<(usize, u64)>::empty(),
        }
    }
}

pub open spec fn slot_running(m: WorkerModel) -> bool {
    m.state is Running
}

pub open spec fn slot_failed(m: WorkerModel) -> bool {
    m.state is Failed || (m.state is Running && m.restore_from_fail)
}

pub open spec fn slot_stopped(m: WorkerModel) -> bool {
    m.state is Stopped
}

/// The state of a service over its slots `ms`: failed when every slot
/// failed, stopped when every slot stopped, running (or paused) when a slot
/// serves and none failed, and loading otherwise.
pub open spec fn derived_state(ms: Seq<WorkerModel>, paused: bool) -> ServiceState {
    if ms.len() > 0 && forall|i: int| 0 <= i < ms.len() ==> slot_failed(#[trigger] ms[i]) {
        ServiceState::Failed
    } else if forall|i: int| 0 <= i < ms.len() ==> slot_stopped(#[trigger] ms[i]) {
        ServiceState::Stopped
    } else if (exists|i: int| 0 <= i < ms.len() && slot_running(#[trigger] ms[i])) && forall|i: int|
        0 <= i < ms.len() ==> !slot_failed(#[trigger] ms[i]) {
        if paused {
            ServiceState::Paused
        } else {
            ServiceState::Running
        }
    } else {
        ServiceState::Loading
    }
}

/// N worker slots of one service.
pub struct Service {
    cfg: ServiceConfig,
    workers: Vec<Worker>,
    paused: bool,
}

impl Service {
    /// The models of the slots, by index.
    pub closed spec fn slots(&self) -> Seq<WorkerModel> {
        self.workers@.map_values(|w: Worker| w@)
    }

    pub closed spec fn config(&self) -> ServiceConfig {
        self.cfg
    }

    pub closed spec fn is_paused(&self) -> bool {
        self.paused
    }

    pub closed spec fn wf(&self) -> bool {
        &&& self.workers@.len() == self.cfg.num
        &&& forall|i: int| 0 <= i < self.workers@.len() ==> (#[trigger] self.workers@[i]).wf()
            && self.workers@[i].idx == i && self.workers@[i].max_restarts == self.cfg.restarts
    }

    /// Every slot can spawn at least one more child.
    pub closed spec fn can_spawn(&self) -> bool {
        forall|i: int| 0 <= i < self.workers@.len() ==> (#[trigger] self.workers@[i]).next_id < u64::MAX
    }

    /// A service of `cfg.num` slots that have never started.
    pub fn new(cfg: ServiceConfig, now: u64) -> (r: Service)
        ensures
            r.wf(),
            r.can_spawn(),
            r.config() == cfg,
            !r.is_paused(),
            r.slots().len() == cfg.num,
            forall|i: int| 0 <= i < cfg.num ==> (#[trigger] r.slots()[i]).state == WorkerState::Initial
                && r.slots()[i].restarts == 0 && r.slots()[i].max_restarts == cfg.restarts
                && r.slots()[i].log.len() == 0 && !r.slots()[i].restore_from_fail
                && r.slots()[i].started == now && r.slots()[i].next_id == 0,
    {
        let mut workers: Vec<Worker> = Vec::new();
        let n = cfg.num as usize;
        let mut i: usize = 0;
        while i < n
            invariant
                n == cfg.num,
                i <= n,
                workers@.len() == i,
                forall|j: int| 0 <= j < i ==> (#[trigger] workers@[j]).wf() && workers@[j].idx == j
                    && workers@[j].max_restarts == cfg.restarts && workers@[j]@.state == WorkerState::Initial
                    && workers@[j]@.restarts == 0 && workers@[j]@.log.len() == 0
                    && workers@[j].next_id == 0 && !workers@[j]@.restore_from_fail
                    && workers@[j]@.started == now,
            decreases n - i,
        {
            workers.push(Worker::new(i, &cfg, now));
            i = i + 1;
        }
        let r = Service { cfg, workers, paused: false };
        assert forall|i: int| 0 <= i < cfg.num implies (#[trigger] r.slots()[i]).state
            == WorkerState::Initial && r.slots()[i].restarts == 0 && r.slots()[i].max_restarts
            == cfg.restarts && r.slots()[i].log.len() == 0 && !r.slots()[i].restore_from_fail
            && r.slots()[i].started == now && r.slots()[i].next_id == 0 by {
            assert(r.slots()[i] == r.workers@[i]@);
        }
        r
    }

    /// A well-formed service has one slot per configured worker.
    pub proof fn lemma_slot_count(&self)
        requires
            self.wf(),
        ensures
            self.slots().len() == self.config().num,
    {
    }

    /// The service's name.
    pub fn name(&self) -> (r: &String)
        ensures
            r == self.config().name,
    {
        &self.cfg.name
    }

    /// Number of slots.
    pub fn len(&self) -> (r: usize)
        ensures
            r == self.slots().len(),
    {
        self.workers.len()
    }

    /// The slot `i`.
    pub fn worker(&self, i: usize) -> (r: &Worker)
        requires
            self.wf(),
            i < self.slots().len(),
        ensures
            r@ == self.slots()[i as int],
            r.wf(),
            r.idx == i,
    {
        &self.workers[i]
    }

    /// Whether every slot can spawn one more child.
    pub fn spawn_room(&self) -> (r: bool)
        ensures
            r == self.can_spawn(),
    {
        let mut i: usize = 0;
        while i < self.workers.len()
            invariant
                i <= self.workers@.len(),
                forall|j: int| 0 <= j < i ==> (#[trigger] self.workers@[j]).next_id < u64::MAX,
            decreases self.workers@.len() - i,
        {
            if self.workers[i].next_id == u64::MAX {
                return false;
            }
            i = i + 1;
        }
        true
    }

    /// Applies `op` to every slot, in slot order, and returns the actions
    /// to carry out, each tagged with its slot.
    pub fn apply(&mut self, op: Op, now: u64) -> (r: Vec<SlotAction>)
        requires
            old(self).wf(),
            old(self).can_spawn(),
        ensures
            final(self).wf(),
            final(self).config() == old(self).config(),
            final(self).slots().len() == old(self).slots().len(),
            forall|i: int| 0 <= i < old(self).slots().len() ==> (#[trigger] final(self).slots()[i])
                == op_step(old(self).slots()[i], op, now).0,
            r@ == fan_out(old(self).slots(), op, now),
            final(self).is_paused() == (op is Pause),
    {
        let ghost ms = self.slots();
        let n = self.workers.len();
        let mut acts: Vec<SlotAction> = Vec::new();
        let mut i: usize = 0;
        while i < n
            invariant
                n == self.workers@.len(),
                n == ms.len(),
                i <= n,
                self.cfg == old(self).cfg,
                self.workers@.len() == self.cfg.num,
                forall|j: int| 0 <= j < n ==> (#[trigger] self.workers@[j]).wf()
                    && self.workers@[j].idx == j && self.workers@[j].max_restarts == self.cfg.restarts,
                forall|j: int| 0 <= j < i ==> (#[trigger] self.workers@[j])@ == op_step(ms[j], op, now).0,
                forall|j: int| i <= j < n ==> (#[trigger] self.workers@[j]) == old(self).workers@[j],
                forall|j: int| i <= j < n ==> (#[trigger] self.workers@[j]).next_id < u64::MAX,
                ms == old(self).slots(),
                acts@ == fan_out(ms.subrange(0, i as int), op, now),
            decreases n - i,
        {
            assert(self.workers@[i as int]@ == ms[i as int]);
            let step = match op {
                Op::Start(r) => self.workers[i].start(r, now),
                Op::Stop(r) => self.workers[i].stop(r, now),
                Op::Quit(r) => self.workers[i].quit(r, now),
                Op::Reload(g, r) => self.workers[i].reload(g, r, now),
                Op::Pause(r) => self.workers[i].pause(r, now),
                Op::Resume(r) => self.workers[i].resume(r, now),
            };
            let ghost before = acts@;
            let mut k: usize = 0;
            while k < step.len()
                invariant
                    k <= step@.len(),
                    acts@ == before + tagged(i, step@.subrange(0, k as int)),
                decreases step@.len() - k,
            {
                acts.push(SlotAction { slot: i, action: step[k] });
                k = k + 1;
                assert(acts@ =~= before + tagged(i, step@.subrange(0, k as int)));
            }
            assert(step@.subrange(0, k as int) =~= step@);
            assert(ms.subrange(0, i + 1).drop_last() =~= ms.subrange(0, i as int));
            i = i + 1;
        }
        assert(ms.subrange(0, n as int) =~= ms);
        self.paused = match op {
            Op::Pause(_) => true,
            _ => false,
        };
        acts
    }

    /// Tags the actions of slot `slot` with it.
    fn tag(slot: usize, step: Vec<Action>) -> (r: Vec<SlotAction>)
        ensures
            r@ == tagged(slot, step@),
    {
        let mut acts: Vec<SlotAction> = Vec::new();
        let mut k: usize = 0;
        while k < step.len()
            invariant
                k <= step@.len(),
                acts@ == tagged(slot, step@.subrange(0, k as int)),
            decreases step@.len() - k,
        {
            acts.push(SlotAction { slot, action: step[k] });
            k = k + 1;
            assert(acts@ =~= tagged(slot, step@.subrange(0, k as int)));
        }
        assert(step@.subrange(0, k as int) =~= step@);
        acts
    }

    /// The child `pid` of slot `slot` reported that it loaded.
    pub fn loaded(&mut self, slot: usize, pid: u64, now: u64) -> (r: Vec<SlotAction>)
        requires
            old(self).wf(),
            slot < old(self).slots().len(),
        ensures
            final(self).wf(),
            final(self).config() == old(self).config(),
            final(self).is_paused() == old(self).is_paused(),
            final(self).slots() == old(self).slots().update(
                slot as int,
                loaded_step(old(self).slots()[slot as int], pid, now).0,
            ),
            r@ == tagged(slot, loaded_step(old(self).slots()[slot as int], pid, now).1),
    {
        let step = self.workers[slot].loaded(pid, now);
        assert(self.slots() =~= old(self).slots().update(
            slot as int,
            loaded_step(old(self).slots()[slot as int], pid, now).0,
        ));
        Service::tag(slot, step)
    }

    /// The child `pid` of slot `slot` exited for the reason `err`.
    pub fn exited(&mut self, slot: usize, pid: u64, err: &ProcessError, now: u64) -> (r: Vec<SlotAction>)
        requires
            old(self).wf(),
            slot < old(self).slots().len(),
            old(self).slots()[slot as int].next_id < u64::MAX,
        ensures
            final(self).wf(),
            final(self).config() == old(self).config(),
            final(self).is_paused() == old(self).is_paused(),
            final(self).slots() == old(self).slots().update(
                slot as int,
                exited_step(old(self).slots()[slot as int], pid, *err, now).0,
            ),
            r@ == tagged(slot, exited_step(old(self).slots()[slot as int], pid, *err, now).1),
    {
        let step = self.workers[slot].exited(pid, err, now);
        assert(self.slots() =~= old(self).slots().update(
            slot as int,
            exited_step(old(self).slots()[slot as int], pid, *err, now).0,
        ));
        Service::tag(slot, step)
    }

    /// A message from the child `pid` of slot `slot`.
    pub fn message(&mut self, slot: usize, pid: u64, msg: &WorkerMessage, now: u64) -> (r: Vec<SlotAction>)
        requires
            old(self).wf(),
            slot < old(self).slots().len(),
            old(self).slots()[slot as int].next_id < u64::MAX,
        ensures
            final(self).wf(),
            final(self).config() == old(self).config(),
            final(self).is_paused() == old(self).is_paused(),
            final(self).slots() == old(self).slots().update(
                slot as int,
                message_step(old(self).slots()[slot as int], pid, *msg, now).0,
            ),
            r@ == tagged(slot, message_step(old(self).slots()[slot as int], pid, *msg, now).1),
    {
        let step = self.workers[slot].message(pid, msg, now);
        assert(self.slots() =~= old(self).slots().update(
            slot as int,
            message_step(old(self).slots()[slot as int], pid, *msg, now).0,
        ));
        Service::tag(slot, step)
    }

    /// The state of the service, derived from its slots.
    pub fn state(&self) -> (r: ServiceState)
        requires
            self.wf(),
        ensures
            r == derived_state(self.slots(), self.is_paused()),
    {
        let ghost ms = self.slots();
        let n = self.workers.len();
        let mut all_failed = true;
        let mut all_stopped = true;
        let mut any_running = false;
        let mut any_failed = false;
        let mut i: usize = 0;
        while i < n
            invariant
                n == self.workers@.len(),
                n == ms.len(),
                ms == self.slots(),
                i <= n,
                all_failed == forall|j: int| 0 <= j < i ==> slot_failed(#[trigger] ms[j]),
                all_stopped == forall|j: int| 0 <= j < i ==> slot_stopped(#[trigger] ms[j]),
                any_running == exists|j: int| 0 <= j < i && slot_running(#[trigger] ms[j]),
                any_failed == exists|j: int| 0 <= j < i && slot_failed(#[trigger] ms[j]),
            decreases n - i,
        {
            let w = &self.workers[i];
            assert(ms[i as int] == w@);
            let failed = w.is_failed();
            let stopped = w.is_stopped();
            let running = w.is_running();
            all_failed = all_failed && failed;
            all_stopped = all_stopped && stopped;
            any_running = any_running || running;
            any_failed = any_failed || failed;
            i = i + 1;
        }
        if n > 0 && all_failed {
            ServiceState::Failed
        } else if all_stopped {
            ServiceState::Stopped
        } else if any_running && !any_failed {
            if self.paused {
                ServiceState::Paused
            } else {
                ServiceState::Running
            }
        } else {
            ServiceState::Loading
        }
    }

    /// What the slots are in the middle of, if anything.
    pub fn busy(&self) -> (r: Option<Busy>)
        requires
            self.wf(),
        ensures
            r == busy_with(self.slots()),
    {
        let ghost ms = self.slots();
        let n = self.workers.len();
        let mut stopping = false;
        let mut overlap = false;
        let mut starting = false;
        let mut i: usize = 0;
        while i < n
            invariant
                n == self.workers@.len(),
                n == ms.len(),
                ms == self.slots(),
                i <= n,
                stopping == exists|j: int| 0 <= j < i && (#[trigger] ms[j]).state is Stopping,
                overlap == exists|j: int| 0 <= j < i && is_overlap((#[trigger] ms[j]).state),
                starting == exists|j: int| 0 <= j < i && (#[trigger] ms[j]).state is Starting,
            decreases n - i,
        {
            assert(ms[i as int] == self.workers@[i as int]@);
            match self.workers[i].state {
                WorkerState::Stopping(_) => stopping = true,
                WorkerState::Reloading(_, _) | WorkerState::Restarting(_, _)
                | WorkerState::StoppingOld(_, _) => overlap = true,
                WorkerState::Starting(_) => starting = true,
                _ => (),
            }
            i = i + 1;
        }
        if stopping {
            Some(Busy::Stopping)
        } else if overlap {
            Some(Busy::Reloading)
        } else if starting {
            Some(Busy::Starting)
        } else {
            None
        }
    }

    /// The slot and id of each serving child, slot by slot.
    pub fn pids(&self) -> (r: Vec<(usize, u64)>)
        requires
            self.wf(),
        ensures
            r@ == serving_pids(self.slots()),
    {
        let ghost ms = self.slots();
        let mut out: Vec<(usize, u64)> = Vec::new();
        let mut i: usize = 0;
        while i < self.workers.len()
            invariant
                i <= self.workers@.len(),
                ms == self.slots(),
                ms.len() == self.workers@.len(),
                out@ == serving_pids(ms.subrange(0, i as int)),
            decreases self.workers@.len() - i,
        {
            assert(ms.subrange(0, i + 1).drop_last() =~= ms.subrange(0, i as int));
            assert(ms[i as int] == self.workers@[i as int]@);
            if let WorkerState::Running(c) = self.workers[i].state {
                out.push((i, c.pid));
            }
            i = i + 1;
            assert(out@ =~= serving_pids(ms.subrange(0, i as int)));
        }
        assert(ms.subrange(0, i as int) =~= ms);
        out
    }

    /// The events each slot holds, oldest first, by slot index.
    pub fn status(&self) -> (r: Vec<(usize, Vec<Event>)>)
        requires
            self.wf(),
        ensures
            r@.len() == self.slots().len(),
            forall|i: int| 0 <= i < r@.len() ==> (#[trigger] r@[i]).0 == i && r@[i].1@
                == last_n(self.slots()[i].log, EVENTS_CAPACITY as nat),
    {
        let mut out: Vec<(usize, Vec<Event>)> = Vec::new();
        let mut i: usize = 0;
        while i < self.workers.len()
            invariant
                i <= self.workers@.len(),
                out@.len() == i,
                self.wf(),
                forall|j: int| 0 <= j < i ==> (#[trigger] out@[j]).0 == j && out@[j].1@
                    == last_n(self.slots()[j].log, EVENTS_CAPACITY as nat),
            decreases self.workers@.len() - i,
        {
            proof {
                self.workers@[i as int].events.lemma_holds_latest();
                assert(self.slots()[i as int] == self.workers@[i as int]@);
            }
            out.push((i, self.workers[i].events.to_vec()));
            i = i + 1;
        }
        out
    }
}

} // verus!
