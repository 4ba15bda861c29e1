//! Lifecycle events and the bounded ring that keeps the latest of them.
use vstd::prelude::*;

verus! {

/// Default number of events a worker slot keeps.
pub const EVENTS_CAPACITY: usize = 50;

/// The state a slot entered, as recorded in an event.
#[derive(Clone, Copy, Debug, PartialEq, Eq, Structural)]
pub enum State {
    Starting,
    Reloading,
    Restarting,
    Running,
    StoppingOld,
    Stopping,
    Stopped,
    Failed,
    ReloadFailed,
    RestartFailed,
    Paused,
}

/// Why a transition happened.
#[derive(Clone, Copy, Debug, PartialEq, Eq, Structural)]
pub enum Reason {
    Unspecified,
    ConsoleRequest,
    WorkerRequest,
    ReloadAfterTimeout,
    RestartFailedRunningWorker,
    RestartFailedStartingWorker,
    NewProcessDied,
    RestoreAfterFailed,
    ExitCode(i32),
    Signal(i32),
    StartupTimeout,
    HeartbeatFailed,
    ConfigError,
    PipeError,
}

/// One recorded transition: when, into which state, why, and for which child.
#[derive(Clone, Copy, Debug, PartialEq, Eq, Structural)]
pub struct Event {
    pub timestamp: u64,
    pub state: State,
    pub reason: Reason,
    pub pid: Option<u64>,
}

/// The last `cap` entries of `h` (all of them when there are fewer).
pub open spec fn last_n(h: Seq<Event>, cap: nat) -> Seq<Event> {
    if h.len() <= cap {
        h
    } else {
        h.subrange(h.len() - cap, h.len() as int)
    }
}

/// A bounded FIFO of events: appending to a full ring drops the oldest entry.
///
/// Besides the entries it holds, the ring carries the whole history of what
/// was appended to it, of which the entries are always the latest `cap`.
pub struct Events {
    items: Vec<Event>,
    cap: usize,
    history: Ghost<Seq<Event>>,
}

impl View for Events {
    type V = Seq<Event>;

    closed spec fn view(&self) -> Seq<Event> {
        self.items@
    }
}

impl Events {
    pub closed spec fn history(&self) -> Seq<Event> {
        self.history@
    }

    pub closed spec fn capacity(&self) -> nat {
        self.cap as nat
    }

    pub closed spec fn wf(&self) -> bool {
        &&& self.cap > 0
        &&& self@ == last_n(self.history@, self.cap as nat)
    }

    /// An empty ring that keeps at most `cap` events.
    pub fn new(cap: usize) -> (r: Events)
        requires
            cap > 0,
        ensures
            r.wf(),
            r.capacity() == cap,
            r.history() == Seq::<Event>::empty(),
            r@ == Seq::<Event>::empty(),
    {
        Events { items: Vec::new(), cap, history: Ghost(Seq::empty()) }
    }

    /// Appends `ev`, dropping the oldest entry when the ring is full.
    pub fn add(&mut self, ev: Event)
        requires
            old(self).wf(),
        ensures
            final(self).wf(),
            final(self).capacity() == old(self).capacity(),
            final(self).history() == old(self).history().push(ev),
            final(self)@.len() > 0,
            final(self)@.last() == ev,
            old(self)@.len() < old(self).capacity() ==> final(self)@ == old(self)@.push(ev),
            old(self)@.len() == old(self).capacity() ==> final(self)@ == old(self)@.push(ev).drop_first(),
    {
        let ghost h = self.history@;
        let ghost nh = h.push(ev);
        if self.items.len() >= self.cap {
            self.items.remove(0);
        }
        self.items.push(ev);
        self.history = Ghost(nh);
        proof {
            if h.len() < self.cap {
                assert(self.items@ =~= last_n(nh, self.cap as nat));
            } else {
                assert(self.items@ =~= last_n(nh, self.cap as nat));
            }
        }
    }

    /// The ring holds the latest `capacity()` events of its history, all of
    /// them while there are no more.
    pub proof fn lemma_holds_latest(&self)
        requires
            self.wf(),
        ensures
            self@ == last_n(self.history(), self.capacity()),
    {
    }

    /// The newest event held is the newest ever appended.
    pub proof fn lemma_last_is_newest(&self)
        requires
            self.wf(),
            self.history().len() > 0,
        ensures
            self@.len() > 0,
            self@.last() == self.history().last(),
    {
    }

    /// Number of events held.
    pub fn len(&self) -> (r: usize)
        ensures
            r == self@.len(),
    {
        self.items.len()
    }

    /// The `i`-th held event, oldest first.
    pub fn get(&self, i: usize) -> (r: Event)
        requires
            i < self@.len(),
        ensures
            r == self@[i as int],
    {
        self.items[i]
    }

    /// The held events, oldest first.
    pub fn to_vec(&self) -> (r: Vec<Event>)
        ensures
            r@ == self@,
    {
        self.items.clone()
    }

    /// The most recent event, if any.
    pub fn last(&self) -> (r: Option<Event>)
        ensures
            self@.len() == 0 ==> r.is_none(),
            self@.len() > 0 ==> r == Some(self@.last()),
    {
        if self.items.len() == 0 {
            None
        } else {
            Some(self.items[self.items.len() - 1])
        }
    }
}

} // verus!
