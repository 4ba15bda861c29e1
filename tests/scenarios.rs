use fectl::config::ServiceConfig;
use fectl::control::{Dispatch, Master, MasterRequest, MasterResponse};
use fectl::event::{Reason, State};
use fectl::service::{Op, ServiceState, SlotAction};
use fectl::worker::{Action, ProcessError, ProcessInfo, WorkerMessage, WorkerState};

fn cfg(name: &str, num: u16, restarts: u16) -> ServiceConfig {
    ServiceConfig {
        name: name.to_string(),
        num,
        command: "/bin/true-echo loaded".to_string(),
        restarts,
        directory: None,
        gid: None,
        uid: None,
        timeout: 10,
        startup_timeout: 30,
        shutdown_timeout: 30,
        stdout: None,
        stderr: None,
    }
}

fn sa(slot: usize, action: Action) -> SlotAction {
    SlotAction { slot, action }
}

fn applied(d: Dispatch) -> (usize, Op, Vec<SlotAction>) {
    match d {
        Dispatch::Applied(i, op, acts) => (i, op, acts),
        other => panic!("expected the operation to be applied, got {:?}", other),
    }
}

fn states(m: &Master, slot: usize) -> Vec<State> {
    m.service(0).worker(slot).events.to_vec().iter().map(|e| e.state).collect()
}

/// Service `web` with two slots, both loaded and serving child 0.
fn running_web() -> Master {
    let mut m = Master::new(vec![cfg("web", 2, 3)], 0);
    let v = "1.0".to_string();
    let (_, _, acts) = applied(m.handle(&MasterRequest::Start("web".to_string()), 1, &v, 0));
    assert_eq!(acts, vec![sa(0, Action::Spawn(0)), sa(1, Action::Spawn(0))]);
    assert_eq!(m.loaded(0, 0, 0, 5), vec![sa(0, Action::Start(0))]);
    assert_eq!(m.loaded(0, 1, 0, 5), vec![sa(1, Action::Start(0))]);
    m
}

#[test]
fn happy_start() {
    let m = running_web();
    for slot in 0..2 {
        assert_eq!(states(&m, slot), vec![State::Starting, State::Running]);
        assert_eq!(m.service(0).worker(slot).state, WorkerState::Running(ProcessInfo { pid: 0 }));
    }
    assert_eq!(m.service(0).state(), ServiceState::Running);
    assert_eq!(m.outcome(0, Op::Start(Reason::ConsoleRequest)), Some(MasterResponse::ServiceStarted));
}

#[test]
fn boot_failure_exhaustion() {
    let mut m = Master::new(vec![cfg("bad", 1, 3)], 0);
    let v = "1.0".to_string();
    let (i, op, acts) = applied(m.handle(&MasterRequest::Start("bad".to_string()), 1, &v, 0));
    assert_eq!(i, 0);
    assert_eq!(acts, vec![sa(0, Action::Spawn(0))]);
    assert_eq!(m.outcome(0, op), None);
    let err = ProcessError::ExitCode(1);
    assert_eq!(m.exited(0, 0, 0, &err, 1), vec![sa(0, Action::Quit(0, false)), sa(0, Action::Spawn(1))]);
    assert_eq!(m.exited(0, 0, 1, &err, 2), vec![sa(0, Action::Quit(1, false)), sa(0, Action::Spawn(2))]);
    assert_eq!(m.exited(0, 0, 2, &err, 3), vec![]);
    assert_eq!(m.service(0).worker(0).state, WorkerState::Failed);
    assert_eq!(
        states(&m, 0),
        vec![State::Starting, State::Failed, State::Starting, State::Failed, State::Starting, State::Failed]
    );
    assert_eq!(m.service(0).state(), ServiceState::Failed);
    assert_eq!(m.outcome(0, op), Some(MasterResponse::ServiceFailed));
}

#[test]
fn graceful_reload() {
    let mut m = running_web();
    let v = "1.0".to_string();
    let (_, op, acts) = applied(m.handle(&MasterRequest::Reload("web".to_string()), 1, &v, 10));
    assert_eq!(acts, vec![sa(0, Action::Spawn(1)), sa(1, Action::Spawn(1))]);
    for slot in 0..2 {
        assert_eq!(m.loaded(0, slot, 1, 20), vec![sa(slot, Action::Stop(0)), sa(slot, Action::Start(1))]);
        assert_eq!(m.exited(0, slot, 0, &ProcessError::ExitCode(0), 30), vec![]);
        let evs = m.service(0).worker(slot).events.to_vec();
        let n = evs.len();
        assert_eq!(evs[n - 3].state, State::StoppingOld);
        assert_eq!(evs[n - 2].state, State::Stopped);
        assert_eq!(evs[n - 2].pid, Some(0));
        assert_eq!(evs[n - 1].state, State::Running);
        assert_eq!(evs[n - 1].pid, Some(1));
        assert_eq!(evs.iter().filter(|e| e.state == State::Stopped && e.pid == Some(0)).count(), 1);
        assert_eq!(m.service(0).worker(slot).state, WorkerState::Running(ProcessInfo { pid: 1 }));
    }
    assert_eq!(m.outcome(0, op), Some(MasterResponse::Done));
}

#[test]
fn failed_reload_fallback() {
    let mut m = running_web();
    let v = "1.0".to_string();
    let (_, op, _) = applied(m.handle(&MasterRequest::Reload("web".to_string()), 1, &v, 10));
    let err = ProcessError::ExitCode(1);
    for slot in 0..2 {
        assert_eq!(m.exited(0, slot, 1, &err, 11), vec![sa(slot, Action::Spawn(2))]);
        assert_eq!(m.exited(0, slot, 2, &err, 12), vec![sa(slot, Action::Spawn(3))]);
        assert_eq!(m.exited(0, slot, 3, &err, 13), vec![]);
        let w = m.service(0).worker(slot);
        assert!(w.restore_from_fail);
        assert_eq!(w.state, WorkerState::Running(ProcessInfo { pid: 0 }));
        let evs = w.events.to_vec();
        assert_eq!(evs.iter().filter(|e| e.state == State::ReloadFailed).count(), 3);
        let last = evs[evs.len() - 1];
        assert_eq!(last.state, State::Running);
        assert_eq!(last.reason, Reason::RestoreAfterFailed);
        assert_eq!(last.pid, Some(0));
    }
    assert_eq!(m.outcome(0, op), Some(MasterResponse::ServiceFailed));
}

#[test]
fn worker_initiated_restart() {
    let mut m = running_web();
    assert_eq!(m.message(0, 0, 0, &WorkerMessage::restart, 10), vec![sa(0, Action::Spawn(1))]);
    let w = m.service(0).worker(0);
    assert_eq!(w.state, WorkerState::Restarting(ProcessInfo { pid: 1 }, ProcessInfo { pid: 0 }));
    let last = w.events.last().unwrap();
    assert_eq!(last.state, State::Restarting);
    assert_eq!(last.reason, Reason::WorkerRequest);
    assert_eq!(m.loaded(0, 0, 1, 20), vec![sa(0, Action::Quit(0, true)), sa(0, Action::Start(1))]);
    assert_eq!(m.exited(0, 0, 0, &ProcessError::Signaled(15), 30), vec![]);
    assert_eq!(m.service(0).worker(0).state, WorkerState::Running(ProcessInfo { pid: 1 }));
    // the other slot is untouched
    assert_eq!(m.service(0).worker(1).state, WorkerState::Running(ProcessInfo { pid: 0 }));
}

#[test]
fn stop_mid_reload() {
    let mut m = running_web();
    let v = "1.0".to_string();
    applied(m.handle(&MasterRequest::Reload("web".to_string()), 1, &v, 10));
    let (_, op, acts) = applied(m.handle(&MasterRequest::Stop("web".to_string()), 1, &v, 11));
    assert_eq!(
        acts,
        vec![
            sa(0, Action::Quit(1, true)),
            sa(0, Action::Stop(0)),
            sa(1, Action::Quit(1, true)),
            sa(1, Action::Stop(0)),
        ]
    );
    assert_eq!(m.outcome(0, op), None);
    for slot in 0..2 {
        assert_eq!(m.service(0).worker(slot).state, WorkerState::Stopping(ProcessInfo { pid: 0 }));
        // the new child's exit is stale now
        assert_eq!(m.exited(0, slot, 1, &ProcessError::Signaled(15), 12), vec![]);
        assert_eq!(m.exited(0, slot, 0, &ProcessError::ExitCode(0), 13), vec![]);
        assert!(m.service(0).worker(slot).is_stopped());
        assert_eq!(m.service(0).worker(slot).events.last().unwrap().state, State::Stopped);
    }
    assert_eq!(m.service(0).state(), ServiceState::Stopped);
    assert_eq!(m.outcome(0, op), Some(MasterResponse::ServiceStopped));
}

#[test]
fn unknown_service_is_refused_without_change() {
    let mut m = running_web();
    let v = "1.0".to_string();
    let reqs = vec![
        MasterRequest::Status("nope".to_string()),
        MasterRequest::SPid("nope".to_string()),
        MasterRequest::Start("nope".to_string()),
        MasterRequest::Pause("nope".to_string()),
        MasterRequest::Resume("nope".to_string()),
        MasterRequest::Reload("nope".to_string()),
        MasterRequest::Restart("nope".to_string()),
        MasterRequest::Stop("nope".to_string()),
    ];
    for req in reqs.iter() {
        match m.handle(req, 1, &v, 50) {
            Dispatch::Reply(MasterResponse::ErrorUnknownService) => (),
            other => panic!("unexpected answer {:?}", other),
        }
        for slot in 0..2 {
            assert_eq!(states(&m, slot), vec![State::Starting, State::Running]);
        }
    }
}

#[test]
fn master_answers_its_own_questions() {
    let mut m = Master::new(vec![cfg("web", 1, 3)], 0);
    let v = "0.3.1".to_string();
    assert_eq!(m.handle(&MasterRequest::Ping, 42, &v, 0), Dispatch::Reply(MasterResponse::Pong));
    assert_eq!(m.handle(&MasterRequest::Pid, 42, &v, 0), Dispatch::Reply(MasterResponse::Pid(42)));
    assert_eq!(
        m.handle(&MasterRequest::Version, 42, &v, 0),
        Dispatch::Reply(MasterResponse::Version("0.3.1".to_string()))
    );
    assert_eq!(m.handle(&MasterRequest::Quit, 42, &v, 0), Dispatch::Shutdown);
}

#[test]
fn status_and_pids() {
    let mut m = running_web();
    let v = "1.0".to_string();
    match m.handle(&MasterRequest::Status("web".to_string()), 1, &v, 50) {
        Dispatch::Reply(MasterResponse::ServiceStatus(st, slots)) => {
            assert_eq!(st, ServiceState::Running);
            assert_eq!(slots.len(), 2);
            assert_eq!(slots[1].0, 1);
            assert_eq!(slots[1].1.len(), 2);
        }
        other => panic!("unexpected answer {:?}", other),
    }
    assert_eq!(
        m.handle(&MasterRequest::SPid("web".to_string()), 1, &v, 50),
        Dispatch::Reply(MasterResponse::ServiceWorkerPids(vec![(0, 0), (1, 0)]))
    );
}

#[test]
fn refusals_by_service_state() {
    let mut m = Master::new(vec![cfg("web", 1, 3)], 0);
    let v = "1.0".to_string();
    assert_eq!(
        m.handle(&MasterRequest::SPid("web".to_string()), 1, &v, 0),
        Dispatch::Reply(MasterResponse::ErrorNotReady)
    );
    assert_eq!(
        m.handle(&MasterRequest::Pause("web".to_string()), 1, &v, 0),
        Dispatch::Reply(MasterResponse::ErrorNotReady)
    );
    applied(m.handle(&MasterRequest::Start("web".to_string()), 1, &v, 0));
    assert_eq!(m.service(0).state(), ServiceState::Loading);
    assert_eq!(
        m.handle(&MasterRequest::Reload("web".to_string()), 1, &v, 0),
        Dispatch::Reply(MasterResponse::ErrorServiceStarting)
    );
}

#[test]
fn pause_and_resume() {
    let mut m = running_web();
    let v = "1.0".to_string();
    let (_, op, acts) = applied(m.handle(&MasterRequest::Pause("web".to_string()), 1, &v, 60));
    assert_eq!(acts, vec![sa(0, Action::Pause(0)), sa(1, Action::Pause(0))]);
    assert_eq!(m.service(0).state(), ServiceState::Paused);
    assert_eq!(m.outcome(0, op), Some(MasterResponse::Done));
    let (_, _, acts) = applied(m.handle(&MasterRequest::Resume("web".to_string()), 1, &v, 61));
    assert_eq!(acts, vec![sa(0, Action::Resume(0)), sa(1, Action::Resume(0))]);
    assert_eq!(m.service(0).state(), ServiceState::Running);
    assert_eq!(states(&m, 0), vec![State::Starting, State::Running, State::Paused, State::Running]);
}

#[test]
fn busy_service_refuses_conflicting_requests() {
    let mut m = running_web();
    let v = "1.0".to_string();
    applied(m.handle(&MasterRequest::Reload("web".to_string()), 1, &v, 10));
    assert_eq!(
        m.handle(&MasterRequest::Restart("web".to_string()), 1, &v, 11),
        Dispatch::Reply(MasterResponse::ErrorServiceReloading)
    );
    assert_eq!(
        m.handle(&MasterRequest::Pause("web".to_string()), 1, &v, 11),
        Dispatch::Reply(MasterResponse::ErrorServiceReloading)
    );
    applied(m.handle(&MasterRequest::Stop("web".to_string()), 1, &v, 12));
    assert_eq!(
        m.handle(&MasterRequest::Start("web".to_string()), 1, &v, 13),
        Dispatch::Reply(MasterResponse::ErrorServiceStopping)
    );
    assert_eq!(
        m.handle(&MasterRequest::Reload("web".to_string()), 1, &v, 13),
        Dispatch::Reply(MasterResponse::ErrorServiceStopping)
    );
    // a second stop is taken and changes nothing
    let (_, _, acts) = applied(m.handle(&MasterRequest::Stop("web".to_string()), 1, &v, 14));
    assert!(acts.is_empty());
}
