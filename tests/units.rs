use fectl::codec::{read_u16_be, ClientTransportCodec, FrameError};
use fectl::config::{LoggingConfig, ServiceConfig};
use fectl::event::{Event, Events, Reason, State};
use fectl::worker::{Action, ProcessError, ProcessInfo, Worker, WorkerState};

fn cfg(restarts: u16) -> ServiceConfig {
    ServiceConfig {
        name: "web".to_string(),
        num: 1,
        command: "serve".to_string(),
        restarts,
        directory: None,
        gid: None,
        uid: None,
        timeout: 10,
        startup_timeout: 30,
        shutdown_timeout: 30,
        stdout: None,
        stderr: None,
    }
}

fn ev(t: u64) -> Event {
    Event { timestamp: t, state: State::Running, reason: Reason::Unspecified, pid: Some(t) }
}

#[test]
fn ring_drops_oldest_when_full() {
    let mut r = Events::new(3);
    assert_eq!(r.len(), 0);
    assert_eq!(r.last(), None);
    for t in 0..5 {
        r.add(ev(t));
    }
    assert_eq!(r.to_vec(), vec![ev(2), ev(3), ev(4)]);
    assert_eq!(r.get(0), ev(2));
    assert_eq!(r.last(), Some(ev(4)));
}

#[test]
fn worker_ring_keeps_fifty() {
    let mut w = Worker::new(0, &cfg(3), 0);
    w.start(Reason::ConsoleRequest, 0);
    w.loaded(0, 0);
    for t in 0..60 {
        w.pause(Reason::ConsoleRequest, t);
    }
    assert_eq!(w.events.len(), 50);
    assert_eq!(w.events.last().unwrap().timestamp, 59);
}

#[test]
fn frame_round_trip() {
    let mut c = ClientTransportCodec;
    let payload = b"{\"cmd\":\"loaded\"}".to_vec();
    let mut buf = Vec::new();
    assert_eq!(c.encode(&payload, &mut buf), Ok(()));
    assert_eq!(buf[0], 0);
    assert_eq!(buf[1], 16);
    assert_eq!(buf.len(), 18);
    buf.extend_from_slice(&[0, 2, b'h']);
    assert_eq!(c.decode(&mut buf), Some(payload));
    assert_eq!(buf, vec![0, 2, b'h']);
    // the second frame is incomplete: nothing is taken
    assert_eq!(c.decode(&mut buf), None);
    assert_eq!(buf, vec![0, 2, b'h']);
    buf.push(b'b');
    assert_eq!(c.decode(&mut buf), Some(b"hb".to_vec()));
    assert!(buf.is_empty());
}

#[test]
fn frame_needs_two_bytes() {
    let mut c = ClientTransportCodec;
    let mut buf = vec![1u8];
    assert_eq!(c.decode(&mut buf), None);
    assert_eq!(buf, vec![1u8]);
    let mut empty: Vec<u8> = Vec::new();
    assert_eq!(c.decode(&mut empty), None);
}

#[test]
fn frame_empty_payload() {
    let mut c = ClientTransportCodec;
    let mut buf = Vec::new();
    assert_eq!(c.encode(&[], &mut buf), Ok(()));
    assert_eq!(buf, vec![0, 0]);
    assert_eq!(c.decode(&mut buf), Some(vec![]));
    assert!(buf.is_empty());
}

#[test]
fn frame_largest_and_too_long() {
    let mut c = ClientTransportCodec;
    let big = vec![7u8; 65535];
    let mut buf = Vec::new();
    assert_eq!(c.encode(&big, &mut buf), Ok(()));
    assert_eq!((buf[0], buf[1]), (255, 255));
    assert_eq!(c.decode(&mut buf), Some(big));
    let too_big = vec![7u8; 65536];
    let mut out = vec![9u8];
    assert_eq!(c.encode(&too_big, &mut out), Err(FrameError::TooLong));
    assert_eq!(out, vec![9u8]);
}

#[test]
fn big_endian_length() {
    assert_eq!(read_u16_be(0x01, 0x02), 258);
    assert_eq!(read_u16_be(0xff, 0x00), 65280);
}

#[test]
fn logging_default() {
    let l = LoggingConfig::default();
    assert_eq!(l.name, "default");
    assert_eq!(l.service, "console");
    assert_eq!(l.level, Some("info".to_string()));
    assert_eq!(l.facility, None);
}

#[test]
fn two_children_only_while_overlapping() {
    let mut w = Worker::new(0, &cfg(3), 0);
    assert_eq!(w.pid(), None);
    w.start(Reason::ConsoleRequest, 0);
    assert_eq!(w.pid(), None);
    w.loaded(0, 1);
    assert_eq!(w.pid(), Some(0));
    assert_eq!(w.reload(true, Reason::ConsoleRequest, 2), vec![Action::Spawn(1)]);
    assert_eq!(w.state, WorkerState::Reloading(ProcessInfo { pid: 1 }, ProcessInfo { pid: 0 }));
    assert_eq!(w.loaded(1, 3), vec![Action::Stop(0), Action::Start(1)]);
    assert_eq!(w.state, WorkerState::StoppingOld(ProcessInfo { pid: 1 }, ProcessInfo { pid: 0 }));
    assert_eq!(w.pid(), Some(1));
    w.exited(0, &ProcessError::ExitCode(0), 4);
    assert_eq!(w.state, WorkerState::Running(ProcessInfo { pid: 1 }));
}

#[test]
fn start_then_stop_ends_stopped() {
    let mut w = Worker::new(0, &cfg(3), 0);
    w.start(Reason::ConsoleRequest, 0);
    assert_eq!(w.stop(Reason::ConsoleRequest, 1), vec![Action::Quit(0, true)]);
    assert_eq!(w.state, WorkerState::Stopping(ProcessInfo { pid: 0 }));
    w.exited(0, &ProcessError::Signaled(15), 2);
    assert!(w.is_stopped());
    assert_eq!(w.events.last().unwrap().state, State::Stopped);
    // stopping a slot that never started records the stop at once
    let mut idle = Worker::new(1, &cfg(3), 0);
    assert_eq!(idle.stop(Reason::ConsoleRequest, 1), vec![]);
    assert!(idle.is_stopped());
    assert_eq!(idle.events.last().unwrap().state, State::Stopped);
}

#[test]
fn restart_budget_counts_fast_failures() {
    let mut w = Worker::new(0, &cfg(2), 0);
    w.start(Reason::ConsoleRequest, 0);
    assert_eq!(w.exited(0, &ProcessError::ExitCode(3), 100), vec![Action::Quit(0, false), Action::Spawn(1)]);
    assert_eq!(w.restarts, 1);
    assert_eq!(w.exited(1, &ProcessError::HeartbeatFailed, 200), vec![]);
    assert_eq!(w.restarts, 2);
    assert!(w.is_failed());
    // an operator reload of a failed slot starts afresh
    assert_eq!(w.reload(true, Reason::ConsoleRequest, 300), vec![Action::Spawn(2)]);
    assert_eq!(w.restarts, 0);
}

#[test]
fn slow_clean_exit_clears_counter() {
    let mut w = Worker::new(0, &cfg(3), 0);
    w.start(Reason::ConsoleRequest, 0);
    w.exited(0, &ProcessError::ExitCode(1), 1000);
    assert_eq!(w.restarts, 1);
    // clean exit 20 s after the run began
    w.exited(1, &ProcessError::ExitCode(0), 20000);
    assert_eq!(w.restarts, 0);
    assert_eq!(w.started, 20000);
    // a clean exit within 10 s still counts
    w.exited(2, &ProcessError::ExitCode(0), 25000);
    assert_eq!(w.restarts, 1);
}

#[test]
fn slow_clean_exit_during_reload_clears_counter() {
    let mut w = Worker::new(0, &cfg(3), 0);
    w.start(Reason::ConsoleRequest, 0);
    w.loaded(0, 1);
    w.reload(false, Reason::ConsoleRequest, 2);
    w.exited(1, &ProcessError::ExitCode(1), 100);
    assert_eq!(w.restarts, 1);
    assert_eq!(w.events.last().unwrap().state, State::RestartFailed);
    w.exited(2, &ProcessError::ExitCode(0), 3500);
    assert_eq!(w.restarts, 0);
    assert_eq!(w.state, WorkerState::Restarting(ProcessInfo { pid: 3 }, ProcessInfo { pid: 0 }));
}

#[test]
fn startup_timeout_while_running_restarts_hard() {
    let mut w = Worker::new(0, &cfg(3), 0);
    w.start(Reason::ConsoleRequest, 0);
    w.loaded(0, 1);
    assert_eq!(w.exited(0, &ProcessError::StartupTimeout, 5), vec![Action::Spawn(1)]);
    assert!(w.restore_from_fail);
    assert_eq!(w.state, WorkerState::Restarting(ProcessInfo { pid: 1 }, ProcessInfo { pid: 0 }));
    assert_eq!(w.events.last().unwrap().reason, Reason::ReloadAfterTimeout);
}

#[test]
fn running_child_crash_respawns() {
    let mut w = Worker::new(0, &cfg(3), 0);
    w.start(Reason::ConsoleRequest, 0);
    w.loaded(0, 1);
    assert_eq!(
        w.exited(0, &ProcessError::ConfigError("bad".to_string()), 7),
        vec![Action::Quit(0, false), Action::Spawn(1)]
    );
    assert_eq!(w.state, WorkerState::Starting(ProcessInfo { pid: 1 }));
    let evs = w.events.to_vec();
    assert_eq!(evs[evs.len() - 2].state, State::Stopped);
    assert_eq!(evs[evs.len() - 2].reason, Reason::ConfigError);
    assert_eq!(evs[evs.len() - 1].reason, Reason::RestartFailedRunningWorker);
}

#[test]
fn new_child_dies_after_taking_over() {
    let mut w = Worker::new(0, &cfg(3), 0);
    w.start(Reason::ConsoleRequest, 0);
    w.loaded(0, 1);
    w.reload(true, Reason::ConsoleRequest, 2);
    w.loaded(1, 3);
    assert_eq!(w.exited(1, &ProcessError::PipeError, 4), vec![Action::Quit(0, false), Action::Spawn(2)]);
    assert_eq!(w.restarts, 1);
    assert_eq!(w.events.last().unwrap().reason, Reason::NewProcessDied);
}

#[test]
fn quit_from_overlap_quits_both() {
    let mut w = Worker::new(0, &cfg(3), 0);
    w.start(Reason::ConsoleRequest, 0);
    w.loaded(0, 1);
    w.reload(true, Reason::ConsoleRequest, 2);
    assert_eq!(w.quit(Reason::ConsoleRequest, 3), vec![Action::Quit(1, true), Action::Quit(0, true)]);
    assert_eq!(w.state, WorkerState::Stopping(ProcessInfo { pid: 0 }));
    // stale exits change nothing
    assert_eq!(w.exited(9, &ProcessError::ExitCode(0), 4), vec![]);
    assert_eq!(w.state, WorkerState::Stopping(ProcessInfo { pid: 0 }));
}

#[test]
fn process_error_reasons() {
    assert_eq!(ProcessError::ExitCode(2).reason(), Reason::ExitCode(2));
    assert_eq!(ProcessError::Signaled(9).reason(), Reason::Signal(9));
    assert_eq!(ProcessError::StartupTimeout.reason(), Reason::StartupTimeout);
    assert_eq!(ProcessError::HeartbeatFailed.reason(), Reason::HeartbeatFailed);
    assert_eq!(ProcessError::ConfigError("x".to_string()).reason(), Reason::ConfigError);
    assert_eq!(ProcessError::PipeError.reason(), Reason::PipeError);
}

fn socket(name: &str, services: &[&str]) -> fectl::config::SocketConfig {
    fectl::config::SocketConfig {
        name: name.to_string(),
        port: 8080,
        host: None,
        backlog: 128,
        proto: fectl::config::Proto::tcp4,
        service: services.iter().map(|s| s.to_string()).collect(),
        app: None,
        arguments: vec![],
    }
}

#[test]
fn registry_accepts_valid_sockets() {
    let services = vec![cfg(3)];
    let sockets = vec![socket("http", &["web"]), socket("admin", &[])];
    assert_eq!(fectl::registry::check_sockets(&sockets, &services), Ok(()));
    assert_eq!(fectl::registry::sockets_for(&sockets, &"web".to_string()), vec![0]);
    assert_eq!(fectl::registry::sockets_for(&sockets, &"other".to_string()), Vec::<usize>::new());
}

#[test]
fn registry_refuses_duplicate_names() {
    let services = vec![cfg(3)];
    let sockets = vec![socket("http", &["web"]), socket("admin", &[]), socket("http", &["nope"])];
    assert_eq!(
        fectl::registry::check_sockets(&sockets, &services),
        Err(fectl::registry::RegistryError::DuplicateSocket(0, 2))
    );
}

#[test]
fn registry_refuses_unknown_service() {
    let services = vec![cfg(3)];
    let sockets = vec![socket("http", &["web"]), socket("admin", &["web", "nope"])];
    assert_eq!(
        fectl::registry::check_sockets(&sockets, &services),
        Err(fectl::registry::RegistryError::UnknownService(1))
    );
}

#[test]
fn registry_routes_in_declaration_order() {
    let sockets = vec![socket("a", &["web"]), socket("b", &["api"]), socket("c", &["api", "web"])];
    assert_eq!(fectl::registry::sockets_for(&sockets, &"web".to_string()), vec![0, 2]);
    assert_eq!(fectl::registry::sockets_for(&sockets, &"api".to_string()), vec![1, 2]);
}

#[test]
fn operator_start_after_failure_gives_fresh_budget() {
    let mut w = Worker::new(0, &cfg(1), 0);
    w.start(Reason::ConsoleRequest, 0);
    assert_eq!(w.exited(0, &ProcessError::ExitCode(1), 10), vec![]);
    assert_eq!(w.state, WorkerState::Failed);
    assert_eq!(w.restarts, 1);
    assert_eq!(w.start(Reason::ConsoleRequest, 20), vec![Action::Spawn(1)]);
    assert_eq!(w.restarts, 0);
    assert_eq!(w.state, WorkerState::Starting(ProcessInfo { pid: 1 }));
}

#[test]
fn stop_or_quit_on_stopped_slot_changes_nothing() {
    let mut w = Worker::new(0, &cfg(3), 0);
    assert_eq!(w.stop(Reason::ConsoleRequest, 1), vec![]);
    assert!(w.is_stopped());
    assert_eq!(w.events.len(), 1);
    assert_eq!(w.stop(Reason::ConsoleRequest, 2), vec![]);
    assert_eq!(w.quit(Reason::ConsoleRequest, 3), vec![]);
    assert!(w.is_stopped());
    assert_eq!(w.events.len(), 1);
    assert_eq!(w.events.last().unwrap().timestamp, 1);
}

#[test]
fn quit_from_stopping_old_records_stopping() {
    let mut w = Worker::new(0, &cfg(3), 0);
    w.start(Reason::ConsoleRequest, 0);
    w.loaded(0, 1);
    w.reload(true, Reason::ConsoleRequest, 2);
    w.loaded(1, 3);
    assert_eq!(w.quit(Reason::ConsoleRequest, 4), vec![Action::Quit(0, true), Action::Quit(1, true)]);
    assert_eq!(w.state, WorkerState::Stopping(ProcessInfo { pid: 1 }));
    let last = w.events.last().unwrap();
    assert_eq!(last.state, State::Stopping);
    assert_eq!(last.pid, Some(1));
}

#[test]
fn heartbeat_miss_while_running_restarts_hard() {
    let mut w = Worker::new(0, &cfg(3), 0);
    w.start(Reason::ConsoleRequest, 0);
    w.loaded(0, 1);
    assert_eq!(w.exited(0, &ProcessError::HeartbeatFailed, 5), vec![Action::Spawn(1)]);
    assert!(w.restore_from_fail);
    assert_eq!(w.state, WorkerState::Restarting(ProcessInfo { pid: 1 }, ProcessInfo { pid: 0 }));
    assert_eq!(w.events.last().unwrap().reason, Reason::ReloadAfterTimeout);
}

#[test]
fn new_worker_has_empty_ring() {
    let w = Worker::new(3, &cfg(3), 7);
    assert_eq!(w.events.len(), 0);
    assert_eq!(w.idx, 3);
    assert_eq!(w.started, 7);
    assert_eq!(w.pid(), None);
    assert!(!w.is_running() && !w.is_failed() && !w.is_stopped());
}
