use pictaflux::error::StartError;
use pictaflux::readiness::{
    parse_ready_line, readiness_step, scan_lines, ReadEvent, ReadStep, STARTUP_TIMEOUT_SECS,
};
use pictaflux::reclaim::{parse_pid, pids_from_listing};
use pictaflux::state::{SidecarState, SidecarStatus, DEFAULT_PORT};

#[derive(Debug, PartialEq)]
struct FakeWorker(u32);

fn lines(v: &[&str]) -> Vec<String> {
    v.iter().map(|s| s.to_string()).collect()
}

#[test]
fn new_state_is_stopped_on_default_port() {
    let s: SidecarState<FakeWorker> = SidecarState::new();
    assert!(s.child.is_none());
    assert_eq!(s.port, 9824);
    assert_eq!(s.port, DEFAULT_PORT);
    assert_eq!(s.status, SidecarStatus::Stopped);
}

#[test]
fn second_start_is_already_running() {
    let mut s: SidecarState<FakeWorker> = SidecarState::new();
    assert_eq!(s.check_not_running(), Ok(()));
    s.enter_loading("/venv/python3".to_string(), true, "/srv.py".to_string(), true)
        .unwrap();
    s.commit_ready(FakeWorker(7), 9000);
    assert_eq!(s.check_not_running(), Err(StartError::AlreadyRunning));
    assert_eq!(s.child, Some(FakeWorker(7)));
    assert_eq!(s.status, SidecarStatus::Ready);
}

#[test]
fn handshake_port_overrides_requested_port() {
    let mut s: SidecarState<FakeWorker> = SidecarState::new();
    let requested: u16 = 9000;
    assert_eq!(s.check_not_running(), Ok(()));
    s.enter_loading("/venv/python3".to_string(), true, "/srv.py".to_string(), true)
        .unwrap();
    assert_eq!(s.status, SidecarStatus::Loading);
    let step = readiness_step(&ReadEvent::Line("READY:4242".to_string()));
    assert_eq!(step, ReadStep::Ready(4242));
    if let ReadStep::Ready(p) = step {
        let r = s.commit_ready(FakeWorker(1), p);
        assert_eq!(r.port, 4242);
    }
    assert_ne!(s.port, requested);
    assert_eq!(s.port, 4242);
    assert_eq!(s.status, SidecarStatus::Ready);
    assert_eq!(s.status().status, SidecarStatus::Ready);
    assert_eq!(s.status().port, 4242);
}

#[test]
fn worker_exiting_without_ready_fails_early() {
    let mut s: SidecarState<FakeWorker> = SidecarState::new();
    s.enter_loading("/venv/python3".to_string(), true, "/srv.py".to_string(), true)
        .unwrap();
    let out = scan_lines(&lines(&["loading model", "warming up"]));
    assert_eq!(out, ReadStep::Failed(StartError::WorkerExitedEarly));
    assert_eq!(
        readiness_step(&ReadEvent::Closed),
        ReadStep::Failed(StartError::WorkerExitedEarly)
    );
    let r = s.conclude_start(FakeWorker(5), Err(StartError::WorkerExitedEarly));
    match r {
        Err((e, w)) => {
            assert_eq!(e, StartError::WorkerExitedEarly);
            assert_eq!(w, FakeWorker(5));
        }
        Ok(_) => panic!("start must fail"),
    }
    assert_ne!(s.status, SidecarStatus::Ready);
    assert_eq!(
        s.status,
        SidecarStatus::Error("Sidecar exited before sending READY signal".to_string())
    );
    assert!(s.child.is_none());
}

#[test]
fn silent_worker_times_out() {
    assert_eq!(STARTUP_TIMEOUT_SECS, 120);
    assert_eq!(
        readiness_step(&ReadEvent::Line("still loading".to_string())),
        ReadStep::Continue
    );
    assert_eq!(
        readiness_step(&ReadEvent::TimedOut),
        ReadStep::Failed(StartError::StartupTimeout)
    );
}

#[test]
fn stop_releases_worker_and_allows_restart() {
    let mut s: SidecarState<FakeWorker> = SidecarState::new();
    s.enter_loading("/venv/python3".to_string(), true, "/srv.py".to_string(), true)
        .unwrap();
    s.commit_ready(FakeWorker(3), 9000);
    let taken = s.take_for_stop();
    assert_eq!(taken, Some(FakeWorker(3)));
    assert!(s.child.is_none());
    assert_eq!(s.status, SidecarStatus::Stopped);
    assert_eq!(s.port, 9000);
    assert_eq!(s.check_not_running(), Ok(()));
    s.enter_loading("/venv/python3".to_string(), true, "/srv.py".to_string(), true)
        .unwrap();
    let r = s.commit_ready(FakeWorker(4), 9000);
    assert_eq!(r.port, 9000);
    assert_eq!(s.status, SidecarStatus::Ready);
}

#[test]
fn stop_when_idle_reports_stopped() {
    let mut s: SidecarState<FakeWorker> = SidecarState::new();
    s.record_failure(&StartError::SpawnFailed("denied".to_string()));
    assert_eq!(
        s.status,
        SidecarStatus::Error("Failed to spawn sidecar: denied".to_string())
    );
    assert_eq!(s.take_for_stop(), None);
    assert_eq!(s.status, SidecarStatus::Stopped);
    assert_eq!(s.port, DEFAULT_PORT);
    assert!(s.child.is_none());
}

#[test]
fn status_reads_without_change() {
    let mut s: SidecarState<FakeWorker> = SidecarState::new();
    s.commit_ready(FakeWorker(9), 5000);
    let a = s.status();
    let b = s.status();
    assert_eq!(a.status, b.status);
    assert_eq!(a.port, 5000);
    assert_eq!(b.port, 5000);
    assert_eq!(s.child, Some(FakeWorker(9)));
    assert_eq!(s.status, SidecarStatus::Ready);
}

#[test]
fn missing_executable_is_setup_incomplete() {
    let mut s: SidecarState<FakeWorker> = SidecarState::new();
    let r = s.enter_loading("/venv/python3".to_string(), false, "/srv.py".to_string(), true);
    assert_eq!(r, Err(StartError::SetupIncomplete("/venv/python3".to_string())));
    assert_eq!(s.status, SidecarStatus::Stopped);
    assert!(s.child.is_none());
}

#[test]
fn missing_script_is_setup_incomplete() {
    let mut s: SidecarState<FakeWorker> = SidecarState::new();
    let r = s.enter_loading("/venv/python3".to_string(), true, "/srv.py".to_string(), false);
    assert_eq!(r, Err(StartError::SetupIncomplete("/srv.py".to_string())));
    assert_eq!(s.status, SidecarStatus::Stopped);
    assert!(s.child.is_none());
}

#[test]
fn failure_does_not_touch_a_held_worker() {
    let mut s: SidecarState<FakeWorker> = SidecarState::new();
    s.commit_ready(FakeWorker(2), 7000);
    s.record_failure(&StartError::StartupTimeout);
    assert_eq!(s.status, SidecarStatus::Ready);
    assert_eq!(s.child, Some(FakeWorker(2)));
}

#[test]
fn ready_line_forms() {
    assert_eq!(parse_ready_line("READY:0"), ReadStep::Ready(0));
    assert_eq!(parse_ready_line("READY:65535"), ReadStep::Ready(65535));
    assert_eq!(parse_ready_line("READY:00080"), ReadStep::Ready(80));
    assert_eq!(parse_ready_line("READY:65536"), ReadStep::Failed(StartError::BadReadyPort));
    assert_eq!(
        parse_ready_line("READY:123456789012"),
        ReadStep::Failed(StartError::BadReadyPort)
    );
    assert_eq!(parse_ready_line("READY:"), ReadStep::Continue);
    assert_eq!(parse_ready_line("READY:12a"), ReadStep::Continue);
    assert_eq!(parse_ready_line("ready:4242"), ReadStep::Continue);
    assert_eq!(parse_ready_line(" READY:4242"), ReadStep::Continue);
    assert_eq!(parse_ready_line(""), ReadStep::Continue);
}

#[test]
fn scan_stops_at_first_ready_line() {
    let out = scan_lines(&lines(&["hello", "READY:4242", "READY:1111"]));
    assert_eq!(out, ReadStep::Ready(4242));
    let bad = scan_lines(&lines(&["READY:70000", "READY:1111"]));
    assert_eq!(bad, ReadStep::Failed(StartError::BadReadyPort));
    assert_eq!(scan_lines(&Vec::new()), ReadStep::Failed(StartError::WorkerExitedEarly));
}

#[test]
fn pid_parsing() {
    assert_eq!(parse_pid("1234"), Some(1234));
    assert_eq!(parse_pid("0"), Some(0));
    assert_eq!(parse_pid("4294967295"), Some(4294967295));
    assert_eq!(parse_pid("4294967296"), None);
    assert_eq!(parse_pid(""), None);
    assert_eq!(parse_pid("12x"), None);
    assert_eq!(parse_pid("-1"), None);
}

#[test]
fn listing_yields_pids_in_order() {
    let pids = pids_from_listing("4511\n\noops\n  77\r\n99999999999\n12 34\n\t8\t");
    assert_eq!(pids, vec![4511, 77, 8]);
    assert_eq!(pids_from_listing("4511\n"), vec![4511]);
    assert_eq!(pids_from_listing("4511"), vec![4511]);
    assert!(pids_from_listing("").is_empty());
    assert!(pids_from_listing("\n\n").is_empty());
}

#[test]
fn conclude_start_commits_handshake_port() {
    let mut s: SidecarState<FakeWorker> = SidecarState::new();
    s.enter_loading("/venv/python3".to_string(), true, "/srv.py".to_string(), true)
        .unwrap();
    match s.conclude_start(FakeWorker(8), Ok(4242)) {
        Ok(r) => assert_eq!(r.port, 4242),
        Err(_) => panic!("start must succeed"),
    }
    assert_eq!(s.child, Some(FakeWorker(8)));
    assert_eq!(s.port, 4242);
    assert_eq!(s.status, SidecarStatus::Ready);
}

#[test]
fn timeout_hands_worker_back() {
    let mut s: SidecarState<FakeWorker> = SidecarState::new();
    s.enter_loading("/venv/python3".to_string(), true, "/srv.py".to_string(), true)
        .unwrap();
    match s.conclude_start(FakeWorker(6), Err(StartError::StartupTimeout)) {
        Err((e, w)) => {
            assert_eq!(e, StartError::StartupTimeout);
            assert_eq!(w, FakeWorker(6));
        }
        Ok(_) => panic!("start must fail"),
    }
    assert!(s.child.is_none());
    assert_eq!(
        s.status,
        SidecarStatus::Error("Sidecar startup timed out after 120s".to_string())
    );
}

#[test]
fn error_messages() {
    assert_eq!(StartError::AlreadyRunning.message(), "Sidecar is already running");
    assert_eq!(
        StartError::SetupIncomplete("/a/python3".to_string()).message(),
        "Sidecar setup incomplete: /a/python3 not found. Run the sidecar setup first."
    );
    assert_eq!(
        StartError::SpawnFailed("no such file".to_string()).message(),
        "Failed to spawn sidecar: no such file"
    );
    assert_eq!(
        StartError::WorkerExitedEarly.message(),
        "Sidecar exited before sending READY signal"
    );
    assert_eq!(StartError::StartupTimeout.message(), "Sidecar startup timed out after 120s");
    assert_eq!(StartError::BadReadyPort.message(), "Bad port in READY signal");
}
