use std::io::ErrorKind;

use codex_lomor::readiness::{choose_lomord_binary, health_url, home_candidates, probe_passed, DEFAULT_LOMOR_PORT};
use codex_lomor::startup::{
    ReadyError, ReadyErrorKind, Readiness, ReadinessAction, ReadinessEvent, ReadinessPhase, StartFailure,
    HEALTH_POLL_INTERVAL_MS, READY_TIMEOUT_MS,
};

const NOT_FOUND: &str = "cannot find lomord binary \u{2014} ensure it is on PATH, at ~/.local/bin/lomord, \
                         or at ~/projects/lomor/target/release/lomord";
const TIMED_OUT: &str = "lomord did not become ready within 120 seconds; \
                         check lomord logs for startup errors";

#[test]
fn health_url_of_default_port() {
    assert_eq!(health_url(DEFAULT_LOMOR_PORT), "http://localhost:8080/health");
}

#[test]
fn health_url_renders_ports_in_decimal() {
    assert_eq!(health_url(0), "http://localhost:0/health");
    assert_eq!(health_url(9), "http://localhost:9/health");
    assert_eq!(health_url(10), "http://localhost:10/health");
    assert_eq!(health_url(65535), "http://localhost:65535/health");
}

#[test]
fn probe_passes_exactly_on_2xx() {
    assert!(probe_passed(Some(200)));
    assert!(probe_passed(Some(204)));
    assert!(probe_passed(Some(299)));
    assert!(!probe_passed(Some(199)));
    assert!(!probe_passed(Some(300)));
    assert!(!probe_passed(Some(404)));
    assert!(!probe_passed(Some(503)));
    assert!(!probe_passed(Some(42)));
    assert!(!probe_passed(Some(1000)));
    assert!(!probe_passed(None));
}

#[test]
fn home_candidates_in_search_order() {
    assert_eq!(
        home_candidates(Some("/home/u")),
        vec!["/home/u/.local/bin/lomord".to_string(), "/home/u/projects/lomor/target/release/lomord".to_string()]
    );
    assert_eq!(
        home_candidates(Some("/home/u/")),
        vec!["/home/u/.local/bin/lomord".to_string(), "/home/u/projects/lomor/target/release/lomord".to_string()]
    );
    assert_eq!(
        home_candidates(Some("")),
        vec![".local/bin/lomord".to_string(), "projects/lomor/target/release/lomord".to_string()]
    );
    assert!(home_candidates(None).is_empty());
}

#[test]
fn binary_on_path_wins() {
    let chosen = choose_lomord_binary(
        Some("/usr/bin/lomord".to_string()),
        vec!["/a".to_string(), "/b".to_string()],
        vec![true, true],
    );
    assert_eq!(chosen, Some("/usr/bin/lomord".to_string()));
}

#[test]
fn first_present_candidate_is_chosen() {
    let cands = vec!["/a".to_string(), "/b".to_string()];
    assert_eq!(choose_lomord_binary(None, cands.clone(), vec![true, true]), Some("/a".to_string()));
    assert_eq!(choose_lomord_binary(None, cands.clone(), vec![false, true]), Some("/b".to_string()));
    assert_eq!(choose_lomord_binary(None, cands, vec![false, false]), None);
    assert_eq!(choose_lomord_binary(None, vec![], vec![]), None);
}

fn finish_error(action: ReadinessAction) -> ReadyError {
    match action {
        ReadinessAction::Finish { result: Err(e) } => e,
        other => panic!("expected a failure, got {:?}", other),
    }
}

#[test]
fn running_server_is_used_at_once() {
    let (state, action) = Readiness::new();
    assert_eq!(action, ReadinessAction::Probe);
    let (state, action) = state.step(ReadinessEvent::Probed { healthy: true, now_ms: 5 });
    assert_eq!(action, ReadinessAction::Finish { result: Ok(()) });
    assert!(state.is_finished());
}

#[test]
fn missing_binary_is_not_found() {
    let (state, _) = Readiness::new();
    let (state, action) = state.step(ReadinessEvent::Probed { healthy: false, now_ms: 0 });
    assert_eq!(action, ReadinessAction::Locate);
    let (state, action) = state.step(ReadinessEvent::Located { binary: None });
    assert!(state.is_finished());
    let e = finish_error(action);
    assert_eq!(e.kind, ReadyErrorKind::NotFound);
    assert_eq!(e.message, NOT_FOUND);
}

fn started(binary: &str) -> Readiness {
    let (state, _) = Readiness::new();
    let (state, _) = state.step(ReadinessEvent::Probed { healthy: false, now_ms: 0 });
    let (state, action) = state.step(ReadinessEvent::Located { binary: Some(binary.to_string()) });
    assert_eq!(action, ReadinessAction::Start { binary: binary.to_string() });
    assert_eq!(state.phase, ReadinessPhase::Starting { binary: binary.to_string() });
    state
}

#[test]
fn spawn_failure_keeps_its_kind_and_names_the_binary() {
    let state = started("/opt/lomord");
    let (state, action) = state.step(ReadinessEvent::StartFailed {
        failure: StartFailure::Spawn { kind: ErrorKind::PermissionDenied, detail: "denied".to_string() },
    });
    assert!(state.is_finished());
    let e = finish_error(action);
    assert_eq!(e.kind, ReadyErrorKind::Start(ErrorKind::PermissionDenied));
    assert_eq!(e.message, "failed to spawn /opt/lomord: denied");
}

#[test]
fn wait_failure_keeps_its_kind() {
    let state = started("/opt/lomord");
    let (_, action) = state.step(ReadinessEvent::StartFailed {
        failure: StartFailure::Wait { kind: ErrorKind::Interrupted, detail: "gone".to_string() },
    });
    let e = finish_error(action);
    assert_eq!(e.kind, ReadyErrorKind::Start(ErrorKind::Interrupted));
    assert_eq!(e.message, "lomord start failed: gone");
}

#[test]
fn polling_every_two_seconds_until_healthy() {
    let state = started("lomord");
    let (state, action) = state.step(ReadinessEvent::Started { now_ms: 1000 });
    assert_eq!(action, ReadinessAction::SleepThenProbe { ms: 2000 });
    assert_eq!(state.phase, ReadinessPhase::Polling { deadline_ms: 121000 });
    let (state, action) = state.step(ReadinessEvent::Probed { healthy: false, now_ms: 3000 });
    assert_eq!(action, ReadinessAction::SleepThenProbe { ms: HEALTH_POLL_INTERVAL_MS });
    let (state, action) = state.step(ReadinessEvent::Probed { healthy: false, now_ms: 120999 });
    assert_eq!(action, ReadinessAction::SleepThenProbe { ms: 2000 });
    let (state, action) = state.step(ReadinessEvent::Probed { healthy: true, now_ms: 500000 });
    assert_eq!(action, ReadinessAction::Finish { result: Ok(()) });
    assert!(state.is_finished());
}

#[test]
fn polling_times_out_at_the_deadline() {
    let state = started("lomord");
    let (state, _) = state.step(ReadinessEvent::Started { now_ms: 0 });
    let (state, action) = state.step(ReadinessEvent::Probed { healthy: false, now_ms: READY_TIMEOUT_MS });
    assert!(state.is_finished());
    let e = finish_error(action);
    assert_eq!(e.kind, ReadyErrorKind::TimedOut);
    assert_eq!(e.message, TIMED_OUT);
}

#[test]
fn events_are_accepted_only_in_their_phase() {
    let (state, _) = Readiness::new();
    assert!(state.accepts(&ReadinessEvent::Probed { healthy: false, now_ms: 0 }));
    assert!(!state.accepts(&ReadinessEvent::Located { binary: None }));
    assert!(!state.accepts(&ReadinessEvent::Started { now_ms: 0 }));
    let (state, _) = state.step(ReadinessEvent::Probed { healthy: true, now_ms: 0 });
    assert!(!state.accepts(&ReadinessEvent::Probed { healthy: true, now_ms: 0 }));
}

#[test]
fn a_full_run_starts_the_server_once() {
    let (mut state, mut action) = Readiness::new();
    let mut starts = 0;
    let mut now = 0u64;
    loop {
        let event = match action {
            ReadinessAction::Probe => ReadinessEvent::Probed { healthy: false, now_ms: now },
            ReadinessAction::Locate => ReadinessEvent::Located { binary: Some("lomord".to_string()) },
            ReadinessAction::Start { .. } => {
                starts += 1;
                ReadinessEvent::Started { now_ms: now }
            }
            ReadinessAction::SleepThenProbe { ms } => {
                now += ms;
                ReadinessEvent::Probed { healthy: false, now_ms: now }
            }
            ReadinessAction::Finish { result } => {
                assert_eq!(result.unwrap_err().kind, ReadyErrorKind::TimedOut);
                break;
            }
        };
        let next = state.step(event);
        state = next.0;
        action = next.1;
    }
    assert_eq!(starts, 1);
    assert_eq!(now, READY_TIMEOUT_MS);
}
