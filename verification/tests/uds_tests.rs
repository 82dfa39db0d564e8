use std::io::ErrorKind;

use codex_lomor::uds::{
    interpret_health, EventClass, EventStream, HealthReply, LomorUdsClient, SubmitStep, UdsError, SOCKET_PATH,
};

#[test]
fn default_client_uses_default_socket() {
    let client = LomorUdsClient::default();
    assert_eq!(client.socket_path(), "/tmp/lomord.sock");
    assert_eq!(SOCKET_PATH, "/tmp/lomord.sock");
}

#[test]
fn with_socket_keeps_the_path() {
    let client = LomorUdsClient::with_socket("/run/user/1000/lomord.sock");
    assert_eq!(client.socket_path(), "/run/user/1000/lomord.sock");
}

#[test]
fn connect_error_names_the_socket() {
    let client = LomorUdsClient::with_socket("/x.sock");
    let e: UdsError<u32, String> = client.connect_error(ErrorKind::ConnectionRefused, "refused".to_string());
    assert_eq!(
        e,
        UdsError::Connect {
            path: "/x.sock".to_string(),
            kind: ErrorKind::ConnectionRefused,
            detail: "refused".to_string()
        }
    );
}

fn feed(events: Vec<(&'static str, EventClass<u32>)>) -> Option<Result<Vec<&'static str>, UdsError<u32, String>>> {
    let mut stream = EventStream::new();
    for (event, class) in events {
        match stream.accept(event, class) {
            SubmitStep::ReadNext(next) => stream = next,
            SubmitStep::Finished(result) => return Some(result),
        }
    }
    None
}

#[test]
fn done_returns_every_event_through_the_terminal_one() {
    let out = feed(vec![
        ("queued", EventClass::Progress),
        ("token", EventClass::Progress),
        ("done", EventClass::Done),
        ("after", EventClass::Progress),
    ]);
    assert_eq!(out, Some(Ok(vec!["queued", "token", "done"])));
}

#[test]
fn aborted_is_terminal_and_returned() {
    let out = feed(vec![("aborted", EventClass::Aborted), ("never", EventClass::Done)]);
    assert_eq!(out, Some(Ok(vec!["aborted"])));
}

#[test]
fn error_event_maps_to_remote() {
    let out = feed(vec![
        ("token", EventClass::Progress),
        ("error", EventClass::Failed { code: 7, message: "model not loaded".to_string() }),
    ]);
    assert_eq!(out, Some(Err(UdsError::Remote { code: 7, message: "model not loaded".to_string() })));
}

#[test]
fn expired_event_maps_to_an_error() {
    let out = feed(vec![("expired", EventClass::Expired { rendering: "Expired { job_id: 3 }".to_string() })]);
    assert_eq!(out, Some(Err(UdsError::Expired("Expired { job_id: 3 }".to_string()))));
}

#[test]
fn without_terminal_event_reading_goes_on() {
    let mut stream = EventStream::new();
    for _ in 0..3 {
        match stream.accept::<u32, String>("token", EventClass::Progress) {
            SubmitStep::ReadNext(next) => stream = next,
            SubmitStep::Finished(_) => panic!("progress must not end the request"),
        }
    }
    assert_eq!(stream.len(), 3);
}

#[test]
fn healthy_reply_gives_the_model_id() {
    let r: Result<String, UdsError<u32, String>> =
        interpret_health(HealthReply::Healthy { model_id: Some("qwen".to_string()) });
    assert_eq!(r, Ok("qwen".to_string()));
}

#[test]
fn healthy_reply_without_model_gives_empty_id() {
    let r: Result<String, UdsError<u32, String>> = interpret_health(HealthReply::Healthy { model_id: None });
    assert_eq!(r, Ok(String::new()));
}

#[test]
fn other_reply_is_unexpected() {
    let r: Result<String, UdsError<u32, String>> =
        interpret_health(HealthReply::Other { rendering: "Done { tokens: 1 }".to_string() });
    assert_eq!(r, Err(UdsError::UnexpectedEvent("Done { tokens: 1 }".to_string())));
}
