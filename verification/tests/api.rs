//! Answers over HTTP.

use rapid_driver::api::{
    check_batch, readiness, reply_to_command, reply_to_query, reply_to_stop, requested_entry,
    AddDeviceRequest, Query, Reply,
};
use rapid_driver::engine::command::{DeviceStatus, EngineResponse};

fn device(name: &str, running: bool, reason: Option<&str>) -> DeviceStatus {
    DeviceStatus {
        name: name.to_string(),
        bit_index: 0,
        discovered: running,
        process_running: running,
        pid: None,
        backend: "usb".to_string(),
        heartbeat_ok: None,
        last_heartbeat_age_ms: None,
        state_reason: reason.map(|r| r.to_string()),
        address: None,
    }
}

fn request() -> AddDeviceRequest {
    AddDeviceRequest {
        name: "arm".to_string(),
        backend: None,
        vid: Some("1".to_string()),
        pid: None,
        serial: None,
        service_type: None,
        on_attach: Some("run".to_string()),
        on_detach: None,
        on_record_start: None,
        on_record_stop: None,
        sensor_type: None,
    }
}

fn assert_fails(reply: Reply, expected: u16, text: &str) {
    match reply {
        Reply::Failure { status, message } => {
            assert_eq!(status, expected);
            assert_eq!(message, text);
        }
        _ => panic!("not a failure"),
    }
}

#[test]
fn commands_are_accepted_or_refused() {
    assert!(matches!(reply_to_command(Some(&EngineResponse::Done), 400), Reply::Accepted));
    match reply_to_command(Some(&EngineResponse::Error("no".to_string())), 409) {
        Reply::Failure { status, message } => {
            assert_eq!(status, 409);
            assert_eq!(message, "no");
        }
        _ => panic!("not a failure"),
    }
    let with_status = EngineResponse::ErrorWithStatus { status: 404, message: "gone".to_string() };
    assert!(matches!(reply_to_command(Some(&with_status), 400), Reply::Failure { status: 404, .. }));
    assert_fails(reply_to_command(None, 400), 500, "no response from the engine");
    let other = EngineResponse::Devices(vec![]);
    assert_fails(reply_to_command(Some(&other), 400), 500, "unexpected response from the engine");
}

#[test]
fn queries_are_answered_with_what_they_ask_for() {
    let devices = EngineResponse::Devices(vec![]);
    assert!(matches!(reply_to_query(Query::Devices, Some(&devices)), Reply::Data));
    let unexpected = "unexpected response from the engine";
    assert_fails(reply_to_query(Query::Status, Some(&devices)), 500, unexpected);
    assert_fails(reply_to_query(Query::Devices, None), 500, "no response from the engine");
    let nobody = EngineResponse::Device(None);
    assert_fails(reply_to_query(Query::Device, Some(&nobody)), 404, "device not found");
    let refused = EngineResponse::ErrorWithStatus { status: 409, message: "in use".to_string() };
    assert!(matches!(reply_to_query(Query::Deletion, Some(&refused)), Reply::Failure { status: 409, .. }));
    let odd = EngineResponse::ErrorWithStatus { status: 7, message: "odd".to_string() };
    assert!(matches!(reply_to_query(Query::Replay, Some(&odd)), Reply::Failure { status: 500, .. }));
    assert_fails(reply_to_query(Query::Status, Some(&refused)), 500, "in use");
    assert!(matches!(reply_to_stop(Some(&EngineResponse::Done)), Reply::Accepted));
    assert_fails(reply_to_stop(None), 500, "no response from the engine");
    assert_fails(reply_to_stop(Some(&EngineResponse::Error("no".to_string()))), 500, "no");
}

#[test]
fn batches_must_name_something() {
    assert_eq!(check_batch(Some(vec!["a".to_string()])).unwrap(), vec!["a"]);
    for nothing in [None, Some(vec![])] {
        match check_batch(nothing) {
            Err(Reply::Failure { status, message }) => {
                assert_eq!(status, 400);
                assert_eq!(message, "session_ids is required and must not be empty");
            }
            _ => panic!("accepted"),
        }
    }
}

#[test]
fn readiness_needs_every_device() {
    let none = readiness(&vec![]);
    assert!(!none.ready);
    assert_eq!(none.total, 0);
    let all = readiness(&vec![device("a", true, None)]);
    assert!(all.ready);
    assert_eq!(all.reasons.len(), 0);
    let some = readiness(&vec![
        device("a", true, None),
        device("b", false, Some("offline")),
        device("c", false, None),
    ]);
    assert!(!some.ready);
    assert_eq!(some.online, 1);
    assert_eq!(some.total, 3);
    assert_eq!(some.reasons.get("b").unwrap(), "offline");
    assert_eq!(some.reasons.get("c").unwrap(), "unavailable");
    assert!(!some.reasons.contains_key("a"));
}

#[test]
fn requests_become_entries() {
    let e = requested_entry(request());
    assert_eq!(e.name, "arm");
    assert_eq!(e.backend, "usb");
    assert_eq!(e.vid, "1");
    assert_eq!(e.pid, "");
    assert_eq!(e.on_attach, "run");
}
