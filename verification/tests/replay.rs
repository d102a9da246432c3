//! Replays of recorded files.

use rapid_driver::engine::command::ReplayState;
use rapid_driver::engine::recorder::mcap_writer::{McapSession, WriteStep};
use rapid_driver::engine::recorder::schemas::all_schemas;
use rapid_driver::engine::replay::{
    event_payload, is_worth_waiting, load_messages, next_step, progress_at,
    read_mcap_summary, start_event, stop_event, summary_of, ReplayManager, ReplayMessage, ReplayStep,
    SPEED_MAX_BITS, SPEED_MIN_BITS, SPEED_NORMAL_BITS,
};
use rapid_driver::engine::topic_bus::{heartbeat_event, topic_event, TopicStats};
use rapid_driver::json::{JsonNumber, JsonValue};
use std::collections::BTreeMap;
use std::io::Cursor;

const SEC: u64 = 1_000_000_000;

/// A test MCAP file with some mask messages.
fn create_test_mcap(session_id: &str) -> Vec<u8> {
    let mut writer = mcap::WriteOptions::new()
        .compression(Some(mcap::Compression::Zstd))
        .profile("zumi")
        .create(Cursor::new(Vec::new()))
        .expect("create mcap writer");
    let mut session = McapSession::new(session_id, format!("{}.mcap", session_id), 0);
    for (name, text) in all_schemas() {
        let id = writer.add_schema(name, "jsonschema", text.as_bytes()).expect("register_schemas failed");
        session.schema_registered(name, id);
    }
    for i in 0..10u64 {
        let bytes = format!("{{\"type\":\"hardware_mask\",\"mask\":1,\"sequence\":{}}}", i);
        let ts = 1_000_000_000u64 + i * 100_000_000; // 100ms apart
        loop {
            match session.write_mask(ts) {
                WriteStep::OpenChannel { topic, schema_id } => {
                    let id = writer
                        .add_channel(schema_id, &topic, "json", &BTreeMap::new())
                        .expect("write_mask failed");
                    session.channel_opened(&topic, id);
                }
                WriteStep::Write(h) => {
                    let header = mcap::records::MessageHeader {
                        channel_id: h.channel_id,
                        sequence: h.sequence,
                        log_time: h.log_time,
                        publish_time: h.publish_time,
                    };
                    writer.write_to_known_channel(&header, bytes.as_bytes()).expect("write_mask failed");
                    session.message_written();
                    break;
                }
                WriteStep::Skip { .. } | WriteStep::Refuse(_) => panic!("not written"),
            }
        }
    }
    writer.finish().expect("finish failed");
    writer.into_inner().into_inner()
}

fn message(log_time: u64) -> ReplayMessage {
    ReplayMessage { log_time, topic: "/t".to_string(), payload: vec![] }
}

#[test]
fn test_read_mcap_summary() {
    let data = create_test_mcap("test_summary");
    let (duration, count) = read_mcap_summary(&data);
    assert!(count > 0, "expected messages, got {}", count);
    assert!(duration > 0, "expected positive duration, got {}", duration);
    assert_eq!(count, 10);
    assert_eq!(duration, 900_000_000);
}

#[test]
fn test_replay_manager_status_idle() {
    let mgr = ReplayManager::new();
    let status = mgr.status();
    assert!(!status.active);
    assert_eq!(status.state, ReplayState::Idle);
    assert!(status.session_id.is_none());
}

#[test]
fn test_replay_start_stop() {
    let data = create_test_mcap("test_replay");

    let mut mgr = ReplayManager::new();
    let result = mgr.start(&Ok(data), "test_replay".into(), 10.0f64.to_bits());
    assert!(result.is_ok(), "start failed: {:?}", result);

    let (total_ns, msg_count) = result.unwrap();
    assert!(total_ns > 0);
    assert!(msg_count > 0);

    // Status should show active
    let status = mgr.status();
    assert!(
        matches!(status.state, ReplayState::Starting | ReplayState::Running | ReplayState::Completed),
        "unexpected state: {:?}",
        status.state
    );
    assert!(mgr.is_active());
    assert_eq!(mgr.current_session_id().as_deref(), Some("test_replay"));

    // Stop
    mgr.stop();
    mgr.stopped();
    let status = mgr.status();
    assert_eq!(status.state, ReplayState::Idle);
}

#[test]
fn test_replay_nonexistent_file() {
    let mut mgr = ReplayManager::new();
    let file = Err("No such file or directory (os error 2)".to_string());
    let result = mgr.start(&file, "bad".into(), 1.0f64.to_bits());
    assert!(result.is_err());
    assert_eq!(result.unwrap_err(), "read mcap file: No such file or directory (os error 2)");
    assert!(!mgr.is_active());
}

#[test]
fn files_are_loaded_in_order() {
    let messages = load_messages(&create_test_mcap("order"));
    assert_eq!(messages.len(), 10);
    assert_eq!(messages[0].topic, "/hardware_mask");
    assert_eq!(messages[3].log_time, 1_300_000_000);
    assert!(messages[9].payload.ends_with(b"\"sequence\":9}"));
    assert_eq!(load_messages(b"no mcap at all").len(), 0);
    assert_eq!(read_mcap_summary(b"no mcap at all"), (0, 0));
}

#[test]
fn messages_are_summed_up() {
    assert_eq!(summary_of(&vec![message(5), message(9)]), (4, 2));
    assert_eq!(summary_of(&vec![]), (0, 0));
    assert_eq!(summary_of(&vec![message(9), message(5)]), (0, 2));
}

#[test]
fn replays_keep_the_time_between_messages() {
    let messages = vec![message(SEC), message(SEC + 500), message(3 * SEC), message(2 * SEC)];
    assert!(matches!(next_step(&messages, 0, false), ReplayStep::Send { pause_ns: 0 }));
    assert!(matches!(next_step(&messages, 1, false), ReplayStep::Send { pause_ns: 500 }));
    assert!(matches!(next_step(&messages, 2, false), ReplayStep::Send { pause_ns: 1_999_999_500 }));
    assert!(matches!(next_step(&messages, 3, false), ReplayStep::Send { pause_ns: 0 }));
    assert!(matches!(next_step(&messages, 4, false), ReplayStep::Finished));
    assert!(matches!(next_step(&messages, 1, true), ReplayStep::Cancelled));
    assert!(!is_worth_waiting(1000));
    assert!(is_worth_waiting(1001));
    let last = progress_at(&messages[..3].iter().map(|m| message(m.log_time)).collect(), 2);
    assert_eq!(last.part, last.whole);
}

#[test]
fn managers_go_through_a_replay() {
    let mut mgr = ReplayManager::new();
    assert!(mgr.begin("a".to_string(), SPEED_NORMAL_BITS, 2 * SEC).is_ok());
    assert_eq!(mgr.state, ReplayState::Starting);
    assert!(mgr.begin("b".to_string(), SPEED_NORMAL_BITS, 0).is_err());
    mgr.loaded(Ok(2));
    assert_eq!(mgr.state, ReplayState::Running);
    let messages = vec![message(SEC), message(3 * SEC)];
    mgr.advance(5, progress_at(&messages, 0));
    assert_eq!(mgr.status().elapsed_ns, 5);
    mgr.completed();
    assert_eq!(mgr.status().state, ReplayState::Completed);
    assert!(!mgr.is_active());
    assert_eq!(mgr.current_session_id().as_deref(), Some("a"));
    mgr.stop();
    assert_eq!(mgr.current_session_id(), None);
}

#[test]
fn stopping_twice_is_the_same_as_once() {
    let mut mgr = ReplayManager::new();
    assert!(mgr.stop().is_none());
    mgr.begin("a".to_string(), SPEED_NORMAL_BITS, SEC).unwrap();
    assert_eq!(mgr.stop(), Some(Some("a".to_string())));
    assert_eq!(mgr.state, ReplayState::Stopping);
    assert!(mgr.cancel);
    mgr.stopped();
    for _ in 0..2 {
        assert_eq!(mgr.state, ReplayState::Idle);
        assert!(mgr.session_id.is_none() && !mgr.cancel);
        assert_eq!(mgr.total_ns, 0);
        assert!(mgr.stop().is_none());
    }
}

#[test]
fn replays_that_cannot_be_loaded_fail() {
    let mut mgr = ReplayManager::new();
    mgr.begin("a".to_string(), SPEED_NORMAL_BITS, 0).unwrap();
    mgr.loaded(Err("broken".to_string()));
    assert_eq!(mgr.state, ReplayState::Error);
    assert_eq!(mgr.status().error.unwrap(), "mcap parse failed: broken");
}

#[test]
fn speeds_are_the_bits_of_doubles() {
    assert_eq!(SPEED_NORMAL_BITS, 1.0f64.to_bits());
    assert_eq!(SPEED_MIN_BITS, 0.1f64.to_bits());
    assert_eq!(SPEED_MAX_BITS, 10.0f64.to_bits());
}

#[test]
fn events_are_written_as_json() {
    let bytes = event_payload(&start_event("a", 1.5f64.to_bits(), 7, 2.0f64.to_bits())).unwrap();
    let value: serde_json::Value = serde_json::from_slice(&bytes).unwrap();
    assert_eq!(value["event"], "start");
    assert_eq!(value["session_id"], "a");
    assert_eq!(value["total_secs"], 1.5);
    assert_eq!(value["message_count"], 7);
    assert_eq!(value["speed"], 2.0);
    let bytes = event_payload(&stop_event(None)).unwrap();
    let value: serde_json::Value = serde_json::from_slice(&bytes).unwrap();
    assert_eq!(value["event"], "stop");
    let all = JsonValue::Array(vec![
        JsonValue::Null,
        JsonValue::Bool(true),
        JsonValue::Number(JsonNumber::Signed(-1)),
        JsonValue::Number(JsonNumber::Float(0.25f64.to_bits())),
        JsonValue::Text("é\"".to_string()),
        JsonValue::Object(vec![("b".to_string(), JsonValue::Null), ("a".to_string(), JsonValue::Null)]),
    ]);
    let text = String::from_utf8(event_payload(&all).unwrap()).unwrap();
    assert_eq!(text, r#"[null,true,-1,0.25,"é\"",{"a":null,"b":null}]"#);
    let endless = JsonValue::Number(JsonNumber::Float(f64::NAN.to_bits()));
    assert_eq!(event_payload(&endless).unwrap(), b"null");
}

#[test]
fn fields_of_events_are_found() {
    let event = heartbeat_event(3.0f64.to_bits(), 0.5f64.to_bits(), 12);
    assert!(matches!(event.get("pid"), Some(JsonValue::Number(JsonNumber::Unsigned(12)))));
    assert!(event.get("nothing").is_none());
    let topic = topic_event("/t", 4, 2.5f64.to_bits());
    match topic.get("count") {
        Some(JsonValue::Number(n)) => assert_eq!(*n, JsonNumber::Unsigned(4)),
        _ => panic!("no count"),
    }
    assert!(JsonValue::Null.get("x").is_none());
}

#[test]
fn rates_forget_what_is_old() {
    let mut stats = TopicStats::new();
    assert!(stats.rate(SEC).is_none());
    stats.record(SEC);
    stats.record(2 * SEC);
    stats.record(3 * SEC);
    assert_eq!(stats.count, 3);
    assert!(stats.rate(3 * SEC).is_some());
    stats.record(20 * SEC);
    assert_eq!(stats.count, 4);
    assert_eq!(stats.timestamps, vec![20 * SEC]);
}
