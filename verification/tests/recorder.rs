//! Recorded messages and MCAP files.

use rapid_driver::engine::recorder::mcap_writer::{recording_file_name, McapSession, WriteStep};
use rapid_driver::engine::recorder::messages::{
    message_of, msgpack_to_sensor_message, rmpv_to_json, widen, MsgValue, SensorMessage,
};
use rapid_driver::engine::recorder::schemas::all_schemas;
use rapid_driver::engine::recorder::{MaskSnapshot, RecorderCore};
use rapid_driver::json::{JsonNumber, JsonValue};
use rapid_driver::name_map::NameMap;
use std::collections::BTreeMap;
use std::io::Cursor;

type Writer = mcap::Writer<Cursor<Vec<u8>>>;

fn open(session_id: &str) -> (Writer, McapSession) {
    let mut writer = mcap::WriteOptions::new()
        .compression(Some(mcap::Compression::Zstd))
        .profile("zumi")
        .create(Cursor::new(Vec::new()))
        .expect("create mcap writer");
    let mut session = McapSession::new(session_id, recording_file_name(session_id), 0);
    for (name, text) in all_schemas() {
        let id = writer.add_schema(name, "jsonschema", text.as_bytes()).expect("add schema");
        session.schema_registered(name, id);
    }
    (writer, session)
}

fn write(writer: &mut Writer, session: &mut McapSession, step: WriteStep, data: &[u8]) -> bool {
    match step {
        WriteStep::OpenChannel { topic, schema_id } => {
            let id = writer.add_channel(schema_id, &topic, "json", &BTreeMap::new()).expect("add channel");
            session.channel_opened(&topic, id);
            false
        }
        WriteStep::Write(h) => {
            let header = mcap::records::MessageHeader {
                channel_id: h.channel_id,
                sequence: h.sequence,
                log_time: h.log_time,
                publish_time: h.publish_time,
            };
            writer.write_to_known_channel(&header, data).expect("write message");
            session.message_written();
            true
        }
        WriteStep::Skip { .. } | WriteStep::Refuse(_) => true,
    }
}

fn close(mut writer: Writer) -> Vec<u8> {
    writer.finish().expect("finish failed");
    writer.into_inner().into_inner()
}

fn text(s: &str) -> MsgValue {
    MsgValue::Text(Some(s.to_string()))
}

#[test]
fn test_mcap_create_and_finish() {
    let (mut writer, mut session) = open("test_session");

    // Write a mask message
    let bytes = br#"{"type":"hardware_mask","mask":0,"sequence":0}"#;
    loop {
        let step = session.write_mask(1000);
        if write(&mut writer, &mut session, step, bytes) {
            break;
        }
    }
    assert_eq!(session.message_count, 1);
    assert_eq!(session.output_path, "test_session.mcap");

    let file = close(writer);
    assert!(file.len() > 0, "mcap file is empty");
    let messages: Vec<mcap::Message> =
        mcap::MessageStream::new(&file).unwrap().map(|m| m.unwrap()).collect();
    assert_eq!(messages.len(), 1);
    assert_eq!(messages[0].channel.topic, "/hardware_mask");
    assert_eq!(messages[0].log_time, 1000);
    assert_eq!(messages[0].sequence, 1);
    assert_eq!(&messages[0].data[..], bytes);
}

#[test]
fn test_recorder_full_cycle() {
    let mut recorder = RecorderCore::new();
    let (mut writer, session) = open("test_full");

    // Start with no sensors (just mask data)
    recorder.start_recording(session).expect("start failed");
    assert!(recorder.is_active());

    // Simulate a few ticks with mask data
    for i in 0..100 {
        let mut devices = NameMap::new();
        devices.insert("dev1".to_string(), true);
        let ns = 1_000_000_000 + i * 2_000_000;
        let snap = MaskSnapshot {
            mask: 0x01,
            sequence: i,
            timestamp_ns: ns,
            ts_bits: (ns as f64 / 1e9).to_bits(),
            device_count: 1,
            devices,
        };
        if let Some(w) = recorder.tick(&snap) {
            let session = recorder.active.as_mut().unwrap();
            if !write(&mut writer, session, w.step, &w.json_data) {
                let step = session.write_mask(ns);
                assert!(write(&mut writer, session, step, &w.json_data));
            }
        }
    }

    let stats = recorder.stats(7_000_000_000).expect("stats should exist");
    assert_eq!(stats.message_count, 2);

    // Stop
    let summary = recorder.stop_recording(7_000_000_000).expect("stop failed");
    assert_eq!(summary.message_count, 2);
    assert_eq!(summary.duration_ns, 7_000_000_000);
    assert_eq!(summary.output_path, "test_full.mcap");

    assert!(!recorder.is_active());
    let file = close(writer);
    assert!(file.len() > 0);
    let message = mcap::MessageStream::new(&file).unwrap().next().unwrap().unwrap();
    let value: serde_json::Value = serde_json::from_slice(&message.data).unwrap();
    assert_eq!(value["type"], "hardware_mask");
    assert_eq!(value["mask"], 1);
    assert_eq!(value["sequence"], 49);
    assert_eq!(value["device_count"], 1);
    assert_eq!(value["devices"]["dev1"], true);
    assert_eq!(value["ts"], 1.098);
}

#[test]
fn only_one_recording_at_a_time() {
    let mut recorder = RecorderCore::new();
    assert!(recorder.check_idle().is_ok());
    assert_eq!(recorder.stop_recording(0).unwrap_err(), "no active MCAP recording");
    assert!(recorder.stats(0).is_none());
    recorder.start_recording(McapSession::new("a", "a.mcap".to_string(), 0)).unwrap();
    let refused = recorder.start_recording(McapSession::new("b", "b.mcap".to_string(), 0));
    assert_eq!(refused.unwrap_err(), "MCAP recording already active");
    assert_eq!(recorder.check_idle().unwrap_err(), "MCAP recording already active");
    assert_eq!(recorder.active.unwrap().session_id, "a");
}

#[test]
fn one_mask_in_fifty_is_recorded() {
    let mut recorder = RecorderCore::new();
    recorder.start_recording(McapSession::new("a", "a.mcap".to_string(), 0)).unwrap();
    let snap = MaskSnapshot {
        mask: 0,
        sequence: 0,
        timestamp_ns: 0,
        ts_bits: 0,
        device_count: 0,
        devices: NameMap::new(),
    };
    let recorded: Vec<usize> = (1..=150).filter(|_| recorder.tick(&snap).is_some()).collect();
    assert_eq!(recorded, vec![50, 100, 150]);
}

#[test]
fn messages_are_numbered_by_channel() {
    let (mut writer, mut session) = open("numbers");
    let message = |source: &str, kind: &str| SensorMessage {
        source_name: source.to_string(),
        msg_type: kind.to_string(),
        timestamp_ns: 5,
        json_data: b"{}".to_vec(),
    };
    for m in [message("cam", "image"), message("cam", "image"), message("other", "image")] {
        loop {
            let step = session.write_message(&m);
            if write(&mut writer, &mut session, step, &m.json_data) {
                break;
            }
        }
    }
    assert!(matches!(session.write_message(&message("cam", "odd")), WriteStep::Skip { first: true }));
    assert!(matches!(session.write_message(&message("cam", "odd")), WriteStep::Skip { first: false }));
    let file = close(writer);
    let found: Vec<(String, u32)> = mcap::MessageStream::new(&file)
        .unwrap()
        .map(|m| m.unwrap())
        .map(|m| (m.channel.topic.clone(), m.sequence))
        .collect();
    assert_eq!(
        found,
        vec![
            ("/cam/image".to_string(), 1),
            ("/cam/image".to_string(), 2),
            ("/other/image".to_string(), 1)
        ]
    );
}

#[test]
fn messages_without_a_schema_are_refused() {
    let mut session = McapSession::new("a", "a.mcap".to_string(), 0);
    match session.write_mask(1) {
        WriteStep::Refuse(e) => assert_eq!(e, "unknown schema: zumi.HardwareMask"),
        _ => panic!("not refused"),
    }
}

#[test]
fn messagepack_becomes_json() {
    let value = rmpv::Value::Map(vec![
        ("type".into(), "motor".into()),
        ("ts".into(), rmpv::Value::F64(12.5)),
        ("n".into(), (-3).into()),
        ("big".into(), u64::MAX.into()),
        ("raw".into(), rmpv::Value::Binary(vec![0, 1, 254, 255])),
        ("nan".into(), rmpv::Value::F64(f64::NAN)),
        ("half".into(), rmpv::Value::F32(0.5)),
        ("list".into(), rmpv::Value::Array(vec![rmpv::Value::Nil, true.into()])),
        (7.into(), rmpv::Value::Ext(1, vec![1, 2, 3])),
    ]);
    let mut raw = Vec::new();
    rmpv::encode::write_value(&mut raw, &value).unwrap();
    let message = msgpack_to_sensor_message("arm", &raw).unwrap();
    assert_eq!(message.source_name, "arm");
    assert_eq!(message.msg_type, "motor");
    assert_eq!(message.ts_bits, Some(12.5f64.to_bits()));
    let json: serde_json::Value = serde_json::from_slice(&message.json_data).unwrap();
    assert_eq!(json["n"], -3);
    assert_eq!(json["big"], u64::MAX);
    assert_eq!(json["ts"], 12.5);
    assert_eq!(json["half"], 0.5);
    assert_eq!(json["raw"], "AAH+/w==");
    assert_eq!(json["7"], "AQID");
    assert_eq!(json["nan"], serde_json::Value::Null);
    assert_eq!(json["list"][1], true);
    let timed = message.at(99);
    assert_eq!(timed.timestamp_ns, 99);
    assert_eq!(timed.msg_type, "motor");
}

#[test]
fn texts_that_are_none_become_empty() {
    let message = msgpack_to_sensor_message("arm", &[0x81, 0xa1, b'k', 0xa1, 0xff]).unwrap();
    assert_eq!(message.json_data, b"{\"k\":\"\"}");
}

#[test]
fn only_maps_are_messages() {
    let mut raw = Vec::new();
    rmpv::encode::write_value(&mut raw, &rmpv::Value::Nil).unwrap();
    assert_eq!(
        msgpack_to_sensor_message("arm", &raw).unwrap_err(),
        "expected msgpack Map at top level"
    );
    assert!(msgpack_to_sensor_message("arm", &[0x81]).unwrap_err().starts_with("msgpack decode: "));
    assert!(message_of("arm", &MsgValue::Array(vec![])).is_err());
}

#[test]
fn the_first_type_and_time_count() {
    let entry = |k: &str, v: MsgValue| (k.to_string(), text(k), v);
    let message = message_of(
        "arm",
        &MsgValue::Entries(vec![
            entry("type", MsgValue::Nil),
            entry("type", text("a")),
            entry("type", text("b")),
            entry("ts", text("late")),
            entry("ts", MsgValue::Integer { signed: Some(2), unsigned: Some(2), float_bits: Some(2.0f64.to_bits()) }),
        ]),
    )
    .unwrap();
    assert_eq!(message.msg_type, "a");
    assert_eq!(message.ts_bits, Some(2.0f64.to_bits()));
    let bare = message_of("arm", &MsgValue::Entries(vec![])).unwrap();
    assert_eq!(bare.msg_type, "");
    assert_eq!(bare.ts_bits, None);
    assert_eq!(bare.json_data, b"{}");
}

#[test]
fn values_become_json() {
    assert!(matches!(
        rmpv_to_json(&MsgValue::Integer { signed: None, unsigned: None, float_bits: None }),
        JsonValue::Null
    ));
    assert!(matches!(
        rmpv_to_json(&MsgValue::Float(f64::INFINITY.to_bits())),
        JsonValue::Null
    ));
    match rmpv_to_json(&MsgValue::Float(1.5f64.to_bits())) {
        JsonValue::Number(n) => assert_eq!(n, JsonNumber::Float(1.5f64.to_bits())),
        _ => panic!("no number"),
    }
    for (bytes, expected) in [
        (&b""[..], ""),
        (b"f", "Zg=="),
        (b"fo", "Zm8="),
        (b"foo", "Zm9v"),
        (b"foobar", "Zm9vYmFy"),
        (&[0xfb, 0xff, 0xbf], "+/+/"),
    ] {
        for value in [MsgValue::Binary(bytes.to_vec()), MsgValue::Ext(5, bytes.to_vec())] {
            match rmpv_to_json(&value) {
                JsonValue::Text(t) => assert_eq!(t, expected),
                _ => panic!("no text"),
            }
        }
    }
    match rmpv_to_json(&MsgValue::Entries(vec![("3".to_string(), MsgValue::Nil, text("x"))])) {
        JsonValue::Object(fields) => assert_eq!(fields[0].0, "3"),
        _ => panic!("no object"),
    }
}

#[test]
fn short_floats_are_widened() {
    for f in [0.0f32, -0.0, 1.5, -0.1, f32::MIN_POSITIVE, f32::MAX, 1e-45, -3e-39, 1.1754942e-38] {
        assert_eq!(widen(f.to_bits()), (f as f64).to_bits());
    }
    assert_eq!(widen(f32::INFINITY.to_bits()), f64::INFINITY.to_bits());
    assert_eq!(widen(f32::NEG_INFINITY.to_bits()), f64::NEG_INFINITY.to_bits());
    assert!(f64::from_bits(widen(f32::NAN.to_bits())).is_nan());
    let mut raw = Vec::new();
    let value = rmpv::Value::Map(vec![(rmpv::Value::from("ts"), rmpv::Value::F32(0.25))]);
    rmpv::encode::write_value(&mut raw, &value).unwrap();
    let message = msgpack_to_sensor_message("arm", &raw).unwrap();
    assert_eq!(message.ts_bits, Some(0.25f64.to_bits()));
    assert_eq!(message.json_data, b"{\"ts\":0.25}");
    assert!(matches!(rmpv_to_json(&MsgValue::Single(f32::NAN.to_bits())), JsonValue::Null));
}
