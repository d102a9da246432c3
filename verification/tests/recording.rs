//! Recording sessions and recorded files.

use rapid_driver::cli::{blank_entry, SourceKind};
use rapid_driver::discovery::DiscoveredDevice;
use rapid_driver::engine::command::EngineResponse;
use rapid_driver::engine::recorder::mcap_writer::McapSession;
use rapid_driver::engine::recording::{
    CommandOutcome, DeviceRecordState, RecordingSession, RecordingState,
};
use rapid_driver::engine::recordings::{
    delete_answer, find_mcap_file, replay_answer, replay_speed, BatchDelete, BatchStep, FilePlan,
    RecordedFile,
};
use rapid_driver::engine::replay::SPEED_NORMAL_BITS;
use rapid_driver::engine::sessions::{choose_session_id, parse_u16_flag};
use rapid_driver::engine::state::Engine;
use rapid_driver::name_map::NameMap;
use rapid_driver::registry::{DeviceEntry, Registry};

const SEC: u64 = 1_000_000_000;
const START: u64 = 100 * SEC;

fn camera() -> DeviceEntry {
    let mut e = blank_entry(SourceKind::Usb);
    e.name = "camera".to_string();
    e.on_attach = "run".to_string();
    e.on_record_start = "start it".to_string();
    e.on_record_stop = "stop it".to_string();
    e.sensor_type = "video".to_string();
    e
}

fn plain() -> DeviceEntry {
    let mut e = blank_entry(SourceKind::Usb);
    e.name = "plain".to_string();
    e.on_attach = "run".to_string();
    e
}

/// An engine whose devices all run.
fn engine() -> Engine {
    let mut e = Engine::new(Registry { devices: vec![camera(), plain()] }, None, false, None, None, START);
    for (i, entry) in [camera(), plain()].into_iter().enumerate() {
        let found = DiscoveredDevice {
            source_id: format!("1-{}", i),
            device_name: entry.name.clone(),
            address: if i == 0 { Some("10.0.0.1:5000".to_string()) } else { None },
            entry,
        };
        let request = e.device_added(&found).unwrap();
        e.attached(&request, 10 + i as u32, START);
    }
    e.update_device_statuses(START, 0);
    e
}

fn recording(e: &mut Engine, id: &str) {
    let plan = e
        .cmd_start_recording(id.to_string(), None, "/out".to_string(), START)
        .unwrap_or_else(|_| panic!("refused"));
    e.recording_started(plan.session, None);
}

fn message(r: EngineResponse) -> (u16, String) {
    match r {
        EngineResponse::Error(m) => (0, m),
        EngineResponse::ErrorWithStatus { status, message } => (status, message),
        _ => panic!("no error"),
    }
}

fn refusal(p: FilePlan) -> (u16, String) {
    match p {
        FilePlan::Refuse(r) => message(r),
        FilePlan::Take(_) => panic!("taken"),
    }
}

fn names(list: &[&str]) -> Vec<String> {
    list.iter().map(|n| n.to_string()).collect()
}

fn file(id: &str, size: u64, created: Option<i64>, summary: Option<(u64, u64)>) -> RecordedFile {
    RecordedFile {
        session_id: id.to_string(),
        filename: format!("{}.mcap", id),
        size_bytes: size,
        created_secs: created,
        summary,
    }
}

fn listed(e: &Engine, files: Vec<RecordedFile>, sort: Option<&str>, order: Option<&str>) -> Vec<String> {
    let text = |s: Option<&str>| s.map(|s| s.to_string());
    match e.cmd_list_recordings(Ok(files), text(sort), text(order), 7) {
        EngineResponse::RecordingsList { recordings, .. } => {
            recordings.into_iter().map(|r| r.session_id).collect()
        }
        _ => panic!("no list"),
    }
}

#[test]
fn test_validate_session_id() {
    assert!(Engine::validate_session_id("abc-123").is_ok());
    assert!(Engine::validate_session_id("a1b2c3d4-e5f6-7890-abcd-ef1234567890").is_ok());
    assert!(Engine::validate_session_id("").is_err());
    assert!(Engine::validate_session_id("abc/../../etc").is_err()); // path traversal
    assert!(Engine::validate_session_id("has spaces").is_err());
    assert!(Engine::validate_session_id(&"x".repeat(65)).is_err());
}

#[test]
fn test_delete_nonexistent_recording() {
    assert!(Engine::validate_session_id("no-such-session").is_ok());
    assert_eq!(
        refusal(engine().cmd_delete_recording("no-such-session", &vec![])),
        (404, "recording not found".to_string())
    );
}

#[test]
fn session_ids_are_refused_with_a_reason() {
    assert_eq!(Engine::validate_session_id("").unwrap_err(), "session_id must be 1-64 characters");
    assert!(Engine::validate_session_id(&"x".repeat(64)).is_ok());
    assert_eq!(
        Engine::validate_session_id("a_b").unwrap_err(),
        "session_id must contain only alphanumeric characters and hyphens"
    );
    assert_eq!(
        Engine::validate_session_id(&"é".repeat(33)).unwrap_err(),
        "session_id must be 1-64 characters"
    );
}

#[test]
fn sessions_without_a_name_get_a_random_one() {
    assert_eq!(choose_session_id(Some("mine".to_string())), "mine");
    let a = choose_session_id(None);
    let b = choose_session_id(None);
    assert_ne!(a, b);
    assert_eq!(a.len(), 36);
    assert!(Engine::validate_session_id(&a).is_ok());
    assert_eq!(&a[14..15], "4");
}

#[test]
fn flags_are_read_out_of_commands() {
    assert_eq!(parse_u16_flag("run --data-port 6001 -x", "--data-port"), Some(6001));
    assert_eq!(parse_u16_flag("run --data-port=6002", "--data-port"), Some(6002));
    assert_eq!(parse_u16_flag("run --data-port x --data-port 5", "--data-port"), Some(5));
    assert_eq!(parse_u16_flag("run --data-port", "--data-port"), None);
    assert_eq!(parse_u16_flag("run --data-port 70000", "--data-port"), None);
    assert_eq!(parse_u16_flag("run --data-portal=5", "--data-port"), None);
}

#[test]
fn sensors_are_heard_where_they_publish() {
    let e = engine();
    assert_eq!(
        e.resolve_recorder_sensor_address("camera", &camera()).as_deref(),
        Some("10.0.0.1:5000")
    );
    assert_eq!(e.resolve_recorder_sensor_address("plain", &plain()), None);
    let mut phone = blank_entry(SourceKind::Mdns);
    phone.service_type = "_iphonevio._tcp.local.".to_string();
    phone.on_attach = "node --data-port=6001".to_string();
    assert_eq!(
        e.resolve_recorder_sensor_address("phone", &phone).as_deref(),
        Some("127.0.0.1:6001")
    );
    phone.on_attach = "node".to_string();
    assert_eq!(
        e.resolve_recorder_sensor_address("phone", &phone).as_deref(),
        Some("127.0.0.1:5563")
    );
}

#[test]
fn recordings_start_with_a_command_per_device() {
    let e = engine();
    let plan = e
        .cmd_start_recording("s1".to_string(), None, "/out".to_string(), START)
        .unwrap_or_else(|_| panic!("refused"));
    assert_eq!(plan.commands.len(), 1);
    assert_eq!(plan.commands[0].command, "start it");
    assert_eq!(plan.commands[0].device_name, "camera");
    assert_eq!(plan.commands[0].session_id, "s1");
    assert_eq!(plan.commands[0].output_dir, "/out");
    assert_eq!(plan.commands[0].address.as_deref(), Some("10.0.0.1:5000"));
    assert_eq!(plan.sensors.len(), 1);
    assert_eq!(plan.sensors[0].address, "10.0.0.1:5000");
    assert_eq!(plan.sensors[0].sensor_type, "video");
    assert!(matches!(plan.session.device_states.get("plain"), Some(DeviceRecordState::Done)));
}

#[test]
fn recordings_are_refused() {
    let mut e = engine();
    let start = |e: &Engine, id: &str| e.cmd_start_recording(id.to_string(), None, "/o".to_string(), START);
    assert_eq!(
        message(start(&e, &"x".repeat(65)).err().unwrap()).1,
        "session_id must be 1-64 characters"
    );
    e.devices[1].process_running = false;
    assert_eq!(message(start(&e, "a").err().unwrap()).1, "not connected: plain");
    assert_eq!(message(start(&e, &"x".repeat(65)).err().unwrap()).1, "not connected: plain");
    e.devices[1].process_running = true;
    recording(&mut e, "a");
    assert_eq!(message(start(&e, "b").err().unwrap()).1, "recording already in progress");
    let mut e = engine();
    e.replay.begin("r".to_string(), SPEED_NORMAL_BITS, 0).unwrap();
    assert_eq!(
        message(start(&e, "b").err().unwrap()),
        (409, "cannot record while replay is active".to_string())
    );
}

#[test]
fn recordings_go_through_their_states() {
    let mut e = engine();
    assert_eq!(message(e.cmd_stop_recording().err().unwrap()).1, "no active recording");
    recording(&mut e, "a");
    e.record_command_started("camera", Ok(77));
    let info = e.build_recording_info(START + 3 * SEC).unwrap();
    assert_eq!(info.state, "starting");
    assert_eq!(info.elapsed_ns, 3 * SEC);
    assert_eq!(info.devices.get("camera").unwrap(), "running");
    let mut outcomes = NameMap::new();
    outcomes.insert("camera".to_string(), CommandOutcome::StillRunning);
    e.check_recording(&outcomes);
    assert!(e.recording_under_way() && e.is_recording_session("a"));
    outcomes.insert("camera".to_string(), CommandOutcome::Exited { success: true, code: Some(0) });
    e.check_recording(&outcomes);
    assert_eq!(e.build_recording_info(START).unwrap().state, "recording");
    let commands = e.cmd_stop_recording().unwrap_or_else(|_| panic!("refused"));
    assert_eq!(commands.len(), 1);
    assert_eq!(commands[0].command, "stop it");
    assert_eq!(
        message(e.cmd_stop_recording().err().unwrap()).1,
        "cannot stop recording in state 'stopping'"
    );
    e.record_command_started("camera", Ok(78));
    e.check_recording(&outcomes);
    assert_eq!(e.build_recording_info(START).unwrap().state, "stopped");
    assert!(!e.recording_under_way());
}

#[test]
fn failed_commands_fail_the_recording() {
    let mut session = RecordingSession::new("a".to_string(), "/o".to_string(), START);
    assert!(session.start_device("camera", &camera(), None).is_some());
    session.command_started("camera", Ok(5));
    let mut outcomes = NameMap::new();
    outcomes.insert("camera".to_string(), CommandOutcome::Exited { success: false, code: None });
    assert!(session.check_progress(&outcomes));
    assert_eq!(session.state.as_str(), "failed");
    assert!(matches!(&session.state, RecordingState::Failed(m) if m == "some devices failed to start"));
    assert!(matches!(session.device_states.get("camera"),
        Some(DeviceRecordState::Failed(m)) if m == "exit code -1"));
    assert!(!session.check_progress(&outcomes));

    let mut session = RecordingSession::new("a".to_string(), "/o".to_string(), START);
    session.start_device("camera", &camera(), None);
    session.command_started("camera", Err("no shell".to_string()));
    assert!(matches!(session.device_states.get("camera"),
        Some(DeviceRecordState::Failed(m)) if m == "no shell"));
    session.stop_device("plain", &plain(), None);
    assert_eq!(session.device_state_strings().get("plain").unwrap(), "done");
    outcomes.insert("lost".to_string(), CommandOutcome::Lost("gone".to_string()));
    session.start_device("lost", &camera(), None);
    session.command_started("lost", Ok(6));
    assert!(session.check_progress(&outcomes));
    assert!(matches!(session.device_states.get("lost"),
        Some(DeviceRecordState::Failed(m)) if m == "gone"));
}

#[test]
fn mcap_failures_are_told() {
    let mut e = engine();
    let plan = e
        .cmd_start_recording("a".to_string(), None, "/o".to_string(), START)
        .unwrap_or_else(|_| panic!("refused"));
    let answer = e.recording_started(plan.session, Some("disk full".to_string()));
    assert_eq!(message(answer).1, "recording started but MCAP failed: disk full");
    assert!(e.is_recording_session("a"));
    e.recorder.start_recording(McapSession::new("a", "a.mcap".to_string(), START)).unwrap();
    let info = e.build_recording_info(START).unwrap();
    assert_eq!(info.mcap_file.as_deref(), Some("a.mcap"));
    assert_eq!(info.mcap_message_count, Some(0));
}

#[test]
fn recordings_in_use_are_not_deleted() {
    let files = names(&["b.mcap", "a.mcap"]);
    let mut e = engine();
    assert!(matches!(e.cmd_delete_recording("a", &files), FilePlan::Take(1)));
    assert_eq!(refusal(e.cmd_delete_recording("a/b", &files)).0, 400);
    recording(&mut e, "a");
    assert_eq!(
        refusal(e.cmd_delete_recording("a", &files)),
        (409, "cannot delete: recording in progress".to_string())
    );
    assert!(matches!(e.cmd_delete_recording("b", &files), FilePlan::Take(0)));
    let mut e = engine();
    e.replay.begin("b".to_string(), SPEED_NORMAL_BITS, 0).unwrap();
    assert!(e.is_replay_session("b"));
    assert_eq!(
        refusal(e.cmd_delete_recording("b", &files)),
        (409, "cannot delete: replay in progress".to_string())
    );
    e.replay.completed();
    assert!(!e.is_replay_session("b"));
    assert!(matches!(e.cmd_delete_recording("b", &files), FilePlan::Take(0)));
    assert!(matches!(delete_answer("a".to_string(), Ok(())), EngineResponse::Deleted(id) if id == "a"));
    assert_eq!(
        message(delete_answer("a".to_string(), Err("busy".to_string()))),
        (500, "failed to delete file: busy".to_string())
    );
    assert_eq!(find_mcap_file(&files, "a"), Some(1));
    assert_eq!(find_mcap_file(&files, "c"), None);
}

#[test]
fn batches_are_deleted_one_by_one() {
    let files = names(&["a.mcap", "c.mcap"]);
    let mut e = engine();
    recording(&mut e, "b");
    assert_eq!(
        message(BatchDelete::begin(&vec![]).err().unwrap()),
        (400, "session_ids is required and must not be empty".to_string())
    );
    let ids = names(&["a", "b", "nobody", "x y", "c"]);
    let mut batch = BatchDelete::begin(&ids).unwrap_or_else(|_| panic!("refused"));
    for id in &ids {
        if let BatchStep::Remove(i) = batch.next(&e, id, &files) {
            let outcome = if i == 0 { Ok(()) } else { Err("busy".to_string()) };
            batch.removed(id, outcome);
        }
    }
    match batch.answer() {
        EngineResponse::BatchDeleteResult { deleted, failed } => {
            assert_eq!(deleted, vec!["a"]);
            let failed: Vec<(String, String)> =
                failed.into_iter().map(|f| (f.session_id, f.error)).collect();
            assert_eq!(failed.len(), 3);
            assert_eq!(failed[0].1, "cannot delete: recording in progress");
            assert_eq!(failed[1].0, "x y");
            assert_eq!(failed[2], ("c".to_string(), "failed to delete: busy".to_string()));
        }
        _ => panic!("no result"),
    }
}

#[test]
fn replays_are_refused() {
    let files = names(&["a.mcap"]);
    let mut e = engine();
    assert!(matches!(e.cmd_start_replay("a", SPEED_NORMAL_BITS, &files), FilePlan::Take(0)));
    for (speed, fits) in [
        (0.1, true), (10.0, true), (1.0, true), (0.09, false), (10.1, false), (-1.0, false),
        (f64::NAN, false), (f64::INFINITY, false), (0.0, false),
    ] {
        let plan = e.cmd_start_replay("a", f64::to_bits(speed), &files);
        assert_eq!(matches!(plan, FilePlan::Take(_)), fits, "{}", speed);
        if !fits {
            assert_eq!(refusal(plan), (400, "speed must be between 0.1 and 10.0".to_string()));
        }
    }
    assert_eq!(refusal(e.cmd_start_replay("b", SPEED_NORMAL_BITS, &files)).0, 404);
    assert_eq!(refusal(e.cmd_start_replay("", SPEED_NORMAL_BITS, &files)).0, 400);
    e.replay.begin("a".to_string(), SPEED_NORMAL_BITS, 0).unwrap();
    assert_eq!(
        refusal(e.cmd_start_replay("a", SPEED_NORMAL_BITS, &files)),
        (409, "another replay is already active, stop it first".to_string())
    );
    let mut e = engine();
    recording(&mut e, "r");
    assert_eq!(
        refusal(e.cmd_start_replay("a", SPEED_NORMAL_BITS, &files)),
        (409, "cannot replay while recording is active".to_string())
    );
    assert_eq!(replay_speed(None), SPEED_NORMAL_BITS);
    assert_eq!(replay_speed(Some(5)), 5);
    match replay_answer("a".to_string(), Ok((9, 3))) {
        EngineResponse::ReplayStarted { session_id, total_ns, message_count } => {
            assert_eq!((session_id.as_str(), total_ns, message_count), ("a", 9, 3));
        }
        _ => panic!("not started"),
    }
    assert_eq!(
        message(replay_answer("a".to_string(), Err("x".to_string()))),
        (500, "replay start failed: x".to_string())
    );
}

#[test]
fn recorded_files_are_listed_in_order() {
    let e = engine();
    let files = || {
        vec![
            file("b", 3, Some(200), None),
            file("a", 9, Some(100), None),
            file("c", 5, Some(300), None),
        ]
    };
    assert_eq!(listed(&e, files(), None, None), vec!["c", "b", "a"]);
    assert_eq!(listed(&e, files(), Some("created_at"), Some("asc")), vec!["a", "b", "c"]);
    assert_eq!(listed(&e, files(), Some("size"), Some("asc")), vec!["b", "c", "a"]);
    assert_eq!(listed(&e, files(), Some("size"), Some("desc")), vec!["a", "c", "b"]);
    assert_eq!(listed(&e, files(), Some("name"), Some("up")), vec!["a", "b", "c"]);
    assert_eq!(listed(&e, files(), Some("nonsense"), None), vec!["c", "b", "a"]);
}

#[test]
fn listed_files_tell_what_is_known_of_them() {
    let mut e = engine();
    recording(&mut e, "a");
    let files = vec![
        file("a", 3, Some(0), Some((2_500_000_000, 4))),
        file("b", 4, None, Some((0, 0))),
    ];
    match e.cmd_list_recordings(Ok(files), Some("name".to_string()), Some("asc".to_string()), 7) {
        EngineResponse::RecordingsList { recordings, total_size_bytes, disk_free_bytes } => {
            assert_eq!(total_size_bytes, 7);
            assert_eq!(disk_free_bytes, 7);
            assert_eq!(recordings[0].created_at, "1970-01-01T00:00:00+00:00");
            assert_eq!(recordings[0].duration_ns, Some(2_500_000_000));
            assert_eq!(recordings[0].message_count, Some(4));
            assert!(recordings[0].is_locked);
            assert_eq!(recordings[1].created_at, "");
            assert_eq!(recordings[1].duration_ns, None);
            assert_eq!(recordings[1].message_count, None);
            assert!(!recordings[1].is_locked);
        }
        _ => panic!("no list"),
    }
    let answer = e.cmd_list_recordings(Err("read dir x: no".to_string()), None, None, 0);
    assert_eq!(message(answer), (500, "scan recordings: read dir x: no".to_string()));
}

#[test]
fn states_can_be_copied_and_compared() {
    for state in [RecordingState::Starting, RecordingState::Stopped, RecordingState::Failed("x".to_string())] {
        assert_eq!(state.clone(), state);
    }
    assert_ne!(RecordingState::Failed("x".to_string()), RecordingState::Failed("y".to_string()));
    assert_ne!(RecordingState::Starting, RecordingState::Recording);
}
