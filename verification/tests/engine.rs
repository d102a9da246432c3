//! Devices and their processes.

use rapid_driver::cli::{blank_entry, SourceKind};
use rapid_driver::discovery::DiscoveredDevice;
use rapid_driver::engine::command::{EngineCommand, EngineResponse, ReplayState};
use rapid_driver::engine::dispatch::{answer_to, Step};
use rapid_driver::engine::heartbeat::{
    device_uses_heartbeat, heartbeat_cut_off, heartbeat_devices, heartbeat_error, heartbeat_file_name,
    heartbeat_fresh, Heartbeat, HeartbeatSnapshot, CLIENT_DISCONNECT_GRACE_BITS,
};
use rapid_driver::engine::pacing::{plan_pause, Pause};
use rapid_driver::engine::process::{
    add_ms, begin_termination, continue_termination, restart_delay_ms, termination_deadline,
    ProcessState, SpawnRequest, TerminationAction,
};
use rapid_driver::engine::state::Engine;
use rapid_driver::engine::status::device_available;
use rapid_driver::json::JsonNumber;
use rapid_driver::mask::layout::MaskLayout;
use rapid_driver::mask::shm::MaskPublisher;
use rapid_driver::registry::{DeviceEntry, Registry};

const SEC: u64 = 1_000_000_000;
const START: u64 = 100 * SEC;

fn camera() -> DeviceEntry {
    let mut e = blank_entry(SourceKind::Usb);
    e.name = "camera".to_string();
    e.on_attach = "run camera".to_string();
    e.on_detach = "stop camera".to_string();
    e
}

fn phone() -> DeviceEntry {
    let mut e = blank_entry(SourceKind::Mdns);
    e.name = "phone".to_string();
    e.service_type = "_iphonevio._tcp.local.".to_string();
    e.on_attach = "node_iphone --data-port 6001".to_string();
    e
}

fn discovered(entry: DeviceEntry, source: &str, address: Option<&str>) -> DiscoveredDevice {
    DiscoveredDevice {
        source_id: source.to_string(),
        device_name: entry.name.clone(),
        entry,
        address: address.map(|a| a.to_string()),
    }
}

fn engine() -> Engine {
    Engine::new(Registry { devices: vec![camera(), phone()] }, None, true, None, None, START)
}

fn attach(e: &mut Engine, d: &DiscoveredDevice, pid: u32, now: u64) -> SpawnRequest {
    let request = e.device_added(d).expect("a process to start");
    e.attached(&request, pid, now);
    request
}

fn beat(age_ms: u64) -> Heartbeat {
    Heartbeat {
        snapshot: HeartbeatSnapshot {
            updated_at: None,
            client_connected: Some(true),
            last_frame_at: None,
            seq: None,
            pid: None,
            error: None,
        },
        age_ms: Some(age_ms),
        last_frame_age_bits: None,
    }
}

fn reason(e: &Engine, i: usize) -> Option<String> {
    e.devices[i].state_reason.clone()
}

#[test]
fn engines_start_with_all_devices_down() {
    let e = engine();
    assert_eq!(e.layout.device_order, vec!["camera", "phone"]);
    assert_eq!(e.devices.len(), 2);
    assert_eq!(e.devices[1].name, "phone");
    assert_eq!(e.devices[1].bit_index, 1);
    assert_eq!(e.devices[1].backend, "mdns");
    assert!(!e.devices[0].process_running);
    assert_eq!(e.compute_mask(), 0);
    let saved = MaskLayout { device_order: vec!["phone".to_string()] };
    let e = Engine::new(Registry { devices: vec![camera(), phone()] }, Some(saved), false, None, None, START);
    assert_eq!(e.layout.device_order, vec!["phone", "camera"]);
}

#[test]
fn found_devices_are_started() {
    let mut e = engine();
    let request = attach(&mut e, &discovered(camera(), "1-1", Some("10.0.0.9:1")), 42, START);
    assert_eq!(request.entry.on_attach, "run camera");
    assert_eq!(request.address.as_deref(), Some("10.0.0.9:1"));
    assert_eq!(request.heartbeat_file, None);
    assert_eq!(request.log_file, "camera.log");
    assert!(e.update_device_statuses(START, 0).is_empty());
    assert!(e.devices[0].discovered && e.devices[0].process_running);
    assert_eq!(e.devices[0].pid, Some(42));
    assert_eq!(reason(&e, 0), None);
    assert_eq!(reason(&e, 1).as_deref(), Some("mdns_missing"));
    assert_eq!(e.compute_mask(), 1);
    assert!(e.device_added(&discovered(camera(), "1-1", None)).is_none());
}

#[test]
fn unplugged_devices_are_ended() {
    let mut e = engine();
    attach(&mut e, &discovered(camera(), "1-1", None), 42, START);
    let end = e.device_removed("1-1").expect("a process to end");
    assert_eq!(end.pid, 42);
    assert_eq!(end.on_detach, "stop camera");
    assert!(e.device_removed("1-1").is_none());
    e.update_device_statuses(START, 0);
    assert_eq!(reason(&e, 0).as_deref(), Some("process_down"));
}

#[test]
fn services_that_vanish_keep_their_process() {
    let mut e = engine();
    attach(&mut e, &discovered(phone(), "a", Some("10.0.0.2:7000")), 7, START);
    assert!(e.device_removed("a").is_none());
    assert_eq!(e.running.len(), 1);
    assert!(!e.device_addresses.contains_key("phone"));
}

#[test]
fn moved_services_keep_their_process() {
    let mut e = engine();
    attach(&mut e, &discovered(phone(), "a", None), 7, START);
    assert!(e.device_added(&discovered(phone(), "b", None)).is_none());
    assert_eq!(e.running.get("b").unwrap().pid, 7);
    assert!(!e.running.contains_key("a"));
}

#[test]
fn exited_processes_come_back_after_a_while() {
    let mut e = engine();
    attach(&mut e, &discovered(camera(), "1-1", None), 42, START);
    assert!(!e.reap_exited(&vec![41], START, 0));
    assert!(e.reap_exited(&vec![42], START, 0));
    assert_eq!(e.running.len(), 0);
    assert_eq!(e.pending_restarts.len(), 1);
    assert_eq!(e.pending_restarts[0].restart_count, 1);
    let due = e.pending_restarts[0].restart_at_ns;
    assert_eq!(due, add_ms(START, restart_delay_ms(1, 0)));
    assert!(e.take_ready_restarts(due - 1).is_empty());
    let ready = e.take_ready_restarts(due);
    assert_eq!(ready.len(), 1);
    assert!(e.may_come_back(&ready[0].source_id, &ready[0].entry));
    let request = e.spawn_attach_with_count("1-1", &ready[0].entry, ready[0].restart_count).unwrap();
    assert_eq!(request.restart_count, 1);
    assert!(e.pending_restarts.is_empty());
    assert!(!e.may_come_back("2-2", &camera()));
    assert!(e.may_come_back("gone", &phone()));
}

#[test]
fn waits_grow_and_are_bounded() {
    assert_eq!(restart_delay_ms(1, 100), 1000);
    assert_eq!(restart_delay_ms(1, 0), 900);
    assert_eq!(restart_delay_ms(1, 200), 1100);
    assert_eq!(restart_delay_ms(0, 100), 1000);
    assert_eq!(restart_delay_ms(2, 200), 2000);
    assert_eq!(restart_delay_ms(5, 1600), 16000);
    assert_eq!(restart_delay_ms(6, 0), 27000);
    assert_eq!(restart_delay_ms(u32::MAX, 5999), 30000);
}

#[test]
fn young_processes_are_left_alone_and_silent_ones_restarted() {
    let mut e = engine();
    attach(&mut e, &discovered(phone(), "a", None), 7, START);
    assert!(e.update_device_statuses(START + 6 * SEC, 0).is_empty());
    assert_eq!(reason(&e, 1).as_deref(), Some("starting"));
    assert_eq!(e.devices[1].heartbeat_ok, Some(false));
    assert!(!device_available(&e.devices[1]));
    let ended = e.update_device_statuses(START + 6 * SEC + 1, 0);
    assert_eq!(ended.len(), 1);
    assert_eq!(ended[0].pid, 7);
    assert_eq!(reason(&e, 1).as_deref(), Some("heartbeat_stale"));
    assert_eq!(e.pending_restarts.len(), 1);
    assert_eq!(e.running.len(), 0);
}

#[test]
fn beating_processes_are_available() {
    let mut e = engine();
    attach(&mut e, &discovered(phone(), "a", None), 7, START);
    e.refresh_heartbeat("phone", Some(beat(3000)));
    assert!(e.update_device_statuses(START + 60 * SEC, 0).is_empty());
    assert_eq!(e.devices[1].heartbeat_ok, Some(true));
    assert_eq!(e.devices[1].last_heartbeat_age_ms, Some(3000));
    assert_eq!(e.compute_mask(), 2);
    e.refresh_heartbeat("phone", Some(beat(3001)));
    assert_eq!(e.update_device_statuses(START + 60 * SEC, 0).len(), 1);
}

#[test]
fn cut_off_clients_are_restarted() {
    let mut cut_off = beat(0);
    cut_off.snapshot.client_connected = Some(false);
    cut_off.last_frame_age_bits = Some(4.5f64.to_bits());
    assert!(heartbeat_cut_off(Some(&cut_off)));
    let mut e = engine();
    attach(&mut e, &discovered(phone(), "a", None), 7, START);
    e.refresh_heartbeat("phone", Some(cut_off));
    assert!(e.update_device_statuses(START + SEC, 0).is_empty());
    assert_eq!(reason(&e, 1).as_deref(), Some("client_disconnected"));
    assert_eq!(e.update_device_statuses(START + 10 * SEC, 0).len(), 1);
}

#[test]
fn heartbeats_are_judged() {
    assert!(!heartbeat_fresh(None));
    assert!(heartbeat_fresh(Some(&beat(3000))));
    assert!(!heartbeat_fresh(Some(&beat(3001))));
    assert_eq!(CLIENT_DISCONNECT_GRACE_BITS, 4.0f64.to_bits());
    for (age, expected) in [(0.0, false), (4.0, false), (4.000001, true), (1e9, true), (f64::INFINITY, true)] {
        let mut h = beat(0);
        h.snapshot.client_connected = Some(false);
        h.last_frame_age_bits = Some(f64::to_bits(age));
        assert_eq!(heartbeat_cut_off(Some(&h)), expected, "{}", age);
    }
    let mut h = beat(0);
    h.snapshot.error = Some(String::new());
    assert!(!heartbeat_error(Some(&h)));
    h.snapshot.error = Some("bad".to_string());
    assert!(heartbeat_error(Some(&h)));
    assert!(device_uses_heartbeat(&phone()));
    assert!(!device_uses_heartbeat(&camera()));
    assert_eq!(heartbeat_devices(&vec![camera(), phone()]), vec!["phone"]);
    assert_eq!(heartbeat_file_name("../my phone_1-é"), "___my_phone_1-_.json");
}

#[test]
fn heartbeats_are_read() {
    let text = r#"{"updated_at": 12.5, "client_connected": false, "last_frame_at": 3, "seq": 9,
        "pid": 4294967296, "error": "x"}"#;
    let h = HeartbeatSnapshot::parse(text, None).unwrap();
    assert_eq!(h.updated_at, Some(JsonNumber::Float(12.5f64.to_bits())));
    assert_eq!(h.client_connected, Some(false));
    assert_eq!(h.last_frame_at, Some(JsonNumber::Unsigned(3)));
    assert_eq!(h.seq, Some(9));
    assert_eq!(h.pid, None);
    assert_eq!(h.error.as_deref(), Some("x"));
    let modified = Some(JsonNumber::Unsigned(77));
    assert_eq!(HeartbeatSnapshot::parse("{}", modified).unwrap().updated_at, modified);
    assert_eq!(HeartbeatSnapshot::parse("{\"pid\": 5}", None).unwrap().pid, Some(5));
    assert!(HeartbeatSnapshot::parse("{", modified).is_none());
}

#[test]
fn processes_are_asked_before_they_are_killed() {
    assert!(matches!(begin_termination(ProcessState::Exited), TerminationAction::Finish));
    assert!(matches!(begin_termination(ProcessState::Alive), TerminationAction::Ask));
    assert!(matches!(begin_termination(ProcessState::Unknown), TerminationAction::Ask));
    let deadline = termination_deadline(START);
    assert_eq!(deadline, START + 5 * SEC);
    assert!(matches!(continue_termination(ProcessState::Alive, deadline - 1, deadline), TerminationAction::Wait));
    assert!(matches!(continue_termination(ProcessState::Alive, deadline, deadline), TerminationAction::Kill));
    assert!(matches!(continue_termination(ProcessState::Exited, START, deadline), TerminationAction::Finish));
    assert!(matches!(continue_termination(ProcessState::Unknown, START, deadline), TerminationAction::Finish));
}

#[test]
fn all_processes_are_ended() {
    let mut e = engine();
    attach(&mut e, &discovered(camera(), "1-1", None), 42, START);
    attach(&mut e, &discovered(phone(), "a", None), 7, START);
    let mut pids: Vec<u32> = e.kill_all().iter().map(|t| t.pid).collect();
    pids.sort();
    assert_eq!(pids, vec![7, 42]);
    assert_eq!(e.running.len(), 0);
}

#[test]
fn statuses_are_refreshed_now_and_again() {
    let mut e = engine();
    e.update_device_statuses(START, 0);
    assert!(!e.status_refresh_due(START + 199_000_000));
    assert!(e.status_refresh_due(START + 200_000_000));
}

#[test]
fn masks_are_published_and_measured() {
    let mut e = Engine::new(
        Registry { devices: vec![camera()] },
        None,
        true,
        Some(MaskPublisher::new()),
        None,
        START,
    );
    attach(&mut e, &discovered(camera(), "1-1", None), 42, START);
    e.update_device_statuses(START, 0);
    let record = e.publish_mask(5).unwrap();
    assert_eq!(record.mask, 1);
    assert_eq!(record.device_count, 1);
    assert_eq!(record.timestamp_ns, 5);
    e.mask_published(true, START + SEC / 2);
    assert_eq!(e.sequence, record.sequence);
    assert_eq!(e.publish_count, 1);
    e.publish_mask(6);
    e.mask_published(true, START + 2 * SEC);
    assert_eq!(e.measured.part, 2);
    assert_eq!(e.measured.whole, 2 * SEC);
    assert_eq!(e.publish_count, 0);
    let snapshot = e.mask_snapshot(9, 1.5f64.to_bits());
    assert_eq!(snapshot.mask, 1);
    assert_eq!(snapshot.timestamp_ns, 9);
    assert_eq!(snapshot.devices.get("camera"), Some(&true));
}

#[test]
fn moved_devices_change_their_bits() {
    let mut e = engine();
    attach(&mut e, &discovered(camera(), "1-1", None), 42, START);
    e.update_device_statuses(START, 0);
    assert_eq!(e.compute_mask(), 1);
    assert!(matches!(
        e.handle_command(EngineCommand::MoveDevice { from: 0, to: 1 }, START),
        Step::RebuildDevices
    ));
    e.rebuild_devices(START, 0);
    assert_eq!(e.devices[0].name, "phone");
    assert_eq!(e.compute_mask(), 2);
    e.import_layout(MaskLayout { device_order: vec!["camera".to_string()] });
    e.rebuild_devices(START, 0);
    assert_eq!(e.devices.len(), 1);
    assert_eq!(e.compute_mask(), 1);
}

#[test]
fn commands_restart_stop_and_start_devices() {
    let mut e = engine();
    assert!(matches!(&e.cmd_restart_device("camera").answer,
        EngineResponse::Error(m) if m == "camera: not connected"));
    assert!(matches!(&e.cmd_stop_device("camera").answer,
        EngineResponse::Error(m) if m == "camera: no running process"));
    attach(&mut e, &discovered(camera(), "1-1", None), 42, START);
    assert!(matches!(&e.cmd_start_device("camera").answer,
        EngineResponse::Error(m) if m == "camera: already running"));
    let restart = e.cmd_restart_device("camera");
    assert_eq!(restart.end.unwrap().pid, 42);
    assert!(restart.spawn.is_some() && restart.refresh);
    assert!(matches!(restart.answer, EngineResponse::Done));
    e.attached(&restart.spawn.unwrap(), 43, START);
    let stop = e.cmd_stop_device("camera");
    assert_eq!(stop.end.unwrap().pid, 43);
    assert!(stop.spawn.is_none());
    let start = e.cmd_start_device("camera");
    assert!(start.end.is_none() && start.spawn.is_some());
}

#[test]
fn commands_change_the_registry() {
    let mut e = engine();
    match e.handle_command(EngineCommand::AddDevice { entry: camera() }, START) {
        Step::Answer(EngineResponse::Error(m)) => assert_eq!(m, "'camera' already exists"),
        _ => panic!("added twice"),
    }
    match e.handle_command(EngineCommand::RemoveDevice { name: "nobody".to_string() }, START) {
        Step::Answer(EngineResponse::Error(m)) => assert_eq!(m, "'nobody' not found"),
        _ => panic!("removed"),
    }
    assert!(matches!(
        e.handle_command(EngineCommand::RemoveDevice { name: "camera".to_string() }, START),
        Step::SaveRegistry
    ));
    match e.handle_command(EngineCommand::GetRegistry, START) {
        Step::Answer(EngineResponse::Registry(r)) => assert_eq!(r.devices.len(), 1),
        _ => panic!("no registry"),
    }
}

#[test]
fn commands_tell_how_things_stand() {
    let mut e = engine();
    e.current_mask = 5;
    match e.handle_command(EngineCommand::GetStatus, START) {
        Step::Answer(EngineResponse::Status(s)) => {
            assert_eq!(s.mask_hex, "0x0000000000000005");
            assert_eq!(s.devices.len(), 2);
            assert!(s.mask_enabled && s.recording.is_none());
        }
        _ => panic!("no status"),
    }
    match e.handle_command(EngineCommand::GetMask, START) {
        Step::Answer(EngineResponse::Mask { value, layout, .. }) => {
            assert_eq!(value, 5);
            assert_eq!(layout, vec!["camera", "phone"]);
        }
        _ => panic!("no mask"),
    }
    match e.handle_command(EngineCommand::GetDevice { name: "phone".to_string() }, START) {
        Step::Answer(EngineResponse::Device(Some(d))) => assert_eq!(d.bit_index, 1),
        _ => panic!("no device"),
    }
    assert!(matches!(
        e.handle_command(EngineCommand::GetDevice { name: "x".to_string() }, START),
        Step::Answer(EngineResponse::Device(None))
    ));
    assert!(matches!(e.handle_command(EngineCommand::Shutdown, START), Step::Shutdown));
    assert!(matches!(e.handle_command(EngineCommand::SaveLayout, START), Step::SaveLayout));
}

#[test]
fn outcomes_become_answers() {
    assert!(matches!(answer_to(Ok(()), "export: "), EngineResponse::Done));
    match answer_to(Err("disk full".to_string()), "export: ") {
        EngineResponse::Error(m) => assert_eq!(m, "export: disk full"),
        _ => panic!("no error"),
    }
}

#[test]
fn rounds_end_on_time() {
    assert_eq!(plan_pause(true, 500_000), Pause { sleep_ns: 1_300_000, round_ns: 2_000_000 });
    assert_eq!(plan_pause(true, 1_800_000), Pause { sleep_ns: 0, round_ns: 2_000_000 });
    assert_eq!(plan_pause(true, u64::MAX), Pause { sleep_ns: 0, round_ns: 2_000_000 });
    assert_eq!(plan_pause(false, 500_000), Pause { sleep_ns: 10_000_000, round_ns: 0 });
}

#[test]
fn engines_start_without_recordings_and_replays() {
    let e = engine();
    assert!(e.recorder.active.is_none());
    assert_eq!(e.recorder.mask_decimation, 50);
    assert_eq!(e.recorder.mask_counter, 0);
    let replay = e.replay.status();
    assert_eq!(replay.state, ReplayState::Idle);
    assert!(replay.session_id.is_none() && replay.error.is_none());
    assert_eq!(replay.speed_bits, 1.0f64.to_bits());
}
