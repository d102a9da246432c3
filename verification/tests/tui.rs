//! The terminal interface.

use rapid_driver::engine::command::{
    DeviceStatus, EngineCommand, EngineResponse, EngineStatus, RecordingFileEntry, RecordingInfo, ReplayState,
    ReplayStatusInfo, Share,
};
use rapid_driver::name_map::NameMap;
use rapid_driver::tui::events::{AppEvent, Key};
use rapid_driver::tui::panels::{Color, Piece, ReplayTexts, StyledLine};
use rapid_driver::tui::{logs_due, status_due, App, AppMode, Refresh, UiRequest};

const SEC: u64 = 1_000_000_000;

fn device(name: &str, bit: usize, running: bool) -> DeviceStatus {
    DeviceStatus {
        name: name.to_string(),
        bit_index: bit,
        discovered: running,
        process_running: running,
        pid: if running { Some(42) } else { None },
        backend: if bit == 0 { "usb".to_string() } else { "mdns".to_string() },
        heartbeat_ok: None,
        last_heartbeat_age_ms: None,
        state_reason: None,
        address: None,
    }
}

fn status(running: bool, recording: Option<RecordingInfo>) -> EngineStatus {
    EngineStatus {
        devices: vec![device("arm", 0, true), device("leg", 1, running)],
        current_mask: 0x1f,
        mask_hex: String::new(),
        sequence: 12,
        measured: Share { part: 1, whole: 2 },
        mask_enabled: true,
        recording,
    }
}

fn recording(state: &str, id: &str) -> RecordingInfo {
    let mut devices = NameMap::new();
    devices.insert("arm".to_string(), "done".to_string());
    devices.insert("leg".to_string(), "failed".to_string());
    RecordingInfo {
        session_id: id.to_string(),
        state: state.to_string(),
        devices,
        output_dir: "/out".to_string(),
        elapsed_ns: 0,
        mcap_message_count: None,
        mcap_file: None,
    }
}

fn replay(state: ReplayState, id: Option<&str>) -> ReplayStatusInfo {
    ReplayStatusInfo {
        active: true,
        state,
        session_id: id.map(|i| i.to_string()),
        progress: Share { part: 1, whole: 2 },
        elapsed_ns: 0,
        total_ns: 0,
        speed_bits: 0,
        error: None,
    }
}

fn entry(id: &str) -> RecordingFileEntry {
    RecordingFileEntry {
        session_id: id.to_string(),
        filename: String::new(),
        size_bytes: 0,
        created_at: String::new(),
        duration_ns: None,
        message_count: None,
        is_locked: false,
    }
}

fn app() -> App {
    App::new(Some(status(true, None)), false)
}

fn press(app: &mut App, key: Key) -> Option<UiRequest> {
    let (event, request) = app.handle_key(key, SEC);
    assert_eq!(event, AppEvent::Continue);
    request
}

fn text(line: &[Piece]) -> String {
    line.iter().map(|p| p.text.as_str()).collect()
}

fn all_text(lines: &[StyledLine]) -> Vec<String> {
    lines.iter().map(|l| text(&l.pieces)).collect()
}

fn texts(durations: Vec<Option<String>>) -> ReplayTexts {
    ReplayTexts {
        durations,
        percent: "50".to_string(),
        elapsed: "1.0".to_string(),
        total: "2.0".to_string(),
    }
}

#[test]
fn interfaces_start_with_the_devices() {
    let a = app();
    assert_eq!(a.mode, AppMode::Monitor);
    assert_eq!(a.devices.len(), 2);
    assert!(a.mask_enabled);
    assert_eq!(a.max_log_lines, 20);
    let a = App::new(None, true);
    assert!(a.devices.is_empty() && a.mask_enabled);
}

#[test]
fn only_q_quits_and_only_among_the_devices() {
    let mut a = app();
    assert_eq!(a.handle_key(Key::Char('q'), 0).0, AppEvent::Quit);
    press(&mut a, Key::Char('r'));
    assert_eq!(a.mode, AppMode::Reorder);
    press(&mut a, Key::Char('q'));
    assert_eq!(a.mode, AppMode::Monitor);
    press(&mut a, Key::Char('e'));
    press(&mut a, Key::Char('q'));
    assert_eq!(a.input_buffer, "q");
}

#[test]
fn selections_stay_in_range() {
    let mut a = app();
    press(&mut a, Key::Up);
    assert_eq!(a.selected, 0);
    for _ in 0..5 {
        press(&mut a, Key::Char('j'));
    }
    assert_eq!(a.selected, 1);
    assert!(matches!(press(&mut a, Key::Enter), Some(UiRequest::Restart { name }) if name == "leg"));
    press(&mut a, Key::Char('k'));
    assert_eq!(a.selected, 0);
    let mut empty = App::new(None, true);
    press(&mut empty, Key::Down);
    assert_eq!(empty.selected, 0);
    assert!(press(&mut empty, Key::Char('s')).is_none());
}

#[test]
fn devices_are_put_in_order() {
    let mut a = app();
    press(&mut a, Key::Char('r'));
    assert!(press(&mut a, Key::Up).is_none());
    assert!(matches!(press(&mut a, Key::Down), Some(UiRequest::MoveDevice { from: 0, to: 1 })));
    assert_eq!(a.selected, 1);
    assert!(press(&mut a, Key::Down).is_none());
    assert!(matches!(press(&mut a, Key::Char('k')), Some(UiRequest::MoveDevice { from: 1, to: 0 })));
    assert!(matches!(press(&mut a, Key::Enter), Some(UiRequest::SaveLayout)));
    assert_eq!(a.mode, AppMode::Monitor);
}

#[test]
fn paths_are_typed() {
    let mut a = app();
    press(&mut a, Key::Char('i'));
    assert_eq!(a.mode, AppMode::Import);
    for c in "/aé".chars() {
        press(&mut a, Key::Char(c));
    }
    press(&mut a, Key::Backspace);
    assert_eq!(a.input_buffer, "/a");
    assert!(matches!(press(&mut a, Key::Enter), Some(UiRequest::ImportLayout { path }) if path == "/a"));
    press(&mut a, Key::Char('e'));
    assert_eq!(a.input_buffer, "");
    press(&mut a, Key::Backspace);
    assert!(press(&mut a, Key::Enter).is_none());
    assert_eq!(a.mode, AppMode::Monitor);
    press(&mut a, Key::Char('e'));
    press(&mut a, Key::Char('x'));
    assert!(matches!(press(&mut a, Key::Enter), Some(UiRequest::ExportLayout { .. })));
}

#[test]
fn recordings_are_toggled() {
    let mut a = app();
    assert!(matches!(press(&mut a, Key::Char('R')), Some(UiRequest::StartRecording)));
    a.refresh_status(Some(status(false, None)));
    assert!(press(&mut a, Key::Char('R')).is_none());
    assert_eq!(a.get_status(SEC).unwrap(), "Cannot record: not connected: leg");
    a.refresh_status(Some(status(false, Some(recording("starting", "s")))));
    assert!(matches!(a.toggle_recording(SEC), Some(UiRequest::StopRecording)));
    let mut empty = App::new(None, true);
    assert!(press(&mut empty, Key::Char('R')).is_none());
    assert_eq!(empty.get_status(SEC).unwrap(), "Cannot record: no devices registered");
}

#[test]
fn replays_are_chosen() {
    let mut a = app();
    assert!(matches!(press(&mut a, Key::Char('P')), Some(UiRequest::ListRecordings)));
    assert_eq!(a.mode, AppMode::Replay);
    let list = EngineResponse::RecordingsList {
        recordings: vec![entry("one"), entry("two")],
        total_size_bytes: 0,
        disk_free_bytes: 0,
    };
    a.answered(UiRequest::ListRecordings, Some(list), SEC);
    press(&mut a, Key::Down);
    press(&mut a, Key::Down);
    assert_eq!(a.replay_selected, 1);
    let request = press(&mut a, Key::Enter).unwrap();
    assert!(matches!(&request, UiRequest::StartReplay { session_id } if session_id == "two"));
    let started = EngineResponse::ReplayStarted { session_id: "two".to_string(), total_ns: 0, message_count: 0 };
    a.answered(request, Some(started), SEC);
    assert_eq!(a.mode, AppMode::Monitor);
    assert_eq!(a.get_status(SEC).unwrap(), "Replay started: two");
    a.refresh_replay_status(Some(replay(ReplayState::Running, Some("two"))));
    assert!(matches!(press(&mut a, Key::Char('P')), Some(UiRequest::StopReplay)));
}

#[test]
fn answers_are_told() {
    let error = || Some(EngineResponse::Error("bad".to_string()));
    let done = || Some(EngineResponse::Done);
    let name = || "arm".to_string();
    let told = |request: UiRequest, response: Option<EngineResponse>| {
        let mut a = app();
        a.replay_recordings = vec![entry("x")];
        a.answered(request, response, SEC);
        a.get_status(SEC).cloned()
    };
    for (request, response, expected) in [
        (UiRequest::Restart { name: name() }, done(), "arm: restarted"),
        (UiRequest::Restart { name: name() }, error(), "arm: bad"),
        (UiRequest::Restart { name: name() }, None, "arm: engine error"),
        (UiRequest::StopRecording, done(), "Recording stopping..."),
        (UiRequest::StopRecording, error(), "Stop error: bad"),
        (UiRequest::StopRecording, None, "Engine error"),
        (UiRequest::StartRecording, done(), "Recording started"),
        (UiRequest::StartRecording, error(), "REC: bad"),
        (UiRequest::SaveLayout, done(), "Layout saved"),
        (UiRequest::SaveLayout, error(), "Error: bad"),
        (UiRequest::ExportLayout { path: name() }, done(), "Exported to arm"),
        (UiRequest::ExportLayout { path: name() }, error(), "Export error: bad"),
        (UiRequest::ImportLayout { path: name() }, done(), "Imported from arm"),
        (UiRequest::ImportLayout { path: name() }, error(), "Import error: bad"),
        (UiRequest::ListRecordings, error(), "List recordings: bad"),
        (UiRequest::ListRecordings, None, "Failed to list recordings"),
        (UiRequest::StartReplay { session_id: name() }, error(), "Replay: bad"),
        (UiRequest::StartReplay { session_id: name() }, None, "Replay: engine error"),
        (UiRequest::StopReplay, done(), "Replay stopped"),
        (UiRequest::StopReplay, error(), "Stop replay: bad"),
        (UiRequest::StopReplay, None, "Stop replay: engine error"),
    ] {
        assert_eq!(told(request, response).as_deref(), Some(expected));
    }
    assert_eq!(told(UiRequest::MoveDevice { from: 0, to: 1 }, error()), None);
}

#[test]
fn messages_vanish() {
    let mut a = app();
    a.set_status("hello".to_string(), SEC);
    assert_eq!(a.get_status(6 * SEC - 1).unwrap(), "hello");
    assert!(a.get_status(6 * SEC).is_none());
    assert!(a.footer(2 * SEC).ends_with("[↑↓]select | hello"));
    assert!(a.footer(7 * SEC).ends_with("[↑↓]select"));
    press(&mut a, Key::Char('e'));
    press(&mut a, Key::Char('x'));
    assert_eq!(a.footer(2 * SEC), "Enter path to export: x");
}

#[test]
fn logs_are_shown_without_repetitions() {
    let lines = |list: &[&str]| -> Vec<String> { list.iter().map(|l| l.to_string()).collect() };
    let all = lines(&["a", "", "b ", " a", "  ", "c", "b"]);
    assert_eq!(App::dedupe_recent_lines(&all, 10), lines(&[" a", "c", "b"]));
    assert_eq!(App::dedupe_recent_lines(&all, 2), lines(&["c", "b"]));
    assert_eq!(App::dedupe_recent_lines(&all, 0), lines(&["b"]));
    assert!(App::dedupe_recent_lines(&vec![], 5).is_empty());
    let many: Vec<String> = (0..300).map(|i| if i < 200 { format!("old {}", i) } else { "new".to_string() }).collect();
    let mut a = app();
    a.update_log_cache("arm", Some(&many), SEC);
    assert_eq!(a.log_cache.get("arm").unwrap().len(), 20);
    assert_eq!(a.log_cache.get("arm").unwrap()[19], "new");
    let flood = vec!["new".to_string(); 161];
    a.update_log_cache("arm", Some(&flood), SEC);
    assert_eq!(a.log_cache.get("arm").unwrap().len(), 1);
}

#[test]
fn logs_are_shown_while_they_change() {
    let mut a = app();
    assert_eq!(all_text(&a.log_preview(0).unwrap()), vec!["(no output)"]);
    a.update_log_cache("arm", Some(&vec!["x".repeat(81), "y".repeat(80)]), SEC);
    let shown = all_text(&a.log_preview(13 * SEC).unwrap());
    assert_eq!(shown, vec![format!("{}...", "x".repeat(77)), "y".repeat(80)]);
    assert_eq!(all_text(&a.log_preview(13 * SEC + 1).unwrap()), vec!["(no recent output)"]);
    a.update_log_cache("arm", Some(&vec!["x".repeat(81), "y".repeat(80)]), 20 * SEC);
    assert_eq!(a.log_last_change.get("arm"), Some(&SEC));
    a.update_log_cache("arm", Some(&vec!["é".repeat(41)]), 20 * SEC);
    assert_eq!(a.log_last_change.get("arm"), Some(&(20 * SEC)));
    assert!(a.log_preview(20 * SEC).is_none());
    a.update_log_cache("arm", None, 20 * SEC);
    assert!(a.log_cache.get("arm").is_none() && a.log_last_change.get("arm").is_none());
    assert_eq!(a.log_name(), "arm");
    assert_eq!(App::new(None, true).log_name(), "(none)");
}

#[test]
fn headers_tell_what_goes_on() {
    let mut a = app();
    assert_eq!(
        text(&a.header("499.9").unwrap()),
        " RAPID Hardware Mask Monitor  | Mask: 0x0000001f | 499.9 Hz"
    );
    a.mask_enabled = false;
    a.recording = Some(recording("recording", "session-1"));
    a.replay_status = Some(replay(ReplayState::Starting, Some("0123456789")));
    let line = a.header("1").unwrap();
    assert_eq!(
        text(&line),
        " RAPID Hardware Mask Monitor  | Mask: 0x0000001f |  REC session-1  |  \u{25b6} REPLAY 01234567 "
    );
    assert_eq!(line[5].style.bg, Some(Color::Red));
    a.replay_status = Some(replay(ReplayState::Running, None));
    assert!(text(&a.header("1").unwrap()).ends_with(" REPLAY ? "));
    a.replay_status = Some(replay(ReplayState::Running, Some("0123456é")));
    assert!(a.header("1").is_none());
}

#[test]
fn devices_have_a_line_each() {
    let mut a = app();
    a.devices[1].process_running = false;
    let lines = a.device_list();
    assert_eq!(
        all_text(&lines),
        vec![
            format!("[ 0] ● [u] {:<14} PID:42", "arm"),
            format!("[ 1] ◐ [m] {:<14} PID:42", "leg"),
        ]
    );
    assert_eq!(lines[0].style.bg, Some(Color::DarkGray));
    assert_eq!(lines[1].style.bg, None);
    assert_eq!(lines[0].pieces[1].style.fg, Some(Color::Green));
    assert_eq!(a.device_title(), (" Devices ", None));
    a.mode = AppMode::Reorder;
    assert_eq!(a.device_title(), (" Devices (REORDER MODE) ", Some(Color::Yellow)));
    a.devices[1].discovered = false;
    a.devices[1].pid = None;
    assert_eq!(all_text(&a.device_list())[1], format!("[ 1] ○ [m] {:<14} -", "leg"));
}

#[test]
fn masks_are_shown_bit_by_bit() {
    let mut a = app();
    a.current_mask = 0x102;
    assert_eq!(
        all_text(&a.mask_display("2.0")),
        vec![
            "0b00000010  □ ■",
            "           0 1 ",
            "",
            "Hex: 0x0000000000000102",
            "Seq: 12  Freq: 2.0 Hz",
        ]
    );
}

#[test]
fn recordings_are_shown() {
    let mut a = app();
    assert_eq!(all_text(&a.recorder_panel("0").unwrap()), vec!["  (no active recording)"]);
    a.recording = Some(recording("stopping", "0123456789"));
    let lines = a.recorder_panel("3.5").unwrap();
    assert_eq!(
        all_text(&lines),
        vec![
            " ◐ stopping".to_string(),
            "  Session: 01234567".to_string(),
            "  Time: 3.5s  Msgs: 0".to_string(),
            "  Dir: /out".to_string(),
            "  ─────────────────────".to_string(),
            format!("  ○ {:<14} done", "arm"),
            format!("  ✕ {:<14} failed", "leg"),
        ]
    );
    a.recording = Some(recording("recording", "s"));
    assert_eq!(a.recorder_panel("3.5").unwrap()[5].pieces[0].text, "  ● ");
    a.recording = Some(recording("failed", "s"));
    assert_eq!(a.recorder_panel("3.5").unwrap().len(), 1);
}

#[test]
fn replays_are_shown() {
    let mut a = app();
    let panel = a.replay_panel(4, &texts(vec![])).unwrap();
    assert_eq!(panel.title, " Replay ");
    assert_eq!(all_text(&panel.lines), vec!["  (idle)"]);
    a.replay_status = Some(replay(ReplayState::Running, Some("0123456789abcdef")));
    let panel = a.replay_panel(4, &texts(vec![])).unwrap();
    assert_eq!(
        all_text(&panel.lines),
        vec![" \u{25b6} playing", "  Session: 0123456789ab", "  50% | 1.0s / 2.0s"]
    );
    a.mode = AppMode::Replay;
    let panel = a.replay_panel(4, &texts(vec![])).unwrap();
    assert_eq!(panel.title, " Replay (SELECT) ");
    assert_eq!(panel.border, Some(Color::Magenta));
    assert_eq!(all_text(&panel.lines), vec!["  (no recordings found)"]);
}

#[test]
fn the_selected_recording_is_visible() {
    let mut a = app();
    a.mode = AppMode::Replay;
    a.replay_recordings = (0..9).map(|i| entry(&format!("r{}", i))).collect();
    let durations: Vec<Option<String>> = (0..9).map(|i| if i == 5 { Some("7".to_string()) } else { None }).collect();
    a.replay_selected = 5;
    let panel = a.replay_panel(2, &texts(durations)).unwrap();
    assert_eq!(all_text(&panel.lines), vec![" r4 (?)", " r5 (7s)"]);
    assert_eq!(panel.lines[1].pieces[0].style.bg, Some(Color::DarkGray));
    assert_eq!(panel.lines[0].pieces[0].style.bg, None);
    a.replay_selected = 0;
    let panel = a.replay_panel(4, &texts(vec![None; 9])).unwrap();
    assert_eq!(panel.lines.len(), 4);
}

#[test]
fn requests_become_commands() {
    match UiRequest::ListRecordings.command() {
        EngineCommand::ListRecordings { sort, order } => {
            assert_eq!(sort.as_deref(), Some("created_at"));
            assert_eq!(order.as_deref(), Some("desc"));
        }
        _ => panic!("another command"),
    }
    match (UiRequest::StartReplay { session_id: "a".to_string() }).command() {
        EngineCommand::StartReplay { session_id, speed_bits } => {
            assert_eq!(session_id, "a");
            assert_eq!(speed_bits, Some(1.0f64.to_bits()));
        }
        _ => panic!("another command"),
    }
    assert!(matches!(
        UiRequest::StartRecording.command(),
        EngineCommand::StartRecording { session_id: None, devices: None, output_dir: None }
    ));
    let import = UiRequest::ImportLayout { path: "p".to_string() };
    assert!(matches!(import.command(), EngineCommand::ImportLayout { path } if path == "p"));
    assert_eq!(import.refresh(Some(&EngineResponse::Done)), Refresh::Everything);
    assert_eq!(import.refresh(None), Refresh::Nothing);
    assert_eq!(UiRequest::MoveDevice { from: 0, to: 1 }.refresh(None), Refresh::Everything);
    assert_eq!(UiRequest::StopReplay.refresh(None), Refresh::Replay);
    assert_eq!(UiRequest::SaveLayout.refresh(None), Refresh::Nothing);
}

#[test]
fn screens_are_refreshed_from_time_to_time() {
    assert!(!status_due(SEC + 99_999_999, SEC));
    assert!(status_due(SEC + 100_000_000, SEC));
    assert!(!logs_due(2 * SEC - 1, SEC));
    assert!(logs_due(2 * SEC, SEC));
    assert!(!logs_due(0, SEC));
}

#[test]
fn statuses_can_be_copied_and_shown() {
    let original = status(true, Some(recording("recording", "a")));
    let copy = original.clone();
    assert_eq!(format!("{:?}", copy), format!("{:?}", original));
    let info = copy.recording.unwrap();
    assert_eq!(info.devices.len(), original.recording.unwrap().devices.len());
}
