//! The terminal interface: its state, and what keys and answers do to it.

use vstd::prelude::*;
use crate::engine::command::{DeviceStatus, EngineCommand, EngineResponse, EngineStatus, RecordingFileEntry,
    RecordingInfo, ReplayState, ReplayStatusInfo, Share};
use crate::engine::process::time_since;
use crate::engine::replay::SPEED_NORMAL_BITS;
use crate::engine::sessions::{unavailable, unavailable_names};
use crate::engine::state::status_names;
use crate::engine::status::is_available;
use crate::name_map::NameMap;
use crate::text::{join, joined, owned, str_eq};
use crate::tui::events::{AppEvent, Key};

pub mod events;
pub mod logs;
pub mod panels;

verus! {

/// For how long a message is shown.
pub const STATUS_SHOWN_NS: u64 = 5_000_000_000;

/// How often the statuses are asked for.
pub const STATUS_EVERY_NS: u64 = 100_000_000;

/// How often the logs are read.
pub const LOGS_EVERY_NS: u64 = 1_000_000_000;

/// Tests whether it is time to ask for the statuses again.
pub fn status_due(now_ns: u64, last_ns: u64) -> (r: bool)
    ensures
        r == (time_since(now_ns, last_ns) >= STATUS_EVERY_NS),
{
    now_ns.saturating_sub(last_ns) >= STATUS_EVERY_NS
}

/// Tests whether it is time to read the logs again.
pub fn logs_due(now_ns: u64, last_ns: u64) -> (r: bool)
    ensures
        r == (time_since(now_ns, last_ns) >= LOGS_EVERY_NS),
{
    now_ns.saturating_sub(last_ns) >= LOGS_EVERY_NS
}

/// How many lines of a log are shown.
pub const MAX_LOG_LINES: usize = 20;

/// What keys do.
#[derive(Debug, Clone, Copy, PartialEq, Eq, Structural)]
pub enum AppMode {
    Monitor,
    Reorder,
    Export,
    Import,
    Replay,
}

/// What the interface asks the engine for.
#[derive(Debug)]
pub enum UiRequest {
    Restart { name: String },
    StopRecording,
    StartRecording,
    SaveLayout,
    MoveDevice { from: usize, to: usize },
    ExportLayout { path: String },
    ImportLayout { path: String },
    ListRecordings,
    StartReplay { session_id: String },
    StopReplay,
}

/// What is asked for anew once the engine has answered.
#[derive(Debug, Clone, Copy, PartialEq, Eq, Structural)]
pub enum Refresh {
    Nothing,
    Replay,
    /// The status of the engine, and of the replay.
    Everything,
}

impl UiRequest {
    /// Whether `cmd` is the command of this request. Recordings are listed with the latest first,
    /// and replayed at their own speed.
    pub open spec fn is_asked_by(self, cmd: EngineCommand) -> bool {
        match self {
            UiRequest::Restart { name } => cmd matches EngineCommand::RestartDevice { name: n } && n
                == name,
            UiRequest::StopRecording => cmd == (EngineCommand::StopRecording { session_id: None }),
            UiRequest::StartRecording => cmd == (EngineCommand::StartRecording {
                session_id: None,
                devices: None,
                output_dir: None,
            }),
            UiRequest::SaveLayout => cmd is SaveLayout,
            UiRequest::MoveDevice { from, to } => cmd == (EngineCommand::MoveDevice { from, to }),
            UiRequest::ExportLayout { path } => cmd matches EngineCommand::ExportLayout { path: p }
                && p == path,
            UiRequest::ImportLayout { path } => cmd matches EngineCommand::ImportLayout { path: p }
                && p == path,
            UiRequest::ListRecordings => cmd matches EngineCommand::ListRecordings {
                sort: Some(sort),
                order: Some(order),
            } && sort@ == "created_at"@ && order@ == "desc"@,
            UiRequest::StartReplay { session_id } => cmd matches EngineCommand::StartReplay {
                session_id: id,
                speed_bits,
            } && id == session_id && speed_bits == Some(SPEED_NORMAL_BITS),
            UiRequest::StopReplay => cmd is StopReplay,
        }
    }

    /// The command that asks the engine.
    pub fn command(&self) -> (r: EngineCommand)
        ensures
            self.is_asked_by(r),
    {
        match self {
            UiRequest::Restart { name } => EngineCommand::RestartDevice { name: name.clone() },
            UiRequest::StopRecording => EngineCommand::StopRecording { session_id: None },
            UiRequest::StartRecording => EngineCommand::StartRecording {
                session_id: None,
                devices: None,
                output_dir: None,
            },
            UiRequest::SaveLayout => EngineCommand::SaveLayout,
            UiRequest::MoveDevice { from, to } => EngineCommand::MoveDevice { from: *from, to: *to },
            UiRequest::ExportLayout { path } => EngineCommand::ExportLayout { path: path.clone() },
            UiRequest::ImportLayout { path } => EngineCommand::ImportLayout { path: path.clone() },
            UiRequest::ListRecordings => EngineCommand::ListRecordings {
                sort: Some(owned("created_at")),
                order: Some(owned("desc")),
            },
            UiRequest::StartReplay { session_id } => EngineCommand::StartReplay {
                session_id: session_id.clone(),
                speed_bits: Some(SPEED_NORMAL_BITS),
            },
            UiRequest::StopReplay => EngineCommand::StopReplay,
        }
    }

    /// What is asked for anew once the engine has answered this request: everything where devices
    /// were put in another order, and the replay where it was stopped.
    pub fn refresh(&self, response: Option<&EngineResponse>) -> (r: Refresh)
        ensures
            r == (match *self {
                UiRequest::MoveDevice { .. } => Refresh::Everything,
                UiRequest::ImportLayout { .. } => if response matches Some(EngineResponse::Done) {
                    Refresh::Everything
                } else {
                    Refresh::Nothing
                },
                UiRequest::StopReplay => Refresh::Replay,
                _ => Refresh::Nothing,
            }),
    {
        match self {
            UiRequest::MoveDevice { .. } => Refresh::Everything,
            UiRequest::ImportLayout { .. } => match response {
                Some(EngineResponse::Done) => Refresh::Everything,
                _ => Refresh::Nothing,
            },
            UiRequest::StopReplay => Refresh::Replay,
            _ => Refresh::Nothing,
        }
    }
}

/// The state of the terminal interface.
pub struct App {
    pub mode: AppMode,
    /// The selected device.
    pub selected: usize,
    pub input_buffer: String,
    /// A message, and since when it is shown.
    pub status_message: Option<(String, u64)>,
    pub devices: Vec<DeviceStatus>,
    pub current_mask: u64,
    pub sequence: u64,
    /// How many masks were published in how many nanoseconds.
    pub measured: Share,
    pub mask_enabled: bool,
    pub recording: Option<RecordingInfo>,
    pub replay_recordings: Vec<RecordingFileEntry>,
    pub replay_selected: usize,
    pub replay_status: Option<ReplayStatusInfo>,
    /// The last lines of the logs of devices.
    pub log_cache: NameMap<Vec<String>>,
    /// When the logs of devices last changed.
    pub log_last_change: NameMap<u64>,
    pub max_log_lines: usize,
}

/// Whether a replay is under way.
pub open spec fn is_replaying(status: Option<ReplayStatusInfo>) -> bool {
    status matches Some(s) && (s.state == ReplayState::Starting || s.state == ReplayState::Running)
}

/// Whether a recording is under way.
pub open spec fn is_recording_now(recording: Option<RecordingInfo>) -> bool {
    recording matches Some(r) && (r.state@ == "recording"@ || r.state@ == "starting"@)
}

/// Tests whether a recording is under way.
pub fn recording_now(recording: &Option<RecordingInfo>) -> (r: bool)
    ensures
        r == is_recording_now(*recording),
{
    match recording {
        Some(rec) => str_eq(rec.state.as_str(), "recording") || str_eq(rec.state.as_str(), "starting"),
        None => false,
    }
}

/// Tests whether a replay is under way.
pub fn replaying(status: &Option<ReplayStatusInfo>) -> (r: bool)
    ensures
        r == is_replaying(*status),
{
    match status {
        Some(s) => matches!(s.state, ReplayState::Starting | ReplayState::Running),
        None => false,
    }
}

/// One place further up, if there is one.
pub open spec fn one_up(selected: usize) -> usize {
    if selected > 0 {
        (selected - 1) as usize
    } else {
        selected
    }
}

/// One place further down, if there is one.
pub open spec fn one_down(selected: usize, len: nat) -> usize {
    if selected + 1 < len {
        (selected + 1) as usize
    } else {
        selected
    }
}

impl App {
    /// The interface as it starts.
    pub fn new(status: Option<EngineStatus>, mask_enabled: bool) -> (r: Self)
        ensures
            r.mode == AppMode::Monitor,
            r.selected == 0,
            r.input_buffer@ == ""@,
            r.status_message is None,
            match status {
                Some(s) => {
                    &&& r.devices == s.devices
                    &&& r.current_mask == s.current_mask
                    &&& r.sequence == s.sequence
                    &&& r.measured == s.measured
                    &&& r.mask_enabled == s.mask_enabled
                    &&& r.recording == s.recording
                },
                None => {
                    &&& r.devices@ == Seq::<DeviceStatus>::empty()
                    &&& r.current_mask == 0
                    &&& r.sequence == 0
                    &&& r.measured == (Share { part: 0, whole: 1 })
                    &&& r.mask_enabled == mask_enabled
                    &&& r.recording is None
                },
            },
            r.replay_recordings@ == Seq::<RecordingFileEntry>::empty(),
            r.replay_selected == 0,
            r.replay_status is None,
            r.log_cache.names() == Seq::<Seq<char>>::empty(),
            r.log_last_change.names() == Seq::<Seq<char>>::empty(),
            r.max_log_lines == MAX_LOG_LINES,
    {
        let (devices, current_mask, sequence, measured, enabled, recording) = match status {
            Some(s) => (
                s.devices,
                s.current_mask,
                s.sequence,
                s.measured,
                s.mask_enabled,
                s.recording,
            ),
            None => (Vec::new(), 0, 0, Share { part: 0, whole: 1 }, mask_enabled, None),
        };
        App {
            mode: AppMode::Monitor,
            selected: 0,
            input_buffer: owned(""),
            status_message: None,
            devices,
            current_mask,
            sequence,
            measured,
            mask_enabled: enabled,
            recording,
            replay_recordings: Vec::new(),
            replay_selected: 0,
            replay_status: None,
            log_cache: NameMap::new(),
            log_last_change: NameMap::new(),
            max_log_lines: MAX_LOG_LINES,
        }
    }

    /// Takes over what the engine says of itself, if it does.
    pub fn refresh_status(&mut self, status: Option<EngineStatus>)
        ensures
            *final(self) == (match status {
                Some(s) => App {
                    devices: s.devices,
                    current_mask: s.current_mask,
                    sequence: s.sequence,
                    measured: s.measured,
                    mask_enabled: s.mask_enabled,
                    recording: s.recording,
                    ..*old(self)
                },
                None => *old(self),
            }),
    {
        if let Some(s) = status {
            self.devices = s.devices;
            self.current_mask = s.current_mask;
            self.sequence = s.sequence;
            self.measured = s.measured;
            self.mask_enabled = s.mask_enabled;
            self.recording = s.recording;
        }
    }

    /// Takes over what the engine says of the replay.
    pub fn refresh_replay_status(&mut self, status: Option<ReplayStatusInfo>)
        ensures
            *final(self) == (App { replay_status: status, ..*old(self) }),
    {
        self.replay_status = status;
    }

    /// Whether `after` is this state with a message.
    pub open spec fn is_told(self, message: Seq<char>, now_ns: u64, after: App) -> bool {
        &&& after.status_message matches Some(m)
        &&& m.0@ == message
        &&& m.1 == now_ns
        &&& after == App { status_message: after.status_message, ..self }
    }

    /// Shows a message.
    pub fn set_status(&mut self, msg: String, now_ns: u64)
        ensures
            old(self).is_told(msg@, now_ns, *final(self)),
            *final(self) == (App { status_message: Some((msg, now_ns)), ..*old(self) }),
    {
        self.status_message = Some((msg, now_ns));
    }

    /// The message that is shown.
    pub open spec fn shown_status(self, now_ns: u64) -> Option<Seq<char>> {
        match self.status_message {
            Some(m) => if time_since(now_ns, m.1) < STATUS_SHOWN_NS {
                Some(m.0@)
            } else {
                None
            },
            None => None,
        }
    }

    /// The message that is shown, if it is not too old.
    pub fn get_status(&self, now_ns: u64) -> (r: Option<&String>)
        ensures
            match r {
                Some(s) => self.shown_status(now_ns) == Some(s@),
                None => self.shown_status(now_ns) is None,
            },
    {
        match &self.status_message {
            Some(m) => if now_ns.saturating_sub(m.1) < STATUS_SHOWN_NS {
                Some(&m.0)
            } else {
                None
            },
            None => None,
        }
    }

    /// What keeps a recording from starting.
    pub open spec fn record_hindrance(self) -> Option<Seq<char>> {
        if self.devices@.len() == 0 {
            Some("Cannot record: no devices registered"@)
        } else if exists|i: int| 0 <= i < self.devices@.len() && !is_available(#[trigger] self.devices@[i]) {
            Some(
                "Cannot record: not connected: "@ + joined(
                    status_names(self.devices@.filter(unavailable())),
                    ", "@,
                ),
            )
        } else {
            None
        }
    }

    /// Whether `after` and `request` stop a recording that is under way, or else start one, unless
    /// something keeps it from starting.
    pub open spec fn is_record_toggle(self, now_ns: u64, after: App, request: Option<UiRequest>) -> bool {
        if is_recording_now(self.recording) {
            after == self && request == Some(UiRequest::StopRecording)
        } else {
            match self.record_hindrance() {
                Some(message) => self.is_told(message, now_ns, after) && request is None,
                None => after == self && request == Some(UiRequest::StartRecording),
            }
        }
    }

    /// Stops a recording that is under way, or else starts one.
    pub fn toggle_recording(&mut self, now_ns: u64) -> (r: Option<UiRequest>)
        ensures
            old(self).is_record_toggle(now_ns, *final(self), r),
    {
        if recording_now(&self.recording) {
            return Some(UiRequest::StopRecording);
        }
        if self.devices.len() == 0 {
            self.set_status(owned("Cannot record: no devices registered"), now_ns);
            return None;
        }
        let missing: Vec<String> = unavailable_names(&self.devices);
        if missing.len() > 0 {
            let mut message: String = owned("Cannot record: not connected: ");
            message.append(join(&missing, ", ").as_str());
            self.set_status(message, now_ns);
            return None;
        }
        Some(UiRequest::StartRecording)
    }

    /// Whether `after`, `event` and `request` are what a key does while devices are shown.
    pub open spec fn is_monitor_key(
        self,
        key: Key,
        now_ns: u64,
        after: App,
        event: AppEvent,
        request: Option<UiRequest>,
    ) -> bool {
        match key {
            Key::Char('q') => event == AppEvent::Quit && after == self && request is None,
            Key::Char('r') => event == AppEvent::Continue && request is None && after == App {
                mode: AppMode::Reorder,
                ..self
            },
            Key::Char('e') | Key::Char('i') => {
                &&& event == AppEvent::Continue
                &&& request is None
                &&& after.input_buffer@ == ""@
                &&& after == App {
                    mode: if key == Key::Char('e') {
                        AppMode::Export
                    } else {
                        AppMode::Import
                    },
                    input_buffer: after.input_buffer,
                    ..self
                }
            },
            Key::Char('R') => event == AppEvent::Continue && self.is_record_toggle(
                now_ns,
                after,
                request,
            ),
            Key::Char('P') => event == AppEvent::Continue && if is_replaying(self.replay_status) {
                after == self && request == Some(UiRequest::StopReplay)
            } else {
                after == App { mode: AppMode::Replay, ..self } && request == Some(
                    UiRequest::ListRecordings,
                )
            },
            Key::Char('s') | Key::Enter => {
                &&& event == AppEvent::Continue
                &&& after == self
                &&& if self.selected < self.devices@.len() {
                    request matches Some(UiRequest::Restart { name }) && name
                        == self.devices@[self.selected as int].name
                } else {
                    request is None
                }
            },
            Key::Up | Key::Char('k') => event == AppEvent::Continue && request is None && after
                == App { selected: one_up(self.selected), ..self },
            Key::Down | Key::Char('j') => event == AppEvent::Continue && request is None && after
                == App { selected: one_down(self.selected, self.devices@.len()), ..self },
            _ => event == AppEvent::Continue && request is None && after == self,
        }
    }

    fn monitor_key(&mut self, key: Key, now_ns: u64) -> (r: (AppEvent, Option<UiRequest>))
        ensures
            old(self).is_monitor_key(key, now_ns, *final(self), r.0, r.1),
    {
        match key {
            Key::Char('q') => (AppEvent::Quit, None),
            Key::Char('r') => {
                self.mode = AppMode::Reorder;
                (AppEvent::Continue, None)
            },
            Key::Char('e') => {
                self.mode = AppMode::Export;
                self.input_buffer = owned("");
                (AppEvent::Continue, None)
            },
            Key::Char('i') => {
                self.mode = AppMode::Import;
                self.input_buffer = owned("");
                (AppEvent::Continue, None)
            },
            Key::Char('R') => (AppEvent::Continue, self.toggle_recording(now_ns)),
            Key::Char('P') => {
                if replaying(&self.replay_status) {
                    (AppEvent::Continue, Some(UiRequest::StopReplay))
                } else {
                    self.mode = AppMode::Replay;
                    (AppEvent::Continue, Some(UiRequest::ListRecordings))
                }
            },
            Key::Char('s') | Key::Enter => {
                if self.selected < self.devices.len() {
                    let name: String = self.devices[self.selected].name.clone();
                    (AppEvent::Continue, Some(UiRequest::Restart { name }))
                } else {
                    (AppEvent::Continue, None)
                }
            },
            Key::Up | Key::Char('k') => {
                if self.selected > 0 {
                    self.selected = self.selected - 1;
                }
                (AppEvent::Continue, None)
            },
            Key::Down | Key::Char('j') => {
                if self.selected < self.devices.len().saturating_sub(1) {
                    self.selected = self.selected + 1;
                }
                (AppEvent::Continue, None)
            },
            _ => (AppEvent::Continue, None),
        }
    }

    /// Whether `after` and `request` are what a key does while devices are put in order.
    pub open spec fn is_reorder_key(self, key: Key, after: App, request: Option<UiRequest>) -> bool {
        match key {
            Key::Esc | Key::Char('q') => after == App { mode: AppMode::Monitor, ..self } && request is None,
            Key::Enter => after == App { mode: AppMode::Monitor, ..self } && request == Some(
                UiRequest::SaveLayout,
            ),
            Key::Up | Key::Char('k') => if self.selected > 0 {
                after == App { selected: one_up(self.selected), ..self } && request == Some(
                    UiRequest::MoveDevice { from: self.selected, to: one_up(self.selected) },
                )
            } else {
                after == self && request is None
            },
            Key::Down | Key::Char('j') => if self.selected + 1 < self.devices@.len() {
                after == App { selected: (self.selected + 1) as usize, ..self } && request == Some(
                    UiRequest::MoveDevice {
                        from: self.selected,
                        to: (self.selected + 1) as usize,
                    },
                )
            } else {
                after == self && request is None
            },
            _ => after == self && request is None,
        }
    }

    fn reorder_key(&mut self, key: Key) -> (r: Option<UiRequest>)
        ensures
            old(self).is_reorder_key(key, *final(self), r),
    {
        match key {
            Key::Esc | Key::Char('q') => {
                self.mode = AppMode::Monitor;
                None
            },
            Key::Enter => {
                self.mode = AppMode::Monitor;
                Some(UiRequest::SaveLayout)
            },
            Key::Up | Key::Char('k') => {
                if self.selected > 0 {
                    let from: usize = self.selected;
                    self.selected = from - 1;
                    return Some(UiRequest::MoveDevice { from, to: from - 1 });
                }
                None
            },
            Key::Down | Key::Char('j') => {
                if self.selected < self.devices.len().saturating_sub(1) {
                    let from: usize = self.selected;
                    self.selected = from + 1;
                    return Some(UiRequest::MoveDevice { from, to: from + 1 });
                }
                None
            },
            _ => None,
        }
    }

    /// Whether `after` and `request` are what a key does while a recording is selected.
    pub open spec fn is_replay_key(self, key: Key, after: App, request: Option<UiRequest>) -> bool {
        match key {
            Key::Esc => after == App { mode: AppMode::Monitor, ..self } && request is None,
            Key::Up | Key::Char('k') => request is None && after == App {
                replay_selected: one_up(self.replay_selected),
                ..self
            },
            Key::Down | Key::Char('j') => request is None && after == App {
                replay_selected: one_down(self.replay_selected, self.replay_recordings@.len()),
                ..self
            },
            Key::Enter => after == self && if self.replay_selected < self.replay_recordings@.len() {
                request matches Some(UiRequest::StartReplay { session_id }) && session_id
                    == self.replay_recordings@[self.replay_selected as int].session_id
            } else {
                request is None
            },
            _ => after == self && request is None,
        }
    }

    fn replay_key(&mut self, key: Key) -> (r: Option<UiRequest>)
        ensures
            old(self).is_replay_key(key, *final(self), r),
    {
        match key {
            Key::Esc => {
                self.mode = AppMode::Monitor;
                None
            },
            Key::Up | Key::Char('k') => {
                if self.replay_selected > 0 {
                    self.replay_selected = self.replay_selected - 1;
                }
                None
            },
            Key::Down | Key::Char('j') => {
                if self.replay_selected < self.replay_recordings.len().saturating_sub(1) {
                    self.replay_selected = self.replay_selected + 1;
                }
                None
            },
            Key::Enter => {
                if self.replay_selected < self.replay_recordings.len() {
                    let session_id: String = self.replay_recordings[self.replay_selected].session_id.clone();
                    return Some(UiRequest::StartReplay { session_id });
                }
                None
            },
            _ => None,
        }
    }

    /// Whether `after` and `request` are what a key does while a path is typed.
    pub open spec fn is_path_key(self, key: Key, after: App, request: Option<UiRequest>) -> bool {
        match key {
            Key::Esc => after == App { mode: AppMode::Monitor, ..self } && request is None,
            Key::Enter => {
                &&& after == App { mode: AppMode::Monitor, ..self }
                &&& if self.input_buffer@.len() == 0 {
                    request is None
                } else if self.mode == AppMode::Export {
                    request matches Some(UiRequest::ExportLayout { path }) && path == self.input_buffer
                } else {
                    request matches Some(UiRequest::ImportLayout { path }) && path == self.input_buffer
                }
            },
            Key::Backspace => {
                &&& request is None
                &&& after.input_buffer@ == (if self.input_buffer@.len() > 0 {
                    self.input_buffer@.drop_last()
                } else {
                    self.input_buffer@
                })
                &&& after == App { input_buffer: after.input_buffer, ..self }
            },
            Key::Char(c) => {
                &&& request is None
                &&& after.input_buffer@ == self.input_buffer@.push(c)
                &&& after == App { input_buffer: after.input_buffer, ..self }
            },
            _ => after == self && request is None,
        }
    }

    fn path_key(&mut self, key: Key) -> (r: Option<UiRequest>)
        ensures
            old(self).is_path_key(key, *final(self), r),
    {
        match key {
            Key::Esc => {
                self.mode = AppMode::Monitor;
                None
            },
            Key::Enter => {
                let path: String = self.input_buffer.clone();
                let export: bool = matches!(self.mode, AppMode::Export);
                self.mode = AppMode::Monitor;
                if path.as_str().unicode_len() == 0 {
                    return None;
                }
                if export {
                    Some(UiRequest::ExportLayout { path })
                } else {
                    Some(UiRequest::ImportLayout { path })
                }
            },
            Key::Backspace => {
                let n: usize = self.input_buffer.as_str().unicode_len();
                if n > 0 {
                    let shorter: String = owned(self.input_buffer.as_str().substring_char(0, n - 1));
                    assert(shorter@ =~= self.input_buffer@.drop_last());
                    self.input_buffer = shorter;
                }
                None
            },
            Key::Char(c) => {
                self.input_buffer.push(c);
                None
            },
            _ => None,
        }
    }

    /// Whether `after`, `event` and `request` are what a key does.
    pub open spec fn is_key_handled(
        self,
        key: Key,
        now_ns: u64,
        after: App,
        event: AppEvent,
        request: Option<UiRequest>,
    ) -> bool {
        match self.mode {
            AppMode::Monitor => self.is_monitor_key(key, now_ns, after, event, request),
            AppMode::Reorder => event == AppEvent::Continue && self.is_reorder_key(key, after, request),
            AppMode::Replay => event == AppEvent::Continue && self.is_replay_key(key, after, request),
            AppMode::Export | AppMode::Import => event == AppEvent::Continue && self.is_path_key(
                key,
                after,
                request,
            ),
        }
    }

    /// Takes a key: tells whether to go on, and what to ask the engine for.
    pub fn handle_key(&mut self, key: Key, now_ns: u64) -> (r: (AppEvent, Option<UiRequest>))
        ensures
            old(self).is_key_handled(key, now_ns, *final(self), r.0, r.1),
    {
        match self.mode {
            AppMode::Monitor => self.monitor_key(key, now_ns),
            AppMode::Reorder => (AppEvent::Continue, self.reorder_key(key)),
            AppMode::Replay => (AppEvent::Continue, self.replay_key(key)),
            AppMode::Export | AppMode::Import => (AppEvent::Continue, self.path_key(key)),
        }
    }

    /// What is shown when the engine has answered, if anything is.
    pub open spec fn answer_text(request: UiRequest, response: Option<EngineResponse>) -> Option<Seq<char>> {
        match request {
            UiRequest::Restart { name } => Some(
                match response {
                    Some(EngineResponse::Done) => name@ + ": restarted"@,
                    Some(EngineResponse::Error(e)) => name@ + ": "@ + e@,
                    _ => name@ + ": engine error"@,
                },
            ),
            UiRequest::StopRecording => Some(
                match response {
                    Some(EngineResponse::Done) => "Recording stopping..."@,
                    Some(EngineResponse::Error(e)) => "Stop error: "@ + e@,
                    _ => "Engine error"@,
                },
            ),
            UiRequest::StartRecording => Some(
                match response {
                    Some(EngineResponse::Done) => "Recording started"@,
                    Some(EngineResponse::Error(e)) => "REC: "@ + e@,
                    _ => "Engine error"@,
                },
            ),
            UiRequest::SaveLayout => Some(
                match response {
                    Some(EngineResponse::Done) => "Layout saved"@,
                    Some(EngineResponse::Error(e)) => "Error: "@ + e@,
                    _ => "Engine error"@,
                },
            ),
            UiRequest::MoveDevice { .. } => None,
            UiRequest::ExportLayout { path } => Some(
                match response {
                    Some(EngineResponse::Done) => "Exported to "@ + path@,
                    Some(EngineResponse::Error(e)) => "Export error: "@ + e@,
                    _ => "Engine error"@,
                },
            ),
            UiRequest::ImportLayout { path } => Some(
                match response {
                    Some(EngineResponse::Done) => "Imported from "@ + path@,
                    Some(EngineResponse::Error(e)) => "Import error: "@ + e@,
                    _ => "Engine error"@,
                },
            ),
            UiRequest::ListRecordings => match response {
                Some(EngineResponse::RecordingsList { .. }) => None,
                Some(EngineResponse::Error(e)) => Some("List recordings: "@ + e@),
                _ => Some("Failed to list recordings"@),
            },
            UiRequest::StartReplay { session_id } => Some(
                match response {
                    Some(EngineResponse::ReplayStarted { .. }) => "Replay started: "@ + session_id@,
                    Some(EngineResponse::Error(e)) => "Replay: "@ + e@,
                    _ => "Replay: engine error"@,
                },
            ),
            UiRequest::StopReplay => Some(
                match response {
                    Some(EngineResponse::Done) => "Replay stopped"@,
                    Some(EngineResponse::Error(e)) => "Stop replay: "@ + e@,
                    _ => "Stop replay: engine error"@,
                },
            ),
        }
    }

    /// Whether `after` is this state once the engine has answered.
    pub open spec fn is_answered(
        self,
        request: UiRequest,
        response: Option<EngineResponse>,
        now_ns: u64,
        after: App,
    ) -> bool {
        &&& match App::answer_text(request, response) {
            Some(text) => after.status_message matches Some(m) && m.0@ == text && m.1 == now_ns,
            None => after.status_message == self.status_message,
        }
        &&& after.mode == (if request is StartReplay && response matches Some(
            EngineResponse::ReplayStarted { .. },
        ) {
            AppMode::Monitor
        } else {
            self.mode
        })
        &&& match (request, response) {
            (UiRequest::ListRecordings, Some(EngineResponse::RecordingsList { recordings, .. })) => {
                after.replay_recordings == recordings && after.replay_selected == 0
            },
            (UiRequest::ListRecordings, _) => {
                after.replay_recordings@ == Seq::<RecordingFileEntry>::empty()
                    && after.replay_selected == self.replay_selected
            },
            _ => after.replay_recordings == self.replay_recordings && after.replay_selected
                == self.replay_selected,
        }
        &&& after == App {
            status_message: after.status_message,
            mode: after.mode,
            replay_recordings: after.replay_recordings,
            replay_selected: after.replay_selected,
            ..self
        }
    }

    /// Takes what the engine answered to a request, if it did.
    pub fn answered(&mut self, request: UiRequest, response: Option<EngineResponse>, now_ns: u64)
        ensures
            old(self).is_answered(request, response, now_ns, *final(self)),
    {
        let text: Option<String> = match request {
            UiRequest::Restart { name } => Some(
                match response {
                    Some(EngineResponse::Done) => text_of_two(name.as_str(), ": restarted"),
                    Some(EngineResponse::Error(e)) => text_of_three(name.as_str(), ": ", e.as_str()),
                    _ => text_of_two(name.as_str(), ": engine error"),
                },
            ),
            UiRequest::StopRecording => Some(
                match response {
                    Some(EngineResponse::Done) => owned("Recording stopping..."),
                    Some(EngineResponse::Error(e)) => text_of_two("Stop error: ", e.as_str()),
                    _ => owned("Engine error"),
                },
            ),
            UiRequest::StartRecording => Some(
                match response {
                    Some(EngineResponse::Done) => owned("Recording started"),
                    Some(EngineResponse::Error(e)) => text_of_two("REC: ", e.as_str()),
                    _ => owned("Engine error"),
                },
            ),
            UiRequest::SaveLayout => Some(
                match response {
                    Some(EngineResponse::Done) => owned("Layout saved"),
                    Some(EngineResponse::Error(e)) => text_of_two("Error: ", e.as_str()),
                    _ => owned("Engine error"),
                },
            ),
            UiRequest::MoveDevice { .. } => None,
            UiRequest::ExportLayout { path } => Some(
                match response {
                    Some(EngineResponse::Done) => text_of_two("Exported to ", path.as_str()),
                    Some(EngineResponse::Error(e)) => text_of_two("Export error: ", e.as_str()),
                    _ => owned("Engine error"),
                },
            ),
            UiRequest::ImportLayout { path } => Some(
                match response {
                    Some(EngineResponse::Done) => text_of_two("Imported from ", path.as_str()),
                    Some(EngineResponse::Error(e)) => text_of_two("Import error: ", e.as_str()),
                    _ => owned("Engine error"),
                },
            ),
            UiRequest::ListRecordings => match response {
                Some(EngineResponse::RecordingsList { recordings, .. }) => {
                    self.replay_recordings = recordings;
                    self.replay_selected = 0;
                    None
                },
                Some(EngineResponse::Error(e)) => {
                    self.replay_recordings = Vec::new();
                    Some(text_of_two("List recordings: ", e.as_str()))
                },
                _ => {
                    self.replay_recordings = Vec::new();
                    Some(owned("Failed to list recordings"))
                },
            },
            UiRequest::StartReplay { session_id } => Some(
                match response {
                    Some(EngineResponse::ReplayStarted { .. }) => {
                        self.mode = AppMode::Monitor;
                        text_of_two("Replay started: ", session_id.as_str())
                    },
                    Some(EngineResponse::Error(e)) => text_of_two("Replay: ", e.as_str()),
                    _ => owned("Replay: engine error"),
                },
            ),
            UiRequest::StopReplay => Some(
                match response {
                    Some(EngineResponse::Done) => owned("Replay stopped"),
                    Some(EngineResponse::Error(e)) => text_of_two("Stop replay: ", e.as_str()),
                    _ => owned("Stop replay: engine error"),
                },
            ),
        };
        if let Some(text) = text {
            self.set_status(text, now_ns);
        }
    }
}

fn text_of_two(a: &str, b: &str) -> (r: String)
    ensures
        r@ == a@ + b@,
{
    let mut s: String = owned(a);
    s.append(b);
    s
}

fn text_of_three(a: &str, b: &str, c: &str) -> (r: String)
    ensures
        r@ == a@ + b@ + c@,
{
    let mut s: String = text_of_two(a, b);
    s.append(c);
    s
}

/// Whether what is selected is there, or nothing is and the first place is selected.
pub open spec fn is_in_range(selected: usize, len: nat) -> bool {
    selected < len || selected == 0
}

/// No key selects what is not there.
pub proof fn keys_keep_the_selection_in_range(
    app: App,
    key: Key,
    now_ns: u64,
    after: App,
    event: AppEvent,
    request: Option<UiRequest>,
)
    requires
        app.is_key_handled(key, now_ns, after, event, request),
        is_in_range(app.selected, app.devices@.len()),
        is_in_range(app.replay_selected, app.replay_recordings@.len()),
    ensures
        is_in_range(after.selected, after.devices@.len()),
        is_in_range(after.replay_selected, after.replay_recordings@.len()),
{
}

/// Only `q`, and only while devices are shown, ends the interface.
pub proof fn only_one_key_quits(
    app: App,
    key: Key,
    now_ns: u64,
    after: App,
    event: AppEvent,
    request: Option<UiRequest>,
)
    requires
        app.is_key_handled(key, now_ns, after, event, request),
    ensures
        event == AppEvent::Quit <==> app.mode == AppMode::Monitor && key == Key::Char('q'),
{
}

/// What keys ask the engine to move is there: both places are places of devices.
pub proof fn moves_stay_among_the_devices(
    app: App,
    key: Key,
    now_ns: u64,
    after: App,
    event: AppEvent,
    request: Option<UiRequest>,
)
    requires
        app.is_key_handled(key, now_ns, after, event, request),
        is_in_range(app.selected, app.devices@.len()),
        app.devices@.len() > 0,
    ensures
        request matches Some(UiRequest::MoveDevice { from, to }) ==> from < app.devices@.len() && to
            < app.devices@.len() && after.selected == to && (to == from + 1 || from == to + 1),
{
    assert(app.devices.len() == app.devices@.len());
}

/// A recording is only asked for where every device is available.
pub proof fn recordings_wait_for_all_devices(
    app: App,
    key: Key,
    now_ns: u64,
    after: App,
    event: AppEvent,
    request: Option<UiRequest>,
)
    requires
        app.is_key_handled(key, now_ns, after, event, request),
        request matches Some(UiRequest::StartRecording),
    ensures
        app.devices@.len() > 0,
        forall|i: int| 0 <= i < app.devices@.len() ==> is_available(#[trigger] app.devices@[i]),
        !is_recording_now(app.recording),
{
}

/// What is typed and taken back again leaves the path as it was.
pub proof fn backspace_takes_back_a_character(
    app: App,
    c: char,
    typed: App,
    first: Option<UiRequest>,
    after: App,
    second: Option<UiRequest>,
)
    requires
        app.is_path_key(Key::Char(c), typed, first),
        typed.is_path_key(Key::Backspace, after, second),
    ensures
        after.input_buffer@ == app.input_buffer@,
        after == (App { input_buffer: after.input_buffer, ..app }),
{
    assert(app.input_buffer@.push(c).drop_last() =~= app.input_buffer@);
}

// ── What keys and answers do ────────────────────────────────────────

/// Each request asks the engine for what it is named after, with all that it holds; recordings are
/// asked for with the latest first, and replays at normal speed.
pub proof fn requests_become_commands(request: UiRequest, cmd: EngineCommand)
    requires
        request.is_asked_by(cmd),
    ensures
        match request {
            UiRequest::Restart { name } => cmd is RestartDevice && cmd->RestartDevice_name@ == name@,
            UiRequest::StopRecording => cmd is StopRecording && cmd->StopRecording_session_id is None,
            UiRequest::StartRecording => cmd is StartRecording && cmd->StartRecording_session_id is None
                && cmd->StartRecording_devices is None && cmd->StartRecording_output_dir is None,
            UiRequest::SaveLayout => cmd is SaveLayout,
            UiRequest::MoveDevice { from, to } => cmd is MoveDevice && cmd->MoveDevice_from == from
                && cmd->MoveDevice_to == to,
            UiRequest::ExportLayout { path } => cmd is ExportLayout && cmd->ExportLayout_path@ == path@,
            UiRequest::ImportLayout { path } => cmd is ImportLayout && cmd->ImportLayout_path@ == path@,
            UiRequest::ListRecordings => cmd is ListRecordings && cmd->ListRecordings_sort is Some
                && cmd->ListRecordings_sort->0@ == "created_at"@ && cmd->ListRecordings_order is Some
                && cmd->ListRecordings_order->0@ == "desc"@,
            UiRequest::StartReplay { session_id } => cmd is StartReplay && cmd->StartReplay_session_id@
                == session_id@ && cmd->StartReplay_speed_bits == Some(0x3ff0_0000_0000_0000u64),
            UiRequest::StopReplay => cmd is StopReplay,
        },
{
}

/// A message is shown for five seconds.
pub proof fn messages_are_shown_for_five_seconds(app: App, now_ns: u64)
    ensures
        app.status_message is None ==> app.shown_status(now_ns) is None,
        app.status_message matches Some(m) ==> (m.1 <= now_ns ==> {
            &&& now_ns - m.1 < 5 * 1000 * 1000 * 1000 ==> app.shown_status(now_ns) == Some(m.0@)
            &&& now_ns - m.1 >= 5 * 1000 * 1000 * 1000 ==> app.shown_status(now_ns) is None
        }),
        STATUS_EVERY_NS == 100 * 1000 * 1000,
        LOGS_EVERY_NS == 1000 * 1000 * 1000,
        MAX_LOG_LINES == 20,
{
}

/// A recording is under way in the states in which it starts and records, and a replay in those in
/// which it starts and runs.
pub proof fn recordings_and_replays_under_way_are_known(
    recording: Option<RecordingInfo>,
    status: Option<ReplayStatusInfo>,
)
    ensures
        is_recording_now(recording) <==> recording is Some && (recording->0.state@ == "recording"@
            || recording->0.state@ == "starting"@),
        is_replaying(status) <==> status is Some && (match status->0.state {
            ReplayState::Starting => true,
            ReplayState::Running => true,
            ReplayState::Idle => false,
            ReplayState::Stopping => false,
            ReplayState::Completed => false,
            ReplayState::Error => false,
        }),
{
}

/// The selection moves by one place and stops at either end.
pub proof fn selections_move_by_one(selected: usize, len: nat)
    requires
        len <= usize::MAX,
    ensures
        selected > 0 ==> one_up(selected) == selected - 1,
        one_up(0) == 0,
        selected + 1 < len ==> one_down(selected, len) == selected + 1,
        selected + 1 >= len ==> one_down(selected, len) == selected,
{
}

/// What keeps a recording from starting is told: that there are no devices, or which of them are not
/// connected. Nothing does where all can be used.
pub proof fn hindrances_are_explained(app: App, i: int)
    ensures
        app.devices@.len() == 0 ==> app.record_hindrance() == Some(
            "Cannot record: no devices registered"@,
        ),
        0 <= i < app.devices@.len() && !is_available(app.devices@[i]) ==> app.record_hindrance() == Some(
            "Cannot record: not connected: "@ + joined(
                status_names(app.devices@.filter(|d: DeviceStatus| !is_available(d))),
                ", "@,
            ),
        ),
        app.devices@.len() > 0 && (forall|k: int|
            0 <= k < app.devices@.len() ==> is_available(#[trigger] app.devices@[k]))
            ==> app.record_hindrance() is None,
{
    assert(unavailable() =~= (|d: DeviceStatus| !is_available(d)));
}

/// The key for recordings stops the one that is under way; else it starts one where nothing keeps it
/// from starting, and tells what does.
pub proof fn the_recording_key_toggles(
    app: App,
    now_ns: u64,
    after: App,
    event: AppEvent,
    request: Option<UiRequest>,
)
    requires
        app.mode == AppMode::Monitor,
        app.is_key_handled(Key::Char('R'), now_ns, after, event, request),
    ensures
        event == AppEvent::Continue,
        is_recording_now(app.recording) ==> request == Some(UiRequest::StopRecording) && after == app,
        !is_recording_now(app.recording) && app.record_hindrance() is None ==> request == Some(
            UiRequest::StartRecording,
        ) && after == app,
        !is_recording_now(app.recording) && app.record_hindrance() is Some ==> request is None && (
        after.status_message matches Some(m) && Some(m.0@) == app.record_hindrance()) && after.mode
            == app.mode && after.selected == app.selected,
{
}

/// While devices are shown, keys change the mode, restart the selected device, move the selection, or
/// see to the replay.
pub proof fn keys_while_devices_are_shown(
    app: App,
    key: Key,
    now_ns: u64,
    after: App,
    event: AppEvent,
    request: Option<UiRequest>,
)
    requires
        app.mode == AppMode::Monitor,
        app.is_key_handled(key, now_ns, after, event, request),
    ensures
        key == Key::Char('r') ==> after.mode == AppMode::Reorder && request is None,
        key == Key::Char('e') ==> after.mode == AppMode::Export && after.input_buffer@ == ""@ && request
            is None,
        key == Key::Char('i') ==> after.mode == AppMode::Import && after.input_buffer@ == ""@ && request
            is None,
        key == Key::Char('P') && is_replaying(app.replay_status) ==> request == Some(
            UiRequest::StopReplay,
        ) && after == app,
        key == Key::Char('P') && !is_replaying(app.replay_status) ==> request == Some(
            UiRequest::ListRecordings,
        ) && after.mode == AppMode::Replay,
        (key == Key::Char('s') || key == Key::Enter) && app.selected < app.devices@.len() ==> (request
            matches Some(UiRequest::Restart { name }) && name@
            == app.devices@[app.selected as int].name@) && after == app,
        (key == Key::Char('s') || key == Key::Enter) && app.selected >= app.devices@.len() ==> request
            is None && after == app,
        key == Key::Up || key == Key::Char('k') ==> request is None && after.mode == app.mode
            && after.selected == (if app.selected > 0 {
            app.selected - 1
        } else {
            0
        }),
        key == Key::Down || key == Key::Char('j') ==> request is None && after.mode == app.mode && (
        app.selected + 1 < app.devices@.len() ==> after.selected == app.selected + 1),
        key == Key::Esc || key == Key::Backspace || key == Key::Other || key == Key::Char('x')
            ==> request is None && after == app,
        after.devices == app.devices,
        after.recording == app.recording,
        after.replay_recordings == app.replay_recordings,
{
    assert(app.devices.len() == app.devices@.len());
    assert(app.replay_recordings.len() == app.replay_recordings@.len());
}

/// While devices are put in order, a key moves the selected device by one place, keeps the order or
/// leaves it.
pub proof fn keys_while_devices_are_put_in_order(
    app: App,
    key: Key,
    now_ns: u64,
    after: App,
    event: AppEvent,
    request: Option<UiRequest>,
)
    requires
        app.mode == AppMode::Reorder,
        app.is_key_handled(key, now_ns, after, event, request),
    ensures
        key == Key::Esc || key == Key::Char('q') ==> after.mode == AppMode::Monitor && request is None,
        key == Key::Enter ==> after.mode == AppMode::Monitor && request == Some(UiRequest::SaveLayout),
        (key == Key::Up || key == Key::Char('k')) && app.selected > 0 ==> request == Some(
            UiRequest::MoveDevice { from: app.selected, to: (app.selected - 1) as usize },
        ) && after.selected == app.selected - 1 && after.mode == app.mode,
        (key == Key::Up || key == Key::Char('k')) && app.selected == 0 ==> request is None && after
            == app,
        (key == Key::Down || key == Key::Char('j')) && app.selected + 1 < app.devices@.len() ==> request
            == Some(
            UiRequest::MoveDevice { from: app.selected, to: (app.selected + 1) as usize },
        ) && after.selected == app.selected + 1 && after.mode == app.mode,
        (key == Key::Down || key == Key::Char('j')) && app.selected + 1 >= app.devices@.len()
            ==> request is None && after == app,
        key == Key::Char('R') || key == Key::Other || key == Key::Backspace ==> request is None && after
            == app,
        after.devices == app.devices,
{
    assert(app.devices.len() == app.devices@.len());
    assert(app.replay_recordings.len() == app.replay_recordings@.len());
}

/// While a recording is selected, keys move the selection, replay the selected one, or leave.
pub proof fn keys_while_a_recording_is_selected(
    app: App,
    key: Key,
    now_ns: u64,
    after: App,
    event: AppEvent,
    request: Option<UiRequest>,
)
    requires
        app.mode == AppMode::Replay,
        app.is_key_handled(key, now_ns, after, event, request),
    ensures
        key == Key::Esc ==> after.mode == AppMode::Monitor && request is None,
        key == Key::Enter && app.replay_selected < app.replay_recordings@.len() ==> (request
            matches Some(UiRequest::StartReplay { session_id }) && session_id@
            == app.replay_recordings@[app.replay_selected as int].session_id@) && after == app,
        key == Key::Enter && app.replay_selected >= app.replay_recordings@.len() ==> request is None
            && after == app,
        (key == Key::Up || key == Key::Char('k')) && app.replay_selected > 0 ==> request is None
            && after.replay_selected == app.replay_selected - 1 && after.mode == app.mode,
        (key == Key::Down || key == Key::Char('j')) && app.replay_selected + 1
            < app.replay_recordings@.len() ==> request is None && after.replay_selected
            == app.replay_selected + 1 && after.mode == app.mode,
        (key == Key::Down || key == Key::Char('j')) && app.replay_selected + 1
            >= app.replay_recordings@.len() ==> request is None && after.replay_selected
            == app.replay_selected,
        key == Key::Char('q') || key == Key::Other || key == Key::Backspace ==> request is None && after
            == app,
        after.selected == app.selected,
        after.devices == app.devices,
{
    assert(app.devices.len() == app.devices@.len());
    assert(app.replay_recordings.len() == app.replay_recordings@.len());
}

/// While a path is typed, characters are added and taken back; the path is used once it is
/// confirmed, unless it is empty.
pub proof fn keys_while_a_path_is_typed(
    app: App,
    key: Key,
    now_ns: u64,
    after: App,
    event: AppEvent,
    request: Option<UiRequest>,
    c: char,
)
    requires
        app.mode == AppMode::Export || app.mode == AppMode::Import,
        app.is_key_handled(key, now_ns, after, event, request),
    ensures
        key == Key::Esc ==> after.mode == AppMode::Monitor && request is None,
        key == Key::Char(c) ==> request is None && after.mode == app.mode && after.input_buffer@
            == app.input_buffer@.push(c),
        key == Key::Backspace && app.input_buffer@.len() > 0 ==> request is None && after.mode
            == app.mode && after.input_buffer@ == app.input_buffer@.drop_last(),
        key == Key::Backspace && app.input_buffer@.len() == 0 ==> after.input_buffer@
            == app.input_buffer@,
        key == Key::Enter ==> after.mode == AppMode::Monitor,
        key == Key::Enter && app.input_buffer@.len() == 0 ==> request is None,
        key == Key::Enter && app.input_buffer@.len() > 0 && app.mode == AppMode::Export ==> (request
            matches Some(UiRequest::ExportLayout { path }) && path@ == app.input_buffer@),
        key == Key::Enter && app.input_buffer@.len() > 0 && app.mode == AppMode::Import ==> (request
            matches Some(UiRequest::ImportLayout { path }) && path@ == app.input_buffer@),
        key == Key::Up || key == Key::Down || key == Key::Other ==> request is None && after == app,
        after.selected == app.selected,
        after.devices == app.devices,
{
}

/// What was done is told, and what went wrong in the engine's words.
pub proof fn answers_are_told(e: String, name: String)
    ensures
        ({
            let done = Some(EngineResponse::Done);
            let error = Some(EngineResponse::Error(e));
            let restart = UiRequest::Restart { name };
            let export = UiRequest::ExportLayout { path: name };
            let import = UiRequest::ImportLayout { path: name };
            let replay = UiRequest::StartReplay { session_id: name };
            &&& App::answer_text(restart, done) == Some(name@ + ": restarted"@)
            &&& App::answer_text(restart, error) == Some(name@ + ": "@ + e@)
            &&& App::answer_text(restart, None) == Some(name@ + ": engine error"@)
            &&& App::answer_text(UiRequest::StopRecording, done) == Some("Recording stopping..."@)
            &&& App::answer_text(UiRequest::StopRecording, error) == Some("Stop error: "@ + e@)
            &&& App::answer_text(UiRequest::StopRecording, None) == Some("Engine error"@)
            &&& App::answer_text(UiRequest::StartRecording, done) == Some("Recording started"@)
            &&& App::answer_text(UiRequest::StartRecording, error) == Some("REC: "@ + e@)
            &&& App::answer_text(UiRequest::StartRecording, None) == Some("Engine error"@)
            &&& App::answer_text(UiRequest::SaveLayout, done) == Some("Layout saved"@)
            &&& App::answer_text(UiRequest::SaveLayout, error) == Some("Error: "@ + e@)
            &&& App::answer_text(UiRequest::SaveLayout, None) == Some("Engine error"@)
            &&& App::answer_text(export, done) == Some("Exported to "@ + name@)
            &&& App::answer_text(export, error) == Some("Export error: "@ + e@)
            &&& App::answer_text(export, None) == Some("Engine error"@)
            &&& App::answer_text(import, done) == Some("Imported from "@ + name@)
            &&& App::answer_text(import, error) == Some("Import error: "@ + e@)
            &&& App::answer_text(import, None) == Some("Engine error"@)
            &&& App::answer_text(UiRequest::ListRecordings, error) == Some(
                "List recordings: "@ + e@,
            )
            &&& App::answer_text(UiRequest::ListRecordings, None) == Some(
                "Failed to list recordings"@,
            )
            &&& App::answer_text(replay, error) == Some("Replay: "@ + e@)
            &&& App::answer_text(replay, None) == Some("Replay: engine error"@)
            &&& App::answer_text(UiRequest::StopReplay, done) == Some("Replay stopped"@)
            &&& App::answer_text(UiRequest::StopReplay, error) == Some("Stop replay: "@ + e@)
            &&& App::answer_text(UiRequest::StopReplay, None) == Some("Stop replay: engine error"@)
        }),
{
}

/// An answered request shows its message from now on; a list of recordings is taken over with its
/// first selected, and a replay that started brings back the devices. Nothing else changes.
pub proof fn answers_are_taken_over(
    app: App,
    request: UiRequest,
    response: Option<EngineResponse>,
    now_ns: u64,
    after: App,
)
    requires
        app.is_answered(request, response, now_ns, after),
    ensures
        App::answer_text(request, response) matches Some(text) ==> (after.status_message matches Some(m)
            && m.0@ == text && m.1 == now_ns),
        request is MoveDevice ==> after == app,
        request is ListRecordings ==> (response matches Some(
            EngineResponse::RecordingsList { recordings, .. },
        ) ==> after.replay_recordings@ == recordings@ && after.replay_selected == 0
            && after.status_message == app.status_message),
        request is ListRecordings && response is None ==> after.replay_recordings@.len() == 0,
        !(request is ListRecordings) ==> after.replay_recordings == app.replay_recordings
            && after.replay_selected == app.replay_selected,
        request is StartReplay ==> (response matches Some(EngineResponse::ReplayStarted { .. })
            ==> after.mode == AppMode::Monitor),
        !(request is StartReplay) || response is None ==> after.mode == app.mode,
        request matches UiRequest::StartReplay { session_id } ==> (response matches Some(
            EngineResponse::ReplayStarted { .. },
        ) ==> App::answer_text(request, response) == Some("Replay started: "@ + session_id@)),
        after.devices == app.devices,
        after.selected == app.selected,
        after.input_buffer == app.input_buffer,
{
}

/// The statuses are asked for ten times a second, and the logs read once.
pub proof fn the_interface_is_kept_up_to_date(now_ns: u64, last_ns: u64, status: bool, logs: bool)
    requires
        call_ensures(status_due, (now_ns, last_ns), status),
        call_ensures(logs_due, (now_ns, last_ns), logs),
        last_ns <= now_ns,
    ensures
        status <==> now_ns - last_ns >= 100 * 1000 * 1000,
        logs <==> now_ns - last_ns >= 1000 * 1000 * 1000,
{
}

/// Everything is asked for anew where devices were put in another order, and the replay where it was
/// stopped.
pub proof fn requests_ask_anew(request: &UiRequest, response: EngineResponse, r: Refresh)
    requires
        call_ensures(UiRequest::refresh, (request, Some(&response)), r),
    ensures
        *request is MoveDevice ==> r == Refresh::Everything,
        *request is ImportLayout && response is Done ==> r == Refresh::Everything,
        *request is ImportLayout && !(response is Done) ==> r == Refresh::Nothing,
        *request is StopReplay ==> r == Refresh::Replay,
        !(*request is MoveDevice) && !(*request is ImportLayout) && !(*request is StopReplay) ==> r
            == Refresh::Nothing,
{
}

/// The interface shows the last state that the engine told, and keeps what the user chose; without an
/// answer it shows what it showed before.
pub proof fn the_last_state_is_shown(app: &mut App, status: Option<EngineStatus>)
    requires
        call_ensures(App::refresh_status, (app, status), ()),
    ensures
        status is None ==> *final(app) == *old(app),
        status matches Some(s) ==> final(app).devices == s.devices && final(app).current_mask
            == s.current_mask && final(app).sequence == s.sequence && final(app).recording
            == s.recording && final(app).mask_enabled == s.mask_enabled && final(app).measured
            == s.measured,
        final(app).mode == old(app).mode,
        final(app).status_message == old(app).status_message,
{
}

/// A recording under way is stopped. Else one is started where nothing hinders it, and the hindrance
/// is told where something does.
pub proof fn recordings_are_stopped_or_started(app: &mut App, now_ns: u64, r: Option<UiRequest>)
    requires
        call_ensures(App::toggle_recording, (app, now_ns), r),
    ensures
        is_recording_now(old(app).recording) ==> r == Some(UiRequest::StopRecording),
        !is_recording_now(old(app).recording) && old(app).devices@.len() == 0 ==> r is None && (final(app).status_message matches Some(m) && m.0@ == "Cannot record: no devices registered"@ && m.1
            == now_ns),
        !is_recording_now(old(app).recording) && old(app).record_hindrance() is None ==> r == Some(
            UiRequest::StartRecording,
        ),
        !is_recording_now(old(app).recording) && old(app).record_hindrance() is Some ==> r is None
            && final(app).status_message is Some,
        final(app).devices == old(app).devices,
{
}

} // verus!
