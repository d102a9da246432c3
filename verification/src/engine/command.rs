//! What the engine is asked, and what it answers.

use vstd::prelude::*;
use crate::name_map::NameMap;
use crate::registry::{DeviceEntry, Registry};

verus! {

/// A recorded file.
#[derive(Debug)]
pub struct RecordingFileEntry {
    pub session_id: String,
    pub filename: String,
    pub size_bytes: u64,
    /// When the file was made, as RFC 3339; empty where that is not known.
    pub created_at: String,
    /// Time between the first and the last message, where it is not zero.
    pub duration_ns: Option<u64>,
    /// Number of messages, where it is not zero.
    pub message_count: Option<u64>,
    /// Whether the file is being recorded or replayed, and cannot be deleted.
    pub is_locked: bool,
}

impl Clone for RecordingFileEntry {
    fn clone(&self) -> (r: Self)
        ensures
            r == *self,
    {
        RecordingFileEntry {
            session_id: self.session_id.clone(),
            filename: self.filename.clone(),
            size_bytes: self.size_bytes,
            created_at: self.created_at.clone(),
            duration_ns: self.duration_ns,
            message_count: self.message_count,
            is_locked: self.is_locked,
        }
    }
}

/// A recording of a batch that was not deleted.
#[derive(Debug)]
pub struct BatchDeleteFailure {
    pub session_id: String,
    pub error: String,
}

impl Clone for BatchDeleteFailure {
    fn clone(&self) -> (r: Self)
        ensures
            r == *self,
    {
        BatchDeleteFailure { session_id: self.session_id.clone(), error: self.error.clone() }
    }
}

/// Where a replay stands.
#[derive(Debug, Clone, Copy, PartialEq, Eq, Structural)]
pub enum ReplayState {
    Idle,
    Starting,
    Running,
    Stopping,
    Completed,
    Error,
}

/// A share of a whole: `part` of `whole`.
#[derive(Debug, Clone, Copy, PartialEq, Eq, Structural)]
pub struct Share {
    pub part: u64,
    pub whole: u64,
}

/// A replay as it stands.
#[derive(Debug)]
pub struct ReplayStatusInfo {
    pub active: bool,
    pub state: ReplayState,
    pub session_id: Option<String>,
    pub progress: Share,
    pub elapsed_ns: u64,
    pub total_ns: u64,
    /// The speed, as the bits of a double.
    pub speed_bits: u64,
    pub error: Option<String>,
}

impl Clone for ReplayStatusInfo {
    fn clone(&self) -> (r: Self)
        ensures
            r == *self,
    {
        ReplayStatusInfo {
            active: self.active,
            state: self.state,
            session_id: self.session_id.clone(),
            progress: self.progress,
            elapsed_ns: self.elapsed_ns,
            total_ns: self.total_ns,
            speed_bits: self.speed_bits,
            error: self.error.clone(),
        }
    }
}

/// A device as it stands.
#[derive(Debug)]
pub struct DeviceStatus {
    pub name: String,
    pub bit_index: usize,
    pub discovered: bool,
    pub process_running: bool,
    pub pid: Option<u32>,
    pub backend: String,
    pub heartbeat_ok: Option<bool>,
    pub last_heartbeat_age_ms: Option<u64>,
    pub state_reason: Option<String>,
    pub address: Option<String>,
}

impl Clone for DeviceStatus {
    fn clone(&self) -> (r: Self)
        ensures
            r == *self,
    {
        DeviceStatus {
            name: self.name.clone(),
            bit_index: self.bit_index,
            discovered: self.discovered,
            process_running: self.process_running,
            pid: self.pid,
            backend: self.backend.clone(),
            heartbeat_ok: self.heartbeat_ok,
            last_heartbeat_age_ms: self.last_heartbeat_age_ms,
            state_reason: self.state_reason.clone(),
            address: self.address.clone(),
        }
    }
}

/// Copies the status of all devices.
pub fn clone_devices(devices: &Vec<DeviceStatus>) -> (r: Vec<DeviceStatus>)
    ensures
        r@ == devices@,
{
    let n: usize = devices.len();
    let mut out: Vec<DeviceStatus> = Vec::new();
    let mut i: usize = 0;
    while i < n
        invariant
            n == devices@.len(),
            i <= n,
            out@ == devices@.take(i as int),
        decreases n - i,
    {
        out.push(devices[i].clone());
        assert(out@ =~= devices@.take(i as int + 1));
        i = i + 1;
    }
    assert(devices@.take(n as int) =~= devices@);
    out
}

/// The whole engine as it stands.
#[derive(Debug, Clone)]
pub struct EngineStatus {
    pub devices: Vec<DeviceStatus>,
    pub current_mask: u64,
    pub mask_hex: String,
    pub sequence: u64,
    /// How many masks were published in how many nanoseconds.
    pub measured: Share,
    pub mask_enabled: bool,
    pub recording: Option<RecordingInfo>,
}

/// A recording as it stands.
#[derive(Debug, Clone)]
pub struct RecordingInfo {
    pub session_id: String,
    pub state: String,
    pub devices: NameMap<String>,
    pub output_dir: String,
    pub elapsed_ns: u64,
    pub mcap_message_count: Option<u64>,
    pub mcap_file: Option<String>,
}

/// What the engine can be asked.
#[allow(inconsistent_fields)]
pub enum EngineCommand {
    GetStatus,
    GetDevices,
    GetDevice { name: String },
    RestartDevice { name: String },
    StopDevice { name: String },
    StartDevice { name: String },
    GetRegistry,
    AddDevice { entry: DeviceEntry },
    RemoveDevice { name: String },
    GetMask,
    StartRecording {
        session_id: Option<String>,
        devices: Option<Vec<String>>,
        output_dir: Option<String>,
    },
    StopRecording { session_id: Option<String> },
    GetRecordingStatus,
    MoveDevice { from: usize, to: usize },
    SaveLayout,
    ExportLayout { path: String },
    ImportLayout { path: String },
    ListRecordings { sort: Option<String>, order: Option<String> },
    DeleteRecording { session_id: String },
    DeleteRecordingsBatch { session_ids: Vec<String> },
    /// The speed is given as the bits of a double.
    StartReplay { session_id: String, speed_bits: Option<u64> },
    StopReplay,
    GetReplayStatus,
    Shutdown,
}

/// What the engine answers.
pub enum EngineResponse {
    Status(EngineStatus),
    Devices(Vec<DeviceStatus>),
    Device(Option<DeviceStatus>),
    Registry(Registry),
    Mask { value: u64, hex: String, layout: Vec<String> },
    RecordingStatus(Option<RecordingInfo>),
    RecordingsList {
        recordings: Vec<RecordingFileEntry>,
        total_size_bytes: u64,
        disk_free_bytes: u64,
    },
    Deleted(String),
    BatchDeleteResult { deleted: Vec<String>, failed: Vec<BatchDeleteFailure> },
    ReplayStarted { session_id: String, total_ns: u64, message_count: u64 },
    ReplayStatus(ReplayStatusInfo),
    Done,
    /// An error with an HTTP status.
    ErrorWithStatus { status: u16, message: String },
    Error(String),
}

/// Whether a response is the given error.
pub open spec fn is_error(r: EngineResponse, message: Seq<char>) -> bool {
    r matches EngineResponse::Error(e) && e@ == message
}

/// Whether a response is the given error with the given HTTP status.
pub open spec fn is_error_with(r: EngineResponse, code: u16, text: Seq<char>) -> bool {
    r matches EngineResponse::ErrorWithStatus { status, message } && status == code && message@
        == text
}

/// Errors hold their message, and some an HTTP status with it.
pub proof fn errors_hold_their_message(e: String, status: u16, text: Seq<char>)
    ensures
        is_error(EngineResponse::Error(e), e@),
        is_error(EngineResponse::Error(e), text) ==> e@ == text,
        is_error_with(EngineResponse::ErrorWithStatus { status, message: e }, status, e@),
        !is_error(EngineResponse::Done, text),
        !is_error_with(EngineResponse::Done, status, text),
        !is_error(EngineResponse::ErrorWithStatus { status, message: e }, text),
        !is_error_with(EngineResponse::Error(e), status, text),
{
}

/// A response with a status is the error with that status and that text, and no other.
pub proof fn errors_have_one_status(r: EngineResponse, a: u16, b: u16, s: Seq<char>, t: Seq<char>)
    requires
        is_error_with(r, a, s),
        is_error_with(r, b, t),
    ensures
        a == b,
        s == t,
{
}

} // verus!
