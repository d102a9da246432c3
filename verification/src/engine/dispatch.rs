//! What becomes of each command.

use vstd::prelude::*;
use crate::engine::command::{clone_devices, is_error, DeviceStatus, EngineCommand, EngineResponse,
    EngineStatus, RecordingInfo};
use crate::engine::process::{time_since, SpawnRequest, Termination};
use crate::engine::recording::RecordingSession;
use crate::engine::state::{is_named, Engine};
use crate::mask::debug::{hex16, write_hex16};
use crate::mask::layout::{moved, MaskLayout};
use crate::registry::{entry_named, removed_name_is_gone, without_name, DeviceEntry, Registry};
use crate::seqs::{first_where, first_where_finds, lemma_first_is, lemma_first_is_none};
use crate::text::{maybe_text, owned, str_eq, texts};

verus! {

/// What is to be done about the process of a device, in this order, and what to answer then.
pub struct DeviceActions {
    /// A process to end.
    pub end: Option<Termination>,
    /// A process to start, and to tell with `attached` once it has started.
    pub spawn: Option<SpawnRequest>,
    /// Whether the status of all devices is to be brought up to date.
    pub refresh: bool,
    pub answer: EngineResponse,
}

/// What is to be done about a command.
#[allow(inconsistent_fields)]
pub enum Step {
    /// Answer.
    Answer(EngineResponse),
    /// See to a process.
    Device(DeviceActions),
    /// Save the registry.
    SaveRegistry,
    /// Build the status of all devices anew.
    RebuildDevices,
    SaveLayout,
    ExportLayout { path: String },
    ImportLayout { path: String },
    StartRecording {
        session_id: Option<String>,
        devices: Option<Vec<String>>,
        output_dir: Option<String>,
    },
    StopRecording,
    ListRecordings { sort: Option<String>, order: Option<String> },
    DeleteRecording { session_id: String },
    DeleteRecordingsBatch { session_ids: Vec<String> },
    StartReplay { session_id: String, speed_bits: Option<u64> },
    StopReplay,
    /// Answer, and end the engine.
    Shutdown,
}

/// Whether actions only answer an error.
pub open spec fn only_refuses(a: DeviceActions, message: Seq<char>) -> bool {
    a.end is None && a.spawn is None && !a.refresh && is_error(a.answer, message)
}

/// The predicate of devices with a name.
pub open spec fn is_device(name: Seq<char>) -> spec_fn(DeviceStatus) -> bool {
    |d: DeviceStatus| d.name@ == name
}

fn message(name: &str, what: &str) -> (r: String)
    ensures
        r@ == name@ + what@,
{
    let mut m: String = owned(name);
    m.append(what);
    m
}

fn refusal(name: &str, what: &str) -> (r: DeviceActions)
    ensures
        only_refuses(r, name@ + what@),
{
    DeviceActions {
        end: None,
        spawn: None,
        refresh: false,
        answer: EngineResponse::Error(message(name, what)),
    }
}

impl Engine {
    /// The source of a connected device.
    pub open spec fn connected_source(self, name: Seq<char>) -> Option<Seq<char>> {
        match first_where(self.connected_devices.held(), is_named(name)) {
            Some(i) => Some(self.connected_devices.names()[i]),
            None => None,
        }
    }

    /// Whether `actions` and `after` start the process of a device anew: the one that runs ends, and
    /// a new one starts where the device is registered. It is refused where the device is not
    /// connected.
    pub open spec fn is_device_restart(self, name: Seq<char>, after: Engine, actions: DeviceActions) -> bool {
        match self.connected_source(name) {
            None => only_refuses(actions, name + ": not connected"@) && after == self,
            Some(source) => self.is_source_restart(source, name, after, actions),
        }
    }

    /// Whether `actions` and `after` start the process of a source anew.
    pub open spec fn is_source_restart(
        self,
        source: Seq<char>,
        name: Seq<char>,
        after: Engine,
        actions: DeviceActions,
    ) -> bool {
        exists|middle: Engine|
            #![trigger self.is_terminated(source, middle, actions.end)]
            self.is_terminated(source, middle, actions.end) && match entry_named(
                self.registry.devices@,
                name,
            ) {
                Some(i) => {
                    &&& middle.is_attached(
                        source,
                        self.registry.devices@[i],
                        0,
                        after,
                        actions.spawn,
                    )
                    &&& actions.refresh
                    &&& actions.answer is Done
                },
                None => {
                    &&& after == middle
                    &&& actions.spawn is None
                    &&& !actions.refresh
                    &&& is_error(actions.answer, name + ": not in registry"@)
                },
            }
    }

    /// Starts the process of a device anew.
    pub fn cmd_restart_device(&mut self, name: &str) -> (r: DeviceActions)
        ensures
            old(self).is_device_restart(name@, *final(self), r),
    {
        let ghost start = *self;
        let Some(at) = self.find_connected(name) else {
            return refusal(name, ": not connected");
        };
        let source: String = self.connected_devices.name_at(at).clone();
        let end: Option<Termination> = self.terminate_process(source.as_str());
        let ghost middle = *self;
        assert(start.is_terminated(source@, middle, end));
        let entry: Option<DeviceEntry> = match self.registry.find(name) {
            Some(e) => Some(e.clone()),
            None => None,
        };
        match entry {
            Some(e) => {
                let spawn: Option<SpawnRequest> = self.spawn_attach_with_count(source.as_str(), &e, 0);
                let r: DeviceActions = DeviceActions {
                    end,
                    spawn,
                    refresh: true,
                    answer: EngineResponse::Done,
                };
                assert(start.is_source_restart(source@, name@, *self, r)) by {
                    assert(start.is_terminated(source@, middle, r.end));
                }
                r
            },
            None => DeviceActions {
                end,
                spawn: None,
                refresh: false,
                answer: EngineResponse::Error(message(name, ": not in registry")),
            },
        }
    }

    /// Whether `actions` and `after` end the process of a device. It is refused where none runs.
    pub open spec fn is_device_stop(self, name: Seq<char>, after: Engine, actions: DeviceActions) -> bool {
        match self.process_of(name) {
            Some(_) => {
                &&& self.is_terminated(self.source_of(name), after, actions.end)
                &&& actions.spawn is None
                &&& actions.refresh
                &&& actions.answer is Done
            },
            None => only_refuses(actions, name + ": no running process"@) && after == self,
        }
    }

    /// Ends the process of a device.
    pub fn cmd_stop_device(&mut self, name: &str) -> (r: DeviceActions)
        ensures
            old(self).is_device_stop(name@, *final(self), r),
    {
        match self.find_process(name) {
            Some(at) => {
                let source: String = self.running.name_at(at).clone();
                let end: Option<Termination> = self.terminate_process(source.as_str());
                DeviceActions { end, spawn: None, refresh: true, answer: EngineResponse::Done }
            },
            None => refusal(name, ": no running process"),
        }
    }

    /// Whether `actions` and `after` start the process of a device. It is refused where the device
    /// is not connected, runs already, or is not registered.
    pub open spec fn is_device_start(self, name: Seq<char>, after: Engine, actions: DeviceActions) -> bool {
        match self.connected_source(name) {
            None => only_refuses(actions, name + ": not connected"@) && after == self,
            Some(source) => if self.running@.contains_key(source) {
                only_refuses(actions, name + ": already running"@) && after == self
            } else {
                match entry_named(self.registry.devices@, name) {
                    None => only_refuses(actions, name + ": not in registry"@) && after == self,
                    Some(i) => {
                        &&& self.is_attached(
                            source,
                            self.registry.devices@[i],
                            0,
                            after,
                            actions.spawn,
                        )
                        &&& actions.end is None
                        &&& actions.refresh
                        &&& actions.answer is Done
                    },
                }
            },
        }
    }

    /// Starts the process of a device.
    pub fn cmd_start_device(&mut self, name: &str) -> (r: DeviceActions)
        ensures
            old(self).is_device_start(name@, *final(self), r),
    {
        let Some(at) = self.find_connected(name) else {
            return refusal(name, ": not connected");
        };
        let source: String = self.connected_devices.name_at(at).clone();
        if self.running.contains_key(source.as_str()) {
            return refusal(name, ": already running");
        }
        let entry: Option<DeviceEntry> = match self.registry.find(name) {
            Some(e) => Some(e.clone()),
            None => None,
        };
        match entry {
            Some(e) => {
                let spawn: Option<SpawnRequest> = self.spawn_attach_with_count(source.as_str(), &e, 0);
                DeviceActions { end: None, spawn, refresh: true, answer: EngineResponse::Done }
            },
            None => refusal(name, ": not in registry"),
        }
    }

    /// Whether `info` tells of a recording.
    pub open spec fn is_recording_info(self, info: RecordingInfo, session: RecordingSession, now_ns: u64) -> bool {
        &&& info.session_id == session.session_id
        &&& info.state@ == session.state.text()
        &&& info.devices.names() == session.device_states.names()
        &&& forall|k: Seq<char>| #[trigger]
            session.device_states@.contains_key(k) ==> info.devices@.contains_key(k)
                && info.devices@[k]@ == session.device_states@[k].text()
        &&& info.output_dir == session.output_dir
        &&& info.elapsed_ns == time_since(now_ns, session.created_at_ns)
        &&& info.mcap_message_count == (match self.recorder.active {
            Some(file) => Some(file.message_count),
            None => None,
        })
        &&& maybe_text(info.mcap_file) == (match self.recorder.active {
            Some(file) => Some(file.output_path@),
            None => None,
        })
    }

    /// Whether `r` tells of the recording, if there is one.
    pub open spec fn tells_recording(self, r: Option<RecordingInfo>, now_ns: u64) -> bool {
        match self.recording {
            Some(session) => r matches Some(info) && self.is_recording_info(info, session, now_ns),
            None => r is None,
        }
    }

    /// What is known of the recording.
    pub fn build_recording_info(&self, now_ns: u64) -> (r: Option<RecordingInfo>)
        ensures
            self.tells_recording(r, now_ns),
    {
        match &self.recording {
            Some(session) => {
                let (count, file) = match self.recorder.stats(now_ns) {
                    Some(stats) => (Some(stats.message_count), Some(stats.output_path)),
                    None => (None, None),
                };
                Some(
                    RecordingInfo {
                        session_id: session.session_id.clone(),
                        state: owned(session.state.as_str()),
                        devices: session.device_state_strings(),
                        output_dir: session.output_dir.clone(),
                        elapsed_ns: now_ns.saturating_sub(session.created_at_ns),
                        mcap_message_count: count,
                        mcap_file: file,
                    },
                )
            },
            None => None,
        }
    }

    /// Whether `s` tells of the engine.
    pub open spec fn is_engine_status(self, s: EngineStatus, now_ns: u64) -> bool {
        &&& s.devices@ == self.devices@
        &&& s.current_mask == self.current_mask
        &&& s.mask_hex@ == hex16(self.current_mask as nat)
        &&& s.sequence == self.sequence
        &&& s.measured == self.measured
        &&& s.mask_enabled == self.mask_enabled
        &&& self.tells_recording(s.recording, now_ns)
    }

    /// What is known of the engine.
    pub fn build_status(&self, now_ns: u64) -> (r: EngineStatus)
        ensures
            self.is_engine_status(r, now_ns),
    {
        EngineStatus {
            devices: clone_devices(&self.devices),
            current_mask: self.current_mask,
            mask_hex: write_hex16(self.current_mask),
            sequence: self.sequence,
            measured: self.measured,
            mask_enabled: self.mask_enabled,
            recording: self.build_recording_info(now_ns),
        }
    }

    fn find_device(&self, name: &str) -> (r: Option<DeviceStatus>)
        ensures
            match first_where(self.devices@, is_device(name@)) {
                Some(i) => r == Some(self.devices@[i]),
                None => r is None,
            },
    {
        let n: usize = self.devices.len();
        let mut i: usize = 0;
        while i < n
            invariant
                n == self.devices@.len(),
                i <= n,
                forall|k: int| 0 <= k < i ==> !is_device(name@)(#[trigger] self.devices@[k]),
            decreases n - i,
        {
            if str_eq(self.devices[i].name.as_str(), name) {
                proof {
                    lemma_first_is(self.devices@, is_device(name@), i as int);
                }
                return Some(self.devices[i].clone());
            }
            i = i + 1;
        }
        proof {
            lemma_first_is_none(self.devices@, is_device(name@));
        }
        None
    }

    /// Whether `step` and `after` are what becomes of a command.
    pub open spec fn is_handled(self, cmd: EngineCommand, now_ns: u64, after: Engine, step: Step) -> bool {
        match cmd {
            EngineCommand::GetStatus => after == self && (step matches Step::Answer(
                EngineResponse::Status(s),
            ) && self.is_engine_status(s, now_ns)),
            EngineCommand::GetDevices => after == self && (step matches Step::Answer(
                EngineResponse::Devices(d),
            ) && d@ == self.devices@),
            EngineCommand::GetDevice { name } => after == self && (step matches Step::Answer(
                EngineResponse::Device(d),
            ) && d == (match first_where(self.devices@, is_device(name@)) {
                Some(i) => Some(self.devices@[i]),
                None => None,
            })),
            EngineCommand::RestartDevice { name } => step matches Step::Device(actions)
                && self.is_device_restart(name@, after, actions),
            EngineCommand::StopDevice { name } => step matches Step::Device(actions)
                && self.is_device_stop(name@, after, actions),
            EngineCommand::StartDevice { name } => step matches Step::Device(actions)
                && self.is_device_start(name@, after, actions),
            EngineCommand::GetRegistry => after == self && (step matches Step::Answer(
                EngineResponse::Registry(r),
            ) && r.devices@ == self.registry.devices@),
            EngineCommand::AddDevice { entry } => {
                if entry_named(self.registry.devices@, entry.name@) is Some {
                    &&& step matches Step::Answer(answer)
                    &&& is_error(answer, "'"@ + entry.name@ + "' already exists"@)
                    &&& after.registry.devices@ == self.registry.devices@
                    &&& after == Engine { registry: after.registry, ..self }
                } else {
                    &&& step is SaveRegistry
                    &&& after.registry.devices@ == self.registry.devices@.push(entry)
                    &&& after == Engine { registry: after.registry, ..self }
                }
            },
            EngineCommand::RemoveDevice { name } => {
                &&& after.registry.devices@ == without_name(self.registry.devices@, name@)
                &&& after == Engine { registry: after.registry, ..self }
                &&& if entry_named(self.registry.devices@, name@) is None {
                    step matches Step::Answer(answer) && is_error(
                        answer,
                        "'"@ + name@ + "' not found"@,
                    )
                } else {
                    step is SaveRegistry
                }
            },
            EngineCommand::GetMask => after == self && (step matches Step::Answer(
                EngineResponse::Mask { value, hex, layout },
            ) && value == self.current_mask && hex@ == hex16(self.current_mask as nat) && texts(layout@)
                == self.layout.order()),
            EngineCommand::StartRecording { session_id, devices, output_dir } => after == self && step
                == (Step::StartRecording { session_id, devices, output_dir }),
            EngineCommand::StopRecording { session_id: _ } => after == self && step is StopRecording,
            EngineCommand::GetRecordingStatus => after == self && (step matches Step::Answer(
                EngineResponse::RecordingStatus(info),
            ) && self.tells_recording(info, now_ns)),
            EngineCommand::MoveDevice { from, to } => {
                &&& step is RebuildDevices
                &&& after.layout.device_order@ == moved(
                    self.layout.device_order@,
                    from as int,
                    to as int,
                )
                &&& after == Engine { layout: after.layout, ..self }
            },
            EngineCommand::SaveLayout => after == self && step is SaveLayout,
            EngineCommand::ExportLayout { path } => after == self && step == (Step::ExportLayout {
                path,
            }),
            EngineCommand::ImportLayout { path } => after == self && step == (Step::ImportLayout {
                path,
            }),
            EngineCommand::ListRecordings { sort, order } => after == self && step
                == (Step::ListRecordings { sort, order }),
            EngineCommand::DeleteRecording { session_id } => after == self && step
                == (Step::DeleteRecording { session_id }),
            EngineCommand::DeleteRecordingsBatch { session_ids } => after == self && step
                == (Step::DeleteRecordingsBatch { session_ids }),
            EngineCommand::StartReplay { session_id, speed_bits } => after == self && step
                == (Step::StartReplay { session_id, speed_bits }),
            EngineCommand::StopReplay => after == self && step is StopReplay,
            EngineCommand::GetReplayStatus => after == self && (step matches Step::Answer(
                EngineResponse::ReplayStatus(info),
            ) && {
                &&& info.active == self.replay.active()
                &&& info.state == self.replay.state
                &&& maybe_text(info.session_id) == maybe_text(self.replay.session_id)
                &&& info.progress == self.replay.progress
                &&& info.elapsed_ns == self.replay.elapsed_ns
                &&& info.total_ns == self.replay.total_ns
                &&& info.speed_bits == self.replay.speed_bits
                &&& maybe_text(info.error) == maybe_text(self.replay.error)
            }),
            EngineCommand::Shutdown => after == self && step is Shutdown,
        }
    }

    /// Decides about a command.
    pub fn handle_command(&mut self, cmd: EngineCommand, now_ns: u64) -> (r: Step)
        ensures
            old(self).is_handled(cmd, now_ns, *final(self), r),
    {
        match cmd {
            EngineCommand::Shutdown => Step::Shutdown,
            EngineCommand::GetStatus => Step::Answer(
                EngineResponse::Status(self.build_status(now_ns)),
            ),
            EngineCommand::GetDevices => Step::Answer(
                EngineResponse::Devices(clone_devices(&self.devices)),
            ),
            EngineCommand::GetDevice { name } => Step::Answer(
                EngineResponse::Device(self.find_device(name.as_str())),
            ),
            EngineCommand::RestartDevice { name } => Step::Device(
                self.cmd_restart_device(name.as_str()),
            ),
            EngineCommand::StopDevice { name } => Step::Device(self.cmd_stop_device(name.as_str())),
            EngineCommand::StartDevice { name } => Step::Device(self.cmd_start_device(name.as_str())),
            EngineCommand::GetRegistry => Step::Answer(
                EngineResponse::Registry(self.registry.clone()),
            ),
            EngineCommand::AddDevice { entry } => match self.registry.add(entry) {
                Ok(()) => Step::SaveRegistry,
                Err(e) => Step::Answer(EngineResponse::Error(e)),
            },
            EngineCommand::RemoveDevice { name } => match self.registry.remove(name.as_str()) {
                Ok(()) => Step::SaveRegistry,
                Err(e) => Step::Answer(EngineResponse::Error(e)),
            },
            EngineCommand::GetMask => Step::Answer(
                EngineResponse::Mask {
                    value: self.current_mask,
                    hex: write_hex16(self.current_mask),
                    layout: self.layout.clone().device_order,
                },
            ),
            EngineCommand::StartRecording { session_id, devices, output_dir } => Step::StartRecording {
                session_id,
                devices,
                output_dir,
            },
            EngineCommand::StopRecording { session_id: _ } => Step::StopRecording,
            EngineCommand::GetRecordingStatus => Step::Answer(
                EngineResponse::RecordingStatus(self.build_recording_info(now_ns)),
            ),
            EngineCommand::MoveDevice { from, to } => {
                self.layout.move_device(from, to);
                Step::RebuildDevices
            },
            EngineCommand::SaveLayout => Step::SaveLayout,
            EngineCommand::ExportLayout { path } => Step::ExportLayout { path },
            EngineCommand::ImportLayout { path } => Step::ImportLayout { path },
            EngineCommand::ListRecordings { sort, order } => Step::ListRecordings { sort, order },
            EngineCommand::DeleteRecording { session_id } => Step::DeleteRecording { session_id },
            EngineCommand::DeleteRecordingsBatch { session_ids } => Step::DeleteRecordingsBatch {
                session_ids,
            },
            EngineCommand::StartReplay { session_id, speed_bits } => Step::StartReplay {
                session_id,
                speed_bits,
            },
            EngineCommand::StopReplay => Step::StopReplay,
            EngineCommand::GetReplayStatus => Step::Answer(
                EngineResponse::ReplayStatus(self.replay.status()),
            ),
        }
    }

    /// Takes a layout over that was read from a file.
    pub fn import_layout(&mut self, layout: MaskLayout)
        ensures
            *final(self) == (Engine { layout, ..*old(self) }),
    {
        self.layout = layout;
    }
}

/// The answer to something that was tried, with `what` in front of the error.
pub fn answer_to(tried: Result<(), String>, what: &str) -> (r: EngineResponse)
    ensures
        match tried {
            Ok(_) => r is Done,
            Err(e) => is_error(r, what@ + e@),
        },
{
    match tried {
        Ok(()) => EngineResponse::Done,
        Err(e) => {
            let mut text: String = owned(what);
            text.append(e.as_str());
            EngineResponse::Error(text)
        },
    }
}

/// A device that is connected, registered and has a command runs again after a restart: a process
/// starts for it, or its process runs on under its source.
pub proof fn restarted_devices_run(
    engine: Engine,
    name: Seq<char>,
    after: Engine,
    actions: DeviceActions,
)
    requires
        engine.is_device_restart(name, after, actions),
        engine.connected_source(name) is Some,
        entry_named(engine.registry.devices@, name) is Some,
        engine.registry.devices@[entry_named(engine.registry.devices@, name)->0].on_attach@.len() > 0,
    ensures
        actions.answer is Done,
        actions.spawn is Some || after.running@.contains_key(engine.connected_source(name)->0),
        engine.running@.contains_key(engine.connected_source(name)->0) <==> actions.end is Some,
{
}

/// No command makes an engine ill-formed, but one that moves a device, after which the statuses of
/// the devices are built anew.
pub proof fn commands_keep_engines_well_formed(
    engine: Engine,
    cmd: EngineCommand,
    now_ns: u64,
    after: Engine,
    step: Step,
)
    requires
        engine.wf(),
        engine.is_handled(cmd, now_ns, after, step),
    ensures
        after.wf() || (cmd is MoveDevice && step is RebuildDevices && after.recorder.wf()),
{
}

/// A connected device has the first source that carries its name; another has none.
pub proof fn sources_are_those_of_connected_devices(engine: Engine, name: Seq<char>)
    ensures
        engine.connected_source(name) is Some <==> engine.is_connected(name),
        engine.connected_source(name) matches Some(source) ==> exists|i: int|
            0 <= i < engine.connected_devices.held().len() && (
            #[trigger] engine.connected_devices.held()[i])@ == name
                && engine.connected_devices.names()[i] == source && forall|k: int|
                0 <= k < i ==> (#[trigger] engine.connected_devices.held()[k])@ != name,
{
    first_where_finds(engine.connected_devices.held(), is_named(name));
    if let Some(i) = first_where(engine.connected_devices.held(), is_named(name)) {
        assert(engine.connected_devices.held()[i]@ == name);
    }
}

/// A question is answered and changes nothing.
pub proof fn questions_change_nothing(
    engine: Engine,
    cmd: EngineCommand,
    now_ns: u64,
    after: Engine,
    step: Step,
)
    requires
        engine.is_handled(cmd, now_ns, after, step),
        cmd is GetStatus || cmd is GetDevices || cmd is GetDevice || cmd is GetRegistry || cmd
            is GetMask || cmd is GetRecordingStatus || cmd is GetReplayStatus,
    ensures
        after == engine,
        step is Answer,
        cmd is GetDevices ==> (step->Answer_0 matches EngineResponse::Devices(d) && d@
            == engine.devices@),
        cmd is GetRegistry ==> (step->Answer_0 matches EngineResponse::Registry(r) && r.devices@
            == engine.registry.devices@),
        cmd is GetMask ==> (step->Answer_0 matches EngineResponse::Mask { value, hex, layout } && value
            == engine.current_mask && hex@ == hex16(value as nat) && texts(layout@) == texts(
            engine.layout.device_order@,
        )),
        cmd is GetReplayStatus ==> (step->Answer_0 matches EngineResponse::ReplayStatus(i) && i.state
            == engine.replay.state && i.progress == engine.replay.progress && i.elapsed_ns
            == engine.replay.elapsed_ns && i.total_ns == engine.replay.total_ns && i.speed_bits
            == engine.replay.speed_bits && i.active == engine.replay.active() && maybe_text(
            i.session_id,
        ) == maybe_text(engine.replay.session_id) && maybe_text(i.error) == maybe_text(
            engine.replay.error,
        )),
        cmd is GetRecordingStatus ==> (step->Answer_0 matches EngineResponse::RecordingStatus(i) && (i
            is Some <==> engine.recording is Some)),
{
}

/// Asked for a device, the engine answers the first status with that name, or none.
pub proof fn devices_are_answered_by_name(
    engine: Engine,
    name: String,
    now_ns: u64,
    after: Engine,
    step: Step,
    i: int,
)
    requires
        engine.is_handled(EngineCommand::GetDevice { name }, now_ns, after, step),
    ensures
        0 <= i < engine.devices@.len() && engine.devices@[i].name@ == name@ && (forall|k: int|
            0 <= k < i ==> (#[trigger] engine.devices@[k]).name@ != name@) ==> step == Step::Answer(
            EngineResponse::Device(Some(engine.devices@[i])),
        ),
        (forall|k: int|
            0 <= k < engine.devices@.len() ==> (#[trigger] engine.devices@[k]).name@ != name@)
            ==> step == Step::Answer(EngineResponse::Device(None)),
{
    if 0 <= i < engine.devices@.len() && engine.devices@[i].name@ == name@ && (forall|k: int|
        0 <= k < i ==> (#[trigger] engine.devices@[k]).name@ != name@) {
        lemma_first_is(engine.devices@, is_device(name@), i);
    }
    if forall|k: int|
        0 <= k < engine.devices@.len() ==> (#[trigger] engine.devices@[k]).name@ != name@ {
        lemma_first_is_none(engine.devices@, is_device(name@));
    }
}

/// A device that is not connected is neither started nor restarted, and one without a process is not
/// stopped; each time the device is named and nothing changes.
pub proof fn absent_devices_are_refused(
    engine: Engine,
    name: Seq<char>,
    after: Engine,
    actions: DeviceActions,
)
    ensures
        !engine.is_connected(name) && (engine.is_device_start(name, after, actions)
            || engine.is_device_restart(name, after, actions)) ==> after == engine && actions.end is None
            && actions.spawn is None && !actions.refresh && is_error(
            actions.answer,
            name + ": not connected"@,
        ),
        engine.process_of(name) is None && engine.is_device_stop(name, after, actions) ==> after
            == engine && actions.end is None && actions.spawn is None && !actions.refresh && is_error(
            actions.answer,
            name + ": no running process"@,
        ),
{
    sources_are_those_of_connected_devices(engine, name);
}

/// A device with a process is stopped: its process ends, no other starts, and the statuses are
/// brought up to date.
pub proof fn running_devices_are_stopped(
    engine: Engine,
    name: Seq<char>,
    after: Engine,
    actions: DeviceActions,
)
    requires
        engine.is_device_stop(name, after, actions),
        engine.process_of(name) is Some,
        engine.running@.contains_key(engine.source_of(name)),
    ensures
        actions.answer is Done,
        actions.refresh,
        actions.spawn is None,
        actions.end is Some,
        !after.running@.contains_key(engine.source_of(name)),
        after.connected_devices == engine.connected_devices,
        after.registry == engine.registry,
{
}

/// A connected device is started with no restarts behind it, unless it runs already or is not
/// registered, which is told.
pub proof fn connected_devices_are_started(
    engine: Engine,
    name: Seq<char>,
    after: Engine,
    actions: DeviceActions,
)
    requires
        engine.is_device_start(name, after, actions),
        engine.is_connected(name),
    ensures
        actions.end is None,
        ({
            let source = engine.connected_source(name)->0;
            let registered = entry_named(engine.registry.devices@, name) is Some;
            &&& engine.running@.contains_key(source) ==> after == engine && actions.spawn is None
                && !actions.refresh && is_error(actions.answer, name + ": already running"@)
            &&& !engine.running@.contains_key(source) && !registered ==> after == engine
                && actions.spawn is None && !actions.refresh && is_error(
                actions.answer,
                name + ": not in registry"@,
            )
            &&& !engine.running@.contains_key(source) && registered ==> actions.refresh
                && actions.answer is Done
            &&& actions.spawn matches Some(s) ==> s.restart_count == 0 && s.source_id@ == source
        }),
{
    sources_are_those_of_connected_devices(engine, name);
}

/// A restarted device is no longer registered only where that is told; a process that ran is ended
/// either way, and one that starts has no restarts behind it.
pub proof fn restarts_end_the_process_first(
    engine: Engine,
    name: Seq<char>,
    after: Engine,
    actions: DeviceActions,
)
    requires
        engine.is_device_restart(name, after, actions),
        engine.is_connected(name),
    ensures
        ({
            let source = engine.connected_source(name)->0;
            let registered = entry_named(engine.registry.devices@, name) is Some;
            &&& engine.running@.contains_key(source) <==> actions.end is Some
            &&& registered <==> actions.answer is Done
            &&& registered <==> actions.refresh
            &&& !registered ==> actions.spawn is None && is_error(
                actions.answer,
                name + ": not in registry"@,
            )
            &&& actions.spawn matches Some(s) ==> s.restart_count == 0 && s.source_id@ == source
        }),
{
    sources_are_those_of_connected_devices(engine, name);
}

/// A new device is added behind the others and the registry is saved; one of a name that is taken is
/// refused, and the registry stays.
pub proof fn devices_are_added_once(
    engine: Engine,
    entry: DeviceEntry,
    now_ns: u64,
    after: Engine,
    step: Step,
)
    requires
        engine.is_handled(EngineCommand::AddDevice { entry }, now_ns, after, step),
    ensures
        entry_named(engine.registry.devices@, entry.name@) is None ==> step is SaveRegistry
            && after.registry.devices@ == engine.registry.devices@.push(entry),
        entry_named(engine.registry.devices@, entry.name@) is Some ==> after.registry.devices@
            == engine.registry.devices@ && (step matches Step::Answer(a) && is_error(
            a,
            "'"@ + entry.name@ + "' already exists"@,
        )),
        after.devices == engine.devices,
        after.running == engine.running,
        after.layout == engine.layout,
{
}

/// A removed device is gone from the registry, which is saved; the removal of an unknown one is
/// refused.
pub proof fn devices_are_removed(
    engine: Engine,
    name: String,
    now_ns: u64,
    after: Engine,
    step: Step,
)
    requires
        engine.is_handled(EngineCommand::RemoveDevice { name }, now_ns, after, step),
    ensures
        entry_named(after.registry.devices@, name@) is None,
        entry_named(engine.registry.devices@, name@) is Some ==> step is SaveRegistry,
        entry_named(engine.registry.devices@, name@) is None ==> (step matches Step::Answer(a)
            && is_error(a, "'"@ + name@ + "' not found"@)),
        after.devices == engine.devices,
        after.running == engine.running,
        after.layout == engine.layout,
{
    removed_name_is_gone(engine.registry.devices@, name@);
}

/// A moved device changes nothing but the layout, and all statuses are built anew.
pub proof fn moves_rebuild_the_devices(
    engine: Engine,
    from: usize,
    to: usize,
    now_ns: u64,
    after: Engine,
    step: Step,
)
    requires
        engine.is_handled(EngineCommand::MoveDevice { from, to }, now_ns, after, step),
    ensures
        step is RebuildDevices,
        after.layout.device_order@ == moved(engine.layout.device_order@, from as int, to as int),
        after.registry == engine.registry,
        after.running == engine.running,
        after.devices == engine.devices,
{
}

/// What is asked of files, recordings and replays is handed on as it was asked, and changes nothing
/// by itself.
pub proof fn requests_are_handed_on(
    engine: Engine,
    cmd: EngineCommand,
    now_ns: u64,
    after: Engine,
    step: Step,
)
    requires
        engine.is_handled(cmd, now_ns, after, step),
    ensures
        match cmd {
            EngineCommand::StartRecording { session_id, devices, output_dir } => after == engine && step
                == (Step::StartRecording { session_id, devices, output_dir }),
            EngineCommand::StopRecording { .. } => after == engine && step is StopRecording,
            EngineCommand::SaveLayout => after == engine && step is SaveLayout,
            EngineCommand::ExportLayout { path } => after == engine && step == (Step::ExportLayout {
                path,
            }),
            EngineCommand::ImportLayout { path } => after == engine && step == (Step::ImportLayout {
                path,
            }),
            EngineCommand::ListRecordings { sort, order } => after == engine && step
                == (Step::ListRecordings { sort, order }),
            EngineCommand::DeleteRecording { session_id } => after == engine && step
                == (Step::DeleteRecording { session_id }),
            EngineCommand::DeleteRecordingsBatch { session_ids } => after == engine && step
                == (Step::DeleteRecordingsBatch { session_ids }),
            EngineCommand::StartReplay { session_id, speed_bits } => after == engine && step
                == (Step::StartReplay { session_id, speed_bits }),
            EngineCommand::StopReplay => after == engine && step is StopReplay,
            EngineCommand::Shutdown => after == engine && step is Shutdown,
            EngineCommand::RestartDevice { .. } => step is Device,
            EngineCommand::StopDevice { .. } => step is Device,
            EngineCommand::StartDevice { .. } => step is Device,
            _ => true,
        },
{
}

/// A recording is told by its session, state, directory and age, by the state of each device, and by
/// the file that is written and how many messages went into it.
pub proof fn recordings_are_told(
    engine: Engine,
    r: Option<RecordingInfo>,
    now_ns: u64,
    name: Seq<char>,
)
    requires
        engine.tells_recording(r, now_ns),
    ensures
        r is Some <==> engine.recording is Some,
        r matches Some(info) ==> {
            let session = engine.recording->0;
            &&& info.session_id@ == session.session_id@
            &&& info.state@ == session.state.text()
            &&& info.output_dir@ == session.output_dir@
            &&& session.created_at_ns <= now_ns ==> info.elapsed_ns == now_ns
                - session.created_at_ns
            &&& session.device_states@.contains_key(name) ==> info.devices@.contains_key(name)
                && info.devices@[name]@ == session.device_states@[name].text()
            &&& engine.recorder.active matches Some(file) ==> info.mcap_message_count == Some(
                file.message_count,
            ) && maybe_text(info.mcap_file) == Some(file.output_path@)
            &&& engine.recorder.active is None ==> info.mcap_message_count is None && info.mcap_file
                is None
        },
{
}

/// The status of the engine tells its devices, mask, rate and recording as they are.
pub proof fn engines_are_told_as_they_are(engine: Engine, s: EngineStatus, now_ns: u64)
    requires
        engine.is_engine_status(s, now_ns),
    ensures
        s.devices@ == engine.devices@,
        s.current_mask == engine.current_mask,
        s.mask_hex@ == hex16(engine.current_mask as nat),
        s.sequence == engine.sequence,
        s.measured == engine.measured,
        s.mask_enabled == engine.mask_enabled,
        s.recording is Some <==> engine.recording is Some,
{
}

/// What was tried is answered as done, or with what went wrong behind what was tried.
pub proof fn tries_are_answered(tried: Result<(), String>, what: &str, r: EngineResponse)
    requires
        call_ensures(answer_to, (tried, what), r),
    ensures
        tried is Ok ==> r is Done,
        tried matches Err(e) ==> is_error(r, what@ + e@),
{
}

} // verus!
