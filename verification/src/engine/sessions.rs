//! The start and the end of recordings.

use vstd::prelude::*;
use crate::engine::command::{is_error, is_error_with, DeviceStatus, EngineResponse};
use crate::engine::heartbeat::{device_uses_heartbeat, has_heartbeat};
use crate::engine::masks::available_devices;
use crate::engine::recorder::SensorInfo;
use crate::engine::recording::{looked_up, CommandOutcome, DeviceRecordState, RecordCommand,
    RecordingSession, RecordingState};
use crate::engine::recordings::{is_session_id, is_id_char, SESSION_ID_MAX};
use crate::engine::state::{status_names, Engine};
use crate::engine::status::{device_available, is_available};
use crate::name_map::NameMap;
use crate::registry::{entry_named, DeviceEntry};
use crate::seqs::{lemma_filter_from, lemma_filter_none, lemma_filter_step, lemma_filter_whole, lemma_pushed,
    option_deref};
use crate::text::{after_prefix, ascii_is_one_byte_each, char_width, decimal, decimal_text, has_prefix, join,
    joined, maybe_text, owned, parse_number, parsed_number, prefixes_are_taken_off, split_words, str_eq, strip_prefix,
    texts, words};

verus! {

/// The port on which the process of a phone publishes its data, unless its command says otherwise.
pub const DEFAULT_DATA_PORT: u16 = 5563;

/// Whether a character is a digit of a lower-case hexadecimal number.
pub open spec fn is_hex(c: char) -> bool {
    '0' <= c <= '9' || 'a' <= c <= 'f'
}

/// Whether a text has the form of a UUID: groups of eight, four, four, four and twelve hexadecimal
/// digits, with hyphens between them.
pub open spec fn is_uuid(s: Seq<char>) -> bool {
    &&& s.len() == 36
    &&& forall|i: int|
        0 <= i < 36 ==> if i == 8 || i == 13 || i == 18 || i == 23 {
            #[trigger] s[i] == '-'
        } else {
            is_hex(s[i])
        }
}

/// Whether a text has the form of a random UUID: its version is 4, and its variant the usual one.
pub open spec fn is_random_uuid(s: Seq<char>) -> bool {
    is_uuid(s) && s[14] == '4' && (s[19] == '8' || s[19] == '9' || s[19] == 'a' || s[19] == 'b')
}

/// `uuid::Uuid::new_v4` makes a random UUID of version 4, and its text is the usual one: lower-case
/// hexadecimal digits in groups with hyphens between them. Which UUID it is depends on chance.
#[verifier::external_body]
fn random_uuid() -> (r: String)
    ensures
        is_random_uuid(r@),
{
    uuid::Uuid::new_v4().to_string()
}

/// The name of a session: the given one, or else a random UUID.
pub fn choose_session_id(given: Option<String>) -> (r: String)
    ensures
        match given {
            Some(id) => r == id,
            None => is_random_uuid(r@) && is_session_id(r@),
        },
{
    match given {
        Some(id) => id,
        None => {
            let id: String = random_uuid();
            proof {
                uuids_are_session_ids(id@);
            }
            id
        },
    }
}

/// Every UUID may be the name of a session.
pub proof fn uuids_are_session_ids(s: Seq<char>)
    requires
        is_uuid(s),
    ensures
        is_session_id(s),
{
    assert forall|i: int| 0 <= i < s.len() implies is_id_char(#[trigger] s[i])
        && char_width(s[i]) == 1 by {}
    ascii_is_one_byte_each(s);
}

// ── Where a sensor publishes ────────────────────────────────────────

/// The number behind a flag among words, given as the next word or behind a `=`. A word that is no
/// number up to 65535 does not count.
pub open spec fn flag_value(list: Seq<Seq<char>>, flag: Seq<char>) -> Option<nat>
    decreases list.len(),
{
    if list.len() == 0 {
        None
    } else if list[0] == flag {
        if list.len() == 1 {
            None
        } else if parsed_number(list[1], 65535) is Some {
            parsed_number(list[1], 65535)
        } else {
            flag_value(list.skip(2), flag)
        }
    } else {
        match after_prefix(list[0], flag + "="@) {
            Some(rest) => if parsed_number(rest, 65535) is Some {
                parsed_number(rest, 65535)
            } else {
                flag_value(list.skip(1), flag)
            },
            None => flag_value(list.skip(1), flag),
        }
    }
}

/// The number behind a flag in a command.
pub fn parse_u16_flag(cmd: &str, flag: &str) -> (r: Option<u16>)
    ensures
        r is Some <==> flag_value(words(cmd@), flag@) is Some,
        r matches Some(v) ==> flag_value(words(cmd@), flag@) == Some(v as nat),
{
    let list: Vec<String> = split_words(cmd);
    let ghost all = words(cmd@);
    let n: usize = list.len();
    let mut prefix: String = owned(flag);
    prefix.append("=");
    let mut i: usize = 0;
    assert(all.skip(0) =~= all);
    while i < n
        invariant
            n == list@.len(),
            i <= n,
            texts(list@) == all,
            prefix@ == flag@ + "="@,
            flag_value(all, flag@) == flag_value(all.skip(i as int), flag@),
            all == words(cmd@),
        decreases n - i,
    {
        let ghost here = all.skip(i as int);
        assert(here[0] == list@[i as int]@);
        assert(here.skip(1) =~= all.skip(i as int + 1));
        if str_eq(list[i].as_str(), flag) {
            if i + 1 < n {
                assert(here[1] == list@[i as int + 1]@);
                assert(here.skip(2) =~= all.skip(i as int + 2));
                if let Some(v) = parse_number(list[i + 1].as_str(), 65535) {
                    return Some(v as u16);
                }
                i = i + 2;
            } else {
                return None;
            }
        } else {
            if let Some(rest) = strip_prefix(list[i].as_str(), prefix.as_str()) {
                if let Some(v) = parse_number(rest.as_str(), 65535) {
                    return Some(v as u16);
                }
            }
            i = i + 1;
        }
    }
    assert(all.skip(n as int) =~= seq![]);
    None
}

/// Where the data of a device come from: a phone's from the local process that its command starts,
/// any other device's from its own address.
pub open spec fn sensor_address(
    addresses: Map<Seq<char>, String>,
    name: Seq<char>,
    entry: DeviceEntry,
) -> Option<Seq<char>> {
    if has_heartbeat(entry) {
        Some(
            "127.0.0.1:"@ + decimal_text(
                match flag_value(words(entry.on_attach@), "--data-port"@) {
                    Some(port) => port,
                    None => DEFAULT_DATA_PORT as nat,
                },
            ),
        )
    } else if addresses.contains_key(name) {
        Some(addresses[name]@)
    } else {
        None
    }
}

/// Whether `s` tells where to listen to a device.
pub open spec fn is_sensor(s: SensorInfo, name: Seq<char>, entry: DeviceEntry, address: Seq<char>) -> bool {
    s.device_name@ == name && s.address@ == address && s.sensor_type@ == entry.sensor_type@
}

impl Engine {
    /// Finds where the data of a device come from.
    pub fn resolve_recorder_sensor_address(&self, device_name: &str, entry: &DeviceEntry) -> (r:
        Option<String>)
        ensures
            maybe_text(r) == sensor_address(self.device_addresses@, device_name@, *entry),
    {
        if device_uses_heartbeat(entry) {
            let port: u16 = match parse_u16_flag(entry.on_attach.as_str(), "--data-port") {
                Some(v) => v,
                None => DEFAULT_DATA_PORT,
            };
            let mut address: String = owned("127.0.0.1:");
            address.append(decimal(port as u64).as_str());
            return Some(address);
        }
        match self.device_addresses.get(device_name) {
            Some(a) => Some(a.clone()),
            None => None,
        }
    }
}

// ── The start ───────────────────────────────────────────────────────

/// How a recording starts.
pub struct RecordingPlan {
    pub session: RecordingSession,
    /// Commands to run, each to be told to the session once it was started or not.
    pub commands: Vec<RecordCommand>,
    /// Sensors to listen to.
    pub sensors: Vec<SensorInfo>,
}

/// The predicate of devices that cannot be used.
pub open spec fn unavailable() -> spec_fn(DeviceStatus) -> bool {
    |d: DeviceStatus| !is_available(d)
}

/// The command of a device for the start of a recording, or for its end.
pub open spec fn record_command(entry: DeviceEntry, stop: bool) -> Seq<char> {
    if stop {
        entry.on_record_stop@
    } else {
        entry.on_record_start@
    }
}

/// The predicate of registered devices with a command for the start of a recording, or its end.
pub open spec fn has_command(entries: Seq<DeviceEntry>, stop: bool) -> spec_fn(Seq<char>) -> bool {
    |n: Seq<char>|
        entry_named(entries, n) is Some && record_command(
            entries[entry_named(entries, n)->0],
            stop,
        ).len() > 0
}

/// The predicate of registered devices whose data can be listened to.
pub open spec fn has_sensor(entries: Seq<DeviceEntry>, addresses: Map<Seq<char>, String>) -> spec_fn(
    Seq<char>,
) -> bool {
    |n: Seq<char>|
        entry_named(entries, n) is Some && sensor_address(
            addresses,
            n,
            entries[entry_named(entries, n)->0],
        ) is Some
}

/// Whether states are those at the start, or the end, of a recording: devices without a command
/// are done, and of all others nothing is known yet.
pub open spec fn are_first_states(
    states: Map<Seq<char>, DeviceRecordState>,
    names: Seq<Seq<char>>,
    entries: Seq<DeviceEntry>,
    commanded: spec_fn(Seq<char>) -> bool,
) -> bool {
    forall|k: Seq<char>| #[trigger]
        states.contains_key(k) <==> names.contains(k) && entry_named(entries, k) is Some
            && !commanded(k)
}

/// Whether all states are that of a command that is done.
pub open spec fn are_done(states: Map<Seq<char>, DeviceRecordState>) -> bool {
    forall|k: Seq<char>| #[trigger] states.contains_key(k) ==> states[k] is Done
}

/// The address of a device.
pub open spec fn address_of(addresses: Map<Seq<char>, String>, name: Seq<char>) -> Option<Seq<char>> {
    match looked_up(addresses, name) {
        Some(a) => Some(a@),
        None => None,
    }
}

/// The names of the devices that cannot be used.
pub fn unavailable_names(devices: &Vec<DeviceStatus>) -> (r: Vec<String>)
    ensures
        texts(r@) == status_names(devices@.filter(unavailable())),
        r@.len() == 0 <==> forall|i: int|
            0 <= i < devices@.len() ==> is_available(#[trigger] devices@[i]),
{
    let ghost p = unavailable();
    let ghost all = devices@;
    let n: usize = devices.len();
    let mut out: Vec<String> = Vec::new();
    let mut i: usize = 0;
    proof {
        lemma_filter_none(all, p);
        assert(texts(out@) =~= status_names(all.take(0).filter(p)));
    }
    while i < n
        invariant
            n == all.len(),
            i <= n,
            all == devices@,
            p == unavailable(),
            texts(out@) == status_names(all.take(i as int).filter(p)),
            out@.len() == 0 <==> forall|k: int| 0 <= k < i ==> is_available(#[trigger] all[k]),
        decreases n - i,
    {
        let ghost kept = all.take(i as int).filter(p);
        let ghost before = out@;
        proof {
            lemma_filter_step(all, p, i as int);
        }
        if !device_available(&devices[i]) {
            out.push(devices[i].name.clone());
            proof {
                assert(!is_available(all[i as int]));
                assert(texts(out@) =~= texts(before).push(all[i as int].name@));
                assert(status_names(kept.push(all[i as int]))
                    =~= status_names(kept).push(all[i as int].name@));
            }
        }
        i = i + 1;
    }
    proof {
        lemma_filter_whole(all, p);
    }
    out
}

impl Engine {
    /// The entry of a device.
    pub open spec fn entry_of_device(self, name: Seq<char>) -> DeviceEntry {
        self.registry.devices@[entry_named(self.registry.devices@, name)->0]
    }

    /// Whether `r` refuses to start a recording. None starts during a replay or another recording,
    /// while a device cannot be used, or with a name of more than sixty-four characters.
    pub open spec fn refuses_recording(self, session_id: Seq<char>, r: EngineResponse) -> bool {
        if self.replay.active() {
            is_error_with(r, 409, "cannot record while replay is active"@)
        } else if self.is_recording() {
            is_error(r, "recording already in progress"@)
        } else if exists|i: int|
            0 <= i < self.devices@.len() && !is_available(#[trigger] self.devices@[i]) {
            is_error(
                r,
                "not connected: "@ + joined(
                    status_names(self.devices@.filter(unavailable())),
                    ", "@,
                ),
            )
        } else {
            &&& session_id.len() > SESSION_ID_MAX
            &&& is_error(r, "session_id must be 1-64 characters"@)
        }
    }

    /// Whether a recording may start.
    pub open spec fn may_record(self, session_id: Seq<char>) -> bool {
        &&& !self.replay.active()
        &&& !self.is_recording()
        &&& session_id.len() <= SESSION_ID_MAX
        &&& forall|i: int| 0 <= i < self.devices@.len() ==> is_available(#[trigger] self.devices@[i])
    }

    /// Whether a plan starts a recording of devices.
    pub open spec fn is_plan(
        self,
        plan: RecordingPlan,
        session_id: Seq<char>,
        names: Seq<Seq<char>>,
        output_dir: Seq<char>,
        now_ns: u64,
    ) -> bool {
        let entries = self.registry.devices@;
        let commanded = names.filter(has_command(entries, false));
        let heard = names.filter(has_sensor(entries, self.device_addresses@));
        &&& plan.session.session_id@ == session_id
        &&& plan.session.state is Starting
        &&& plan.session.output_dir@ == output_dir
        &&& plan.session.created_at_ns == now_ns
        &&& are_first_states(
            plan.session.device_states@,
            names,
            entries,
            has_command(entries, false),
        )
        &&& are_done(plan.session.device_states@)
        &&& plan.commands@.len() == commanded.len()
        &&& forall|j: int|
            0 <= j < commanded.len() ==> plan.session.is_command(
                #[trigger] plan.commands@[j],
                record_command(self.entry_of_device(commanded[j]), false),
                commanded[j],
                address_of(self.device_addresses@, commanded[j]),
            )
        &&& plan.sensors@.len() == heard.len()
        &&& forall|j: int|
            0 <= j < heard.len() ==> is_sensor(
                #[trigger] plan.sensors@[j],
                heard[j],
                self.entry_of_device(heard[j]),
                sensor_address(
                    self.device_addresses@,
                    heard[j],
                    self.entry_of_device(heard[j]),
                )->0,
            )
    }

    fn all_names(&self) -> (r: Vec<String>)
        ensures
            texts(r@) == status_names(self.devices@),
    {
        let n: usize = self.devices.len();
        let ghost names = status_names(self.devices@);
        let mut out: Vec<String> = Vec::new();
        let mut i: usize = 0;
        while i < n
            invariant
                n == self.devices@.len(),
                i <= n,
                names == status_names(self.devices@),
                texts(out@) == names.take(i as int),
            decreases n - i,
        {
            let ghost before = out@;
            out.push(self.devices[i].name.clone());
            assert(texts(out@) =~= texts(before).push(names[i as int]));
            assert(names.take(i as int + 1) =~= names.take(i as int).push(names[i as int]));
            i = i + 1;
        }
        assert(names.take(n as int) =~= names);
        out
    }

    fn first_commands(&self, session: &mut RecordingSession, targets: &Vec<String>, stop: bool) -> (r:
        Vec<RecordCommand>)
        requires
            old(session).device_states@ == Map::<Seq<char>, DeviceRecordState>::empty(),
        ensures
            final(session).session_id == old(session).session_id,
            final(session).state == old(session).state,
            final(session).output_dir == old(session).output_dir,
            final(session).created_at_ns == old(session).created_at_ns,
            ({
                let names = texts(targets@);
                let entries = self.registry.devices@;
                let commanded = names.filter(has_command(entries, stop));
                &&& are_first_states(
                    final(session).device_states@,
                    names,
                    entries,
                    has_command(entries, stop),
                )
                &&& are_done(final(session).device_states@)
                &&& r@.len() == commanded.len()
                &&& forall|j: int|
                    0 <= j < commanded.len() ==> final(session).is_command(
                        #[trigger] r@[j],
                        record_command(self.entry_of_device(commanded[j]), stop),
                        commanded[j],
                        address_of(self.device_addresses@, commanded[j]),
                    )
            }),
    {
        let ghost names = texts(targets@);
        let ghost entries = self.registry.devices@;
        let ghost p = has_command(entries, stop);
        let ghost first = *session;
        let n: usize = targets.len();
        let mut out: Vec<RecordCommand> = Vec::new();
        let mut i: usize = 0;
        proof {
            lemma_filter_none(names, p);
        }
        while i < n
            invariant
                n == targets@.len(),
                i <= n,
                names == texts(targets@),
                entries == self.registry.devices@,
                p == has_command(entries, stop),
                session.session_id == first.session_id,
                session.state == first.state,
                session.output_dir == first.output_dir,
                session.created_at_ns == first.created_at_ns,
                are_first_states(session.device_states@, names.take(i as int), entries, p),
                are_done(session.device_states@),
                out@.len() == names.take(i as int).filter(p).len(),
                forall|j: int|
                    0 <= j < out@.len() ==> first.is_command(
                        #[trigger] out@[j],
                        record_command(self.entry_of_device(names.take(i as int).filter(p)[j]), stop),
                        names.take(i as int).filter(p)[j],
                        address_of(self.device_addresses@, names.take(i as int).filter(p)[j]),
                    ),
            decreases n - i,
        {
            let ghost name = names[i as int];
            let ghost was = session.device_states@;
            proof {
                lemma_filter_step(names, p, i as int);
                assert(names.take(i as int + 1) =~= names.take(i as int).push(name));
                lemma_pushed(names.take(i as int), name);
                assert(name == targets@[i as int]@);
            }
            if let Some(entry) = self.registry.find(targets[i].as_str()) {
                let address: Option<&String> = self.device_addresses.get(targets[i].as_str());
                assert(maybe_text(option_deref(address)) == address_of(self.device_addresses@, name));
                let command: Option<RecordCommand> = if stop {
                    session.stop_device(targets[i].as_str(), entry, address)
                } else {
                    session.start_device(targets[i].as_str(), entry, address)
                };
                if let Some(c) = command {
                    out.push(c);
                }
            }
            proof {
                let now = session.device_states@;
                assert forall|k: Seq<char>| #[trigger]
                    now.contains_key(k) <==> names.take(i as int + 1).contains(k) && entry_named(
                        entries,
                        k,
                    ) is Some && !p(k) by {
                    assert(was.contains_key(k) <==> names.take(i as int).contains(k) && entry_named(
                        entries,
                        k,
                    ) is Some && !p(k));
                    assert(names.take(i as int).push(name).contains(k) <==> names.take(
                        i as int,
                    ).contains(k) || k == name);
                }
            }
            i = i + 1;
        }
        proof {
            lemma_filter_whole(names, p);
            assert(names.take(n as int) =~= names);
        }
        out
    }

    fn find_sensors(&self, targets: &Vec<String>) -> (r: Vec<SensorInfo>)
        ensures
            ({
                let heard = texts(targets@).filter(
                    has_sensor(self.registry.devices@, self.device_addresses@),
                );
                &&& r@.len() == heard.len()
                &&& forall|j: int|
                    0 <= j < heard.len() ==> is_sensor(
                        #[trigger] r@[j],
                        heard[j],
                        self.entry_of_device(heard[j]),
                        sensor_address(
                            self.device_addresses@,
                            heard[j],
                            self.entry_of_device(heard[j]),
                        )->0,
                    )
            }),
    {
        let ghost names = texts(targets@);
        let ghost p = has_sensor(self.registry.devices@, self.device_addresses@);
        let n: usize = targets.len();
        let mut out: Vec<SensorInfo> = Vec::new();
        let mut i: usize = 0;
        proof {
            lemma_filter_none(names, p);
        }
        while i < n
            invariant
                n == targets@.len(),
                i <= n,
                names == texts(targets@),
                p == has_sensor(self.registry.devices@, self.device_addresses@),
                out@.len() == names.take(i as int).filter(p).len(),
                forall|j: int|
                    0 <= j < out@.len() ==> is_sensor(
                        #[trigger] out@[j],
                        names.take(i as int).filter(p)[j],
                        self.entry_of_device(names.take(i as int).filter(p)[j]),
                        sensor_address(
                            self.device_addresses@,
                            names.take(i as int).filter(p)[j],
                            self.entry_of_device(names.take(i as int).filter(p)[j]),
                        )->0,
                    ),
            decreases n - i,
        {
            proof {
                lemma_filter_step(names, p, i as int);
                assert(names[i as int] == targets@[i as int]@);
            }
            if let Some(entry) = self.registry.find(targets[i].as_str()) {
                let found: Option<String> = self.resolve_recorder_sensor_address(
                    targets[i].as_str(),
                    entry,
                );
                if let Some(address) = found {
                    out.push(
                        SensorInfo {
                            device_name: targets[i].clone(),
                            address,
                            sensor_type: entry.sensor_type.clone(),
                        },
                    );
                }
            }
            i = i + 1;
        }
        proof {
            lemma_filter_whole(names, p);
        }
        out
    }

    /// Plans a recording of the given devices, or of all devices. It is refused during a replay or
    /// another recording, while a device cannot be used, and for a name that is too long.
    pub fn cmd_start_recording(
        &self,
        session_id: String,
        devices: Option<Vec<String>>,
        output_dir: String,
        now_ns: u64,
    ) -> (r: Result<RecordingPlan, EngineResponse>)
        ensures
            r is Ok <==> self.may_record(session_id@),
            r matches Ok(plan) ==> self.is_plan(
                plan,
                session_id@,
                match devices {
                    Some(names) => texts(names@),
                    None => status_names(self.devices@),
                },
                output_dir@,
                now_ns,
            ),
            r matches Err(answer) ==> self.refuses_recording(session_id@, answer),
    {
        if self.replay.is_active() {
            return Err(
                EngineResponse::ErrorWithStatus {
                    status: 409,
                    message: owned("cannot record while replay is active"),
                },
            );
        }
        if self.recording_under_way() {
            return Err(EngineResponse::Error(owned("recording already in progress")));
        }
        let missing: Vec<String> = unavailable_names(&self.devices);
        if missing.len() > 0 {
            let mut message: String = owned("not connected: ");
            message.append(join(&missing, ", ").as_str());
            return Err(EngineResponse::Error(message));
        }
        if session_id.as_str().unicode_len() > SESSION_ID_MAX {
            return Err(EngineResponse::Error(owned("session_id must be 1-64 characters")));
        }
        let targets: Vec<String> = match devices {
            Some(names) => names,
            None => self.all_names(),
        };
        let mut session: RecordingSession = RecordingSession::new(session_id, output_dir, now_ns);
        let commands: Vec<RecordCommand> = self.first_commands(&mut session, &targets, false);
        let sensors: Vec<SensorInfo> = self.find_sensors(&targets);
        Ok(RecordingPlan { session, commands, sensors })
    }

    /// Notes that a recording has started. It has even where its MCAP file could not be made, but
    /// then the answer says so.
    pub fn recording_started(&mut self, session: RecordingSession, mcap_error: Option<String>) -> (r:
        EngineResponse)
        ensures
            *final(self) == (Engine { recording: Some(session), ..*old(self) }),
            match mcap_error {
                None => r is Done,
                Some(e) => is_error(r, "recording started but MCAP failed: "@ + e@),
            },
    {
        self.recording = Some(session);
        match mcap_error {
            None => EngineResponse::Done,
            Some(e) => {
                let mut message: String = owned("recording started but MCAP failed: ");
                message.append(e.as_str());
                EngineResponse::Error(message)
            },
        }
    }
}

// ── The end ─────────────────────────────────────────────────────────

impl Engine {
    /// Why a recording cannot be stopped.
    pub open spec fn stop_refusal(self) -> Option<Seq<char>> {
        match self.recording {
            None => Some("no active recording"@),
            Some(session) => if session.state.is_under_way() {
                None
            } else {
                Some("cannot stop recording in state '"@ + session.state.text() + "'"@)
            },
        }
    }

    fn available_names(&self) -> (r: Vec<String>)
        ensures
            texts(r@) == status_names(
                self.devices@.filter(available_devices()),
            ),
    {
        let ghost p = available_devices();
        let ghost all = self.devices@;
        let n: usize = self.devices.len();
        let mut out: Vec<String> = Vec::new();
        let mut i: usize = 0;
        proof {
            lemma_filter_none(all, p);
            assert(texts(out@) =~= status_names(all.take(0).filter(p)));
        }
        while i < n
            invariant
                n == all.len(),
                i <= n,
                all == self.devices@,
                p == available_devices(),
                texts(out@) == status_names(all.take(i as int).filter(p)),
            decreases n - i,
        {
            let ghost kept = all.take(i as int).filter(p);
            let ghost before = out@;
            proof {
                lemma_filter_step(all, p, i as int);
            }
            if device_available(&self.devices[i]) {
                out.push(self.devices[i].name.clone());
                proof {
                    assert(texts(out@) =~= texts(before).push(all[i as int].name@));
                    assert(status_names(kept.push(all[i as int]))
                        =~= status_names(kept).push(all[i as int].name@));
                }
            }
            i = i + 1;
        }
        proof {
            lemma_filter_whole(all, p);
        }
        out
    }

    /// Stops a recording that is under way: the session is stopping, and the commands of all devices
    /// that can be used are to be run. It is refused where none is under way.
    pub fn cmd_stop_recording(&mut self) -> (r: Result<Vec<RecordCommand>, EngineResponse>)
        ensures
            r is Ok <==> old(self).stop_refusal() is None,
            r matches Err(answer) ==> is_error(answer, old(self).stop_refusal()->0) && *final(self)
                == *old(self),
            r matches Ok(commands) ==> {
                let before = old(self).recording->0;
                let after = final(self).recording->0;
                let entries = old(self).registry.devices@;
                let names = status_names(
                    old(self).devices@.filter(available_devices()),
                );
                let commanded = names.filter(has_command(entries, true));
                &&& *final(self) == (Engine { recording: final(self).recording, ..*old(self) })
                &&& final(self).recording is Some
                &&& after.session_id == before.session_id
                &&& after.state is Stopping
                &&& after.output_dir == before.output_dir
                &&& after.created_at_ns == before.created_at_ns
                &&& are_first_states(
                    after.device_states@,
                    names,
                    entries,
                    has_command(entries, true),
                )
                &&& are_done(after.device_states@)
                &&& commands@.len() == commanded.len()
                &&& forall|j: int|
                    0 <= j < commanded.len() ==> after.is_command(
                        #[trigger] commands@[j],
                        record_command(old(self).entry_of_device(commanded[j]), true),
                        commanded[j],
                        address_of(old(self).device_addresses@, commanded[j]),
                    )
            },
    {
        match &self.recording {
            None => {
                return Err(EngineResponse::Error(owned("no active recording")));
            },
            Some(session) => {
                if !session.state.under_way() {
                    let mut message: String = owned("cannot stop recording in state '");
                    message.append(session.state.as_str());
                    message.append("'");
                    return Err(EngineResponse::Error(message));
                }
            },
        }
        let targets: Vec<String> = self.available_names();
        match self.recording.take() {
            Some(mut session) => {
                session.state = RecordingState::Stopping;
                session.device_states.clear();
                let commands: Vec<RecordCommand> = self.first_commands(&mut session, &targets, true);
                self.recording = Some(session);
                Ok(commands)
            },
            None => Err(EngineResponse::Error(owned("no active recording"))),
        }
    }

    /// Notes whether the command of a device could be started.
    pub fn record_command_started(&mut self, device_name: &str, started: Result<u32, String>)
        ensures
            *final(self) == (Engine { recording: final(self).recording, ..*old(self) }),
            old(self).recording is None ==> final(self).recording is None,
            old(self).recording matches Some(before) ==> {
                &&& final(self).recording is Some
                &&& final(self).recording->0.session_id == before.session_id
                &&& final(self).recording->0.state == before.state
                &&& final(self).recording->0.output_dir == before.output_dir
                &&& final(self).recording->0.created_at_ns == before.created_at_ns
                &&& final(self).recording->0.device_states@ == before.device_states@.insert(
                    device_name@,
                    match started {
                        Ok(pid) => DeviceRecordState::Running(pid),
                        Err(e) => DeviceRecordState::Failed(e),
                    },
                )
            },
    {
        if let Some(mut session) = self.recording.take() {
            session.command_started(device_name, started);
            self.recording = Some(session);
        }
    }

    /// Looks at the commands of a recording and advances it.
    pub fn check_recording(&mut self, outcomes: &NameMap<CommandOutcome>)
        ensures
            *final(self) == (Engine { recording: final(self).recording, ..*old(self) }),
            old(self).recording is None ==> final(self).recording is None,
            old(self).recording matches Some(before) ==> final(self).recording is Some
                && before.is_followed_by(final(self).recording->0, outcomes@),
    {
        if let Some(mut session) = self.recording.take() {
            session.check_progress(outcomes);
            self.recording = Some(session);
        }
    }
}

/// No recording starts during a replay, nor during another recording.
pub proof fn one_thing_at_a_time(engine: Engine, session_id: Seq<char>)
    ensures
        engine.replay.active() ==> !engine.may_record(session_id),
        engine.is_recording() ==> !engine.may_record(session_id),
        engine.is_recording() <==> engine.stop_refusal() is None,
{
}

/// UUIDs are thirty-two hexadecimal digits in lower case, with hyphens after the eighth, twelfth,
/// sixteenth and twentieth.
pub proof fn uuids_are_hexadecimal(s: Seq<char>)
    ensures
        is_uuid(s) <==> s.len() == 36 && forall|i: int|
            0 <= i < s.len() ==> (if i == 8 || i == 13 || i == 18 || i == 23 {
                #[trigger] s[i] == '-'
            } else {
                48 <= s[i] as int <= 57 || 97 <= s[i] as int <= 102
            }),
        is_random_uuid(s) <==> is_uuid(s) && s[14] == '4' && (s[19] == '8' || s[19] == '9' || s[19]
            == 'a' || s[19] == 'b'),
{
    if is_uuid(s) {
        assert forall|i: int| 0 <= i < s.len() implies (if i == 8 || i == 13 || i == 18 || i == 23 {
            #[trigger] s[i] == '-'
        } else {
            48 <= s[i] as int <= 57 || 97 <= s[i] as int <= 102
        }) by {}
    }
}

/// A flag is read from the word behind it, or from behind its `=`; words in front of it do not
/// matter, and neither does a flag without a number.
pub proof fn flags_are_read(list: Seq<Seq<char>>, flag: Seq<char>, value: Seq<char>, n: nat)
    requires
        list.len() > 0,
    ensures
        list[0] == flag && list.len() > 1 && parsed_number(list[1], 65535) == Some(n) ==> flag_value(
            list,
            flag,
        ) == Some(n),
        list[0] == flag && list.len() > 1 && parsed_number(list[1], 65535) is None ==> flag_value(
            list,
            flag,
        ) == flag_value(list.skip(2), flag),
        list[0] == flag && list.len() == 1 ==> flag_value(list, flag) is None,
        list[0] == flag + "="@ + value && parsed_number(value, 65535) == Some(n) ==> flag_value(
            list,
            flag,
        ) == Some(n),
        list[0] != flag && !has_prefix(list[0], flag + "="@) ==> flag_value(list, flag)
            == flag_value(list.skip(1), flag),
        flag_value(Seq::<Seq<char>>::empty(), flag) is None,
{
    reveal_strlit("=");
    if list[0] == flag + "="@ + value {
        prefixes_are_taken_off(flag + "="@, value, list[0]);
        assert(list[0].len() > flag.len());
    }
}

/// The number behind a flag fits into sixteen bits.
pub proof fn flags_fit(list: Seq<Seq<char>>, flag: Seq<char>)
    ensures
        flag_value(list, flag) matches Some(n) ==> n <= 65535,
    decreases list.len(),
{
    if list.len() > 1 {
        flags_fit(list.skip(2), flag);
    }
    if list.len() > 0 {
        flags_fit(list.skip(1), flag);
    }
}

/// A phone is listened to on this machine, on the port that its command names or else on 5563; any
/// other device at its own address, or not at all.
pub proof fn sensors_are_listened_to_where_they_publish(
    addresses: Map<Seq<char>, String>,
    name: Seq<char>,
    entry: DeviceEntry,
)
    ensures
        ({
            let address = sensor_address(addresses, name, entry);
            let port = flag_value(words(entry.on_attach@), "--data-port"@);
            &&& has_heartbeat(entry) && port is Some ==> address == Some(
                "127.0.0.1:"@ + decimal_text(port->0),
            )
            &&& has_heartbeat(entry) && port is None ==> address == Some(
                "127.0.0.1:"@ + decimal_text(5563),
            )
            &&& !has_heartbeat(entry) && addresses.contains_key(name) ==> address == Some(
                addresses[name]@,
            )
            &&& !has_heartbeat(entry) && !addresses.contains_key(name) ==> address is None
        }),
{
}

/// Every registered device with a command for the start of a recording gets that command, told the
/// session, the directory and the device's address.
pub proof fn planned_devices_are_commanded(
    engine: Engine,
    plan: RecordingPlan,
    session_id: Seq<char>,
    names: Seq<Seq<char>>,
    output_dir: Seq<char>,
    now_ns: u64,
    i: int,
) -> (j: int)
    requires
        engine.is_plan(plan, session_id, names, output_dir, now_ns),
        0 <= i < names.len(),
        entry_named(engine.registry.devices@, names[i]) is Some,
        engine.registry.devices@[entry_named(
            engine.registry.devices@,
            names[i],
        )->0].on_record_start@.len() > 0,
    ensures
        0 <= j < plan.commands@.len(),
        plan.commands@[j].device_name@ == names[i],
        plan.commands@[j].command@ == engine.registry.devices@[entry_named(
            engine.registry.devices@,
            names[i],
        )->0].on_record_start@,
        plan.commands@[j].session_id@ == session_id,
        plan.commands@[j].output_dir@ == output_dir,
        engine.device_addresses@.contains_key(names[i]) ==> maybe_text(plan.commands@[j].address)
            == Some(engine.device_addresses@[names[i]]@),
        !engine.device_addresses@.contains_key(names[i]) ==> plan.commands@[j].address is None,
{
    let p = has_command(engine.registry.devices@, false);
    let commanded = names.filter(p);
    names.lemma_filter_contains(p, i);
    let j = commanded.index_of(names[i]);
    assert(plan.session.is_command(
        plan.commands@[j],
        record_command(engine.entry_of_device(commanded[j]), false),
        commanded[j],
        address_of(engine.device_addresses@, commanded[j]),
    ));
    j
}

/// Every registered device that can be listened to is, at its address and as what it is.
pub proof fn planned_devices_are_heard(
    engine: Engine,
    plan: RecordingPlan,
    session_id: Seq<char>,
    names: Seq<Seq<char>>,
    output_dir: Seq<char>,
    now_ns: u64,
    i: int,
) -> (j: int)
    requires
        engine.is_plan(plan, session_id, names, output_dir, now_ns),
        0 <= i < names.len(),
        entry_named(engine.registry.devices@, names[i]) is Some,
        sensor_address(
            engine.device_addresses@,
            names[i],
            engine.registry.devices@[entry_named(engine.registry.devices@, names[i])->0],
        ) is Some,
    ensures
        ({
            let entry = engine.registry.devices@[entry_named(
                engine.registry.devices@,
                names[i],
            )->0];
            &&& 0 <= j < plan.sensors@.len()
            &&& plan.sensors@[j].device_name@ == names[i]
            &&& plan.sensors@[j].sensor_type@ == entry.sensor_type@
            &&& Some(plan.sensors@[j].address@) == sensor_address(
                engine.device_addresses@,
                names[i],
                entry,
            )
        }),
{
    let p = has_sensor(engine.registry.devices@, engine.device_addresses@);
    let heard = names.filter(p);
    names.lemma_filter_contains(p, i);
    let j = heard.index_of(names[i]);
    assert(is_sensor(
        plan.sensors@[j],
        heard[j],
        engine.entry_of_device(heard[j]),
        sensor_address(
            engine.device_addresses@,
            heard[j],
            engine.entry_of_device(heard[j]),
        )->0,
    ));
    j
}

/// A plan is for its session, and commands and listens to no device but those asked for; a device
/// without a command is done at once.
pub proof fn plans_are_for_their_session(
    engine: Engine,
    plan: RecordingPlan,
    session_id: Seq<char>,
    names: Seq<Seq<char>>,
    output_dir: Seq<char>,
    now_ns: u64,
    j: int,
    k: int,
    name: Seq<char>,
)
    requires
        engine.is_plan(plan, session_id, names, output_dir, now_ns),
    ensures
        plan.session.session_id@ == session_id,
        plan.session.state is Starting,
        plan.session.output_dir@ == output_dir,
        plan.session.created_at_ns == now_ns,
        0 <= j < plan.commands@.len() ==> names.contains(plan.commands@[j].device_name@)
            && plan.commands@[j].command@.len() > 0,
        0 <= k < plan.sensors@.len() ==> names.contains(plan.sensors@[k].device_name@),
        names.contains(name) && entry_named(engine.registry.devices@, name) is Some
            && engine.registry.devices@[entry_named(
            engine.registry.devices@,
            name,
        )->0].on_record_start@.len() == 0 ==> plan.session.device_states@.contains_key(name)
            && plan.session.device_states@[name] is Done,
        !names.contains(name) ==> !plan.session.device_states@.contains_key(name),
{
    let entries = engine.registry.devices@;
    let p = has_command(entries, false);
    let commanded = names.filter(p);
    let q = has_sensor(entries, engine.device_addresses@);
    let heard = names.filter(q);
    if 0 <= j < plan.commands@.len() {
        assert(plan.session.is_command(
            plan.commands@[j],
            record_command(engine.entry_of_device(commanded[j]), false),
            commanded[j],
            address_of(engine.device_addresses@, commanded[j]),
        ));
        lemma_filter_from(names, p, j);
    }
    if 0 <= k < plan.sensors@.len() {
        assert(is_sensor(
            plan.sensors@[k],
            heard[k],
            engine.entry_of_device(heard[k]),
            sensor_address(
                engine.device_addresses@,
                heard[k],
                engine.entry_of_device(heard[k]),
            )->0,
        ));
        lemma_filter_from(names, q, k);
    }
    assert(names.contains(name) && entry_named(entries, name) is Some && !p(name)
        <==> plan.session.device_states@.contains_key(name));
}

/// A recording may start where nothing is replayed or recorded, every device can be used and the
/// name of the session is at most sixty-four characters long.
pub proof fn recordings_start_when_all_is_ready(engine: Engine, session_id: Seq<char>)
    ensures
        engine.may_record(session_id) <==> !engine.replay.active() && !engine.is_recording()
            && session_id.len() <= 64 && forall|i: int|
            0 <= i < engine.devices@.len() ==> is_available(#[trigger] engine.devices@[i]),
{
}

/// Why a recording does not start is told: a replay first, then another recording, then the devices
/// that cannot be used, by their names, and last a name that is too long.
pub proof fn refused_recordings_are_explained(
    engine: Engine,
    session_id: Seq<char>,
    r: EngineResponse,
    i: int,
)
    requires
        engine.refuses_recording(session_id, r),
    ensures
        !engine.may_record(session_id),
        engine.replay.active() ==> is_error_with(r, 409, "cannot record while replay is active"@),
        !engine.replay.active() && engine.is_recording() ==> is_error(
            r,
            "recording already in progress"@,
        ),
        !engine.replay.active() && !engine.is_recording() && 0 <= i < engine.devices@.len()
            && !is_available(engine.devices@[i]) ==> is_error(
            r,
            "not connected: "@ + joined(
                status_names(engine.devices@.filter(|d: DeviceStatus| !is_available(d))),
                ", "@,
            ),
        ),
        !engine.replay.active() && !engine.is_recording() && (forall|k: int|
            0 <= k < engine.devices@.len() ==> is_available(#[trigger] engine.devices@[k]))
            ==> is_error(r, "session_id must be 1-64 characters"@),
{
    assert(unavailable() =~= (|d: DeviceStatus| !is_available(d)));
}

/// A recording is stopped while it starts or records; in another state that state is told, and
/// without a recording that there is none.
pub proof fn recordings_are_stopped_while_under_way(engine: Engine)
    ensures
        engine.recording is None ==> engine.stop_refusal() == Some("no active recording"@),
        engine.recording matches Some(s) ==> (s.state is Starting || s.state is Recording
            <==> engine.stop_refusal() is None),
        engine.recording matches Some(s) ==> (!(s.state is Starting) && !(s.state is Recording)
            ==> engine.stop_refusal() == Some(
            "cannot stop recording in state '"@ + s.state.text() + "'"@,
        )),
{
}

/// A device has one command for the start of a recording and one for its end.
pub proof fn devices_have_two_commands(entry: DeviceEntry)
    ensures
        record_command(entry, false) == entry.on_record_start@,
        record_command(entry, true) == entry.on_record_stop@,
{
}

/// A device is commanded where it is registered with a command, and heard where it is registered
/// with an address.
pub proof fn registered_devices_are_commanded_and_heard(
    entries: Seq<DeviceEntry>,
    addresses: Map<Seq<char>, String>,
    name: Seq<char>,
    stop: bool,
)
    ensures
        entry_named(entries, name) is None ==> !has_command(entries, stop)(name) && !has_sensor(
            entries,
            addresses,
        )(name),
        entry_named(entries, name) matches Some(i) ==> {
            &&& has_command(entries, true)(name) <==> entries[i].on_record_stop@.len() > 0
            &&& has_command(entries, false)(name) <==> entries[i].on_record_start@.len() > 0
            &&& has_sensor(entries, addresses)(name) <==> sensor_address(
                addresses,
                name,
                entries[i],
            ) is Some
        },
        addresses.contains_key(name) ==> address_of(addresses, name) == Some(addresses[name]@),
        !addresses.contains_key(name) ==> address_of(addresses, name) is None,
{
}

/// At the start of a recording, or its end, exactly the registered devices without a command have a
/// state, and it is that they are done.
pub proof fn devices_without_commands_are_done(
    states: Map<Seq<char>, DeviceRecordState>,
    names: Seq<Seq<char>>,
    entries: Seq<DeviceEntry>,
    stop: bool,
    name: Seq<char>,
)
    requires
        are_first_states(states, names, entries, has_command(entries, stop)),
        are_done(states),
    ensures
        states.contains_key(name) <==> names.contains(name) && entry_named(entries, name) is Some
            && !has_command(entries, stop)(name),
        states.contains_key(name) ==> states[name] is Done,
{
}

/// Where no devices are named, all are recorded, and else those that are; a recording is planned where
/// it may start.
pub proof fn recordings_are_planned_for_the_named_devices(
    engine: &Engine,
    session_id: String,
    devices: Option<Vec<String>>,
    output_dir: String,
    now_ns: u64,
    r: Result<RecordingPlan, EngineResponse>,
)
    requires
        call_ensures(
            Engine::cmd_start_recording,
            (engine, session_id, devices, output_dir, now_ns),
            r,
        ),
    ensures
        r is Ok <==> engine.may_record(session_id@),
        r matches Ok(plan) ==> plan.session.session_id@ == session_id@ && plan.session.output_dir@
            == output_dir@ && plan.session.created_at_ns == now_ns && plan.session.state is Starting,
        devices is None ==> (r matches Ok(plan) ==> engine.is_plan(
            plan,
            session_id@,
            status_names(engine.devices@),
            output_dir@,
            now_ns,
        )),
        devices matches Some(names) ==> (r matches Ok(plan) ==> engine.is_plan(
            plan,
            session_id@,
            texts(names@),
            output_dir@,
            now_ns,
        )),
{
}

/// A recording that is stopped is stopping, and stays the recording that it was.
pub proof fn stopped_recordings_are_stopping(engine: &mut Engine, r: Result<Vec<RecordCommand>, EngineResponse>)
    requires
        call_ensures(Engine::cmd_stop_recording, (engine,), r),
    ensures
        r is Ok <==> old(engine).is_recording(),
        r is Err ==> *final(engine) == *old(engine),
        r is Ok ==> (final(engine).recording matches Some(s) && s.state is Stopping && s.session_id
            == old(engine).recording->0.session_id && s.output_dir == old(engine).recording->0.output_dir),
        r is Ok ==> final(engine).devices == old(engine).devices,
{
}

/// A recording that has started is the engine's recording; where its file could not be made, that is
/// told.
pub proof fn started_recordings_are_kept(
    engine: &mut Engine,
    session: RecordingSession,
    mcap_error: Option<String>,
    r: EngineResponse,
)
    requires
        call_ensures(Engine::recording_started, (engine, session, mcap_error), r),
    ensures
        final(engine).recording == Some(session),
        mcap_error is None ==> r is Done,
        mcap_error matches Some(e) ==> is_error(r, "recording started but MCAP failed: "@ + e@),
{
}

/// A command that was started is noted in the recording under way, and nowhere else.
pub proof fn started_commands_are_noted(
    engine: &mut Engine,
    device_name: &str,
    started: Result<u32, String>,
    other: Seq<char>,
)
    requires
        call_ensures(Engine::record_command_started, (engine, device_name, started), ()),
    ensures
        old(engine).recording is None ==> final(engine).recording is None,
        old(engine).recording is Some ==> (final(engine).recording matches Some(s)
            && s.device_states@.contains_key(device_name@) && (started matches Ok(pid)
            ==> s.device_states@[device_name@] == DeviceRecordState::Running(pid)) && (
        started matches Err(e) ==> s.device_states@[device_name@] == DeviceRecordState::Failed(e))),
        old(engine).recording is Some && other != device_name@ ==> final(engine).recording->0.device_states@.contains_key(other) == old(engine).recording->0.device_states@.contains_key(other),
        final(engine).devices == old(engine).devices,
        final(engine).running == old(engine).running,
{
}

} // verus!
