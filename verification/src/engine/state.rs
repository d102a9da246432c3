//! The state of the engine, and the status of all devices in it.

use vstd::prelude::*;
use crate::engine::command::{DeviceStatus, ReplayState, Share};
use crate::engine::heartbeat::{device_uses_heartbeat, has_heartbeat, Heartbeat};
use crate::engine::process::{time_since, PendingRestart, RunningProcess};
use crate::engine::recorder::{RecorderCore, MASK_DECIMATION};
use crate::engine::recording::{looked_up, RecordingSession};
use crate::engine::replay::{ReplayManager, SPEED_NORMAL_BITS};
use crate::engine::status::{assess, DeviceFacts};
use crate::mask::debug::DebugPublisher;
use crate::mask::layout::{reconciled, MaskLayout};
use crate::mask::shm::MaskPublisher;
use crate::name_map::NameMap;
use crate::order::is_sorting_of;
use crate::registry::{entry_named, entry_names, DeviceEntry, Registry};
use crate::seqs::{first_where, first_where_finds, lemma_first_is, lemma_first_is_none, lemma_pushed,
    option_deref};
use crate::text::{is_among, owned, str_eq, texts};

verus! {

/// Between two looks at all devices lies at least this time.
pub const STATUS_REFRESH_MS: u64 = 200;

/// The engine: all that is known of devices, their processes, recordings and replays.
pub struct Engine {
    pub registry: Registry,
    pub layout: MaskLayout,
    pub devices: Vec<DeviceStatus>,
    /// Running processes by the source of their device.
    pub running: NameMap<RunningProcess>,
    /// Names of the connected devices by their source.
    pub connected_devices: NameMap<String>,
    /// Addresses by the names of devices.
    pub device_addresses: NameMap<String>,
    pub mask_enabled: bool,
    pub current_mask: u64,
    pub sequence: u64,
    pub mask_publisher: Option<MaskPublisher>,
    pub debug_publisher: Option<DebugPublisher>,
    pub publish_count: u64,
    pub last_freq_check_ns: u64,
    /// How many masks were published in how many nanoseconds, when that was last taken.
    pub measured: Share,
    pub heartbeat_cache: NameMap<Heartbeat>,
    pub last_status_refresh_ns: u64,
    pub recording: Option<RecordingSession>,
    pub recorder: RecorderCore,
    pub replay: ReplayManager,
    pub pending_restarts: Vec<PendingRestart>,
}

/// The backend of a device: that of its entry, or `usb` where it has none.
pub open spec fn backend_of(entries: Seq<DeviceEntry>, name: Seq<char>) -> Seq<char> {
    match entry_named(entries, name) {
        Some(i) => entries[i].backend@,
        None => "usb"@,
    }
}

/// Whether statuses are those of devices of which nothing is known yet, in the order of a layout.
pub open spec fn are_blank(
    devices: Seq<DeviceStatus>,
    order: Seq<Seq<char>>,
    entries: Seq<DeviceEntry>,
) -> bool {
    &&& devices.len() == order.len()
    &&& forall|i: int|
        0 <= i < devices.len() ==> is_blank(#[trigger] devices[i], i, order[i], entries)
}

/// Whether a status is that of a device of which nothing is known yet.
pub open spec fn is_blank(d: DeviceStatus, bit: int, name: Seq<char>, entries: Seq<DeviceEntry>) -> bool {
    &&& d.name@ == name
    &&& d.bit_index == bit
    &&& !d.discovered
    &&& !d.process_running
    &&& d.pid is None
    &&& d.backend@ == backend_of(entries, name)
    &&& d.heartbeat_ok is None
    &&& d.last_heartbeat_age_ms is None
    &&& d.state_reason is None
    &&& d.address is None
}

/// The status of all devices of a layout, of which nothing is known yet.
pub fn blank_devices(layout: &MaskLayout, registry: &Registry) -> (r: Vec<DeviceStatus>)
    ensures
        are_blank(r@, layout.order(), registry.devices@),
{
    let n: usize = layout.device_order.len();
    let mut out: Vec<DeviceStatus> = Vec::new();
    let mut i: usize = 0;
    while i < n
        invariant
            n == layout.device_order@.len(),
            i <= n,
            out@.len() == i,
            forall|k: int|
                0 <= k < i ==> is_blank(
                    #[trigger] out@[k],
                    k,
                    layout.order()[k],
                    registry.devices@,
                ),
        decreases n - i,
    {
        let name: String = layout.device_order[i].clone();
        let backend: String = match registry.find(name.as_str()) {
            Some(entry) => entry.backend.clone(),
            None => owned("usb"),
        };
        out.push(
            DeviceStatus {
                name,
                bit_index: i,
                discovered: false,
                process_running: false,
                pid: None,
                backend,
                heartbeat_ok: None,
                last_heartbeat_age_ms: None,
                state_reason: None,
                address: None,
            },
        );
        i = i + 1;
    }
    out
}

/// The names of devices.
pub open spec fn status_names(devices: Seq<DeviceStatus>) -> Seq<Seq<char>> {
    devices.map_values(|d: DeviceStatus| d.name@)
}

/// The predicate of processes of a device.
pub open spec fn runs_for(name: Seq<char>) -> spec_fn(RunningProcess) -> bool {
    |p: RunningProcess| p.entry_name@ == name
}

/// The predicate of texts with the given characters.
pub open spec fn is_named(name: Seq<char>) -> spec_fn(String) -> bool {
    |s: String| s@ == name
}

/// Whether the process of a device writes a heartbeat.
pub open spec fn name_has_heartbeat(entries: Seq<DeviceEntry>, name: Seq<char>) -> bool {
    exists|i: int|
        0 <= i < entries.len() && (#[trigger] entries[i]).name@ == name && has_heartbeat(entries[i])
}

impl Engine {
    /// The statuses are those of the devices of the layout, each with the bit of its place, and the
    /// parts of the engine are well-formed.
    pub open spec fn wf(self) -> bool {
        &&& self.devices@.len() == self.layout.order().len()
        &&& forall|i: int|
            0 <= i < self.devices@.len() ==> (#[trigger] self.devices@[i]).name@
                == self.layout.order()[i] && self.devices@[i].bit_index == i
        &&& self.recorder.wf()
    }

    /// An engine with a layout, where nothing is known of any device.
    pub fn new(
        registry: Registry,
        saved_layout: Option<MaskLayout>,
        mask_enabled: bool,
        mask_publisher: Option<MaskPublisher>,
        debug_publisher: Option<DebugPublisher>,
        now_ns: u64,
    ) -> (r: Self)
        ensures
            r.wf(),
            r.registry == registry,
            match saved_layout {
                Some(saved) => exists|names: Seq<Seq<char>>|
                    #![trigger is_sorting_of(names, entry_names(registry.devices@))]
                    is_sorting_of(names, entry_names(registry.devices@))
                        && r.layout.order() == reconciled(saved.order(), names),
                None => is_sorting_of(
                    r.layout.order(),
                    entry_names(registry.devices@),
                ),
            },
            are_blank(r.devices@, r.layout.order(), registry.devices@),
            r.running.names() == Seq::<Seq<char>>::empty(),
            r.connected_devices.names() == Seq::<Seq<char>>::empty(),
            r.device_addresses.names() == Seq::<Seq<char>>::empty(),
            r.heartbeat_cache.names() == Seq::<Seq<char>>::empty(),
            r.mask_enabled == mask_enabled,
            r.current_mask == 0,
            r.sequence == 0,
            r.mask_publisher == mask_publisher,
            r.debug_publisher == debug_publisher,
            r.publish_count == 0,
            r.last_freq_check_ns == now_ns,
            r.measured == (Share { part: 0, whole: 1 }),
            r.last_status_refresh_ns == now_ns,
            r.recording is None,
            r.recorder.active is None,
            r.recorder.mask_decimation == MASK_DECIMATION,
            r.recorder.mask_counter == 0,
            r.replay.state == ReplayState::Idle,
            r.replay.session_id is None,
            r.replay.progress == (Share { part: 0, whole: 1 }),
            r.replay.elapsed_ns == 0,
            r.replay.total_ns == 0,
            r.replay.speed_bits == SPEED_NORMAL_BITS,
            r.replay.error is None,
            !r.replay.cancel,
            r.pending_restarts@ == Seq::<PendingRestart>::empty(),
    {
        let names: Vec<String> = registry.device_names_sorted();
        let layout: MaskLayout = MaskLayout::load_or_default(saved_layout, names.as_slice());
        let devices: Vec<DeviceStatus> = blank_devices(&layout, &registry);
        Engine {
            registry,
            layout,
            devices,
            running: NameMap::new(),
            connected_devices: NameMap::new(),
            device_addresses: NameMap::new(),
            mask_enabled,
            current_mask: 0,
            sequence: 0,
            mask_publisher,
            debug_publisher,
            publish_count: 0,
            last_freq_check_ns: now_ns,
            measured: Share { part: 0, whole: 1 },
            heartbeat_cache: NameMap::new(),
            last_status_refresh_ns: now_ns,
            recording: None,
            recorder: RecorderCore::new(),
            replay: ReplayManager::new(),
            pending_restarts: Vec::new(),
        }
    }

    /// The place of the process of a device among the running processes.
    pub open spec fn process_of(self, name: Seq<char>) -> Option<int> {
        first_where(self.running.held(), runs_for(name))
    }

    /// Whether a device is connected.
    pub open spec fn is_connected(self, name: Seq<char>) -> bool {
        first_where(self.connected_devices.held(), is_named(name)) is Some
    }

    /// What is known of a device.
    pub open spec fn facts_of(self, name: Seq<char>, now_ns: u64) -> DeviceFacts {
        DeviceFacts {
            online: self.is_connected(name),
            process: match self.process_of(name) {
                Some(i) => Some(
                    (
                        self.running.held()[i].pid,
                        time_since(now_ns, self.running.held()[i].started_at_ns) as u64,
                    ),
                ),
                None => None,
            },
            uses_heartbeat: name_has_heartbeat(self.registry.devices@, name),
            heartbeat: looked_up(self.heartbeat_cache@, name),
            address: match looked_up(self.device_addresses@, name) {
                Some(a) => Some(a@),
                None => None,
            },
        }
    }

    /// Finds the process of a device.
    pub fn find_process(&self, name: &str) -> (r: Option<usize>)
        ensures
            match r {
                Some(i) => self.process_of(name@) == Some(i as int) && i < self.running.names().len()
                    && self.running.held()[i as int].entry_name@ == name@,
                None => self.process_of(name@) == None::<int>,
            },
            self.running.held().len() == self.running.names().len(),
    {
        let n: usize = self.running.len();
        let mut i: usize = 0;
        while i < n
            invariant
                n == self.running.names().len(),
                n == self.running.held().len(),
                i <= n,
                forall|k: int| 0 <= k < i ==> !runs_for(name@)(#[trigger] self.running.held()[k]),
            decreases n - i,
        {
            if str_eq(self.running.value_at(i).entry_name.as_str(), name) {
                proof {
                    lemma_first_is(self.running.held(), runs_for(name@), i as int);
                }
                return Some(i);
            }
            i = i + 1;
        }
        proof {
            lemma_first_is_none(self.running.held(), runs_for(name@));
        }
        None
    }

    /// Finds the source of a connected device.
    pub fn find_connected(&self, name: &str) -> (r: Option<usize>)
        ensures
            match r {
                Some(i) => first_where(self.connected_devices.held(), is_named(name@)) == Some(
                    i as int,
                ) && i < self.connected_devices.names().len(),
                None => !self.is_connected(name@),
            },
    {
        let n: usize = self.connected_devices.len();
        let mut i: usize = 0;
        while i < n
            invariant
                n == self.connected_devices.names().len(),
                n == self.connected_devices.held().len(),
                i <= n,
                forall|k: int|
                    0 <= k < i ==> !is_named(name@)(#[trigger] self.connected_devices.held()[k]),
            decreases n - i,
        {
            if str_eq(self.connected_devices.value_at(i).as_str(), name) {
                proof {
                    lemma_first_is(self.connected_devices.held(), is_named(name@), i as int);
                }
                return Some(i);
            }
            i = i + 1;
        }
        proof {
            lemma_first_is_none(self.connected_devices.held(), is_named(name@));
        }
        None
    }

    fn uses_heartbeat(&self, name: &str) -> (r: bool)
        ensures
            r == name_has_heartbeat(self.registry.devices@, name@),
    {
        let n: usize = self.registry.devices.len();
        let mut i: usize = 0;
        while i < n
            invariant
                n == self.registry.devices@.len(),
                i <= n,
                forall|k: int|
                    0 <= k < i ==> !((#[trigger] self.registry.devices@[k]).name@ == name@
                        && has_heartbeat(self.registry.devices@[k])),
            decreases n - i,
        {
            let entry: &DeviceEntry = &self.registry.devices[i];
            if str_eq(entry.name.as_str(), name) && device_uses_heartbeat(entry) {
                assert(self.registry.devices@[i as int].name@ == name@);
                return true;
            }
            i = i + 1;
        }
        false
    }

    /// The source of the process of a device.
    pub open spec fn source_of(self, name: Seq<char>) -> Seq<char> {
        self.running.names()[self.process_of(name)->0]
    }

    /// The sources whose processes are to be restarted, in the order of the devices.
    pub open spec fn restart_sources(self, names: Seq<Seq<char>>, now_ns: u64) -> Seq<Seq<char>>
        decreases names.len(),
    {
        if names.len() == 0 {
            seq![]
        } else {
            let rest = self.restart_sources(names.drop_last(), now_ns);
            let name = names.last();
            if self.facts_of(name, now_ns).must_restart() && !rest.contains(self.source_of(name)) {
                rest.push(self.source_of(name))
            } else {
                rest
            }
        }
    }

    /// The statuses of all devices brought up to date, and the sources whose processes are to be
    /// restarted.
    pub fn assess_devices(&self, now_ns: u64) -> (r: (Vec<DeviceStatus>, Vec<String>))
        ensures
            r.0@.len() == self.devices@.len(),
            forall|i: int|
                0 <= i < r.0@.len() ==> self.facts_of(self.devices@[i].name@, now_ns).is_status(
                    self.devices@[i],
                    #[trigger] r.0@[i],
                ),
            texts(r.1@) == self.restart_sources(status_names(self.devices@), now_ns),
    {
        let ghost names = status_names(self.devices@);
        let n: usize = self.devices.len();
        let mut out: Vec<DeviceStatus> = Vec::new();
        let mut sources: Vec<String> = Vec::new();
        let mut i: usize = 0;
        assert(texts(sources@) =~= self.restart_sources(names.take(0), now_ns));
        while i < n
            invariant
                n == self.devices@.len(),
                i <= n,
                out@.len() == i,
                forall|k: int|
                    0 <= k < i ==> self.facts_of(self.devices@[k].name@, now_ns).is_status(
                        self.devices@[k],
                        #[trigger] out@[k],
                    ),
                names == status_names(self.devices@),
                texts(sources@) == self.restart_sources(names.take(i as int), now_ns),
            decreases n - i,
        {
            let mut device: DeviceStatus = self.devices[i].clone();
            let ghost name = device.name@;
            let at: Option<usize> = self.find_process(device.name.as_str());
            let process: Option<(u32, u64)> = match at {
                Some(k) => {
                    let p: &RunningProcess = self.running.value_at(k);
                    Some((p.pid, now_ns.saturating_sub(p.started_at_ns)))
                },
                None => None,
            };
            let online: bool = self.find_connected(device.name.as_str()).is_some();
            let uses: bool = self.uses_heartbeat(device.name.as_str());
            let heartbeat: Option<&Heartbeat> = self.heartbeat_cache.get(device.name.as_str());
            let address: Option<&String> = self.device_addresses.get(device.name.as_str());
            let restart: bool = assess(&mut device, online, process, uses, heartbeat, address);
            assert(option_deref(heartbeat) == looked_up(self.heartbeat_cache@, name));
            assert(self.facts_of(name, now_ns).is_status(self.devices@[i as int], device));
            out.push(device);
            proof {
                assert(names.take(i as int + 1).drop_last() =~= names.take(i as int));
                assert(names.take(i as int + 1).last() == name);
            }
            if restart {
                if let Some(k) = at {
                    let source: String = self.running.name_at(k).clone();
                    if !is_among(sources.as_slice(), source.as_str()) {
                        let ghost before = sources@;
                        sources.push(source);
                        assert(texts(sources@) =~= texts(before).push(source@));
                    }
                }
            }
            i = i + 1;
        }
        assert(names.take(n as int) =~= names);
        (out, sources)
    }
}

/// Of a blank status nothing is known but the name, the bit, and the backend: that of the device's
/// entry, or `usb`.
pub proof fn blank_devices_are_unknown(
    devices: Seq<DeviceStatus>,
    order: Seq<Seq<char>>,
    entries: Seq<DeviceEntry>,
    i: int,
)
    requires
        are_blank(devices, order, entries),
        0 <= i < order.len(),
    ensures
        devices.len() == order.len(),
        devices[i].name@ == order[i],
        devices[i].bit_index == i,
        !devices[i].discovered,
        !devices[i].process_running,
        devices[i].pid is None,
        devices[i].heartbeat_ok is None,
        devices[i].last_heartbeat_age_ms is None,
        devices[i].state_reason is None,
        devices[i].address is None,
        entry_named(entries, order[i]) matches Some(k) ==> devices[i].backend@
            == entries[k].backend@,
        entry_named(entries, order[i]) is None ==> devices[i].backend@ == "usb"@,
{
    assert(is_blank(devices[i], i, order[i], entries));
}

/// The backend of a registered device is that of its entry, and of any other `usb`.
pub proof fn backends_are_registered(entries: Seq<DeviceEntry>, name: Seq<char>)
    ensures
        entry_named(entries, name) matches Some(k) ==> backend_of(entries, name)
            == entries[k].backend@,
        entry_named(entries, name) is None ==> backend_of(entries, name) == "usb"@,
{
}

/// The process of a device is the first one that runs for it, and a device is connected where a
/// source has its name.
pub proof fn processes_are_found_by_device(engine: Engine, name: Seq<char>)
    ensures
        match engine.process_of(name) {
            Some(i) => 0 <= i < engine.running.held().len()
                && engine.running.held()[i].entry_name@ == name && engine.source_of(name)
                == engine.running.names()[i] && forall|k: int|
                0 <= k < i ==> (#[trigger] engine.running.held()[k]).entry_name@ != name,
            None => forall|k: int|
                0 <= k < engine.running.held().len() ==> (
                #[trigger] engine.running.held()[k]).entry_name@ != name,
        },
        engine.is_connected(name) <==> exists|i: int|
            0 <= i < engine.connected_devices.held().len() && (
            #[trigger] engine.connected_devices.held()[i])@ == name,
{
    first_where_finds(engine.running.held(), runs_for(name));
    first_where_finds(engine.connected_devices.held(), is_named(name));
    if engine.is_connected(name) {
        let i = first_where(engine.connected_devices.held(), is_named(name))->0;
        assert(engine.connected_devices.held()[i]@ == name);
    }
}

/// What is known of a device is what the engine holds of it: its source, its process and for how long
/// that has run, its heartbeat, and its address.
pub proof fn facts_are_what_the_engine_holds(engine: Engine, name: Seq<char>, now_ns: u64)
    ensures
        ({
            let facts = engine.facts_of(name, now_ns);
            &&& facts.online <==> engine.is_connected(name)
            &&& facts.process is Some <==> engine.process_of(name) is Some
            &&& engine.process_of(name) matches Some(i) ==> {
                let p = engine.running.held()[i];
                &&& facts.process matches Some(x)
                &&& x.0 == p.pid
                &&& p.started_at_ns <= now_ns ==> x.1 == now_ns - p.started_at_ns
            }
            &&& facts.uses_heartbeat <==> exists|i: int|
                0 <= i < engine.registry.devices@.len() && (
                #[trigger] engine.registry.devices@[i]).name@ == name && has_heartbeat(
                    engine.registry.devices@[i],
                )
            &&& engine.heartbeat_cache@.contains_key(name) ==> facts.heartbeat == Some(
                engine.heartbeat_cache@[name],
            )
            &&& !engine.heartbeat_cache@.contains_key(name) ==> facts.heartbeat is None
            &&& engine.device_addresses@.contains_key(name) ==> facts.address == Some(
                engine.device_addresses@[name]@,
            )
            &&& !engine.device_addresses@.contains_key(name) ==> facts.address is None
        }),
{
}

/// Each device whose process must start again has its source restarted, once, and no other source is;
/// the sources stand in the order of the devices.
pub proof fn devices_that_must_are_restarted(
    engine: Engine,
    names: Seq<Seq<char>>,
    now_ns: u64,
    i: int,
    source: Seq<char>,
)
    ensures
        ({
            let sources = engine.restart_sources(names, now_ns);
            &&& 0 <= i < names.len() && engine.facts_of(names[i], now_ns).must_restart()
                ==> sources.contains(engine.source_of(names[i]))
            &&& sources.contains(source) ==> exists|k: int|
                0 <= k < names.len() && engine.facts_of(#[trigger] names[k], now_ns).must_restart()
                    && engine.source_of(names[k]) == source
            &&& sources.no_duplicates()
            &&& 0 <= i <= names.len() ==> {
                let first = engine.restart_sources(names.take(i), now_ns);
                first.len() <= sources.len() && sources.take(first.len() as int) == first
            }
        }),
    decreases names.len(),
{
    let sources = engine.restart_sources(names, now_ns);
    if i == names.len() {
        assert(names.take(i) =~= names);
        assert(sources.take(sources.len() as int) =~= sources);
    }
    if names.len() > 0 {
        let init = names.drop_last();
        let rest = engine.restart_sources(init, now_ns);
        devices_that_must_are_restarted(engine, init, now_ns, i, source);
        lemma_pushed(rest, engine.source_of(names.last()));
        if 0 <= i < names.len() {
            assert(init.take(i) =~= names.take(i));
            let first = engine.restart_sources(names.take(i), now_ns);
            assert(sources.take(first.len() as int) =~= rest.take(first.len() as int));
            if i < init.len() {
                assert(init[i] == names[i]);
            }
        }
        if sources.contains(source) {
            if rest.contains(source) {
                let k = choose|k: int|
                    0 <= k < init.len() && engine.facts_of(#[trigger] init[k], now_ns).must_restart()
                        && engine.source_of(init[k]) == source;
                assert(names[k] == init[k]);
            } else {
                assert(names[names.len() - 1] == names.last());
            }
        }
        if sources != rest {
            let s = engine.source_of(names.last());
            assert forall|a: int, b: int|
                0 <= a < sources.len() && 0 <= b < sources.len() && a != b implies sources[a]
                != sources[b] by {
                if a < rest.len() && b < rest.len() {
                    assert(rest[a] != rest[b]);
                } else if a < rest.len() {
                    assert(rest.contains(rest[a]));
                } else if b < rest.len() {
                    assert(rest.contains(rest[b]));
                }
            }
        }
    }
}

/// The names of statuses are those of each, in their order; between two looks at all devices lie two
/// hundred milliseconds.
pub proof fn names_of_statuses_are_those_of_each(devices: Seq<DeviceStatus>, i: int)
    ensures
        status_names(devices).len() == devices.len(),
        0 <= i < devices.len() ==> status_names(devices)[i] == devices[i].name@,
        STATUS_REFRESH_MS == 200,
{
}

} // verus!
