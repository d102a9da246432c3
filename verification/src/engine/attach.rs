//! What happens to processes when devices come and go.

use vstd::prelude::*;
use crate::discovery::DiscoveredDevice;
use crate::engine::heartbeat::{device_uses_heartbeat, has_heartbeat, heartbeat_file_name,
    safe_name};
use crate::engine::lifecycle::{clone_restart, device_names, is_end_of, is_restart_of, plan_restart};
use crate::engine::process::{PendingRestart, RunningProcess, SpawnRequest, Termination};
use crate::engine::recording::looked_up;
use crate::engine::state::{backend_of, Engine};
use crate::registry::DeviceEntry;
use crate::seqs::{lemma_filter_none, lemma_filter_step, lemma_filter_whole, lemma_pushed};
use crate::text::{has_part, maybe_text, owned, str_eq, texts};

verus! {

/// Whether `r` asks for the process of a device.
pub open spec fn is_spawn_of(
    r: SpawnRequest,
    source_id: Seq<char>,
    entry: DeviceEntry,
    restart_count: u32,
    address: Option<Seq<char>>,
) -> bool {
    &&& r.source_id@ == source_id
    &&& r.entry == entry
    &&& r.restart_count == restart_count
    &&& maybe_text(r.address) == address
    &&& maybe_text(r.heartbeat_file) == (if has_heartbeat(entry) {
        Some(safe_name(entry.name@) + ".json"@)
    } else {
        None
    })
    &&& r.log_file@ == entry.name@ + ".log"@
}

/// The predicate of sources whose processes have exited.
pub open spec fn has_exited(running: Map<Seq<char>, RunningProcess>, pids: Seq<u32>) -> spec_fn(
    Seq<char>,
) -> bool {
    |s: Seq<char>| pids.contains(running[s].pid)
}

/// The predicate of restarts whose time has come.
pub open spec fn is_ready(now_ns: u64) -> spec_fn(PendingRestart) -> bool {
    |r: PendingRestart| now_ns >= r.restart_at_ns
}

/// The predicate of restarts whose time has not come.
pub open spec fn is_not_ready(now_ns: u64) -> spec_fn(PendingRestart) -> bool {
    |r: PendingRestart| now_ns < r.restart_at_ns
}

fn has_pid(pids: &Vec<u32>, pid: u32) -> (r: bool)
    ensures
        r == pids@.contains(pid),
{
    let n: usize = pids.len();
    let mut i: usize = 0;
    while i < n
        invariant
            n == pids@.len(),
            i <= n,
            forall|k: int| 0 <= k < i ==> pids@[k] != pid,
        decreases n - i,
    {
        if pids[i] == pid {
            assert(pids@[i as int] == pid);
            return true;
        }
        i = i + 1;
    }
    false
}

impl Engine {
    /// Whether a process is started anew for a device that is there: one is where the source is
    /// connected, and for mDNS devices always.
    pub open spec fn comes_back(self, source_id: Seq<char>, entry: DeviceEntry) -> bool {
        self.connected_devices@.contains_key(source_id) || entry.backend@ == "mdns"@
    }

    /// Tests whether a process is started anew for a device.
    pub fn may_come_back(&self, source_id: &str, entry: &DeviceEntry) -> (r: bool)
        ensures
            r == self.comes_back(source_id@, *entry),
    {
        self.connected_devices.contains_key(source_id) || str_eq(entry.backend.as_str(), "mdns")
    }

    /// Whether nothing is started for a source: a process runs for it, or there is no command.
    pub open spec fn needs_no_process(self, source_id: Seq<char>, entry: DeviceEntry) -> bool {
        self.running@.contains_key(source_id) || entry.on_attach@.len() == 0
    }

    /// Whether the process of an mDNS device runs under another source.
    pub open spec fn has_moved(self, entry: DeviceEntry) -> bool {
        entry.backend@ == "mdns"@ && self.process_of(entry.name@) is Some
    }

    /// Whether `after` and `request` are what becomes of an engine when a device is attached: no
    /// process where none is needed; for an mDNS device whose process runs under another source,
    /// that process under the new source; or else a new process.
    pub open spec fn is_attached(
        self,
        source_id: Seq<char>,
        entry: DeviceEntry,
        restart_count: u32,
        after: Engine,
        request: Option<SpawnRequest>,
    ) -> bool {
        if self.needs_no_process(source_id, entry) {
            after == self && request is None
        } else if self.has_moved(entry) {
            let old_source = self.source_of(entry.name@);
            &&& request is None
            &&& after.running@ == self.running@.remove(old_source).insert(
                source_id,
                self.running@[old_source],
            )
            &&& after == Engine { running: after.running, ..self }
        } else {
            &&& after == self
            &&& request is Some
            &&& is_spawn_of(
                request->0,
                source_id,
                entry,
                restart_count,
                match looked_up(self.device_addresses@, entry.name@) {
                    Some(a) => Some(a@),
                    None => None,
                },
            )
        }
    }

    /// Attaches a device: gives the process to start, if one is to be started.
    pub fn spawn_attach_with_count(
        &mut self,
        source_id: &str,
        entry: &DeviceEntry,
        restart_count: u32,
    ) -> (r: Option<SpawnRequest>)
        ensures
            old(self).is_attached(source_id@, *entry, restart_count, *final(self), r),
    {
        if self.running.contains_key(source_id) || entry.on_attach.as_str().unicode_len() == 0 {
            return None;
        }
        if str_eq(entry.backend.as_str(), "mdns") {
            if let Some(i) = self.find_process(entry.name.as_str()) {
                let old_source: String = self.running.name_at(i).clone();
                if let Some(process) = self.running.remove(old_source.as_str()) {
                    self.running.insert(owned(source_id), process);
                }
                return None;
            }
        }
        let address: Option<String> = match self.device_addresses.get(entry.name.as_str()) {
            Some(a) => Some(a.clone()),
            None => None,
        };
        let heartbeat_file: Option<String> = if device_uses_heartbeat(entry) {
            Some(heartbeat_file_name(entry.name.as_str()))
        } else {
            None
        };
        let mut log_file: String = owned(entry.name.as_str());
        log_file.append(".log");
        Some(
            SpawnRequest {
                source_id: owned(source_id),
                entry: entry.clone(),
                restart_count,
                address,
                heartbeat_file,
                log_file,
            },
        )
    }

    /// Notes that the process of a device was started. What its heartbeat said before is forgotten.
    pub fn attached(&mut self, request: &SpawnRequest, pid: u32, now_ns: u64)
        ensures
            final(self).running@ == old(self).running@.insert(
                request.source_id@,
                RunningProcess {
                    pid,
                    entry_name: request.entry.name,
                    on_detach: request.entry.on_detach,
                    entry: request.entry,
                    restart_count: request.restart_count,
                    started_at_ns: now_ns,
                },
            ),
            final(self).heartbeat_cache@ == old(self).heartbeat_cache@.remove(request.entry.name@),
            *final(self) == (Engine {
                running: final(self).running,
                heartbeat_cache: final(self).heartbeat_cache,
                ..*old(self)
            }),
    {
        self.heartbeat_cache.remove(request.entry.name.as_str());
        self.running.insert(
            request.source_id.clone(),
            RunningProcess {
                pid,
                entry_name: request.entry.name.clone(),
                on_detach: request.entry.on_detach.clone(),
                entry: request.entry.clone(),
                restart_count: request.restart_count,
                started_at_ns: now_ns,
            },
        );
    }

    /// This engine with a device connected.
    pub open spec fn is_connected_with(self, d: DiscoveredDevice, after: Engine) -> bool {
        &&& after.connected_devices@ == self.connected_devices@.insert(d.source_id@, d.device_name)
        &&& after.device_addresses@ == (match d.address {
            Some(a) => self.device_addresses@.insert(d.device_name@, a),
            None => self.device_addresses@,
        })
        &&& after == Engine {
            connected_devices: after.connected_devices,
            device_addresses: after.device_addresses,
            ..self
        }
    }

    fn connect(&mut self, d: &DiscoveredDevice)
        ensures
            old(self).is_connected_with(*d, *final(self)),
    {
        self.connected_devices.insert(d.source_id.clone(), d.device_name.clone());
        if let Some(a) = &d.address {
            self.device_addresses.insert(d.device_name.clone(), a.clone());
        }
    }

    /// Takes note of a device that was discovered: it is connected, and its process is attached.
    pub fn device_added(&mut self, d: &DiscoveredDevice) -> (r: Option<SpawnRequest>)
        ensures
            exists|middle: Engine|
                #![trigger old(self).is_connected_with(*d, middle)]
                old(self).is_connected_with(*d, middle) && middle.is_attached(
                    d.source_id@,
                    d.entry,
                    0,
                    *final(self),
                    r,
                ),
    {
        let ghost start = *self;
        self.connect(d);
        let ghost middle = *self;
        let r: Option<SpawnRequest> = self.spawn_attach_with_count(d.source_id.as_str(), &d.entry, 0);
        assert(start.is_connected_with(*d, middle));
        r
    }

    /// Takes note of a device that has gone: it is no longer connected, and its address is
    /// forgotten. Its process ends, unless it is an mDNS device.
    pub fn device_removed(&mut self, source_id: &str) -> (r: Option<Termination>)
        ensures
            !old(self).connected_devices@.contains_key(source_id@) ==> r is None && *final(self)
                == *old(self),
            old(self).connected_devices@.contains_key(source_id@) ==> {
                let name = old(self).connected_devices@[source_id@]@;
                let ends = backend_of(old(self).registry.devices@, name) != "mdns"@
                    && old(self).running@.contains_key(source_id@);
                &&& final(self).connected_devices@ == old(self).connected_devices@.remove(source_id@)
                &&& final(self).device_addresses@ == old(self).device_addresses@.remove(name)
                &&& r is Some <==> ends
                &&& r matches Some(t) ==> is_end_of(t, old(self).running@[source_id@])
                &&& final(self).running@ == (if ends {
                    old(self).running@.remove(source_id@)
                } else {
                    old(self).running@
                })
                &&& final(self).heartbeat_cache@ == (if ends {
                    old(self).heartbeat_cache@.remove(old(self).running@[source_id@].entry_name@)
                } else {
                    old(self).heartbeat_cache@
                })
                &&& *final(self) == (Engine {
                    connected_devices: final(self).connected_devices,
                    device_addresses: final(self).device_addresses,
                    running: final(self).running,
                    heartbeat_cache: final(self).heartbeat_cache,
                    ..*old(self)
                })
            },
    {
        if !self.connected_devices.contains_key(source_id) {
            return None;
        }
        if let Some(name) = self.connected_devices.remove(source_id) {
            self.device_addresses.remove(name.as_str());
            let is_mdns: bool = match self.registry.find(name.as_str()) {
                Some(entry) => str_eq(entry.backend.as_str(), "mdns"),
                None => {
                    proof {
                        reveal_strlit("usb");
                        reveal_strlit("mdns");
                        assert("usb"@.len() != "mdns"@.len());
                    }
                    false
                },
            };
            if !is_mdns && self.running.contains_key(source_id) {
                return self.terminate_process(source_id);
            }
        }
        None
    }

    /// Takes processes that have exited off the list. Those that come back are planned to start
    /// again. Returns whether there were any.
    pub fn reap_exited(&mut self, pids: &Vec<u32>, now_ns: u64, nanos: u32) -> (r: bool)
        ensures
            ({
                let exited = old(self).running.names().filter(
                    has_exited(old(self).running@, pids@),
                );
                let back = exited.filter(old(self).returning());
                &&& r == (exited.len() > 0)
                &&& final(self).running@ == old(self).running@.remove_keys(exited.to_set())
                &&& final(self).pending_restarts@.len() == old(self).pending_restarts@.len()
                    + back.len()
                &&& final(self).pending_restarts@.take(old(self).pending_restarts@.len() as int)
                    == old(self).pending_restarts@
                &&& forall|j: int|
                    0 <= j < back.len() ==> is_restart_of(
                        #[trigger] final(self).pending_restarts@[old(self).pending_restarts@.len() + j],
                        back[j],
                        old(self).running@[back[j]],
                        now_ns,
                        nanos,
                    )
            }),
            *final(self) == (Engine {
                running: final(self).running,
                pending_restarts: final(self).pending_restarts,
                ..*old(self)
            }),
    {
        let ghost start = *self;
        let ghost p = has_exited(start.running@, pids@);
        let ghost q = start.returning();
        let ghost names = start.running.names();
        let ghost pending = start.pending_restarts@;
        let n: usize = self.running.len();
        let mut exited: Vec<String> = Vec::new();
        let mut i: usize = 0;
        proof {
            lemma_filter_none(names, p);
            lemma_filter_none(Seq::<Seq<char>>::empty(), q);
            assert(Seq::<Seq<char>>::empty().take(0) =~= Seq::<Seq<char>>::empty());
            assert(texts(exited@) =~= names.take(0).filter(p));
            assert(pending.take(pending.len() as int) =~= pending);
        }
        while i < n
            invariant
                n == names.len(),
                i <= n,
                names == start.running.names(),
                p == has_exited(start.running@, pids@),
                q == start.returning(),
                pending == start.pending_restarts@,
                self.running == start.running,
                self.connected_devices == start.connected_devices,
                texts(exited@) == names.take(i as int).filter(p),
                ({
                    let back = names.take(i as int).filter(p).filter(q);
                    &&& self.pending_restarts@.len() == pending.len() + back.len()
                    &&& self.pending_restarts@.take(pending.len() as int) == pending
                    &&& forall|j: int|
                        0 <= j < back.len() ==> is_restart_of(
                            #[trigger] self.pending_restarts@[pending.len() + j],
                            back[j],
                            start.running@[back[j]],
                            now_ns,
                            nanos,
                        )
                }),
                *self == (Engine { pending_restarts: self.pending_restarts, ..start }),
            decreases n - i,
        {
            let ghost s = names[i as int];
            let ghost out = names.take(i as int).filter(p);
            proof {
                lemma_filter_step(names, p, i as int);
                reveal(Seq::filter);
                assert(out.push(s).drop_last() =~= out);
            }
            let source: String = self.running.name_at(i).clone();
            let pid: u32 = self.running.value_at(i).pid;
            if has_pid(pids, pid) {
                let ghost was = self.pending_restarts@;
                if self.may_come_back(source.as_str(), &self.running.value_at(i).entry) {
                    let restart: PendingRestart = plan_restart(
                        source.as_str(),
                        self.running.value_at(i),
                        now_ns,
                        nanos,
                    );
                    self.pending_restarts.push(restart);
                    proof {
                        let back = out.filter(q);
                        assert(out.push(s).filter(q) == back.push(s));
                        let now = self.pending_restarts@;
                        assert(now.take(pending.len() as int) =~= was.take(pending.len() as int));
                        assert forall|j: int| 0 <= j < back.len() + 1 implies is_restart_of(
                            #[trigger] now[pending.len() + j],
                            back.push(s)[j],
                            start.running@[back.push(s)[j]],
                            now_ns,
                            nanos,
                        ) by {
                            if j < back.len() {
                                assert(now[pending.len() + j] == was[pending.len() + j]);
                            }
                        }
                    }
                }
                let ghost before = exited@;
                exited.push(source);
                assert(texts(exited@) =~= texts(before).push(s));
            }
            i = i + 1;
        }
        proof {
            lemma_filter_whole(names, p);
        }
        let ghost after_first = self.pending_restarts@;
        let m: usize = exited.len();
        let ghost gone = texts(exited@);
        let mut k: usize = 0;
        assert(start.running@.remove_keys(gone.take(0).to_set()) =~= start.running@);
        while k < m
            invariant
                m == exited@.len(),
                k <= m,
                gone == texts(exited@),
                self.running@ == start.running@.remove_keys(gone.take(k as int).to_set()),
                *self == (Engine {
                    running: self.running,
                    pending_restarts: self.pending_restarts,
                    ..start
                }),
                self.pending_restarts@ == after_first,
            decreases m - k,
        {
            self.running.remove(exited[k].as_str());
            proof {
                let done = gone.take(k as int);
                let s = gone[k as int];
                assert(gone.take(k as int + 1) =~= done.push(s));
                lemma_pushed(done, s);
                assert(self.running@ =~= start.running@.remove_keys(done.push(s).to_set()));
            }
            k = k + 1;
        }
        assert(gone.take(m as int) =~= gone);
        m > 0
    }

    /// The predicate of sources whose processes come back.
    pub open spec fn returning(self) -> spec_fn(Seq<char>) -> bool {
        |s: Seq<char>| self.comes_back(s, self.running@[s].entry)
    }

    /// Takes the restarts whose time has come off the list.
    pub fn take_ready_restarts(&mut self, now_ns: u64) -> (r: Vec<PendingRestart>)
        ensures
            r@ == old(self).pending_restarts@.filter(is_ready(now_ns)),
            final(self).pending_restarts@ == old(self).pending_restarts@.filter(is_not_ready(now_ns)),
            *final(self) == (Engine { pending_restarts: final(self).pending_restarts, ..*old(self) }),
    {
        let ghost all = self.pending_restarts@;
        let ghost p = is_ready(now_ns);
        let ghost q = is_not_ready(now_ns);
        let n: usize = self.pending_restarts.len();
        let mut ready: Vec<PendingRestart> = Vec::new();
        let mut waiting: Vec<PendingRestart> = Vec::new();
        let mut i: usize = 0;
        proof {
            lemma_filter_none(all, p);
            lemma_filter_none(all, q);
        }
        while i < n
            invariant
                n == all.len(),
                i <= n,
                all == self.pending_restarts@,
                *self == *old(self),
                p == is_ready(now_ns),
                q == is_not_ready(now_ns),
                ready@ == all.take(i as int).filter(p),
                waiting@ == all.take(i as int).filter(q),
            decreases n - i,
        {
            proof {
                lemma_filter_step(all, p, i as int);
                lemma_filter_step(all, q, i as int);
            }
            let restart: PendingRestart = clone_restart(&self.pending_restarts[i]);
            if now_ns >= restart.restart_at_ns {
                ready.push(restart);
            } else {
                waiting.push(restart);
            }
            i = i + 1;
        }
        proof {
            lemma_filter_whole(all, p);
            lemma_filter_whole(all, q);
        }
        self.pending_restarts = waiting;
        ready
    }

    /// Takes all processes off the list, in order to end them.
    pub fn kill_all(&mut self) -> (r: Vec<Termination>)
        ensures
            final(self).running@ == Map::<Seq<char>, RunningProcess>::empty(),
            r@.len() == old(self).running.names().len(),
            forall|i: int|
                0 <= i < r@.len() ==> is_end_of(
                    #[trigger] r@[i],
                    old(self).running@[old(self).running.names()[i]],
                ),
            final(self).heartbeat_cache@ == old(self).heartbeat_cache@.remove_keys(
                device_names(old(self).running@, old(self).running.names()).to_set(),
            ),
            *final(self) == (Engine {
                running: final(self).running,
                heartbeat_cache: final(self).heartbeat_cache,
                ..*old(self)
            }),
    {
        let ghost start = *self;
        let ghost names = start.running.names();
        let n: usize = self.running.len();
        let mut sources: Vec<String> = Vec::new();
        let mut i: usize = 0;
        while i < n
            invariant
                n == names.len(),
                i <= n,
                *self == start,
                names == start.running.names(),
                texts(sources@) == names.take(i as int),
            decreases n - i,
        {
            let ghost before = sources@;
            sources.push(self.running.name_at(i).clone());
            assert(texts(sources@) =~= texts(before).push(names[i as int]));
            assert(names.take(i as int + 1) =~= names.take(i as int).push(names[i as int]));
            i = i + 1;
        }
        assert(names.take(n as int) =~= names);
        assert(names.no_duplicates()) by {
            assert forall|a: int, b: int| 0 <= a < names.len() && 0 <= b < names.len() && a != b implies names[a]
                != names[b] by {
                if a < b {
                    assert(names[a] != names[b]);
                } else {
                    assert(names[b] != names[a]);
                }
            }
        }
        let mut out: Vec<Termination> = Vec::new();
        let mut k: usize = 0;
        assert(start.running@.remove_keys(names.take(0).to_set()) =~= start.running@);
        assert(start.heartbeat_cache@.remove_keys(device_names(start.running@, names.take(0)).to_set())
            =~= start.heartbeat_cache@);
        while k < n
            invariant
                n == names.len(),
                k <= n,
                names.no_duplicates(),
                names == start.running.names(),
                texts(sources@) == names,
                self.running@ == start.running@.remove_keys(names.take(k as int).to_set()),
                self.heartbeat_cache@ == start.heartbeat_cache@.remove_keys(
                    device_names(start.running@, names.take(k as int)).to_set(),
                ),
                out@.len() == k,
                forall|j: int|
                    0 <= j < k ==> is_end_of(#[trigger] out@[j], start.running@[names[j]]),
                *self == (Engine {
                    running: self.running,
                    heartbeat_cache: self.heartbeat_cache,
                    ..start
                }),
            decreases n - k,
        {
            let ghost done = names.take(k as int);
            let ghost s = names[k as int];
            proof {
                assert(texts(sources@)[k as int] == s);
                assert(!done.contains(s)) by {
                    if done.contains(s) {
                        let j = done.index_of(s);
                        assert(names[j] == names[k as int]);
                    }
                }
                assert(start.running@.contains_key(s));
            }
            let ended: Option<Termination> = self.terminate_process(sources[k].as_str());
            if let Some(t) = ended {
                out.push(t);
            }
            proof {
                assert(names.take(k as int + 1) =~= done.push(s));
                lemma_pushed(done, s);
                assert(self.running@ =~= start.running@.remove_keys(done.push(s).to_set()));
                let was = device_names(start.running@, done);
                let name = start.running@[s].entry_name@;
                assert(device_names(start.running@, done.push(s)) =~= was.push(name));
                lemma_pushed(was, name);
                assert(self.heartbeat_cache@ =~= start.heartbeat_cache@.remove_keys(
                    was.push(name).to_set(),
                ));
            }
            k = k + 1;
        }
        assert(self.running@ =~= Map::<Seq<char>, RunningProcess>::empty()) by {
            assert forall|x: Seq<char>| start.running@.contains_key(x) implies names.contains(x) by {}
        }
        out
    }
}

/// Each restart is either handed out once its time has come, or kept until then.
pub proof fn restarts_are_handed_out_in_time(pending: Seq<PendingRestart>, now_ns: u64, i: int)
    requires
        0 <= i < pending.len(),
    ensures
        pending.filter(is_ready(now_ns)).contains(pending[i]) || pending.filter(
            is_not_ready(now_ns),
        ).contains(pending[i]),
        now_ns >= pending[i].restart_at_ns ==> pending.filter(is_ready(now_ns)).contains(pending[i]),
        pending.filter(is_ready(now_ns)).len() + pending.filter(is_not_ready(now_ns)).len()
            == pending.len(),
{
    broadcast use vstd::seq_lib::group_filter_ensures;
    lemma_split(pending, now_ns);
    if now_ns >= pending[i].restart_at_ns {
        pending.lemma_filter_contains(is_ready(now_ns), i);
    } else {
        pending.lemma_filter_contains(is_not_ready(now_ns), i);
    }
}

proof fn lemma_split(pending: Seq<PendingRestart>, now_ns: u64)
    ensures
        pending.filter(is_ready(now_ns)).len() + pending.filter(is_not_ready(now_ns)).len()
            == pending.len(),
    decreases pending.len(),
{
    reveal(Seq::filter);
    if pending.len() > 0 {
        lemma_split(pending.drop_last(), now_ns);
    }
}

/// An mDNS device that shows up under a new source keeps its process: no process is started, and
/// the one that ran before runs under the new source.
pub proof fn moved_devices_keep_their_process(
    start: Engine,
    source_id: Seq<char>,
    entry: DeviceEntry,
    restart_count: u32,
    end: Engine,
    request: Option<SpawnRequest>,
)
    requires
        start.is_attached(source_id, entry, restart_count, end, request),
        !start.needs_no_process(source_id, entry),
        start.has_moved(entry),
    ensures
        request is None,
        end.running@.contains_key(source_id),
        end.running@[source_id] == start.running@[start.source_of(entry.name@)],
        start.source_of(entry.name@) != source_id ==> !end.running@.contains_key(
            start.source_of(entry.name@),
        ),
{
}

/// A process that is judged by its heartbeat is told where to write it: in the file that is read for
/// its device. Any other process is told of no such file.
pub proof fn processes_are_told_where_to_write(
    start: Engine,
    source_id: Seq<char>,
    entry: DeviceEntry,
    restart_count: u32,
    end: Engine,
    request: SpawnRequest,
)
    requires
        start.is_attached(source_id, entry, restart_count, end, Some(request)),
    ensures
        has_heartbeat(entry) ==> maybe_text(request.heartbeat_file) == Some(
            safe_name(entry.name@) + ".json"@,
        ),
        entry.backend@ == "mdns"@ && has_part(entry.service_type@, "_iphonevio._tcp"@)
            ==> request.heartbeat_file is Some,
        entry.backend@ != "mdns"@ ==> request.heartbeat_file is None,
        !has_part(entry.service_type@, "_iphonevio._tcp"@) ==> request.heartbeat_file is None,
        request.log_file@ == entry.name@ + ".log"@,
{
}

/// The process that is started is that of the device: for its source, with its entry, its count of
/// restarts and the address that is known of it.
pub proof fn started_processes_are_those_of_their_device(
    start: Engine,
    source_id: Seq<char>,
    entry: DeviceEntry,
    restart_count: u32,
    end: Engine,
    request: SpawnRequest,
)
    requires
        start.is_attached(source_id, entry, restart_count, end, Some(request)),
    ensures
        request.source_id@ == source_id,
        request.entry == entry,
        request.restart_count == restart_count,
        start.device_addresses@.contains_key(entry.name@) ==> maybe_text(request.address) == Some(
            start.device_addresses@[entry.name@]@,
        ),
        !start.device_addresses@.contains_key(entry.name@) ==> request.address is None,
        !start.running@.contains_key(source_id),
        entry.on_attach@.len() > 0,
        end == start,
{
}

/// A process is started for every source that has none, where its device has a command and, over
/// mDNS, no process under another source. A source with a process, and a device without a command,
/// get none, and nothing changes.
pub proof fn devices_get_one_process(
    start: Engine,
    source_id: Seq<char>,
    entry: DeviceEntry,
    restart_count: u32,
    end: Engine,
    request: Option<SpawnRequest>,
)
    requires
        start.is_attached(source_id, entry, restart_count, end, request),
    ensures
        start.running@.contains_key(source_id) ==> request is None && end == start,
        entry.on_attach@.len() == 0 ==> request is None && end == start,
        !start.running@.contains_key(source_id) && entry.on_attach@.len() > 0 && entry.backend@
            != "mdns"@ ==> request is Some,
        !start.running@.contains_key(source_id) && entry.on_attach@.len() > 0
            && start.process_of(entry.name@) is None ==> request is Some,
        entry.backend@ == "mdns"@ && start.process_of(entry.name@) is Some ==> request is None,
{
}

/// A discovered device is connected from then on, and its process is told the address that came with
/// it.
pub proof fn discovered_devices_are_connected(
    start: Engine,
    d: DiscoveredDevice,
    middle: Engine,
    end: Engine,
    request: Option<SpawnRequest>,
)
    requires
        start.is_connected_with(d, middle),
        middle.is_attached(d.source_id@, d.entry, 0, end, request),
        d.entry.name@ == d.device_name@,
    ensures
        end.connected_devices@.contains_key(d.source_id@),
        end.connected_devices@[d.source_id@] == d.device_name,
        forall|k: Seq<char>| #[trigger]
            start.connected_devices@.contains_key(k) && k != d.source_id@
                ==> end.connected_devices@.contains_key(k) && end.connected_devices@[k]
                == start.connected_devices@[k],
        d.address matches Some(a) ==> end.device_addresses@.contains_key(d.device_name@)
            && end.device_addresses@[d.device_name@] == a,
        d.address is None ==> end.device_addresses@ == start.device_addresses@,
        request matches Some(r) ==> r.restart_count == 0 && (d.address matches Some(a)
            ==> maybe_text(r.address) == Some(a@)),
        end.devices == start.devices,
        end.registry == start.registry,
        end.pending_restarts == start.pending_restarts,
{
}

/// A process comes back where its source is connected; that of an mDNS device always does, and that
/// of any other device does not without its source.
pub proof fn processes_come_back_to_connected_devices(engine: Engine, source_id: Seq<char>, entry: DeviceEntry)
    ensures
        engine.connected_devices@.contains_key(source_id) ==> engine.comes_back(source_id, entry),
        entry.backend@ == "mdns"@ ==> engine.comes_back(source_id, entry),
        !engine.connected_devices@.contains_key(source_id) && entry.backend@ != "mdns"@
            ==> !engine.comes_back(source_id, entry),
        engine.returning()(source_id) == engine.comes_back(
            source_id,
            engine.running@[source_id].entry,
        ),
{
}

/// A process has exited exactly where its own id is among those that have.
pub proof fn exits_are_known_by_their_process(
    running: Map<Seq<char>, RunningProcess>,
    pids: Seq<u32>,
    source_id: Seq<char>,
)
    ensures
        pids.contains(running[source_id].pid) <==> has_exited(running, pids)(source_id),
{
}

/// No restart is handed out before its time, and none that is due is kept.
pub proof fn restarts_wait_for_their_time(pending: Seq<PendingRestart>, now_ns: u64, i: int)
    ensures
        0 <= i < pending.filter(is_ready(now_ns)).len() ==> pending.filter(
            is_ready(now_ns),
        )[i].restart_at_ns <= now_ns,
        0 <= i < pending.filter(is_not_ready(now_ns)).len() ==> pending.filter(
            is_not_ready(now_ns),
        )[i].restart_at_ns > now_ns,
{
    broadcast use vstd::seq_lib::group_filter_ensures;
    if 0 <= i < pending.filter(is_ready(now_ns)).len() {
        assert(is_ready(now_ns)(pending.filter(is_ready(now_ns))[i]));
    }
    if 0 <= i < pending.filter(is_not_ready(now_ns)).len() {
        assert(is_not_ready(now_ns)(pending.filter(is_not_ready(now_ns))[i]));
    }
}

/// A process that is to be started is told where to write its heartbeat exactly where its device has
/// one, and is started with the command of its device and the given number of restarts.
pub proof fn requested_processes_are_those_of_their_device(
    engine: &mut Engine,
    source_id: &str,
    entry: &DeviceEntry,
    restart_count: u32,
    r: Option<SpawnRequest>,
)
    requires
        call_ensures(Engine::spawn_attach_with_count, (engine, source_id, entry, restart_count), r),
    ensures
        r matches Some(request) ==> {
            &&& has_heartbeat(*entry) ==> maybe_text(request.heartbeat_file) == Some(
                safe_name(entry.name@) + ".json"@,
            )
            &&& !has_heartbeat(*entry) ==> request.heartbeat_file is None
            &&& request.restart_count == restart_count
            &&& request.source_id@ == source_id@
        },
        entry.on_attach@.len() == 0 ==> r is None,
        old(engine).running@.contains_key(source_id@) ==> r is None,
{
}

/// A process that was started runs under its source for its device, from now on and with the restarts
/// that it was requested with.
pub proof fn started_processes_run(engine: &mut Engine, request: &SpawnRequest, pid: u32, now_ns: u64)
    requires
        call_ensures(Engine::attached, (engine, request, pid, now_ns), ()),
    ensures
        final(engine).running@.contains_key(request.source_id@),
        ({
            let p = final(engine).running@[request.source_id@];
            &&& p.pid == pid
            &&& p.entry_name@ == request.entry.name@
            &&& p.entry == request.entry
            &&& p.restart_count == request.restart_count
            &&& p.started_at_ns == now_ns
        }),
        !final(engine).heartbeat_cache@.contains_key(request.entry.name@),
        final(engine).connected_devices == old(engine).connected_devices,
        final(engine).pending_restarts == old(engine).pending_restarts,
{
}

/// A device that was removed is no longer connected and has no address; its process ends, unless the
/// device announces itself over the network. Any other source changes nothing.
pub proof fn removed_devices_are_gone(engine: &mut Engine, source_id: &str, r: Option<Termination>)
    requires
        call_ensures(Engine::device_removed, (engine, source_id), r),
    ensures
        !final(engine).connected_devices@.contains_key(source_id@),
        !old(engine).connected_devices@.contains_key(source_id@) ==> r is None && *final(engine)
            == *old(engine),
        old(engine).connected_devices@.contains_key(source_id@) ==> {
            let name = old(engine).connected_devices@[source_id@]@;
            let network = backend_of(old(engine).registry.devices@, name) == "mdns"@;
            &&& !final(engine).device_addresses@.contains_key(name)
            &&& network ==> r is None && final(engine).running@ == old(engine).running@
            &&& !network && old(engine).running@.contains_key(source_id@) ==> r is Some
                && !final(engine).running@.contains_key(source_id@)
            &&& !old(engine).running@.contains_key(source_id@) ==> r is None
        },
{
}

/// Restarts whose time has come are taken, and all others stay.
pub proof fn due_restarts_are_taken(engine: &mut Engine, now_ns: u64, r: Vec<PendingRestart>, i: int)
    requires
        call_ensures(Engine::take_ready_restarts, (engine, now_ns), r),
        0 <= i < old(engine).pending_restarts@.len(),
    ensures
        old(engine).pending_restarts@[i].restart_at_ns <= now_ns ==> r@.contains(
            old(engine).pending_restarts@[i],
        ),
        old(engine).pending_restarts@[i].restart_at_ns > now_ns ==> final(engine).pending_restarts@.contains(old(engine).pending_restarts@[i]),
        r@.len() + final(engine).pending_restarts@.len() == old(engine).pending_restarts@.len(),
        final(engine).running == old(engine).running,
{
    let pending = old(engine).pending_restarts@;
    lemma_split(pending, now_ns);
    if pending[i].restart_at_ns <= now_ns {
        pending.lemma_filter_contains(is_ready(now_ns), i);
    } else {
        pending.lemma_filter_contains(is_not_ready(now_ns), i);
    }
}

/// In the end no process runs, and each that ran is to be ended.
pub proof fn in_the_end_nothing_runs(engine: &mut Engine, r: Vec<Termination>)
    requires
        call_ensures(Engine::kill_all, (engine,), r),
    ensures
        forall|k: Seq<char>| !(#[trigger] final(engine).running@.contains_key(k)),
        r@.len() == old(engine).running.names().len(),
        final(engine).connected_devices == old(engine).connected_devices,
{
}

} // verus!
