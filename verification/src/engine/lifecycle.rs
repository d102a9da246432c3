//! The life of the processes of devices: attached, restarted, reaped and ended.

use vstd::prelude::*;
use crate::engine::heartbeat::Heartbeat;
use crate::engine::process::{add_ms, backoff_is_bounded, backoff_ms, backoff_reaches_its_limit,
    moment_after, restart_delay, restart_delay_is_near_its_backoff, restart_delay_ms, time_since, PendingRestart, RunningProcess, Termination};
use crate::engine::state::{runs_for, status_names, Engine, STATUS_REFRESH_MS};
use crate::seqs::{first_where_finds, lemma_filter_len, lemma_filter_none, lemma_filter_step,
    lemma_filter_whole, lemma_pushed};
use crate::text::{owned, str_eq, texts};

verus! {

/// The count of restarts in a row after one more.
pub open spec fn next_count(restart_count: u32) -> u32 {
    if restart_count == u32::MAX {
        u32::MAX
    } else {
        (restart_count + 1) as u32
    }
}

/// Whether `r` is the restart of a process, planned at `now_ns`.
pub open spec fn is_restart_of(
    r: PendingRestart,
    source_id: Seq<char>,
    process: RunningProcess,
    now_ns: u64,
    nanos: u32,
) -> bool {
    &&& r.source_id@ == source_id
    &&& r.entry == process.entry
    &&& r.restart_count == next_count(process.restart_count)
    &&& r.restart_at_ns == moment_after(
        now_ns,
        restart_delay(next_count(process.restart_count) as nat, nanos as nat) as u64,
    )
}

/// Whether `t` ends a process.
pub open spec fn is_end_of(t: Termination, process: RunningProcess) -> bool {
    t.pid == process.pid && t.on_detach@ == process.on_detach@
}

/// The names of the devices of processes.
pub open spec fn device_names(running: Map<Seq<char>, RunningProcess>, sources: Seq<Seq<char>>) -> Seq<
    Seq<char>,
> {
    sources.map_values(|s: Seq<char>| running[s].entry_name@)
}

/// The predicate of restarts of none of the given sources.
pub open spec fn restarts_none_of(sources: Seq<Seq<char>>) -> spec_fn(PendingRestart) -> bool {
    |r: PendingRestart| !sources.contains(r.source_id@)
}

/// Plans the restart of a process.
pub fn plan_restart(source_id: &str, process: &RunningProcess, now_ns: u64, nanos: u32) -> (r:
    PendingRestart)
    ensures
        is_restart_of(r, source_id@, *process, now_ns, nanos),
{
    let count: u32 = process.restart_count.saturating_add(1);
    proof {
        restart_delay_is_near_its_backoff(count as nat, nanos as nat);
    }
    let delay_ms: u64 = restart_delay_ms(count, nanos);
    PendingRestart {
        source_id: owned(source_id),
        entry: process.entry.clone(),
        restart_count: count,
        restart_at_ns: add_ms(now_ns, delay_ms),
    }
}

pub(crate) fn clone_restart(r: &PendingRestart) -> (c: PendingRestart)
    ensures
        c == *r,
{
    PendingRestart {
        source_id: r.source_id.clone(),
        entry: r.entry.clone(),
        restart_count: r.restart_count,
        restart_at_ns: r.restart_at_ns,
    }
}

fn drop_restarts(pending: &Vec<PendingRestart>, source_id: &str) -> (r: Vec<PendingRestart>)
    ensures
        r@ == pending@.filter(restarts_none_of(seq![source_id@])),
{
    let ghost p = restarts_none_of(seq![source_id@]);
    let n: usize = pending.len();
    let mut out: Vec<PendingRestart> = Vec::new();
    let mut i: usize = 0;
    proof {
        lemma_filter_none(pending@, p);
    }
    while i < n
        invariant
            n == pending@.len(),
            i <= n,
            p == restarts_none_of(seq![source_id@]),
            out@ == pending@.take(i as int).filter(p),
        decreases n - i,
    {
        proof {
            lemma_filter_step(pending@, p, i as int);
            assert(seq![source_id@].contains(pending@[i as int].source_id@) <==> pending@[i as int].source_id@
                == source_id@) by {
                assert(seq![source_id@][0] == source_id@);
            }
        }
        if !str_eq(pending[i].source_id.as_str(), source_id) {
            out.push(clone_restart(&pending[i]));
        }
        i = i + 1;
    }
    proof {
        lemma_filter_whole(pending@, p);
    }
    out
}

proof fn lemma_restarts_left(s: Seq<PendingRestart>, sources: Seq<Seq<char>>, one: Seq<char>)
    ensures
        s.filter(restarts_none_of(sources)).filter(restarts_none_of(seq![one])) == s.filter(
            restarts_none_of(sources.push(one)),
        ),
    decreases s.len(),
{
    reveal(Seq::filter);
    let p = restarts_none_of(sources);
    let q = restarts_none_of(seq![one]);
    let pq = restarts_none_of(sources.push(one));
    if s.len() > 0 {
        lemma_restarts_left(s.drop_last(), sources, one);
        let x = s.last();
        let k = x.source_id@;
        lemma_pushed(sources, one);
        assert(seq![one].contains(k) <==> k == one) by {
            assert(seq![one][0] == one);
        }
        let init = s.drop_last().filter(p);
        if p(x) {
            assert(init.push(x).drop_last() =~= init);
            assert(s.filter(p) == init.push(x));
        }
    }
}

proof fn lemma_restarts_kept(s: Seq<PendingRestart>, one: Seq<char>)
    requires
        forall|j: int| 0 <= j < s.len() ==> (#[trigger] s[j]).source_id@ != one,
    ensures
        s.filter(restarts_none_of(seq![one])) == s,
{
    let q = restarts_none_of(seq![one]);
    assert forall|k: int| 0 <= k < s.len() implies q(#[trigger] s[k]) by {
        assert(seq![one].contains(s[k].source_id@) ==> s[k].source_id@ == one);
    }
    lemma_filter_len(s, q);
}

impl Engine {
    /// Whether `after` is this engine without the process of a source, if it has one, and without
    /// what the heartbeat of that process said; and `end` ends that process.
    pub open spec fn is_terminated(self, source_id: Seq<char>, after: Engine, end: Option<Termination>) -> bool {
        if self.running@.contains_key(source_id) {
            let process = self.running@[source_id];
            &&& end is Some
            &&& is_end_of(end->0, process)
            &&& after.running@ == self.running@.remove(source_id)
            &&& after.heartbeat_cache@ == self.heartbeat_cache@.remove(process.entry_name@)
            &&& after == Engine {
                running: after.running,
                heartbeat_cache: after.heartbeat_cache,
                ..self
            }
        } else {
            end is None && after == self
        }
    }

    /// Takes the process of a source off the list of running processes, and with it what its
    /// heartbeat said. Gives what is to be done to end it.
    pub fn terminate_process(&mut self, source_id: &str) -> (r: Option<Termination>)
        ensures
            old(self).is_terminated(source_id@, *final(self), r),
    {
        if !self.running.contains_key(source_id) {
            return None;
        }
        match self.running.remove(source_id) {
            Some(process) => {
                self.heartbeat_cache.remove(process.entry_name.as_str());
                Some(Termination { pid: process.pid, on_detach: process.on_detach })
            },
            None => None,
        }
    }

    /// Notes what a heartbeat says, or that there is none.
    pub fn refresh_heartbeat(&mut self, device_name: &str, heartbeat: Option<Heartbeat>)
        ensures
            final(self).heartbeat_cache@ == (match heartbeat {
                Some(h) => old(self).heartbeat_cache@.insert(device_name@, h),
                None => old(self).heartbeat_cache@.remove(device_name@),
            }),
            *final(self) == (Engine { heartbeat_cache: final(self).heartbeat_cache, ..*old(self) }),
    {
        match heartbeat {
            Some(h) => {
                self.heartbeat_cache.insert(owned(device_name), h);
            },
            None => {
                self.heartbeat_cache.remove(device_name);
            },
        }
    }

    /// Whether `after` is this engine with the processes of some sources off, each planned to start
    /// again in place of what was planned for its source, and `ends` ends these processes.
    pub open spec fn is_restarted(
        self,
        sources: Seq<Seq<char>>,
        now_ns: u64,
        nanos: u32,
        after: Engine,
        ends: Seq<Termination>,
    ) -> bool {
        let kept = self.pending_restarts@.filter(restarts_none_of(sources));
        &&& after.running@ == self.running@.remove_keys(sources.to_set())
        &&& after.heartbeat_cache@ == self.heartbeat_cache@.remove_keys(
            device_names(self.running@, sources).to_set(),
        )
        &&& ends.len() == sources.len()
        &&& forall|j: int|
            0 <= j < sources.len() ==> is_end_of(#[trigger] ends[j], self.running@[sources[j]])
        &&& after.pending_restarts@.len() == kept.len() + sources.len()
        &&& after.pending_restarts@.take(kept.len() as int) == kept
        &&& forall|j: int|
            0 <= j < sources.len() ==> is_restart_of(
                #[trigger] after.pending_restarts@[kept.len() + j],
                sources[j],
                self.running@[sources[j]],
                now_ns,
                nanos,
            )
    }

    /// Brings the status of all devices up to date. Processes whose heartbeats are not as they
    /// should be are to be ended, and each is planned to start again.
    pub fn update_device_statuses(&mut self, now_ns: u64, nanos: u32) -> (r: Vec<Termination>)
        ensures
            old(self).wf() ==> final(self).wf(),
            final(self).devices@.len() == old(self).devices@.len(),
            forall|i: int|
                0 <= i < old(self).devices@.len() ==> old(self).facts_of(
                    old(self).devices@[i].name@,
                    now_ns,
                ).is_status(old(self).devices@[i], #[trigger] final(self).devices@[i]),
            old(self).is_restarted(
                old(self).restart_sources(status_names(old(self).devices@), now_ns),
                now_ns,
                nanos,
                *final(self),
                r@,
            ),
            *final(self) == (Engine {
                devices: final(self).devices,
                running: final(self).running,
                heartbeat_cache: final(self).heartbeat_cache,
                pending_restarts: final(self).pending_restarts,
                last_status_refresh_ns: now_ns,
                ..*old(self)
            }),
    {
        let ghost start = *self;
        let (devices, sources) = self.assess_devices(now_ns);
        let ghost all = start.restart_sources(status_names(start.devices@), now_ns);
        self.devices = devices;
        self.last_status_refresh_ns = now_ns;
        proof {
            use_type_invariant(&self.running);
            self.running.names_differ();
            start.lemma_restart_sources(status_names(start.devices@), now_ns);
            assert(start.running@.remove_keys(all.take(0).to_set()) =~= start.running@);
            assert(start.heartbeat_cache@.remove_keys(
                device_names(start.running@, all.take(0)).to_set(),
            ) =~= start.heartbeat_cache@);
            let p0 = restarts_none_of(all.take(0));
            lemma_filter_len(start.pending_restarts@, p0);
            assert(start.pending_restarts@.filter(p0) == start.pending_restarts@);
        }
        let mut out: Vec<Termination> = Vec::new();
        let n: usize = sources.len();
        let mut i: usize = 0;
        while i < n
            invariant
                n == sources@.len(),
                i <= n,
                texts(sources@) == all,
                all.no_duplicates(),
                forall|j: int| 0 <= j < n ==> start.running@.contains_key(#[trigger] all[j]),
                self.running@ == start.running@.remove_keys(all.take(i as int).to_set()),
                self.heartbeat_cache@ == start.heartbeat_cache@.remove_keys(
                    device_names(start.running@, all.take(i as int)).to_set(),
                ),
                out@.len() == i,
                forall|j: int|
                    0 <= j < i ==> is_end_of(#[trigger] out@[j], start.running@[all[j]]),
                ({
                    let kept = start.pending_restarts@.filter(restarts_none_of(all.take(i as int)));
                    &&& self.pending_restarts@.len() == kept.len() + i
                    &&& self.pending_restarts@.take(kept.len() as int) == kept
                    &&& forall|j: int|
                        0 <= j < i ==> is_restart_of(
                            #[trigger] self.pending_restarts@[kept.len() + j],
                            all[j],
                            start.running@[all[j]],
                            now_ns,
                            nanos,
                        )
                }),
                *self == (Engine {
                    devices: self.devices,
                    running: self.running,
                    heartbeat_cache: self.heartbeat_cache,
                    pending_restarts: self.pending_restarts,
                    last_status_refresh_ns: now_ns,
                    ..start
                }),
                self.devices@ == devices@,
            decreases n - i,
        {
            let ghost before = *self;
            let ghost s = all[i as int];
            let ghost done = all.take(i as int);
            let ghost kept = start.pending_restarts@.filter(restarts_none_of(done));
            proof {
                assert(sources@[i as int]@ == s);
                assert(!done.contains(s)) by {
                    if done.contains(s) {
                        let j = done.index_of(s);
                        assert(all[j] == all[i as int]);
                    }
                }
                assert(all.take(i as int + 1) =~= done.push(s));
                assert(self.running@.contains_key(s));
                assert(self.running@[s] == start.running@[s]);
            }
            let planned: Option<PendingRestart> = match self.running.get(sources[i].as_str()) {
                Some(process) => Some(plan_restart(sources[i].as_str(), process, now_ns, nanos)),
                None => None,
            };
            if let Some(restart) = planned {
                let mut pending: Vec<PendingRestart> = drop_restarts(
                    &self.pending_restarts,
                    sources[i].as_str(),
                );
                proof {
                    let q = restarts_none_of(seq![s]);
                    let tail = before.pending_restarts@.skip(kept.len() as int);
                    assert(before.pending_restarts@ =~= kept + tail);
                    Seq::filter_distributes_over_add(kept, tail, q);
                    lemma_restarts_left(start.pending_restarts@, done, s);
                    assert forall|j: int| 0 <= j < tail.len() implies (#[trigger] tail[j]).source_id@
                        != s by {
                        assert(tail[j] == before.pending_restarts@[kept.len() + j]);
                        assert(done[j] == all[j]);
                    }
                    lemma_restarts_kept(tail, s);
                    let kept2 = start.pending_restarts@.filter(restarts_none_of(done.push(s)));
                    assert(pending@ == kept2 + tail);
                    assert forall|j: int| 0 <= j < i implies is_restart_of(
                        #[trigger] pending@[kept2.len() + j],
                        all[j],
                        start.running@[all[j]],
                        now_ns,
                        nanos,
                    ) by {
                        assert(pending@[kept2.len() + j] == tail[j]);
                        assert(tail[j] == before.pending_restarts@[kept.len() + j]);
                    }
                }
                pending.push(restart);
                self.pending_restarts = pending;
            }
            let ended: Option<Termination> = self.terminate_process(sources[i].as_str());
            if let Some(t) = ended {
                out.push(t);
            }
            proof {
                lemma_pushed(done, s);
                assert(self.running@ =~= start.running@.remove_keys(done.push(s).to_set()));
                let was = device_names(start.running@, done);
                let name = start.running@[s].entry_name@;
                assert(device_names(start.running@, done.push(s)) =~= was.push(name));
                lemma_pushed(was, name);
                assert(self.heartbeat_cache@ =~= start.heartbeat_cache@.remove_keys(
                    was.push(name).to_set(),
                ));
                let kept2 = start.pending_restarts@.filter(restarts_none_of(done.push(s)));
                assert(self.pending_restarts@.take(kept2.len() as int) =~= kept2);
            }
            i = i + 1;
        }
        assert(all.take(n as int) =~= all);
        proof {
            if start.wf() {
                assert forall|k: int| 0 <= k < self.devices@.len() implies (
                #[trigger] self.devices@[k]).name@ == self.layout.order()[k]
                    && self.devices@[k].bit_index == k by {
                    assert(start.devices@[k].name@ == start.layout.order()[k]);
                }
            }
        }
        out
    }

    /// What is to be restarted runs, and no source is restarted twice.
    proof fn lemma_restart_sources(self, names: Seq<Seq<char>>, now_ns: u64)
        requires
            self.running.held().len() == self.running.names().len(),
        ensures
            self.restart_sources(names, now_ns).no_duplicates(),
            forall|j: int|
                0 <= j < self.restart_sources(names, now_ns).len() ==> self.running@.contains_key(
                    #[trigger] self.restart_sources(names, now_ns)[j],
                ),
        decreases names.len(),
    {
        if names.len() > 0 {
            self.lemma_restart_sources(names.drop_last(), now_ns);
            let name = names.last();
            first_where_finds(self.running.held(), runs_for(name));
            if self.process_of(name) is Some {
                let k = self.process_of(name)->0;
                assert(self.running.names()[k] == self.source_of(name));
                assert(self.running@.contains_key(self.source_of(name)));
            }
        }
    }

    /// Tests whether it is time to look at all devices again.
    pub fn status_refresh_due(&self, now_ns: u64) -> (r: bool)
        ensures
            r == (time_since(now_ns, self.last_status_refresh_ns) >= STATUS_REFRESH_MS * 1_000_000),
    {
        now_ns.saturating_sub(self.last_status_refresh_ns) >= STATUS_REFRESH_MS * 1_000_000
    }
}

/// A planned restart is that of the device whose process ended, and counts one more than that
/// process did.
pub proof fn restarts_count_up(
    r: PendingRestart,
    source_id: Seq<char>,
    process: RunningProcess,
    now_ns: u64,
    nanos: u32,
)
    requires
        is_restart_of(r, source_id, process, now_ns, nanos),
    ensures
        r.source_id@ == source_id,
        r.entry == process.entry,
        process.restart_count < u32::MAX ==> r.restart_count == process.restart_count + 1,
        process.restart_count == u32::MAX ==> r.restart_count == u32::MAX,
{
}

/// A planned restart waits for the backoff of its count, give or take a tenth; from the sixth in a
/// row on for 27 to 30 seconds.
pub proof fn restarts_wait_for_their_backoff(
    r: PendingRestart,
    source_id: Seq<char>,
    process: RunningProcess,
    now_ns: u64,
    nanos: u32,
)
    requires
        is_restart_of(r, source_id, process, now_ns, nanos),
        process.restart_count < u32::MAX,
        now_ns + 30_000_000_000 <= u64::MAX,
    ensures
        10 * (r.restart_at_ns - now_ns) >= 9 * backoff_ms((process.restart_count + 1) as nat)
            * 1_000_000,
        10 * (r.restart_at_ns - now_ns) <= 11 * backoff_ms((process.restart_count + 1) as nat)
            * 1_000_000,
        900_000_000 <= r.restart_at_ns - now_ns <= 30_000_000_000,
        process.restart_count >= 5 ==> 27_000_000_000 <= r.restart_at_ns - now_ns,
{
    let count = (process.restart_count + 1) as nat;
    restart_delay_is_near_its_backoff(count, nanos as nat);
    backoff_is_bounded(count);
    if process.restart_count >= 5 {
        backoff_reaches_its_limit(count);
    }
}

/// The `n`th exit in a row is followed by the `n`th restart: where each process was started by the
/// restart of the one before it, and the first one was not restarted, the restarts are counted from
/// one on.
pub proof fn exits_in_a_row_are_counted(
    processes: Seq<RunningProcess>,
    restarts: Seq<PendingRestart>,
    source_id: Seq<char>,
    times: Seq<(u64, u32)>,
    n: int,
)
    requires
        processes.len() == restarts.len() == times.len() <= u32::MAX,
        0 <= n < processes.len(),
        processes[0].restart_count == 0,
        forall|i: int|
            0 <= i < processes.len() ==> is_restart_of(
                #[trigger] restarts[i],
                source_id,
                processes[i],
                times[i].0,
                times[i].1,
            ),
        forall|i: int|
            1 <= i < processes.len() ==> (#[trigger] processes[i]).restart_count
                == restarts[i - 1].restart_count,
    ensures
        restarts[n].restart_count == n + 1,
    decreases n,
{
    if n > 0 {
        exits_in_a_row_are_counted(processes, restarts, source_id, times, n - 1);
        assert(processes[n].restart_count == restarts[n - 1].restart_count);
    }
    assert(is_restart_of(restarts[n], source_id, processes[n], times[n].0, times[n].1));
}

/// To end the process of a source touches no other process: it is taken off the list, what its
/// heartbeat said is forgotten, and it is that process that is ended, with its own command behind it.
pub proof fn only_that_process_ends(
    start: Engine,
    source_id: Seq<char>,
    end: Engine,
    termination: Option<Termination>,
    other: Seq<char>,
)
    requires
        start.is_terminated(source_id, end, termination),
        start.running@.contains_key(source_id),
        other != source_id,
    ensures
        termination matches Some(t) && t.pid == start.running@[source_id].pid && t.on_detach@
            == start.running@[source_id].on_detach@,
        !end.running@.contains_key(source_id),
        start.running@.contains_key(other) <==> end.running@.contains_key(other),
        start.running@.contains_key(other) ==> end.running@[other] == start.running@[other],
        !end.heartbeat_cache@.contains_key(start.running@[source_id].entry_name@),
        forall|k: Seq<char>|
            k != start.running@[source_id].entry_name@ ==> (#[trigger] end.heartbeat_cache@.contains_key(
                k,
            ) <==> start.heartbeat_cache@.contains_key(k)),
        end.devices == start.devices,
        end.pending_restarts == start.pending_restarts,
        end.connected_devices == start.connected_devices,
        end.registry == start.registry,
{
}

/// A process that is restarted is ended and taken off the list, and one restart is planned for it;
/// the others run on.
pub proof fn restarted_processes_are_ended_and_planned(
    start: Engine,
    sources: Seq<Seq<char>>,
    now_ns: u64,
    nanos: u32,
    end: Engine,
    ends: Seq<Termination>,
    j: int,
    other: Seq<char>,
)
    requires
        start.is_restarted(sources, now_ns, nanos, end, ends),
        0 <= j < sources.len(),
        !sources.contains(other),
    ensures
        !end.running@.contains_key(sources[j]),
        ends[j].pid == start.running@[sources[j]].pid,
        ends[j].on_detach@ == start.running@[sources[j]].on_detach@,
        exists|k: int|
            0 <= k < end.pending_restarts@.len() && (#[trigger] end.pending_restarts@[k]).source_id@
                == sources[j] && end.pending_restarts@[k].entry == start.running@[sources[j]].entry,
        start.running@.contains_key(other) <==> end.running@.contains_key(other),
        start.running@.contains_key(other) ==> end.running@[other] == start.running@[other],
{
    let kept = start.pending_restarts@.filter(restarts_none_of(sources));
    assert(is_restart_of(
        end.pending_restarts@[kept.len() + j],
        sources[j],
        start.running@[sources[j]],
        now_ns,
        nanos,
    ));
    assert(is_end_of(ends[j], start.running@[sources[j]]));
    assert(sources.contains(sources[j]));
    assert(sources.to_set().contains(sources[j]));
}

/// What was planned for a source that is not restarted now stays planned, and what was planned for
/// one that is restarted now is dropped.
pub proof fn other_plans_stay(pending: Seq<PendingRestart>, sources: Seq<Seq<char>>, i: int)
    requires
        0 <= i < pending.len(),
    ensures
        !sources.contains(pending[i].source_id@) ==> pending.filter(
            restarts_none_of(sources),
        ).contains(pending[i]),
        forall|k: int|
            0 <= k < pending.filter(restarts_none_of(sources)).len() ==> !sources.contains(
                (#[trigger] pending.filter(restarts_none_of(sources))[k]).source_id@,
            ),
{
    broadcast use vstd::seq_lib::group_filter_ensures;
    let p = restarts_none_of(sources);
    if p(pending[i]) {
        pending.lemma_filter_contains(p, i);
    }
    assert forall|k: int| 0 <= k < pending.filter(p).len() implies !sources.contains(
        (#[trigger] pending.filter(p)[k]).source_id@,
    ) by {
        assert(p(pending.filter(p)[k]));
    }
}

/// A planned restart counts one more than the process that it is for, and is for its source and its
/// device.
pub proof fn planned_restarts_count_up(
    source_id: &str,
    process: &RunningProcess,
    now_ns: u64,
    nanos: u32,
    r: PendingRestart,
)
    requires
        call_ensures(plan_restart, (source_id, process, now_ns, nanos), r),
    ensures
        process.restart_count < u32::MAX ==> r.restart_count == process.restart_count + 1,
        process.restart_count == u32::MAX ==> r.restart_count == u32::MAX,
        r.source_id@ == source_id@,
        r.entry == process.entry,
        r.restart_at_ns >= now_ns,
{
}

/// All devices are looked at again after two hundred milliseconds.
pub proof fn devices_are_looked_at_five_times_a_second(engine: &Engine, now_ns: u64, r: bool)
    requires
        call_ensures(Engine::status_refresh_due, (engine, now_ns), r),
        engine.last_status_refresh_ns <= now_ns,
    ensures
        r <==> now_ns - engine.last_status_refresh_ns >= 200 * 1000 * 1000,
{
}

/// A heartbeat that was read is remembered under its device, and forgotten where there is none.
pub proof fn heartbeats_are_remembered(engine: &mut Engine, device_name: &str, heartbeat: Option<Heartbeat>)
    requires
        call_ensures(Engine::refresh_heartbeat, (engine, device_name, heartbeat), ()),
    ensures
        heartbeat matches Some(h) ==> final(engine).heartbeat_cache@.contains_key(device_name@)
            && final(engine).heartbeat_cache@[device_name@] == h,
        heartbeat is None ==> !final(engine).heartbeat_cache@.contains_key(device_name@),
        final(engine).running == old(engine).running,
        final(engine).devices == old(engine).devices,
{
}

} // verus!
