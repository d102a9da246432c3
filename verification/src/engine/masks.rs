//! The hardware mask: one bit per device that can be used.

use vstd::prelude::*;
use crate::engine::command::{DeviceStatus, Share};
use crate::engine::process::{time_since, Termination};
use crate::engine::recorder::MaskSnapshot;
use crate::engine::state::{backend_of, blank_devices, status_names, Engine};
use crate::engine::status::{device_available, is_available};
use crate::mask::debug::{binary64, hex8, set_bits, DebugState, DeviceDebugInfo};
use crate::mask::shm::{HardwareMask, MaskPublisher, MAGIC, VERSION};
use crate::name_map::NameMap;
use crate::seqs::count_where;
use vstd::arithmetic::power2::{lemma_pow2_pos, lemma_pow2_unfold, pow2};

verus! {

/// The rate of publications is taken over at least this time.
pub const RATE_INTERVAL_NS: u64 = 1_000_000_000;

/// Whether a bit of a mask is set.
pub open spec fn has_bit(mask: u64, k: u64) -> bool {
    (mask >> k) & 1 == 1
}

/// Whether a device with that bit can be used.
pub open spec fn some_available(devices: Seq<DeviceStatus>, k: u64) -> bool {
    exists|i: int|
        0 <= i < devices.len() && (#[trigger] devices[i]).bit_index == k && is_available(devices[i])
}

/// Whether a mask is that of devices: a bit is set exactly where a device with that bit can be used.
pub open spec fn is_mask_of(mask: u64, devices: Seq<DeviceStatus>) -> bool {
    forall|k: u64| k < 64 ==> (#[trigger] has_bit(mask, k) <==> some_available(devices, k))
}

proof fn lemma_set_bit(mask: u64, b: u64, k: u64)
    requires
        b < 64,
        k < 64,
    ensures
        has_bit(mask | (1u64 << b), k) <==> has_bit(mask, k) || k == b,
{
    assert(((mask | (1u64 << b)) >> k) & 1 == 1 <==> (mask >> k) & 1 == 1 || k == b) by (bit_vector)
        requires
            b < 64,
            k < 64,
    ;
}

proof fn lemma_no_bit(k: u64)
    requires
        k < 64,
    ensures
        !has_bit(0, k),
{
    assert((0u64 >> k) & 1 != 1) by (bit_vector);
}

/// The mask of devices.
pub fn mask_of(devices: &Vec<DeviceStatus>) -> (r: u64)
    ensures
        is_mask_of(r, devices@),
{
    let n: usize = devices.len();
    let mut mask: u64 = 0;
    let mut i: usize = 0;
    proof {
        assert forall|k: u64| k < 64 implies (#[trigger] has_bit(0, k) <==> some_available(
            devices@.take(0),
            k,
        )) by {
            lemma_no_bit(k);
        }
    }
    while i < n
        invariant
            n == devices@.len(),
            i <= n,
            is_mask_of(mask, devices@.take(i as int)),
        decreases n - i,
    {
        let ghost before = mask;
        let bit: usize = devices[i].bit_index;
        let sets: bool = device_available(&devices[i]) && bit < 64;
        if sets {
            mask = mask | (1u64 << (bit as u64));
        }
        proof {
            let was = devices@.take(i as int);
            let now = devices@.take(i as int + 1);
            assert(now =~= was.push(devices@[i as int]));
            assert forall|k: u64| k < 64 implies (#[trigger] has_bit(mask, k) <==> some_available(
                now,
                k,
            )) by {
                assert(has_bit(before, k) <==> some_available(was, k));
                if sets {
                    lemma_set_bit(before, bit as u64, k);
                }
                if some_available(was, k) {
                    let j = choose|j: int|
                        0 <= j < was.len() && (#[trigger] was[j]).bit_index == k && is_available(was[j]);
                    assert(now[j] == was[j]);
                }
                if some_available(now, k) {
                    let j = choose|j: int|
                        0 <= j < now.len() && (#[trigger] now[j]).bit_index == k && is_available(now[j]);
                    if j < i {
                        assert(was[j] == now[j]);
                    }
                }
                if sets && k == bit {
                    assert(now[i as int].bit_index == k);
                }
            }
        }
        i = i + 1;
    }
    assert(devices@.take(n as int) =~= devices@);
    mask
}

// ── What the mask tells ─────────────────────────────────────────────

/// The predicate of devices that can be used.
pub open spec fn available_devices() -> spec_fn(DeviceStatus) -> bool {
    |d: DeviceStatus| is_available(d)
}

proof fn lemma_bit_is_digit(mask: u64, k: u64)
    requires
        k < 64,
    ensures
        has_bit(mask, k) <==> (mask as nat / pow2(k as nat)) % 2 == 1,
{
    vstd::bits::lemma_u64_shr_is_div(mask, k);
    let shifted = mask >> k;
    assert(shifted & 1 == shifted % 2) by (bit_vector);
}

proof fn lemma_digits_count(m: nat, s: Seq<bool>)
    requires
        m < pow2(s.len()),
        forall|k: int| 0 <= k < s.len() ==> ((m / pow2(k as nat)) % 2 == 1 <==> #[trigger] s[k]),
    ensures
        set_bits(m) == s.filter(|b: bool| b).len(),
    decreases s.len(),
{
    let p = |b: bool| b;
    if s.len() == 0 {
        vstd::arithmetic::power2::lemma2_to64();
        reveal(Seq::filter);
        assert(m == 0);
    } else {
        let rest = s.drop_first();
        lemma_pow2_unfold(s.len());
        assert(m / 2 < pow2(rest.len()));
        assert forall|k: int| 0 <= k < rest.len() implies ((m / 2 / pow2(k as nat)) % 2 == 1
            <==> #[trigger] rest[k]) by {
            lemma_pow2_pos(k as nat);
            lemma_pow2_unfold((k + 1) as nat);
            vstd::arithmetic::div_mod::lemma_div_denominator(m as int, 2, pow2(k as nat) as int);
            assert(s[k + 1] == rest[k]);
        }
        lemma_digits_count(m / 2, rest);
        assert(s =~= seq![s[0]] + rest);
        Seq::filter_distributes_over_add(seq![s[0]], rest, p);
        vstd::arithmetic::power2::lemma2_to64();
        assert(m / pow2(0) == m) by (nonlinear_arith)
            requires
                pow2(0) == 1,
        ;
        assert(seq![s[0]].filter(p).len() == (if s[0] { 1int } else { 0 })) by {
            reveal(Seq::filter);
            assert(seq![s[0]].drop_last() =~= Seq::<bool>::empty());
            assert(Seq::<bool>::empty().filter(p) =~= Seq::<bool>::empty());
            assert(seq![s[0]].last() == s[0]);
        }
        if m == 0 {
            assert(set_bits(m) == 0);
            assert(set_bits(m / 2) == 0);
        }
    }
}

proof fn lemma_flags_count(devices: Seq<DeviceStatus>)
    ensures
        devices.map_values(|d: DeviceStatus| is_available(d)).filter(|b: bool| b).len() == count_where(
            devices,
            available_devices(),
        ),
    decreases devices.len(),
{
    reveal(Seq::filter);
    let flags = devices.map_values(|d: DeviceStatus| is_available(d));
    if devices.len() > 0 {
        lemma_flags_count(devices.drop_last());
        assert(flags.drop_last() =~= devices.drop_last().map_values(
            |d: DeviceStatus| is_available(d),
        ));
        assert(flags.last() == is_available(devices.last()));
    }
}

proof fn lemma_high_bits_clear(mask: u64, n: nat)
    requires
        n <= 64,
        forall|k: u64| n <= k < 64 ==> !#[trigger] has_bit(mask, k),
    ensures
        (mask as nat) < pow2(n),
    decreases 64 - n,
{
    vstd::arithmetic::power2::lemma2_to64();
    if n == 64 {
        assert(pow2(64) == 0x1_0000_0000_0000_0000);
    } else {
        lemma_high_bits_clear(mask, n + 1);
        assert(!has_bit(mask, n as u64));
        lemma_bit_is_digit(mask, n as u64);
        lemma_pow2_unfold((n + 1) as nat);
        lemma_pow2_pos(n);
        let q = mask as nat / pow2(n);
        assert(q < 2) by (nonlinear_arith)
            requires
                (mask as nat) < 2 * pow2(n),
                q == mask as nat / pow2(n),
                pow2(n) > 0,
        ;
        assert((mask as nat) < pow2(n)) by (nonlinear_arith)
            requires
                mask as nat / pow2(n) == 0,
                pow2(n) > 0,
        ;
    }
}

/// With at most sixty-four devices, each with the bit of its place, the mask has as many bits set
/// as there are devices that can be used.
pub proof fn set_bits_are_the_available_devices(mask: u64, devices: Seq<DeviceStatus>)
    requires
        is_mask_of(mask, devices),
        devices.len() <= 64,
        forall|i: int| 0 <= i < devices.len() ==> (#[trigger] devices[i]).bit_index == i,
    ensures
        set_bits(mask as nat) == count_where(devices, available_devices()),
{
    let flags = devices.map_values(|d: DeviceStatus| is_available(d));
    assert forall|k: int| 0 <= k < flags.len() implies ((mask as nat / pow2(k as nat)) % 2 == 1
        <==> #[trigger] flags[k]) by {
        lemma_bit_is_digit(mask, k as u64);
        assert(has_bit(mask, k as u64) <==> some_available(devices, k as u64));
        assert(devices[k].bit_index == k as u64);
        if some_available(devices, k as u64) {
            let j = choose|j: int|
                0 <= j < devices.len() && (#[trigger] devices[j]).bit_index == k as u64 && is_available(
                    devices[j],
                );
            assert(j == k);
        }
    }
    assert forall|k: u64| devices.len() <= k < 64 implies !#[trigger] has_bit(mask, k) by {
        assert(has_bit(mask, k) <==> some_available(devices, k));
    }
    lemma_high_bits_clear(mask, devices.len());
    lemma_digits_count(mask as nat, flags);
    lemma_flags_count(devices);
}

/// In an engine, bit `i` of the mask tells whether the device at place `i` of the layout can be
/// used.
pub proof fn bits_follow_the_layout(engine: Engine, mask: u64, i: int)
    requires
        engine.wf(),
        is_mask_of(mask, engine.devices@),
        0 <= i < engine.devices@.len(),
        i < 64,
    ensures
        has_bit(mask, i as u64) <==> is_available(engine.devices@[i]),
        engine.devices@[i].name@ == engine.layout.order()[i],
{
    assert(has_bit(mask, i as u64) <==> some_available(engine.devices@, i as u64));
    assert(engine.devices@[i].bit_index == i as u64);
    if some_available(engine.devices@, i as u64) {
        let j = choose|j: int|
            0 <= j < engine.devices@.len() && (#[trigger] engine.devices@[j]).bit_index == i as u64
                && is_available(engine.devices@[j]);
        assert(j == i);
    }
}

// ── Publication ─────────────────────────────────────────────────────

/// How many devices there are, as the mask tells it: in one byte.
pub open spec fn count_byte(n: nat) -> u8 {
    (n % 256) as u8
}

/// Which devices can be used, by their names.
pub open spec fn availability(devices: Seq<DeviceStatus>) -> Map<Seq<char>, bool>
    decreases devices.len(),
{
    if devices.len() == 0 {
        Map::empty()
    } else {
        availability(devices.drop_last()).insert(devices.last().name@, is_available(devices.last()))
    }
}

/// Whether `info` tells of a device.
pub open spec fn debug_info_of(d: DeviceStatus) -> DeviceDebugInfo {
    DeviceDebugInfo {
        bit: d.bit_index,
        online: is_available(d),
        usb_connected: d.discovered,
        process_running: d.process_running,
        pid: d.pid,
    }
}

/// What is told of devices, by their names.
pub open spec fn debug_infos(devices: Seq<DeviceStatus>) -> Map<Seq<char>, DeviceDebugInfo>
    decreases devices.len(),
{
    if devices.len() == 0 {
        Map::empty()
    } else {
        debug_infos(devices.drop_last()).insert(
            devices.last().name@,
            debug_info_of(devices.last()),
        )
    }
}

impl Engine {
    /// The mask of all devices.
    pub fn compute_mask(&self) -> (r: u64)
        ensures
            is_mask_of(r, self.devices@),
    {
        mask_of(&self.devices)
    }

    /// Takes the mask anew, and gives the record to publish where masks are published.
    pub fn publish_mask(&mut self, timestamp_ns: u64) -> (r: Option<HardwareMask>)
        ensures
            is_mask_of(final(self).current_mask, old(self).devices@),
            r is Some <==> old(self).mask_publisher is Some,
            r matches Some(m) ==> {
                &&& m.magic == MAGIC
                &&& m.version == VERSION
                &&& m.device_count == count_byte(old(self).devices@.len())
                &&& m._padding@ == seq![0u8, 0u8]
                &&& m.mask == final(self).current_mask
                &&& m.timestamp_ns == timestamp_ns
                &&& m.sequence as nat == (old(self).mask_publisher->0.sequence + 1)
                    % 0x1_0000_0000_0000_0000
                &&& final(self).mask_publisher == Some(MaskPublisher { sequence: m.sequence })
            },
            *final(self) == (Engine {
                current_mask: final(self).current_mask,
                mask_publisher: final(self).mask_publisher,
                ..*old(self)
            }),
    {
        self.current_mask = self.compute_mask();
        let device_count: u8 = (self.devices.len() % 256) as u8;
        match self.mask_publisher.take() {
            Some(mut publisher) => {
                let record: HardwareMask = publisher.publish(
                    self.current_mask,
                    device_count,
                    timestamp_ns,
                );
                self.mask_publisher = Some(publisher);
                Some(record)
            },
            None => None,
        }
    }

    /// Notes whether a record was written, and takes the rate of publications once a second.
    pub fn mask_published(&mut self, written: bool, now_ns: u64)
        ensures
            ({
                let counts = written && old(self).mask_publisher is Some;
                let count = if !counts {
                    old(self).publish_count as int
                } else if old(self).publish_count == u64::MAX {
                    0
                } else {
                    old(self).publish_count + 1
                };
                let elapsed = time_since(now_ns, old(self).last_freq_check_ns);
                &&& final(self).sequence == (if counts {
                    old(self).mask_publisher->0.sequence
                } else {
                    old(self).sequence
                })
                &&& if elapsed >= RATE_INTERVAL_NS {
                    &&& final(self).measured == (Share { part: count as u64, whole: elapsed as u64 })
                    &&& final(self).publish_count == 0
                    &&& final(self).last_freq_check_ns == now_ns
                } else {
                    &&& final(self).measured == old(self).measured
                    &&& final(self).publish_count == count
                    &&& final(self).last_freq_check_ns == old(self).last_freq_check_ns
                }
            }),
            *final(self) == (Engine {
                sequence: final(self).sequence,
                measured: final(self).measured,
                publish_count: final(self).publish_count,
                last_freq_check_ns: final(self).last_freq_check_ns,
                ..*old(self)
            }),
    {
        if written {
            if let Some(publisher) = &self.mask_publisher {
                self.sequence = publisher.sequence();
                self.publish_count = self.publish_count.wrapping_add(1);
            }
        }
        let elapsed: u64 = now_ns.saturating_sub(self.last_freq_check_ns);
        if elapsed >= RATE_INTERVAL_NS {
            self.measured = Share { part: self.publish_count, whole: elapsed };
            self.publish_count = 0;
            self.last_freq_check_ns = now_ns;
        }
    }

    /// The state of all devices for people to read, where it is published and due.
    pub fn publish_debug(&mut self, now_ns: u64) -> (r: Option<DebugState>)
        ensures
            r is Some <==> (old(self).debug_publisher matches Some(p) && p.is_due(now_ns)),
            r is None ==> *final(self) == *old(self),
            r matches Some(state) ==> {
                &&& state.sequence == old(self).sequence
                &&& state.device_count == old(self).devices@.len()
                &&& state.online_count == set_bits(old(self).current_mask as nat)
                &&& state.mask_hex@ == hex8(old(self).current_mask as nat)
                &&& state.mask_binary@ == binary64(old(self).current_mask as nat)
                &&& state.devices@ == debug_infos(old(self).devices@)
                &&& final(self).debug_publisher is Some
                &&& final(self).debug_publisher->0.last_publish_ns == now_ns
                &&& final(self).debug_publisher->0.interval_ms == old(
                    self,
                ).debug_publisher->0.interval_ms
                &&& *final(self) == (Engine {
                    debug_publisher: final(self).debug_publisher,
                    ..*old(self)
                })
            },
    {
        let Some(mut publisher) = self.debug_publisher.take() else {
            return None;
        };
        let due: bool = publisher.publish(now_ns);
        self.debug_publisher = Some(publisher);
        if !due {
            assert(*self == *old(self));
            return None;
        }
        let mut state: DebugState = DebugState::new(self.sequence);
        state.set_mask(self.current_mask, self.devices.len());
        let n: usize = self.devices.len();
        let mut i: usize = 0;
        let ghost set = state;
        assert(state.devices@ == debug_infos(self.devices@.take(0)));
        while i < n
            invariant
                n == self.devices@.len(),
                i <= n,
                state.devices@ == debug_infos(self.devices@.take(i as int)),
                state.sequence == set.sequence,
                state.device_count == set.device_count,
                state.online_count == set.online_count,
                state.mask_hex == set.mask_hex,
                state.mask_binary == set.mask_binary,
            decreases n - i,
        {
            let d: &DeviceStatus = &self.devices[i];
            state.add_device(
                d.name.clone(),
                DeviceDebugInfo {
                    bit: d.bit_index,
                    online: device_available(d),
                    usb_connected: d.discovered,
                    process_running: d.process_running,
                    pid: d.pid,
                },
            );
            proof {
                assert(self.devices@.take(i as int + 1).drop_last() =~= self.devices@.take(i as int));
                assert(self.devices@.take(i as int + 1).last() == self.devices@[i as int]);
            }
            i = i + 1;
        }
        assert(self.devices@.take(n as int) =~= self.devices@);
        Some(state)
    }

    /// The mask as it is recorded, taken at some moment.
    pub fn mask_snapshot(&self, timestamp_ns: u64, ts_bits: u64) -> (r: MaskSnapshot)
        ensures
            r.mask == self.current_mask,
            r.sequence == self.sequence,
            r.timestamp_ns == timestamp_ns,
            r.ts_bits == ts_bits,
            r.device_count == count_byte(self.devices@.len()),
            r.devices@ == availability(self.devices@),
    {
        let n: usize = self.devices.len();
        let mut devices: NameMap<bool> = NameMap::new();
        let mut i: usize = 0;
        assert(devices@ == availability(self.devices@.take(0)));
        while i < n
            invariant
                n == self.devices@.len(),
                i <= n,
                devices@ == availability(self.devices@.take(i as int)),
            decreases n - i,
        {
            let d: &DeviceStatus = &self.devices[i];
            devices.insert(d.name.clone(), device_available(d));
            proof {
                assert(self.devices@.take(i as int + 1).drop_last() =~= self.devices@.take(i as int));
                assert(self.devices@.take(i as int + 1).last() == self.devices@[i as int]);
            }
            i = i + 1;
        }
        assert(self.devices@.take(n as int) =~= self.devices@);
        MaskSnapshot {
            mask: self.current_mask,
            sequence: self.sequence,
            timestamp_ns,
            ts_bits,
            device_count: (n % 256) as u8,
            devices,
        }
    }

    /// Builds the status of all devices anew, in the order of the layout, and brings it up to date.
    /// Processes whose heartbeats are not as they should be are to be ended, and each is planned to
    /// start again.
    pub fn rebuild_devices(&mut self, now_ns: u64, nanos: u32) -> (r: Vec<Termination>)
        ensures
            old(self).recorder.wf() ==> final(self).wf(),
            final(self).devices@.len() == old(self).layout.order().len(),
            forall|i: int|
                0 <= i < final(self).devices@.len() ==> {
                    let d = #[trigger] final(self).devices@[i];
                    &&& d.name@ == old(self).layout.order()[i]
                    &&& d.bit_index == i
                    &&& d.backend@ == backend_of(old(self).registry.devices@, d.name@)
                    &&& old(self).facts_of(d.name@, now_ns).is_shown_by(d)
                },
            old(self).is_restarted(
                old(self).restart_sources(old(self).layout.order(), now_ns),
                now_ns,
                nanos,
                *final(self),
                r@,
            ),
            *final(self) == (Engine {
                devices: final(self).devices,
                running: final(self).running,
                heartbeat_cache: final(self).heartbeat_cache,
                pending_restarts: final(self).pending_restarts,
                last_status_refresh_ns: now_ns,
                ..*old(self)
            }),
    {
        let ghost start = *self;
        self.devices = blank_devices(&self.layout, &self.registry);
        let ghost middle = *self;
        proof {
            assert(status_names(middle.devices@) =~= start.layout.order());
            assert forall|name: Seq<char>| #[trigger] middle.facts_of(name, now_ns) == start.facts_of(
                name,
                now_ns,
            ) by {}
            lemma_same_restarts(start, middle, start.layout.order(), now_ns);
        }
        let r: Vec<Termination> = self.update_device_statuses(now_ns, nanos);
        r
    }
}

proof fn lemma_same_restarts(a: Engine, b: Engine, names: Seq<Seq<char>>, now_ns: u64)
    requires
        a.running == b.running,
        a.connected_devices == b.connected_devices,
        a.device_addresses == b.device_addresses,
        a.heartbeat_cache == b.heartbeat_cache,
        a.registry == b.registry,
    ensures
        a.restart_sources(names, now_ns) == b.restart_sources(names, now_ns),
    decreases names.len(),
{
    if names.len() > 0 {
        lemma_same_restarts(a, b, names.drop_last(), now_ns);
        assert(a.facts_of(names.last(), now_ns) == b.facts_of(names.last(), now_ns));
    }
}

/// Bit `k` of a mask counts for the `k`-th power of two.
pub proof fn bits_are_binary_digits(mask: u64, k: u64)
    requires
        k < 64,
    ensures
        has_bit(mask, k) <==> (mask as nat / pow2(k as nat)) % 2 == 1,
{
    lemma_bit_is_digit(mask, k);
}

/// A bit is set where a device with that bit can be used, and clear where none can.
pub proof fn bits_tell_what_can_be_used(mask: u64, devices: Seq<DeviceStatus>, i: int, k: u64)
    requires
        is_mask_of(mask, devices),
        k < 64,
    ensures
        0 <= i < devices.len() && devices[i].bit_index == k && is_available(devices[i]) ==> has_bit(
            mask,
            k,
        ),
        (forall|j: int|
            0 <= j < devices.len() && (#[trigger] devices[j]).bit_index == k ==> !is_available(
                devices[j],
            )) ==> !has_bit(mask, k),
        devices.len() == 0 ==> !has_bit(mask, k),
{
    assert(has_bit(mask, k) <==> some_available(devices, k));
}

/// Two masks of the same devices are the same.
pub proof fn devices_have_one_mask(a: u64, b: u64, devices: Seq<DeviceStatus>)
    requires
        is_mask_of(a, devices),
        is_mask_of(b, devices),
    ensures
        a == b,
{
    assert forall|k: u64| k < 64 implies #[trigger] ((a >> k) & 1) == (b >> k) & 1 by {
        assert(has_bit(a, k) <==> some_available(devices, k));
        assert(has_bit(b, k) <==> some_available(devices, k));
        assert((a >> k) & 1 == 0 || (a >> k) & 1 == 1) by (bit_vector);
        assert((b >> k) & 1 == 0 || (b >> k) & 1 == 1) by (bit_vector);
    }
    lemma_same_bits(a, b, 64);
}

proof fn lemma_same_bits(a: u64, b: u64, n: nat)
    requires
        n <= 64,
        forall|k: u64| k < 64 ==> #[trigger] ((a >> k) & 1) == (b >> k) & 1,
    ensures
        a as nat % pow2(n) == b as nat % pow2(n),
        n == 64 ==> a == b,
    decreases n,
{
    vstd::arithmetic::power2::lemma2_to64();
    if n == 0 {
        assert(a as nat % 1 == 0 && b as nat % 1 == 0);
    } else {
        let m = (n - 1) as nat;
        lemma_same_bits(a, b, m);
        lemma_bit_is_digit(a, m as u64);
        lemma_bit_is_digit(b, m as u64);
        assert((a >> (m as u64)) & 1 == (b >> (m as u64)) & 1);
        lemma_pow2_unfold(n);
        lemma_pow2_pos(m);
        vstd::arithmetic::div_mod::lemma_mod_breakdown(a as int, pow2(m) as int, 2);
        vstd::arithmetic::div_mod::lemma_mod_breakdown(b as int, pow2(m) as int, 2);
        if n == 64 {
            assert(pow2(64) == 0x1_0000_0000_0000_0000);
        }
    }
}

/// Up to two hundred and fifty-five devices are told as many as they are.
pub proof fn devices_are_counted(n: nat)
    ensures
        n < 256 ==> count_byte(n) == n,
        count_byte(n + 256) == count_byte(n),
{
}

/// A recorded mask tells of each device, where its name is its own, whether it can be used, and of no
/// other.
pub proof fn masks_tell_who_can_be_used(devices: Seq<DeviceStatus>, i: int, name: Seq<char>)
    requires
        0 <= i < devices.len(),
        forall|j: int, k: int|
            0 <= j < k < devices.len() ==> (#[trigger] devices[j]).name@ != (#[trigger] devices[k]).name@,
    ensures
        availability(devices).contains_key(devices[i].name@),
        availability(devices)[devices[i].name@] == is_available(devices[i]),
        (forall|j: int| 0 <= j < devices.len() ==> (#[trigger] devices[j]).name@ != name)
            ==> !availability(devices).contains_key(name),
    decreases devices.len(),
{
    let init = devices.drop_last();
    assert forall|j: int, k: int| 0 <= j < k < init.len() implies (#[trigger] init[j]).name@ != (
    #[trigger] init[k]).name@ by {
        assert(devices[j].name@ != devices[k].name@);
    }
    if i < init.len() {
        masks_tell_who_can_be_used(init, i, name);
        assert(init[i] == devices[i]);
        assert(devices[i].name@ != devices[devices.len() - 1].name@);
    } else if init.len() > 0 {
        masks_tell_who_can_be_used(init, 0, name);
    }
    if forall|j: int| 0 <= j < devices.len() ==> (#[trigger] devices[j]).name@ != name {
        assert(devices[devices.len() - 1].name@ != name);
        assert forall|j: int| 0 <= j < init.len() implies (#[trigger] init[j]).name@ != name by {
            assert(devices[j].name@ != name);
        }
    }
}

/// People are told of each device, where its name is its own, its bit, whether it can be used, whether
/// it was discovered, and its process.
pub proof fn people_are_told_of_each_device(devices: Seq<DeviceStatus>, i: int)
    requires
        0 <= i < devices.len(),
        forall|j: int, k: int|
            0 <= j < k < devices.len() ==> (#[trigger] devices[j]).name@ != (#[trigger] devices[k]).name@,
    ensures
        debug_infos(devices).contains_key(devices[i].name@),
        ({
            let info = debug_infos(devices)[devices[i].name@];
            let d = devices[i];
            &&& info.bit == d.bit_index
            &&& info.online == is_available(d)
            &&& info.usb_connected == d.discovered
            &&& info.process_running == d.process_running
            &&& info.pid == d.pid
        }),
    decreases devices.len(),
{
    let init = devices.drop_last();
    assert forall|j: int, k: int| 0 <= j < k < init.len() implies (#[trigger] init[j]).name@ != (
    #[trigger] init[k]).name@ by {
        assert(devices[j].name@ != devices[k].name@);
    }
    if i < init.len() {
        people_are_told_of_each_device(init, i);
        assert(init[i] == devices[i]);
        assert(devices[i].name@ != devices[devices.len() - 1].name@);
    }
}

/// The rate of publications is taken over at least one second.
pub proof fn rates_are_taken_over_a_second()
    ensures
        RATE_INTERVAL_NS == 1000 * 1000 * 1000,
{
}

/// Devices count as usable where they can be used, and others do not.
pub proof fn usable_devices_are_those_that_can_be_used(d: DeviceStatus)
    ensures
        available_devices()(d) <==> is_available(d),
{
}

/// Published masks are counted; the rate is taken once a second has passed, over that time, and the
/// count then starts over.
pub proof fn published_masks_are_counted(engine: &mut Engine, written: bool, now_ns: u64)
    requires
        call_ensures(Engine::mask_published, (engine, written, now_ns), ()),
        old(engine).mask_publisher is Some,
        old(engine).publish_count < u64::MAX,
        old(engine).last_freq_check_ns <= now_ns,
    ensures
        ({
            let elapsed = now_ns - old(engine).last_freq_check_ns;
            let count = old(engine).publish_count + (if written {
                1int
            } else {
                0int
            });
            &&& elapsed < 1000 * 1000 * 1000 ==> final(engine).publish_count == count
                && final(engine).measured == old(engine).measured
                && final(engine).last_freq_check_ns == old(engine).last_freq_check_ns
            &&& elapsed >= 1000 * 1000 * 1000 ==> final(engine).publish_count == 0
                && final(engine).measured.part == count && final(engine).measured.whole == elapsed
                && final(engine).last_freq_check_ns == now_ns
        }),
        written ==> final(engine).sequence == old(engine).mask_publisher->0.sequence,
        !written ==> final(engine).sequence == old(engine).sequence,
{
}

/// A published record holds the mask of the devices, how many they are and its time, under the number
/// that follows the last; without a publisher there is none.
pub proof fn published_records_hold_the_mask(engine: &mut Engine, timestamp_ns: u64, r: Option<HardwareMask>)
    requires
        call_ensures(Engine::publish_mask, (engine, timestamp_ns), r),
    ensures
        is_mask_of(final(engine).current_mask, old(engine).devices@),
        old(engine).mask_publisher is None ==> r is None,
        old(engine).mask_publisher matches Some(p) ==> (r matches Some(m) && m.mask
            == final(engine).current_mask && m.timestamp_ns == timestamp_ns && m.magic == 0x44504152
            && m.version == 1 && m.device_count == count_byte(old(engine).devices@.len()) && (
        p.sequence < u64::MAX ==> m.sequence == p.sequence + 1)),
        final(engine).devices == old(engine).devices,
{
}

/// A recorded mask is the one that was published last, with the availability of all devices.
pub proof fn recorded_masks_are_the_published_ones(
    engine: &Engine,
    timestamp_ns: u64,
    ts_bits: u64,
    r: MaskSnapshot,
)
    requires
        call_ensures(Engine::mask_snapshot, (engine, timestamp_ns, ts_bits), r),
    ensures
        r.mask == engine.current_mask,
        r.sequence == engine.sequence,
        r.timestamp_ns == timestamp_ns,
        r.ts_bits == ts_bits,
        r.devices@ == availability(engine.devices@),
        engine.devices@.len() < 256 ==> r.device_count == engine.devices@.len(),
{
}

} // verus!
