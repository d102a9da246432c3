//! The state of the mask for people to read.

use vstd::prelude::*;
use crate::clock::utc_now;
use crate::name_map::NameMap;
use crate::text::{align_right, base_value, in_base, numbers_are_written_in_their_base, owned,
    right_aligned, write_in_base, zeros_in_front_change_nothing};

verus! {

/// Where the state is published.
pub const DEBUG_PATH: &'static str = "/dev/shm/rapid_hardware_mask.json";

/// The mask and its devices at one point in time.
#[derive(Debug, Clone)]
pub struct DebugState {
    /// When, as RFC 3339.
    pub timestamp: String,
    /// How many devices there are.
    pub device_count: usize,
    /// How many devices are online.
    pub online_count: usize,
    /// The mask in hexadecimal.
    pub mask_hex: String,
    /// The mask in binary.
    pub mask_binary: String,
    /// The number of the last published record.
    pub sequence: u64,
    /// The devices by name.
    pub devices: NameMap<DeviceDebugInfo>,
}

/// One device of the mask.
#[derive(Debug, Clone, Copy)]
pub struct DeviceDebugInfo {
    /// Its bit.
    pub bit: usize,
    /// Whether it is online.
    pub online: bool,
    /// Whether it was discovered.
    pub usb_connected: bool,
    /// Whether its process runs.
    pub process_running: bool,
    /// The process, if it runs.
    pub pid: Option<u32>,
}

/// How many bits of a number are set.
pub open spec fn set_bits(n: nat) -> nat
    decreases n,
{
    if n == 0 {
        0
    } else {
        n % 2 + set_bits(n / 2)
    }
}

/// Counts the bits of a number that are set.
pub fn count_set_bits(n: u64) -> (r: usize)
    ensures
        r == set_bits(n as nat),
        r <= 64,
{
    let mut rest: u64 = n;
    let mut count: usize = 0;
    let mut steps: usize = 0;
    let ghost mut bound: nat = 0x1_0000_0000_0000_0000;
    proof {
        vstd::arithmetic::power2::lemma2_to64();
    }
    while rest > 0
        invariant
            count + set_bits(rest as nat) == set_bits(n as nat),
            count <= steps,
            steps <= 64,
            bound == vstd::arithmetic::power2::pow2((64 - steps) as nat),
            rest < bound,
        decreases rest,
    {
        proof {
            if steps == 64 {
                vstd::arithmetic::power2::lemma2_to64();
            } else {
                vstd::arithmetic::power2::lemma_pow2_unfold((64 - steps) as nat);
                bound = bound / 2;
            }
        }
        count = count + (rest % 2) as usize;
        rest = rest / 2;
        steps = steps + 1;
    }
    count
}

/// A mask in hexadecimal, at least eight digits behind `0x`.
pub open spec fn hex8(mask: nat) -> Seq<char> {
    "0x"@ + right_aligned(in_base(mask, 16), 8, '0')
}

/// A mask in binary, at least sixty-four digits behind `0b`.
pub open spec fn binary64(mask: nat) -> Seq<char> {
    "0b"@ + right_aligned(in_base(mask, 2), 64, '0')
}

/// A mask in hexadecimal, at least sixteen digits behind `0x`.
pub open spec fn hex16(mask: nat) -> Seq<char> {
    "0x"@ + right_aligned(in_base(mask, 16), 16, '0')
}

/// Writes a prefix and a mask in a base, filled up with zeros.
fn write_mask(prefix: &str, mask: u64, base: u64, width: usize) -> (r: String)
    requires
        2 <= base <= 16,
    ensures
        r@ == prefix@ + right_aligned(in_base(mask as nat, base as nat), width as nat, '0'),
{
    let mut out: String = owned(prefix);
    out.append(align_right(write_in_base(mask, base).as_str(), width, '0').as_str());
    out
}

/// Writes a mask as `0x` and sixteen hexadecimal digits.
pub fn write_hex16(mask: u64) -> (r: String)
    ensures
        r@ == hex16(mask as nat),
{
    write_mask("0x", mask, 16, 16)
}

impl DebugState {
    /// A state without devices, taken now.
    pub fn new(sequence: u64) -> (r: Self)
        ensures
            r.device_count == 0,
            r.online_count == 0,
            r.mask_hex@ == "0x0"@,
            r.mask_binary@ == "0b0"@,
            r.sequence == sequence,
            r.devices@ == Map::<Seq<char>, DeviceDebugInfo>::empty(),
    {
        Self::at(utc_now(), sequence)
    }

    /// A state without devices, taken at a point in time.
    pub fn at(timestamp: String, sequence: u64) -> (r: Self)
        ensures
            r.timestamp == timestamp,
            r.device_count == 0,
            r.online_count == 0,
            r.mask_hex@ == "0x0"@,
            r.mask_binary@ == "0b0"@,
            r.sequence == sequence,
            r.devices@ == Map::<Seq<char>, DeviceDebugInfo>::empty(),
    {
        DebugState {
            timestamp,
            device_count: 0,
            online_count: 0,
            mask_hex: owned("0x0"),
            mask_binary: owned("0b0"),
            sequence,
            devices: NameMap::new(),
        }
    }

    /// Takes a mask over.
    pub fn set_mask(&mut self, mask: u64, device_count: usize)
        ensures
            final(self).device_count == device_count,
            final(self).online_count == set_bits(mask as nat),
            final(self).mask_hex@ == hex8(mask as nat),
            final(self).mask_binary@ == binary64(mask as nat),
            final(self).timestamp == old(self).timestamp,
            final(self).sequence == old(self).sequence,
            final(self).devices == old(self).devices,
    {
        self.device_count = device_count;
        self.online_count = count_set_bits(mask);
        self.mask_hex = write_mask("0x", mask, 16, 8);
        self.mask_binary = write_mask("0b", mask, 2, 64);
    }

    /// Adds a device, in place of the one of the same name.
    pub fn add_device(&mut self, name: String, info: DeviceDebugInfo)
        ensures
            final(self).devices@ == old(self).devices@.insert(name@, info),
            final(self).timestamp == old(self).timestamp,
            final(self).device_count == old(self).device_count,
            final(self).online_count == old(self).online_count,
            final(self).mask_hex == old(self).mask_hex,
            final(self).mask_binary == old(self).mask_binary,
            final(self).sequence == old(self).sequence,
    {
        self.devices.insert(name, info);
    }
}

/// How long before its start a publisher counts as having published last.
pub const HEAD_START_NS: u64 = 10_000_000_000;

/// Decides when the state is due. Times are nanoseconds of a clock that never goes back.
pub struct DebugPublisher {
    pub last_publish_ns: u64,
    pub interval_ms: u64,
}

impl DebugPublisher {
    /// A publisher that publishes once a second.
    pub fn new(now_ns: u64) -> (r: Self)
        requires
            now_ns >= HEAD_START_NS,
        ensures
            r.interval_ms == 1000,
            r.last_publish_ns == now_ns - HEAD_START_NS,
    {
        Self::with_interval(1000, now_ns)
    }

    /// A publisher with another interval.
    pub fn with_interval(interval_ms: u64, now_ns: u64) -> (r: Self)
        requires
            now_ns >= HEAD_START_NS,
        ensures
            r.interval_ms == interval_ms,
            r.last_publish_ns == now_ns - HEAD_START_NS,
    {
        DebugPublisher { last_publish_ns: now_ns - HEAD_START_NS, interval_ms }
    }

    /// Whether the interval has passed since the last time.
    pub open spec fn is_due(self, now_ns: u64) -> bool {
        self.last_publish_ns <= now_ns && (now_ns - self.last_publish_ns) / 1_000_000
            >= self.interval_ms || self.interval_ms == 0
    }

    /// Tests whether the interval has passed since the last time.
    pub fn should_publish(&self, now_ns: u64) -> (r: bool)
        ensures
            r == self.is_due(now_ns),
    {
        let elapsed: u64 = now_ns.saturating_sub(self.last_publish_ns);
        elapsed / 1_000_000 >= self.interval_ms
    }

    /// Publishes if that is due: says whether to write the state now, and counts the interval from
    /// here on if so.
    pub fn publish(&mut self, now_ns: u64) -> (r: bool)
        ensures
            r == old(self).is_due(now_ns),
            final(self).interval_ms == old(self).interval_ms,
            final(self).last_publish_ns == (if r {
                now_ns
            } else {
                old(self).last_publish_ns
            }),
    {
        if !self.should_publish(now_ns) {
            return false;
        }
        self.last_publish_ns = now_ns;
        true
    }
}

/// After a publication the next one is not due before the interval has passed.
pub proof fn publications_keep_their_distance(p: DebugPublisher, first_ns: u64, next_ns: u64)
    requires
        p.last_publish_ns == first_ns,
        first_ns <= next_ns,
        p.is_due(next_ns),
    ensures
        next_ns - first_ns >= p.interval_ms * 1_000_000,
{
}

/// Doubling a number keeps its bits, and one more adds a bit.
pub proof fn bits_are_counted(n: nat)
    ensures
        set_bits(0) == 0,
        set_bits(2 * n) == set_bits(n),
        set_bits(2 * n + 1) == set_bits(n) + 1,
{
}

/// A mask is shown in hexadecimal and binary behind what tells the base, in at least as many digits
/// as it has bits to show, and the digits stand for the mask.
pub proof fn masks_are_shown_as_numbers(mask: nat)
    ensures
        hex8(mask).take(2) == "0x"@,
        base_value(hex8(mask).skip(2), 16) == mask,
        hex8(mask).len() >= 10,
        hex16(mask).take(2) == "0x"@,
        base_value(hex16(mask).skip(2), 16) == mask,
        hex16(mask).len() >= 18,
        binary64(mask).take(2) == "0b"@,
        base_value(binary64(mask).skip(2), 2) == mask,
        binary64(mask).len() >= 66,
{
    reveal_strlit("0x");
    reveal_strlit("0b");
    numbers_are_written_in_their_base(mask, 16);
    numbers_are_written_in_their_base(mask, 2);
    zeros_in_front_change_nothing(in_base(mask, 16), 8, 16);
    zeros_in_front_change_nothing(in_base(mask, 16), 16, 16);
    zeros_in_front_change_nothing(in_base(mask, 2), 64, 2);
    assert(hex8(mask).take(2) =~= "0x"@);
    assert(hex16(mask).take(2) =~= "0x"@);
    assert(binary64(mask).take(2) =~= "0b"@);
    assert(hex8(mask).skip(2) =~= right_aligned(in_base(mask, 16), 8, '0'));
    assert(hex16(mask).skip(2) =~= right_aligned(in_base(mask, 16), 16, '0'));
    assert(binary64(mask).skip(2) =~= right_aligned(in_base(mask, 2), 64, '0'));
}

/// The state is due once the interval has passed since the last time, and not a nanosecond earlier.
pub proof fn publications_are_due_after_their_interval(p: DebugPublisher, now_ns: u64)
    ensures
        p.last_publish_ns <= now_ns ==> (p.is_due(now_ns) <==> now_ns - p.last_publish_ns
            >= p.interval_ms * 1_000_000),
        now_ns < p.last_publish_ns ==> (p.is_due(now_ns) <==> p.interval_ms == 0),
        HEAD_START_NS == 10_000_000_000,
{
}

/// A new publisher publishes once a second, and at once; what it has published is due again only after
/// its interval.
pub proof fn publishers_begin_at_once(now_ns: u64, r: DebugPublisher, p: &mut DebugPublisher, published: bool)
    requires
        now_ns >= 10_000_000_000,
        call_ensures(DebugPublisher::new, (now_ns,), r),
        call_ensures(DebugPublisher::publish, (p, now_ns), published),
    ensures
        r.interval_ms == 1000,
        r.is_due(now_ns),
        published <==> old(p).is_due(now_ns),
        published ==> final(p).last_publish_ns == now_ns,
        !published ==> *final(p) == *old(p),
        published && old(p).interval_ms > 0 ==> !final(p).is_due(now_ns),
{
}

/// A device that is added to a state is found there under its name.
pub proof fn added_devices_are_shown(state: &mut DebugState, name: String, info: DeviceDebugInfo)
    requires
        call_ensures(DebugState::add_device, (state, name, info), ()),
    ensures
        final(state).devices@.contains_key(name@),
        final(state).devices@[name@] == info,
        final(state).sequence == old(state).sequence,
        final(state).mask_hex == old(state).mask_hex,
{
}

} // verus!
