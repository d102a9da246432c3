//! The record that readers of the mask find in shared memory.

use vstd::prelude::*;

verus! {

/// The bytes `RAPD`, read as a little-endian number.
pub const MAGIC: u32 = 0x44504152;

/// Where the record is published.
pub const SHM_PATH: &'static str = "/dev/shm/rapid_hardware_mask";

/// Version of the record.
pub const VERSION: u8 = 1;

/// The published record, 32 bytes in little-endian order:
///
/// ```text
/// offset  size  field
/// 0       4     magic
/// 4       1     version
/// 5       1     device_count
/// 6       2     padding
/// 8       8     mask
/// 16      8     timestamp_ns
/// 24      8     sequence
/// ```
#[derive(Debug, Clone, Copy)]
pub struct HardwareMask {
    pub magic: u32,
    pub version: u8,
    pub device_count: u8,
    pub _padding: [u8; 2],
    pub mask: u64,
    pub timestamp_ns: u64,
    pub sequence: u64,
}

/// A number in `n` bytes, least significant byte first.
pub open spec fn le_bytes(x: nat, n: nat) -> Seq<u8>
    decreases n,
{
    if n == 0 {
        seq![]
    } else {
        seq![(x % 256) as u8] + le_bytes(x / 256, (n - 1) as nat)
    }
}

/// The number that bytes stand for, least significant byte first.
pub open spec fn le_value(s: Seq<u8>) -> nat
    decreases s.len(),
{
    if s.len() == 0 {
        0
    } else {
        s[0] as nat + 256 * le_value(s.drop_first())
    }
}

/// `256` to the power of `n`.
pub open spec fn bytes_range(n: nat) -> nat
    decreases n,
{
    if n == 0 {
        1
    } else {
        256 * bytes_range((n - 1) as nat)
    }
}

/// A number that fits is read back from its bytes.
pub proof fn le_bytes_read_back(x: nat, n: nat)
    requires
        x < bytes_range(n),
    ensures
        le_bytes(x, n).len() == n,
        le_value(le_bytes(x, n)) == x,
    decreases n,
{
    if n > 0 {
        le_bytes_read_back(x / 256, (n - 1) as nat);
        assert(le_bytes(x, n).drop_first() =~= le_bytes(x / 256, (n - 1) as nat));
    }
}

pub(crate) fn push_le_bytes(out: &mut Vec<u8>, x: u64, n: usize)
    ensures
        final(out)@ == old(out)@ + le_bytes(x as nat, n as nat),
{
    let ghost start = out@;
    let mut rest: u64 = x;
    let mut i: usize = 0;
    assert(out@ + le_bytes(rest as nat, n as nat) =~= start + le_bytes(x as nat, n as nat));
    while i < n
        invariant
            i <= n,
            out@ + le_bytes(rest as nat, (n - i) as nat) == start + le_bytes(x as nat, n as nat),
        decreases n - i,
    {
        let ghost before = out@;
        let ghost value = rest as nat;
        out.push((rest % 256) as u8);
        rest = rest / 256;
        i = i + 1;
        assert(out@ + le_bytes(rest as nat, (n - i) as nat) =~= before + le_bytes(
            value,
            (n - i + 1) as nat,
        ));
    }
    assert(out@ + le_bytes(rest as nat, 0) =~= out@);
}

impl HardwareMask {
    /// A record for that many devices, all of them offline, never published.
    pub fn new(device_count: u8) -> (r: Self)
        ensures
            r.magic == MAGIC,
            r.version == VERSION,
            r.device_count == device_count,
            r._padding@ == seq![0u8, 0u8],
            r.mask == 0,
            r.timestamp_ns == 0,
            r.sequence == 0,
    {
        HardwareMask {
            magic: MAGIC,
            version: VERSION,
            device_count,
            _padding: [0, 0],
            mask: 0,
            timestamp_ns: 0,
            sequence: 0,
        }
    }

    /// The bytes of the record.
    pub open spec fn bytes(self) -> Seq<u8> {
        le_bytes(self.magic as nat, 4) + seq![self.version, self.device_count] + self._padding@
            + le_bytes(self.mask as nat, 8) + le_bytes(self.timestamp_ns as nat, 8) + le_bytes(
            self.sequence as nat,
            8,
        )
    }

    /// Writes the record out as bytes.
    pub fn as_bytes(&self) -> (r: Vec<u8>)
        ensures
            r@ == self.bytes(),
            r@.len() == 32,
    {
        let mut out: Vec<u8> = Vec::new();
        push_le_bytes(&mut out, self.magic as u64, 4);
        out.push(self.version);
        out.push(self.device_count);
        out.push(self._padding[0]);
        out.push(self._padding[1]);
        assert(out@ =~= le_bytes(self.magic as nat, 4) + seq![self.version, self.device_count]
            + self._padding@);
        push_le_bytes(&mut out, self.mask, 8);
        push_le_bytes(&mut out, self.timestamp_ns, 8);
        push_le_bytes(&mut out, self.sequence, 8);
        proof {
            record_reads_back(*self);
        }
        out
    }
}

/// A reader finds every field of the record at its place.
pub proof fn record_reads_back(m: HardwareMask)
    ensures
        m.bytes().len() == 32,
        le_value(m.bytes().subrange(0, 4)) == m.magic,
        m.bytes()[4] == m.version,
        m.bytes()[5] == m.device_count,
        m.bytes().subrange(6, 8) == m._padding@,
        le_value(m.bytes().subrange(8, 16)) == m.mask,
        le_value(m.bytes().subrange(16, 24)) == m.timestamp_ns,
        le_value(m.bytes().subrange(24, 32)) == m.sequence,
{
    reveal_with_fuel(bytes_range, 9);
    assert(bytes_range(4) == 0x1_0000_0000);
    assert(bytes_range(8) == 0x1_0000_0000_0000_0000);
    le_bytes_read_back(m.magic as nat, 4);
    le_bytes_read_back(m.mask as nat, 8);
    le_bytes_read_back(m.timestamp_ns as nat, 8);
    le_bytes_read_back(m.sequence as nat, 8);
    let b = m.bytes();
    assert(m._padding@.len() == 2);
    assert(b.subrange(0, 4) =~= le_bytes(m.magic as nat, 4));
    assert(b.subrange(6, 8) =~= m._padding@);
    assert(b.subrange(8, 16) =~= le_bytes(m.mask as nat, 8));
    assert(b.subrange(16, 24) =~= le_bytes(m.timestamp_ns as nat, 8));
    assert(b.subrange(24, 32) =~= le_bytes(m.sequence as nat, 8));
}

/// Numbers the records that are published one after the other.
pub struct MaskPublisher {
    pub sequence: u64,
}

impl MaskPublisher {
    /// A publisher that has not published yet.
    pub fn new() -> (r: Self)
        ensures
            r.sequence == 0,
    {
        MaskPublisher { sequence: 0 }
    }

    /// The next record to publish. Each record has the number after the one before; after the
    /// highest number comes 0.
    pub fn publish(&mut self, mask: u64, device_count: u8, timestamp_ns: u64) -> (r: HardwareMask)
        ensures
            final(self).sequence as nat == (old(self).sequence + 1) % 0x1_0000_0000_0000_0000,
            r.magic == MAGIC,
            r.version == VERSION,
            r.device_count == device_count,
            r._padding@ == seq![0u8, 0u8],
            r.mask == mask,
            r.timestamp_ns == timestamp_ns,
            r.sequence == final(self).sequence,
    {
        self.sequence = self.sequence.wrapping_add(1);
        HardwareMask {
            magic: MAGIC,
            version: VERSION,
            device_count,
            _padding: [0, 0],
            mask,
            timestamp_ns,
            sequence: self.sequence,
        }
    }

    /// The number of the last record; 0 before the first.
    pub fn sequence(&self) -> (r: u64)
        ensures
            r == self.sequence,
    {
        self.sequence
    }
}

/// Byte `i` of a number in bytes counts for the `i`-th power of 256: the first byte is the least
/// significant.
pub proof fn bytes_count_from_the_least(x: nat, n: nat, i: nat)
    requires
        i < n,
    ensures
        le_bytes(x, n).len() == n,
        le_bytes(x, n)[i as int] == (x / bytes_range(i)) % 256,
        bytes_range(0) == 1,
        bytes_range(i + 1) == 256 * bytes_range(i),
    decreases n,
{
    lemma_le_len(x, n);
    if i == 0 {
        assert(x / bytes_range(0) == x) by (nonlinear_arith)
            requires
                bytes_range(0) == 1,
        ;
    } else {
        let j = (i - 1) as nat;
        bytes_count_from_the_least(x / 256, (n - 1) as nat, j);
        lemma_range_pos(j);
        vstd::arithmetic::div_mod::lemma_div_denominator(x as int, 256, bytes_range(j) as int);
        assert(le_bytes(x, n)[i as int] == le_bytes(x / 256, (n - 1) as nat)[j as int]);
    }
}

proof fn lemma_le_len(x: nat, n: nat)
    ensures
        le_bytes(x, n).len() == n,
    decreases n,
{
    if n > 0 {
        lemma_le_len(x / 256, (n - 1) as nat);
    }
}

proof fn lemma_range_pos(n: nat)
    ensures
        bytes_range(n) > 0,
    decreases n,
{
    if n > 0 {
        lemma_range_pos((n - 1) as nat);
    }
}

/// A record starts with the letters `RAPD`, and then with version one.
pub proof fn records_start_with_their_mark(m: HardwareMask)
    requires
        m.magic == MAGIC,
        m.version == VERSION,
    ensures
        m.bytes()[0] == 'R' as u8,
        m.bytes()[1] == 'A' as u8,
        m.bytes()[2] == 'P' as u8,
        m.bytes()[3] == 'D' as u8,
        m.bytes()[4] == 1,
{
    record_reads_back(m);
    reveal_with_fuel(le_bytes, 5);
    let b = le_bytes(0x44504152, 4);
    assert(b[0] == 0x52 && b[1] == 0x41 && b[2] == 0x50 && b[3] == 0x44);
    assert(m.bytes().subrange(0, 4) =~= b);
    assert(m.bytes()[0] == m.bytes().subrange(0, 4)[0]);
    assert(m.bytes()[1] == m.bytes().subrange(0, 4)[1]);
    assert(m.bytes()[2] == m.bytes().subrange(0, 4)[2]);
    assert(m.bytes()[3] == m.bytes().subrange(0, 4)[3]);
}

/// Records are numbered one after the other, and hold what they are given.
pub proof fn records_are_numbered(
    publisher: &mut MaskPublisher,
    mask: u64,
    device_count: u8,
    timestamp_ns: u64,
    r: HardwareMask,
)
    requires
        call_ensures(MaskPublisher::publish, (publisher, mask, device_count, timestamp_ns), r),
        old(publisher).sequence < u64::MAX,
    ensures
        r.sequence == old(publisher).sequence + 1,
        final(publisher).sequence == r.sequence,
        r.mask == mask,
        r.device_count == device_count,
        r.timestamp_ns == timestamp_ns,
        r.magic == 0x44504152,
        r.version == 1,
{
}

} // verus!
