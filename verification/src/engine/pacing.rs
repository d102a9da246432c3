//! How long the engine waits between two rounds.

use vstd::prelude::*;

verus! {

/// How long a round takes while masks are published: 500 rounds a second.
pub const ROUND_NS: u64 = 2_000_000;

/// The last part of a round is not slept through, so that the next one starts on time.
pub const SPIN_NS: u64 = 200_000;

/// How long the engine sleeps between two rounds while no masks are published.
pub const IDLE_NS: u64 = 10_000_000;

/// How the rest of a round is spent.
#[derive(Debug, Clone, Copy, PartialEq, Eq, Structural)]
pub struct Pause {
    pub sleep_ns: u64,
    /// How long after its start the round ends; until then the engine spins.
    pub round_ns: u64,
}

/// How the rest of a round is spent that has taken `elapsed_ns` so far.
pub open spec fn pause_after(mask_enabled: bool, elapsed_ns: int) -> Pause {
    if !mask_enabled {
        Pause { sleep_ns: IDLE_NS, round_ns: 0 }
    } else if elapsed_ns + SPIN_NS < ROUND_NS {
        Pause { sleep_ns: (ROUND_NS - SPIN_NS - elapsed_ns) as u64, round_ns: ROUND_NS }
    } else {
        Pause { sleep_ns: 0, round_ns: ROUND_NS }
    }
}

/// How to spend the rest of a round.
pub fn plan_pause(mask_enabled: bool, elapsed_ns: u64) -> (r: Pause)
    ensures
        r == pause_after(mask_enabled, elapsed_ns as int),
{
    if !mask_enabled {
        return Pause { sleep_ns: IDLE_NS, round_ns: 0 };
    }
    if elapsed_ns < ROUND_NS - SPIN_NS {
        Pause { sleep_ns: ROUND_NS - SPIN_NS - elapsed_ns, round_ns: ROUND_NS }
    } else {
        Pause { sleep_ns: 0, round_ns: ROUND_NS }
    }
}

/// While masks are published, no round is slept past its end: what is left of it after the sleep is
/// enough to wake up in.
pub proof fn rounds_are_not_overslept(elapsed_ns: int)
    requires
        0 <= elapsed_ns,
    ensures
        pause_after(true, elapsed_ns).sleep_ns > 0 ==> elapsed_ns + pause_after(
            true,
            elapsed_ns,
        ).sleep_ns + SPIN_NS == pause_after(true, elapsed_ns).round_ns,
{
}

/// While masks are published, a round takes two milliseconds, and the sooner its work is done the
/// longer it sleeps; work that takes up the round leaves no sleep. Without masks, the engine sleeps
/// for ten milliseconds, however long its work took.
pub proof fn rounds_take_two_milliseconds(elapsed_ns: int)
    requires
        0 <= elapsed_ns,
    ensures
        pause_after(true, elapsed_ns).round_ns == 2_000_000,
        elapsed_ns < 1_800_000 ==> pause_after(true, elapsed_ns).sleep_ns + elapsed_ns == 1_800_000,
        elapsed_ns >= 1_800_000 ==> pause_after(true, elapsed_ns).sleep_ns == 0,
        pause_after(false, elapsed_ns).sleep_ns == 10_000_000,
        pause_after(false, elapsed_ns).round_ns == 0,
{
}

} // verus!
