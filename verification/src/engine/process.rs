//! The processes of devices: how they are started, restarted and ended.

use vstd::prelude::*;
use crate::registry::DeviceEntry;

verus! {

/// Delay before the first restart.
pub const RESTART_BASE_DELAY_MS: u64 = 1_000;

/// Longest delay before a restart.
pub const RESTART_MAX_DELAY_MS: u64 = 30_000;

/// Shortest delay before a restart.
pub const RESTART_MIN_DELAY_MS: u64 = 100;

/// By how many percent a delay may be off, in either direction.
pub const RESTART_JITTER_PCT: u64 = 10;


/// Pause between two looks at a process that is to end.
pub const TERMINATION_POLL_MS: u64 = 100;

/// Pause between the end of a process and the command that follows it.
pub const DETACH_PAUSE_MS: u64 = 500;

/// A process that runs for a device.
#[derive(Debug)]
pub struct RunningProcess {
    pub pid: u32,
    pub entry_name: String,
    pub on_detach: String,
    pub entry: DeviceEntry,
    /// How often the process was restarted in a row.
    pub restart_count: u32,
    pub started_at_ns: u64,
}

/// A restart that waits for its time.
#[derive(Debug)]
pub struct PendingRestart {
    pub source_id: String,
    pub entry: DeviceEntry,
    pub restart_count: u32,
    pub restart_at_ns: u64,
}

/// A process to end, and the command to run afterwards (none where it is empty).
#[derive(Debug)]
pub struct Termination {
    pub pid: u32,
    pub on_detach: String,
}

/// A process to start for a device.
#[derive(Debug)]
pub struct SpawnRequest {
    pub source_id: String,
    pub entry: DeviceEntry,
    pub restart_count: u32,
    /// Value for `DEVICE_ADDR`.
    pub address: Option<String>,
    /// Name of the heartbeat file, if the process writes one.
    pub heartbeat_file: Option<String>,
    /// Name of the file for the output of the process.
    pub log_file: String,
}

/// The later of two moments that lie `ms` milliseconds apart, at most the end of time.
pub open spec fn moment_after(now_ns: u64, ms: u64) -> int {
    if now_ns + ms * 1_000_000 <= u64::MAX {
        now_ns + ms * 1_000_000
    } else {
        u64::MAX as int
    }
}

/// Adds milliseconds to a moment.
pub fn add_ms(now_ns: u64, ms: u64) -> (r: u64)
    ensures
        r == moment_after(now_ns, ms),
{
    let moment: u128 = now_ns as u128 + ms as u128 * 1_000_000;
    if moment <= u64::MAX as u128 {
        moment as u64
    } else {
        u64::MAX
    }
}

/// How long ago a moment was.
pub open spec fn time_since(now_ns: u64, then_ns: u64) -> int {
    if then_ns <= now_ns {
        now_ns - then_ns
    } else {
        0
    }
}

// ── Restarts ────────────────────────────────────────────────────────

/// The delay before a restart without jitter: it doubles with each restart in a row, up to a limit.
pub open spec fn backoff_ms(restart_count: nat) -> nat
    decreases restart_count,
{
    if restart_count <= 1 {
        RESTART_BASE_DELAY_MS as nat
    } else if 2 * backoff_ms((restart_count - 1) as nat) > RESTART_MAX_DELAY_MS {
        RESTART_MAX_DELAY_MS as nat
    } else {
        2 * backoff_ms((restart_count - 1) as nat)
    }
}

/// By how much a delay may be off.
pub open spec fn jitter_span_ms(delay_ms: nat) -> nat {
    delay_ms * RESTART_JITTER_PCT as nat / 100
}

/// The delay before a restart, where `nanos` are the nanoseconds of the current second.
pub open spec fn restart_delay(restart_count: nat, nanos: nat) -> int {
    let delay = backoff_ms(restart_count);
    let span = jitter_span_ms(delay);
    let jittered = delay + nanos % (2 * span + 1) - span;
    if jittered < RESTART_MIN_DELAY_MS {
        RESTART_MIN_DELAY_MS as int
    } else if jittered > RESTART_MAX_DELAY_MS {
        RESTART_MAX_DELAY_MS as int
    } else {
        jittered
    }
}

/// The delay before a restart lies between its bounds.
pub proof fn backoff_is_bounded(restart_count: nat)
    ensures
        RESTART_BASE_DELAY_MS <= backoff_ms(restart_count) <= RESTART_MAX_DELAY_MS,
    decreases restart_count,
{
    if restart_count > 1 {
        backoff_is_bounded((restart_count - 1) as nat);
    }
}

/// A device that is restarted more often in a row does not wait for a shorter time.
pub proof fn backoff_never_shrinks(a: nat, b: nat)
    requires
        a <= b,
    ensures
        backoff_ms(a) <= backoff_ms(b),
    decreases b,
{
    if a < b {
        backoff_never_shrinks(a, (b - 1) as nat);
        backoff_is_bounded((b - 1) as nat);
    }
}

/// From the sixth restart in a row on, a restart waits for the longest delay.
pub proof fn backoff_reaches_its_limit(restart_count: nat)
    requires
        restart_count >= 6,
    ensures
        backoff_ms(restart_count) == RESTART_MAX_DELAY_MS,
{
    reveal_with_fuel(backoff_ms, 7);
    assert(backoff_ms(6) == RESTART_MAX_DELAY_MS);
    backoff_never_shrinks(6, restart_count);
    backoff_is_bounded(restart_count);
}

/// Jitter moves a delay by at most a tenth, and the result never leaves the bounds.
pub proof fn restart_delay_is_near_its_backoff(restart_count: nat, nanos: nat)
    ensures
        RESTART_MIN_DELAY_MS <= restart_delay(restart_count, nanos) <= RESTART_MAX_DELAY_MS,
        10 * restart_delay(restart_count, nanos) >= 9 * backoff_ms(restart_count),
        10 * restart_delay(restart_count, nanos) <= 11 * backoff_ms(restart_count),
{
    backoff_is_bounded(restart_count);
    let span = jitter_span_ms(backoff_ms(restart_count));
    assert(0 <= nanos % (2 * span + 1) < 2 * span + 1) by (nonlinear_arith)
        requires
            span >= 0,
    ;
}

/// The delay before a restart in milliseconds, where `nanos` are the nanoseconds of the current
/// second.
pub fn restart_delay_ms(restart_count: u32, nanos: u32) -> (r: u64)
    ensures
        r == restart_delay(restart_count as nat, nanos as nat),
{
    let mut delay: u64 = RESTART_BASE_DELAY_MS;
    let mut count: u32 = 1;
    while count < restart_count && delay < RESTART_MAX_DELAY_MS
        invariant
            1 <= count,
            count <= restart_count || count == 1,
            delay == backoff_ms(count as nat),
            RESTART_BASE_DELAY_MS <= delay <= RESTART_MAX_DELAY_MS,
        decreases restart_count - count,
    {
        count = count + 1;
        delay = if 2 * delay > RESTART_MAX_DELAY_MS {
            RESTART_MAX_DELAY_MS
        } else {
            2 * delay
        };
    }
    proof {
        if count < restart_count {
            backoff_never_shrinks(count as nat, restart_count as nat);
            backoff_is_bounded(restart_count as nat);
        }
        assert(delay == backoff_ms(restart_count as nat));
        restart_delay_is_near_its_backoff(restart_count as nat, nanos as nat);
    }
    let span: u64 = delay * RESTART_JITTER_PCT / 100;
    let jittered: u64 = delay + (nanos as u64) % (2 * span + 1) - span;
    if jittered < RESTART_MIN_DELAY_MS {
        RESTART_MIN_DELAY_MS
    } else if jittered > RESTART_MAX_DELAY_MS {
        RESTART_MAX_DELAY_MS
    } else {
        jittered
    }
}

// ── Termination ─────────────────────────────────────────────────────

/// What a look at a process shows.
#[derive(Debug, Clone, Copy, PartialEq, Eq, Structural)]
pub enum ProcessState {
    Exited,
    Alive,
    Unknown,
}

/// What to do next with a process that is to end.
#[derive(Debug, Clone, Copy, PartialEq, Eq, Structural)]
pub enum TerminationAction {
    /// Ask the process group to end.
    Ask,
    /// Wait for `TERMINATION_POLL_MS` and look again.
    Wait,
    /// Kill the process group and collect the process.
    Kill,
    /// The process has ended.
    Finish,
}

/// What to do first with a process that is to end: one that has not exited is asked to.
pub fn begin_termination(state: ProcessState) -> (r: TerminationAction)
    ensures
        r == (if state == ProcessState::Exited {
            TerminationAction::Finish
        } else {
            TerminationAction::Ask
        }),
{
    match state {
        ProcessState::Exited => TerminationAction::Finish,
        _ => TerminationAction::Ask,
    }
}

/// When a process that was asked to end at `now_ns` is killed.
pub fn termination_deadline(now_ns: u64) -> (r: u64)
    ensures
        r == moment_after(now_ns, 5000),
{
    add_ms(now_ns, 5000)
}

/// What to do with a process that was asked to end: nothing more once it has exited or nothing can
/// be learnt of it; while it lives, wait until the deadline and then kill it.
pub fn continue_termination(state: ProcessState, now_ns: u64, deadline_ns: u64) -> (r:
    TerminationAction)
    ensures
        r == (match state {
            ProcessState::Alive => if now_ns >= deadline_ns {
                TerminationAction::Kill
            } else {
                TerminationAction::Wait
            },
            _ => TerminationAction::Finish,
        }),
{
    match state {
        ProcessState::Alive => if now_ns >= deadline_ns {
            TerminationAction::Kill
        } else {
            TerminationAction::Wait
        },
        _ => TerminationAction::Finish,
    }
}

/// The first restart waits for a second, each further one in a row for twice as long as the one
/// before it, and none for longer than half a minute.
pub proof fn backoff_doubles(restart_count: nat)
    requires
        restart_count >= 1,
    ensures
        backoff_ms(1) == 1_000,
        2 * backoff_ms(restart_count) <= 30_000 ==> backoff_ms(restart_count + 1) == 2 * backoff_ms(
            restart_count,
        ),
        2 * backoff_ms(restart_count) >= 30_000 ==> backoff_ms(restart_count + 1) == 30_000,
{
}

/// The delay follows the clock: at the start of a second it is a tenth short of the backoff, and with
/// each nanosecond it is a millisecond longer, until it is a tenth beyond the backoff; then it starts
/// over.
pub proof fn jitter_follows_the_clock(restart_count: nat, nanos: nat)
    requires
        11 * backoff_ms(restart_count) <= 300_000,
        nanos < 2 * (backoff_ms(restart_count) / 10) + 1,
    ensures
        restart_delay(restart_count, nanos) == backoff_ms(restart_count) - backoff_ms(restart_count)
            / 10 + nanos,
        restart_delay(restart_count, nanos + 2 * (backoff_ms(restart_count) / 10) + 1)
            == restart_delay(restart_count, nanos),
{
    backoff_is_bounded(restart_count);
    let span = backoff_ms(restart_count) / 10;
    assert(jitter_span_ms(backoff_ms(restart_count)) == span);
    assert(nanos % (2 * span + 1) == nanos) by (nonlinear_arith)
        requires
            nanos < 2 * span + 1,
    ;
    assert((nanos + (2 * span + 1)) % (2 * span + 1) == nanos) by (nonlinear_arith)
        requires
            nanos < 2 * span + 1,
    ;
}

/// A moment some milliseconds later lies that many millions of nanoseconds later, unless time ends
/// before.
pub proof fn moments_lie_as_far_apart_as_said(now_ns: u64, ms: u64)
    ensures
        moment_after(now_ns, ms) - now_ns == ms * 1_000_000 || moment_after(now_ns, ms) == u64::MAX,
        now_ns <= moment_after(now_ns, ms) <= u64::MAX,
        moment_after(now_ns, ms) <= now_ns + ms * 1_000_000,
{
}

/// How long ago a moment was: the time that brings it to now, and nothing for a moment to come.
pub proof fn time_passes(now_ns: u64, then_ns: u64)
    ensures
        then_ns <= now_ns ==> then_ns + time_since(now_ns, then_ns) == now_ns,
        now_ns <= then_ns ==> time_since(now_ns, then_ns) == 0,
{
}

/// A process that is to end is asked to, unless it has exited; it is killed once it lives on for five
/// seconds, and until then waited for. Nothing more is done about one that has exited, or of which
/// nothing can be learnt.
pub proof fn processes_are_asked_before_they_are_killed(
    state: ProcessState,
    now_ns: u64,
    deadline_ns: u64,
    first: TerminationAction,
    next: TerminationAction,
    deadline: u64,
)
    requires
        call_ensures(begin_termination, (state,), first),
        call_ensures(continue_termination, (state, now_ns, deadline_ns), next),
        call_ensures(termination_deadline, (now_ns,), deadline),
    ensures
        state == ProcessState::Exited ==> first == TerminationAction::Finish,
        state != ProcessState::Exited ==> first == TerminationAction::Ask,
        next == TerminationAction::Kill <==> state == ProcessState::Alive && now_ns >= deadline_ns,
        next == TerminationAction::Wait <==> state == ProcessState::Alive && now_ns < deadline_ns,
        next == TerminationAction::Finish <==> state != ProcessState::Alive,
        now_ns + 5_000_000_000 <= u64::MAX ==> deadline == now_ns + 5_000_000_000,
{
}

/// How long is waited between two looks at a process that ends, and before a device that was detached
/// is seen to.
pub proof fn waits_are_short()
    ensures
        TERMINATION_POLL_MS == 100,
        DETACH_PAUSE_MS == 500,
{
}

} // verus!
