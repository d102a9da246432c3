//! What is known of a device decides its status, and whether its process is restarted.

use vstd::prelude::*;
use crate::engine::command::DeviceStatus;
use crate::engine::heartbeat::{heartbeat_cut_off, heartbeat_error, heartbeat_fresh, is_cut_off,
    is_fresh, reports_error, Heartbeat, HEARTBEAT_STARTUP_GRACE_NS};
use crate::seqs::option_deref;
use crate::text::{maybe_text, owned, str_eq};

verus! {

/// What is known of a device at some moment.
pub ghost struct DeviceFacts {
    /// Whether the device is connected.
    pub online: bool,
    /// The process of the device: its id, and for how many nanoseconds it has run.
    pub process: Option<(u32, u64)>,
    /// Whether that process writes a heartbeat.
    pub uses_heartbeat: bool,
    pub heartbeat: Option<Heartbeat>,
    pub address: Option<Seq<char>>,
}

impl DeviceFacts {
    /// Whether the heartbeat is as it should be: a process without one needs none.
    pub open spec fn heartbeat_fine(self) -> bool {
        self.uses_heartbeat ==> is_fresh(self.heartbeat) && !is_cut_off(self.heartbeat)
    }

    /// Whether the process is so young that it need not have a heartbeat.
    pub open spec fn in_startup(self) -> bool {
        self.process matches Some(p) && p.1 <= HEARTBEAT_STARTUP_GRACE_NS
    }

    /// Whether the device is ready: its process runs, and its heartbeat is as it should be.
    pub open spec fn ready(self) -> bool {
        self.process is Some && self.heartbeat_fine()
    }

    /// Why a device is not ready.
    pub open spec fn reason(self, backend: Seq<char>) -> Option<Seq<char>> {
        if self.ready() {
            None
        } else if self.process is None {
            if backend == "mdns"@ && !self.online {
                Some("mdns_missing"@)
            } else {
                Some("process_down"@)
            }
        } else if self.in_startup() && !is_fresh(self.heartbeat) {
            Some("starting"@)
        } else if is_cut_off(self.heartbeat) {
            Some("client_disconnected"@)
        } else {
            Some("heartbeat_stale"@)
        }
    }

    /// Whether the process is to be restarted: it runs, it is past its start, and its heartbeat is
    /// stale, says that the client is gone, or reports an error.
    pub open spec fn must_restart(self) -> bool {
        &&& self.process is Some
        &&& self.uses_heartbeat
        &&& !self.in_startup()
        &&& !self.heartbeat_fine() || reports_error(self.heartbeat)
    }

    /// Whether `after` is the status `before` brought up to date.
    pub open spec fn is_status(self, before: DeviceStatus, after: DeviceStatus) -> bool {
        &&& after.name == before.name
        &&& after.bit_index == before.bit_index
        &&& after.backend == before.backend
        &&& self.is_shown_by(after)
    }

    /// Whether a status shows these facts.
    pub open spec fn is_shown_by(self, after: DeviceStatus) -> bool {
        &&& after.discovered == self.online
        &&& after.process_running == self.process is Some
        &&& after.pid == (match self.process {
            Some(p) => Some(p.0),
            None => None,
        })
        &&& after.heartbeat_ok == (if self.uses_heartbeat {
            Some(self.heartbeat_fine())
        } else {
            None
        })
        &&& after.last_heartbeat_age_ms == (if self.uses_heartbeat && self.heartbeat is Some {
            self.heartbeat->0.age_ms
        } else {
            None
        })
        &&& maybe_text(after.state_reason) == self.reason(after.backend@)
        &&& maybe_text(after.address) == self.address
    }
}

/// Brings the status of a device up to date. Returns whether its process is to be restarted.
pub fn assess(
    device: &mut DeviceStatus,
    online: bool,
    process: Option<(u32, u64)>,
    uses_heartbeat: bool,
    heartbeat: Option<&Heartbeat>,
    address: Option<&String>,
) -> (r: bool)
    ensures
        ({
            let facts = DeviceFacts {
                online,
                process,
                uses_heartbeat,
                heartbeat: option_deref(heartbeat),
                address: maybe_text(option_deref(address)),
            };
            facts.is_status(*old(device), *final(device)) && r == facts.must_restart()
        }),
{
    let fresh: bool = heartbeat_fresh(heartbeat);
    let cut_off: bool = uses_heartbeat && heartbeat_cut_off(heartbeat);
    let process_running: bool = process.is_some();
    let startup_grace: bool = match process {
        Some(p) => p.1 <= HEARTBEAT_STARTUP_GRACE_NS,
        None => false,
    };
    let heartbeat_ok: bool = if uses_heartbeat {
        fresh && !cut_off
    } else {
        true
    };
    let reason: Option<String> = if process_running && heartbeat_ok {
        None
    } else if !process_running {
        if str_eq(device.backend.as_str(), "mdns") && !online {
            Some(owned("mdns_missing"))
        } else {
            Some(owned("process_down"))
        }
    } else if startup_grace && !fresh {
        Some(owned("starting"))
    } else if cut_off {
        Some(owned("client_disconnected"))
    } else {
        Some(owned("heartbeat_stale"))
    };
    let restart: bool = process_running && uses_heartbeat && !startup_grace && (!fresh || cut_off
        || heartbeat_error(heartbeat));
    device.discovered = online;
    device.process_running = process_running;
    device.pid = match process {
        Some(p) => Some(p.0),
        None => None,
    };
    device.heartbeat_ok = if uses_heartbeat {
        Some(heartbeat_ok)
    } else {
        None
    };
    device.last_heartbeat_age_ms = if uses_heartbeat {
        match heartbeat {
            Some(h) => h.age_ms,
            None => None,
        }
    } else {
        None
    };
    device.state_reason = reason;
    device.address = match address {
        Some(a) => Some(a.clone()),
        None => None,
    };
    restart
}

/// Whether a device can be used: its process runs, and nothing is wrong with its heartbeat.
pub open spec fn is_available(device: DeviceStatus) -> bool {
    device.process_running && (device.heartbeat_ok matches Some(ok) ==> ok)
}

/// Tests whether a device can be used.
pub fn device_available(device: &DeviceStatus) -> (r: bool)
    ensures
        r == is_available(*device),
{
    device.process_running && match device.heartbeat_ok {
        Some(ok) => ok,
        None => true,
    }
}

/// A device that was brought up to date is available exactly where no reason is given why not, and
/// that is where it is ready.
pub proof fn availability_needs_no_reason(facts: DeviceFacts, before: DeviceStatus, after: DeviceStatus)
    requires
        facts.is_status(before, after),
    ensures
        is_available(after) <==> facts.ready(),
        is_available(after) <==> after.state_reason is None,
{
}

/// A process that is still starting, or that writes no heartbeat, is never restarted for its
/// heartbeat.
pub proof fn young_processes_are_left_alone(facts: DeviceFacts)
    requires
        facts.in_startup() || !facts.uses_heartbeat || facts.process is None,
    ensures
        !facts.must_restart(),
{
}

/// Past its start, a process that writes heartbeats and is not ready is restarted.
pub proof fn unready_processes_are_restarted(facts: DeviceFacts)
    requires
        facts.process is Some,
        facts.uses_heartbeat,
        !facts.in_startup(),
        !facts.ready(),
    ensures
        facts.must_restart(),
{
}

/// A running process whose heartbeat is fresh, says that its client is connected or nothing of it,
/// and reports no error, makes its device ready and is left alone, however long ago the last frame
/// came.
pub proof fn healthy_processes_are_left_alone(
    facts: DeviceFacts,
    before: DeviceStatus,
    after: DeviceStatus,
    heartbeat: Heartbeat,
)
    requires
        facts.is_status(before, after),
        facts.process is Some,
        facts.uses_heartbeat,
        facts.heartbeat == Some(heartbeat),
        heartbeat.age_ms matches Some(age) && age <= 3_000,
        heartbeat.snapshot.client_connected != Some(false),
        heartbeat.snapshot.error matches Some(e) ==> e@.len() == 0,
    ensures
        !facts.must_restart(),
        after.heartbeat_ok == Some(true),
        after.state_reason is None,
        is_available(after),
{
}

/// A running process without a heartbeat of its own makes its device ready.
pub proof fn processes_without_heartbeats_are_ready(
    facts: DeviceFacts,
    before: DeviceStatus,
    after: DeviceStatus,
)
    requires
        facts.is_status(before, after),
        facts.process is Some,
        !facts.uses_heartbeat,
    ensures
        !facts.must_restart(),
        after.heartbeat_ok is None,
        after.last_heartbeat_age_ms is None,
        after.state_reason is None,
        is_available(after),
{
}

/// A process that has run for more than six seconds is restarted where its heartbeat is missing,
/// older than three seconds or reports an error. A device without a fresh heartbeat cannot be used.
pub proof fn silent_processes_are_restarted(
    facts: DeviceFacts,
    before: DeviceStatus,
    after: DeviceStatus,
    pid: u32,
    ran_ns: u64,
)
    requires
        facts.is_status(before, after),
        facts.process == Some((pid, ran_ns)),
        facts.uses_heartbeat,
        facts.heartbeat is None || facts.heartbeat->0.age_ms is None || facts.heartbeat->0.age_ms->0
            > 3_000,
    ensures
        ran_ns > 6_000_000_000 ==> facts.must_restart(),
        ran_ns <= 6_000_000_000 ==> !facts.must_restart(),
        after.heartbeat_ok == Some(false),
        !is_available(after),
        ran_ns > 6_000_000_000 ==> maybe_text(after.state_reason) == Some("heartbeat_stale"@),
        ran_ns <= 6_000_000_000 ==> maybe_text(after.state_reason) == Some("starting"@),
{
}

/// A process that reports an error is restarted once it has run for more than six seconds.
pub proof fn processes_with_errors_are_restarted(facts: DeviceFacts, pid: u32, ran_ns: u64, heartbeat: Heartbeat)
    requires
        facts.process == Some((pid, ran_ns)),
        facts.uses_heartbeat,
        facts.heartbeat == Some(heartbeat),
        heartbeat.snapshot.error matches Some(e) && e@.len() > 0,
    ensures
        ran_ns > 6_000_000_000 <==> facts.must_restart(),
{
}

/// A process whose client has been gone for more than four seconds leaves its device unusable, and
/// is restarted once it has run for more than six seconds.
pub proof fn processes_without_clients_are_restarted(
    facts: DeviceFacts,
    before: DeviceStatus,
    after: DeviceStatus,
    pid: u32,
    ran_ns: u64,
    heartbeat: Heartbeat,
)
    requires
        facts.is_status(before, after),
        facts.process == Some((pid, ran_ns)),
        facts.uses_heartbeat,
        facts.heartbeat == Some(heartbeat),
        heartbeat.age_ms matches Some(age) && age <= 3_000,
        heartbeat.snapshot.client_connected == Some(false),
        heartbeat.last_frame_age_bits matches Some(bits) && 0x4010_0000_0000_0000 < bits
            <= 0x7ff0_0000_0000_0000,
    ensures
        ran_ns > 6_000_000_000 <==> facts.must_restart(),
        after.heartbeat_ok == Some(false),
        !is_available(after),
        maybe_text(after.state_reason) == Some("client_disconnected"@),
{
}

/// A device without a process cannot be used, and the reason tells whether it is missing from the
/// network.
pub proof fn devices_without_processes_are_down(
    facts: DeviceFacts,
    before: DeviceStatus,
    after: DeviceStatus,
)
    requires
        facts.is_status(before, after),
        facts.process is None,
    ensures
        !is_available(after),
        !after.process_running,
        after.pid is None,
        before.backend@ == "mdns"@ && !facts.online ==> maybe_text(after.state_reason) == Some(
            "mdns_missing"@,
        ),
        before.backend@ != "mdns"@ || facts.online ==> maybe_text(after.state_reason) == Some(
            "process_down"@,
        ),
{
}

/// A status shows what is known of its device, and stays that of its device.
pub proof fn statuses_show_what_is_known(facts: DeviceFacts, before: DeviceStatus, after: DeviceStatus)
    requires
        facts.is_status(before, after),
    ensures
        after.name == before.name,
        after.bit_index == before.bit_index,
        after.backend == before.backend,
        after.discovered == facts.online,
        facts.process matches Some(p) ==> after.process_running && after.pid == Some(p.0),
        maybe_text(after.address) == facts.address,
        facts.uses_heartbeat && facts.heartbeat is Some ==> after.last_heartbeat_age_ms
            == facts.heartbeat->0.age_ms,
        facts.heartbeat is None ==> after.last_heartbeat_age_ms is None,
{
}

/// A device can be used exactly where its process runs and its heartbeat is not known to be wrong.
pub proof fn devices_can_be_used_while_their_heartbeat_is_fine(device: DeviceStatus)
    ensures
        !device.process_running ==> !is_available(device),
        device.heartbeat_ok == Some(false) ==> !is_available(device),
        device.process_running && device.heartbeat_ok != Some(false) ==> is_available(device),
{
}

} // verus!
