//! Devices on the USB bus.

use vstd::prelude::*;
use crate::discovery::{DiscoveredDevice, DiscoveryEvent};
use crate::engine::process::time_since;
use crate::name_map::NameMap;
use crate::registry::{find_match, matching_entry, DeviceEntry, Registry, UsbIdentity};
use crate::seqs::option_deref;
use crate::text::{owned, str_eq};

verus! {

/// For how long after its removal a device is not reported again.
pub const COOLDOWN_NS: u64 = 2_000_000_000;

/// The USB devices that are known.
pub struct UsbDiscovery {
    pub registry: Registry,
    /// When devices were removed, by their names in the system.
    pub cooldown: NameMap<u64>,
    /// Names of the registered devices that are there, by their names in the system.
    pub known_devices: NameMap<String>,
}

/// Whether a device is that of an entry.
pub open spec fn is_device_at(d: DiscoveredDevice, sysname: Seq<char>, entry: DeviceEntry) -> bool {
    &&& d.source_id@ == sysname
    &&& d.device_name@ == entry.name@
    &&& d.entry == entry
    &&& d.address is None
}

/// Tests whether something on the bus is a device, and not one of its interfaces.
pub fn is_usb_device(devtype: Option<&str>) -> (r: bool)
    ensures
        r == (devtype matches Some(t) && t@ == "usb_device"@),
{
    match devtype {
        Some(t) => str_eq(t, "usb_device"),
        None => false,
    }
}

/// Where the system keeps a device.
pub fn device_path(source_id: &str) -> (r: String)
    ensures
        r@ == "/sys/bus/usb/devices/"@ + source_id@,
{
    let mut path: String = owned("/sys/bus/usb/devices/");
    path.append(source_id);
    path
}

impl UsbDiscovery {
    /// No devices.
    pub fn new(registry: Registry) -> (r: Self)
        ensures
            r.registry == registry,
            r.cooldown@ == Map::<Seq<char>, u64>::empty(),
            r.known_devices@ == Map::<Seq<char>, String>::empty(),
    {
        UsbDiscovery { registry, cooldown: NameMap::new(), known_devices: NameMap::new() }
    }

    /// Whether `after` and `found` are what becomes of a device that is there: it is known and
    /// reported where an entry asks for it.
    pub open spec fn is_found(
        self,
        identity: UsbIdentity,
        after: UsbDiscovery,
        found: Option<DiscoveredDevice>,
    ) -> bool {
        match matching_entry(self.registry.devices@, identity) {
            Some(i) => {
                let entry = self.registry.devices@[i];
                &&& found is Some
                &&& is_device_at(found->0, identity.sysname@, entry)
                &&& after.known_devices@ == self.known_devices@.insert(identity.sysname@, entry.name)
                &&& after == UsbDiscovery { known_devices: after.known_devices, ..self }
            },
            None => found is None && after == self,
        }
    }

    /// Takes note of a device that is there.
    pub fn device_found(&mut self, identity: &UsbIdentity) -> (r: Option<DiscoveredDevice>)
        ensures
            old(self).is_found(*identity, *final(self), r),
    {
        let entry: DeviceEntry = match find_match(&self.registry, identity) {
            Some(e) => e.clone(),
            None => {
                return None;
            },
        };
        self.known_devices.insert(identity.sysname.clone(), entry.name.clone());
        let device_name: String = entry.name.clone();
        Some(
            DiscoveredDevice {
                source_id: identity.sysname.clone(),
                device_name,
                entry,
                address: None,
            },
        )
    }

    /// Whether a device was removed too short a time ago to be reported again.
    pub open spec fn is_cooling(self, sysname: Seq<char>, now_ns: u64) -> bool {
        self.cooldown@.contains_key(sysname) && time_since(now_ns, self.cooldown@[sysname])
            < COOLDOWN_NS
    }

    /// This tracker without the removal of a device.
    pub open spec fn is_cooled(self, sysname: Seq<char>, after: UsbDiscovery) -> bool {
        after.cooldown@ == self.cooldown@.remove(sysname) && after == UsbDiscovery {
            cooldown: after.cooldown,
            ..self
        }
    }

    /// Whether `after` and `found` are what becomes of a device that was plugged in: nothing where
    /// it was removed a moment ago, and otherwise the same as for one that is there.
    pub open spec fn is_added(
        self,
        sysname: Seq<char>,
        identity: Option<UsbIdentity>,
        now_ns: u64,
        after: UsbDiscovery,
        found: Option<DiscoveredDevice>,
    ) -> bool {
        if self.is_cooling(sysname, now_ns) {
            after == self && found is None
        } else {
            exists|middle: UsbDiscovery|
                #![trigger self.is_cooled(sysname, middle)]
                self.is_cooled(sysname, middle) && match identity {
                    Some(id) => middle.is_found(id, after, found),
                    None => found is None && after == middle,
                }
        }
    }

    /// Takes note of a device that was plugged in.
    pub fn device_added(&mut self, sysname: &str, identity: Option<&UsbIdentity>, now_ns: u64) -> (r:
        Option<DiscoveredDevice>)
        ensures
            old(self).is_added(
                sysname@,
                option_deref(identity),
                now_ns,
                *final(self),
                r,
            ),
    {
        let ghost start = *self;
        if let Some(last) = self.cooldown.get(sysname) {
            if now_ns.saturating_sub(*last) < COOLDOWN_NS {
                return None;
            }
        }
        self.cooldown.remove(sysname);
        let ghost middle = *self;
        assert(start.is_cooled(sysname@, middle));
        match identity {
            Some(id) => self.device_found(id),
            None => None,
        }
    }

    /// Takes note of a device that was unplugged. It is reported where it was known, and not
    /// reported again for a while.
    pub fn device_removed(&mut self, sysname: &str, now_ns: u64) -> (r: bool)
        ensures
            r == old(self).known_devices@.contains_key(sysname@),
            !r ==> *final(self) == *old(self),
            r ==> {
                &&& final(self).known_devices@ == old(self).known_devices@.remove(sysname@)
                &&& final(self).cooldown@ == old(self).cooldown@.insert(sysname@, now_ns)
                &&& final(self).registry == old(self).registry
            },
    {
        if !self.known_devices.contains_key(sysname) {
            return false;
        }
        self.known_devices.remove(sysname);
        self.cooldown.insert(owned(sysname), now_ns);
        true
    }

    /// Takes note of an event on the bus, and gives what is to be reported.
    pub fn bus_event(
        &mut self,
        action: &str,
        devtype: Option<&str>,
        sysname: &str,
        identity: Option<&UsbIdentity>,
        now_ns: u64,
    ) -> (r: Option<DiscoveryEvent>)
        ensures
            if !(devtype matches Some(t) && t@ == "usb_device"@) {
                r is None && *final(self) == *old(self)
            } else if action@ == "add"@ {
                exists|found: Option<DiscoveredDevice>|
                    old(self).is_added(
                        sysname@,
                        option_deref(identity),
                        now_ns,
                        *final(self),
                        found,
                    ) && r == (match found {
                        Some(d) => Some(DiscoveryEvent::Added(d)),
                        None => None,
                    })
            } else if action@ == "remove"@ && old(self).known_devices@.contains_key(sysname@) {
                &&& r matches Some(DiscoveryEvent::Removed { source_id })
                &&& source_id@ == sysname@
                &&& final(self).known_devices@ == old(self).known_devices@.remove(sysname@)
                &&& final(self).cooldown@ == old(self).cooldown@.insert(sysname@, now_ns)
                &&& final(self).registry == old(self).registry
            } else {
                r is None && *final(self) == *old(self)
            },
    {
        if !is_usb_device(devtype) {
            return None;
        }
        if str_eq(action, "add") {
            return match self.device_added(sysname, identity, now_ns) {
                Some(d) => Some(DiscoveryEvent::Added(d)),
                None => None,
            };
        }
        if str_eq(action, "remove") {
            proof {
                reveal_strlit("add");
                reveal_strlit("remove");
            }
            if self.device_removed(sysname, now_ns) {
                return Some(DiscoveryEvent::Removed { source_id: owned(sysname) });
            }
        }
        None
    }
}

/// A device that was unplugged is not reported again for two seconds, and is after them if an entry
/// asks for it.
pub proof fn unplugged_devices_cool_down(
    start: UsbDiscovery,
    sysname: Seq<char>,
    removed_ns: u64,
    middle: UsbDiscovery,
    identity: UsbIdentity,
    now_ns: u64,
    end: UsbDiscovery,
    found: Option<DiscoveredDevice>,
)
    requires
        middle.cooldown@ == start.cooldown@.insert(sysname, removed_ns),
        removed_ns <= now_ns,
        middle.is_added(sysname, Some(identity), now_ns, end, found),
    ensures
        now_ns - removed_ns < COOLDOWN_NS ==> found is None,
        now_ns - removed_ns >= COOLDOWN_NS ==> (found is Some <==> matching_entry(
            middle.registry.devices@,
            identity,
        ) is Some),
{
}

/// A device that an entry asks for is reported as that entry's device and known under its name in
/// the system; any other is passed over.
pub proof fn found_devices_are_known(
    start: UsbDiscovery,
    identity: UsbIdentity,
    end: UsbDiscovery,
    found: Option<DiscoveredDevice>,
)
    requires
        start.is_found(identity, end, found),
    ensures
        matching_entry(start.registry.devices@, identity) matches Some(i) ==> {
            &&& found is Some
            &&& found->0.source_id@ == identity.sysname@
            &&& found->0.device_name@ == start.registry.devices@[i].name@
            &&& found->0.entry == start.registry.devices@[i]
            &&& found->0.address is None
            &&& end.known_devices@.contains_key(identity.sysname@)
            &&& end.known_devices@[identity.sysname@]@ == start.registry.devices@[i].name@
        },
        matching_entry(start.registry.devices@, identity) is None ==> found is None && end == start,
        end.cooldown == start.cooldown,
        end.registry == start.registry,
{
}

/// Devices cool down for two seconds from their removal on, and those that were not removed do not.
pub proof fn devices_cool_down_for_two_seconds(u: UsbDiscovery, sysname: Seq<char>, now_ns: u64)
    ensures
        u.cooldown@.contains_key(sysname) && u.cooldown@[sysname] <= now_ns ==> (u.is_cooling(
            sysname,
            now_ns,
        ) <==> now_ns - u.cooldown@[sysname] < 2 * 1000 * 1000 * 1000),
        !u.cooldown@.contains_key(sysname) ==> !u.is_cooling(sysname, now_ns),
{
}

/// A device that is plugged in after its time has passed is treated like one that is there, and its
/// removal is forgotten; before, nothing happens.
pub proof fn plugged_devices_are_found(
    start: UsbDiscovery,
    sysname: Seq<char>,
    identity: Option<UsbIdentity>,
    now_ns: u64,
    end: UsbDiscovery,
    found: Option<DiscoveredDevice>,
)
    requires
        start.is_added(sysname, identity, now_ns, end, found),
    ensures
        start.is_cooling(sysname, now_ns) ==> found is None && end == start,
        !start.is_cooling(sysname, now_ns) ==> !end.cooldown@.contains_key(sysname),
        !start.is_cooling(sysname, now_ns) ==> (found is Some <==> identity is Some && matching_entry(
            start.registry.devices@,
            identity->0,
        ) is Some),
        found matches Some(d) ==> d.source_id@ == identity->0.sysname@
            && end.known_devices@.contains_key(identity->0.sysname@),
        found is None ==> end.known_devices == start.known_devices,
        end.registry == start.registry,
{
}

/// Only devices of the bus count, not their interfaces; the system keeps each under its name.
pub proof fn devices_of_the_bus_count(devtype: Option<&str>, source_id: &str, counts: bool, path: String)
    requires
        call_ensures(is_usb_device, (devtype,), counts),
        call_ensures(device_path, (source_id,), path),
    ensures
        devtype is None ==> !counts,
        devtype matches Some(t) ==> (counts <==> t@ == "usb_device"@),
        path@ == "/sys/bus/usb/devices/"@ + source_id@,
{
}

/// A known device that was unplugged is no longer known and cools down from then on; any other
/// changes nothing.
pub proof fn unplugged_devices_are_forgotten(u: &mut UsbDiscovery, sysname: &str, now_ns: u64, r: bool)
    requires
        call_ensures(UsbDiscovery::device_removed, (u, sysname, now_ns), r),
    ensures
        r <==> old(u).known_devices@.contains_key(sysname@),
        !final(u).known_devices@.contains_key(sysname@),
        r ==> final(u).cooldown@.contains_key(sysname@) && final(u).cooldown@[sysname@] == now_ns,
        !r ==> *final(u) == *old(u),
{
}

} // verus!
