//! The registry of devices and the commands that go with them.

use vstd::prelude::*;
use crate::order::{is_sorting_of, sort_texts};
use crate::seqs::{first_where, first_where_finds, lemma_filter_len, lemma_filter_none,
    lemma_filter_step, lemma_filter_whole, lemma_first_is, lemma_first_is_none};
use crate::text::{owned, str_eq, texts};

verus! {

/// A registered device.
#[derive(Debug)]
pub struct DeviceEntry {
    /// Unique name of the device.
    pub name: String,
    /// How the device is discovered: `usb` or `mdns`.
    pub backend: String,
    /// USB vendor id.
    pub vid: String,
    /// USB product id.
    pub pid: String,
    /// USB serial number; empty where any device of the model will do.
    pub serial: String,
    /// mDNS service type.
    pub service_type: String,
    /// Command that runs while the device is attached.
    pub on_attach: String,
    /// Command that runs once the device has gone.
    pub on_detach: String,
    /// Command that runs when a recording starts.
    pub on_record_start: String,
    /// Command that runs when a recording stops.
    pub on_record_stop: String,
    /// Kind of sensor, for recordings.
    pub sensor_type: String,
}

impl Clone for DeviceEntry {
    fn clone(&self) -> (r: Self)
        ensures
            r == *self,
    {
        DeviceEntry {
            name: self.name.clone(),
            backend: self.backend.clone(),
            vid: self.vid.clone(),
            pid: self.pid.clone(),
            serial: self.serial.clone(),
            service_type: self.service_type.clone(),
            on_attach: self.on_attach.clone(),
            on_detach: self.on_detach.clone(),
            on_record_start: self.on_record_start.clone(),
            on_record_stop: self.on_record_stop.clone(),
            sensor_type: self.sensor_type.clone(),
        }
    }
}

/// All registered devices.
#[derive(Debug)]
pub struct Registry {
    pub devices: Vec<DeviceEntry>,
}

/// What identifies an attached USB device.
#[derive(Debug)]
pub struct UsbIdentity {
    pub vid: String,
    pub pid: String,
    pub serial: String,
    pub sysname: String,
}

/// Reads the identity of a USB device out of its properties: vendor and model must be known, a
/// missing serial number counts as empty.
pub fn extract_identity(
    vendor_id: Option<&str>,
    model_id: Option<&str>,
    serial_short: Option<&str>,
    sysname: &str,
) -> (r: Option<UsbIdentity>)
    ensures
        r is Some <==> vendor_id is Some && model_id is Some,
        r matches Some(id) ==> {
            &&& id.vid@ == vendor_id->0@
            &&& id.pid@ == model_id->0@
            &&& id.serial@ == (match serial_short {
                Some(s) => s@,
                None => Seq::<char>::empty(),
            })
            &&& id.sysname@ == sysname@
        },
{
    match (vendor_id, model_id) {
        (Some(vid), Some(pid)) => {
            let serial: String = match serial_short {
                Some(s) => owned(s),
                None => String::new(),
            };
            Some(UsbIdentity { vid: owned(vid), pid: owned(pid), serial, sysname: owned(sysname) })
        },
        _ => None,
    }
}

/// Whether an entry asks for exactly this device: vendor, product and a serial number.
pub open spec fn is_exact_match(entry: DeviceEntry, id: UsbIdentity) -> bool {
    &&& entry.vid@ == id.vid@
    &&& entry.pid@ == id.pid@
    &&& entry.serial@.len() != 0
    &&& entry.serial@ == id.serial@
}

/// Whether an entry asks for any device of this model: vendor and product, without a serial number.
pub open spec fn is_model_match(entry: DeviceEntry, id: UsbIdentity) -> bool {
    &&& entry.vid@ == id.vid@
    &&& entry.pid@ == id.pid@
    &&& entry.serial@.len() == 0
}

/// The position of the entry that a USB device belongs to: the first exact match, or else the
/// first model match.
pub open spec fn matching_entry(devices: Seq<DeviceEntry>, id: UsbIdentity) -> Option<int> {
    match first_where(devices, |e: DeviceEntry| is_exact_match(e, id)) {
        Some(i) => Some(i),
        None => first_where(devices, |e: DeviceEntry| is_model_match(e, id)),
    }
}

/// A device whose serial number is registered belongs to an entry with that number, and a device
/// belongs to no entry exactly where none matches it.
pub proof fn exact_matches_go_first(devices: Seq<DeviceEntry>, id: UsbIdentity)
    ensures
        (exists|i: int| 0 <= i < devices.len() && is_exact_match(#[trigger] devices[i], id)) ==> {
            &&& matching_entry(devices, id) is Some
            &&& is_exact_match(devices[matching_entry(devices, id)->0], id)
        },
        matching_entry(devices, id) is None <==> forall|i: int|
            0 <= i < devices.len() ==> !is_exact_match(#[trigger] devices[i], id) && !is_model_match(
                devices[i],
                id,
            ),
{
    let exact = |e: DeviceEntry| is_exact_match(e, id);
    let model = |e: DeviceEntry| is_model_match(e, id);
    first_where_finds(devices, exact);
    first_where_finds(devices, model);
    assert forall|i: int| 0 <= i < devices.len() implies exact(#[trigger] devices[i])
        == is_exact_match(devices[i], id) && model(devices[i]) == is_model_match(devices[i], id) by {}
}

/// Finds the entry that a USB device belongs to.
pub fn find_match<'a>(registry: &'a Registry, identity: &UsbIdentity) -> (r: Option<
    &'a DeviceEntry,
>)
    ensures
        r is Some <==> matching_entry(registry.devices@, *identity) is Some,
        r matches Some(e) ==> *e == registry.devices@[matching_entry(
            registry.devices@,
            *identity,
        )->0],
{
    let n: usize = registry.devices.len();
    let ghost devices = registry.devices@;
    let ghost exact = |e: DeviceEntry| is_exact_match(e, *identity);
    let ghost model = |e: DeviceEntry| is_model_match(e, *identity);
    let mut i: usize = 0;
    while i < n
        invariant
            n == devices.len(),
            devices == registry.devices@,
            exact == (|e: DeviceEntry| is_exact_match(e, *identity)),
            i <= n,
            forall|k: int| 0 <= k < i ==> !exact(devices[k]),
        decreases n - i,
    {
        let entry: &DeviceEntry = &registry.devices[i];
        if entry.vid == identity.vid && entry.pid == identity.pid && !entry.serial.as_str().is_empty()
            && entry.serial == identity.serial {
            proof {
                lemma_first_is(devices, exact, i as int);
            }
            return Some(entry);
        }
        i = i + 1;
    }
    proof {
        lemma_first_is_none(devices, exact);
    }
    let mut j: usize = 0;
    while j < n
        invariant
            n == devices.len(),
            devices == registry.devices@,
            exact == (|e: DeviceEntry| is_exact_match(e, *identity)),
            model == (|e: DeviceEntry| is_model_match(e, *identity)),
            first_where(devices, exact) == None::<int>,
            j <= n,
            forall|k: int| 0 <= k < j ==> !model(devices[k]),
        decreases n - j,
    {
        let entry: &DeviceEntry = &registry.devices[j];
        if entry.vid == identity.vid && entry.pid == identity.pid
            && entry.serial.as_str().is_empty() {
            proof {
                lemma_first_is(devices, model, j as int);
            }
            return Some(entry);
        }
        j = j + 1;
    }
    proof {
        lemma_first_is_none(devices, model);
    }
    None
}

/// The position of the first entry with a name.
pub open spec fn entry_named(devices: Seq<DeviceEntry>, name: Seq<char>) -> Option<int> {
    first_where(devices, |e: DeviceEntry| e.name@ == name)
}

/// The names of all entries.
pub open spec fn entry_names(devices: Seq<DeviceEntry>) -> Seq<Seq<char>> {
    devices.map_values(|e: DeviceEntry| e.name@)
}

/// The entries without those of a name.
pub open spec fn without_name(devices: Seq<DeviceEntry>, name: Seq<char>) -> Seq<DeviceEntry> {
    devices.filter(|e: DeviceEntry| e.name@ != name)
}

impl Clone for Registry {
    fn clone(&self) -> (r: Self)
        ensures
            r.devices@ == self.devices@,
    {
        let n: usize = self.devices.len();
        let mut devices: Vec<DeviceEntry> = Vec::new();
        let mut i: usize = 0;
        while i < n
            invariant
                n == self.devices@.len(),
                i <= n,
                devices@ == self.devices@.take(i as int),
            decreases n - i,
        {
            devices.push(self.devices[i].clone());
            assert(devices@ =~= self.devices@.take(i as int + 1));
            i = i + 1;
        }
        assert(self.devices@.take(n as int) =~= self.devices@);
        Registry { devices }
    }
}

impl Default for Registry {
    fn default() -> (r: Self)
        ensures
            r.devices@ == Seq::<DeviceEntry>::empty(),
    {
        Registry { devices: Vec::new() }
    }
}

impl Registry {
    /// Finds the first entry with a name.
    pub fn find(&self, name: &str) -> (r: Option<&DeviceEntry>)
        ensures
            r is Some <==> entry_named(self.devices@, name@) is Some,
            r matches Some(e) ==> *e == self.devices@[entry_named(self.devices@, name@)->0]
                && e.name@ == name@,
    {
        let n: usize = self.devices.len();
        let ghost p = |e: DeviceEntry| e.name@ == name@;
        let mut i: usize = 0;
        while i < n
            invariant
                n == self.devices@.len(),
                i <= n,
                p == (|e: DeviceEntry| e.name@ == name@),
                forall|k: int| 0 <= k < i ==> !p(self.devices@[k]),
            decreases n - i,
        {
            if str_eq(self.devices[i].name.as_str(), name) {
                proof {
                    lemma_first_is(self.devices@, p, i as int);
                }
                return Some(&self.devices[i]);
            }
            i = i + 1;
        }
        proof {
            lemma_first_is_none(self.devices@, p);
        }
        None
    }

    /// The names of all devices in dictionary order.
    pub fn device_names_sorted(&self) -> (r: Vec<String>)
        ensures
            is_sorting_of(texts(r@), entry_names(self.devices@)),
    {
        let n: usize = self.devices.len();
        let mut names: Vec<String> = Vec::new();
        let mut i: usize = 0;
        while i < n
            invariant
                n == self.devices@.len(),
                i <= n,
                texts(names@) == entry_names(self.devices@).take(i as int),
            decreases n - i,
        {
            let ghost before = names@;
            names.push(self.devices[i].name.clone());
            assert(texts(names@) =~= texts(before).push(self.devices@[i as int].name@));
            assert(entry_names(self.devices@).take(i as int + 1) =~= entry_names(
                self.devices@,
            ).take(i as int).push(self.devices@[i as int].name@));
            i = i + 1;
        }
        assert(entry_names(self.devices@).take(n as int) =~= entry_names(self.devices@));
        sort_texts(names.as_slice())
    }

    /// Adds an entry at the end, unless its name is taken.
    pub fn add(&mut self, entry: DeviceEntry) -> (r: Result<(), String>)
        ensures
            r is Err <==> entry_named(old(self).devices@, entry.name@) is Some,
            r is Ok ==> final(self).devices@ == old(self).devices@.push(entry),
            r matches Err(e) ==> final(self).devices@ == old(self).devices@ && e@ == "'"@
                + entry.name@ + "' already exists"@,
    {
        if self.find(entry.name.as_str()).is_some() {
            let mut e: String = owned("'");
            e.append(entry.name.as_str());
            e.append("' already exists");
            return Err(e);
        }
        self.devices.push(entry);
        Ok(())
    }

    /// Removes every entry of a name. It is an error if there is none.
    pub fn remove(&mut self, name: &str) -> (r: Result<(), String>)
        ensures
            r is Err <==> entry_named(old(self).devices@, name@) is None,
            final(self).devices@ == without_name(old(self).devices@, name@),
            r matches Err(e) ==> final(self).devices@ == old(self).devices@ && e@ == "'"@ + name@
                + "' not found"@,
    {
        let ghost start = self.devices@;
        let ghost p = |e: DeviceEntry| e.name@ != name@;
        let ghost q = |e: DeviceEntry| e.name@ == name@;
        let n: usize = self.devices.len();
        let mut kept: Vec<DeviceEntry> = Vec::new();
        let mut i: usize = 0;
        proof {
            lemma_filter_none(start, p);
        }
        while i < n
            invariant
                n == start.len(),
                self.devices@ == start,
                i <= n,
                p == (|e: DeviceEntry| e.name@ != name@),
                kept@ == start.take(i as int).filter(p),
            decreases n - i,
        {
            proof {
                lemma_filter_step(start, p, i as int);
            }
            if !str_eq(self.devices[i].name.as_str(), name) {
                kept.push(self.devices[i].clone());
            }
            i = i + 1;
        }
        proof {
            lemma_filter_whole(start, p);
            lemma_filter_len(start, p);
            first_where_finds(start, q);
        }
        let left: usize = kept.len();
        self.devices = kept;
        if left == n {
            let mut e: String = owned("'");
            e.append(name);
            e.append("' not found");
            return Err(e);
        }
        proof {
            if forall|k: int| 0 <= k < start.len() ==> !q(start[k]) {
                assert(forall|k: int| 0 <= k < start.len() ==> p(#[trigger] start[k]));
            }
        }
        Ok(())
    }
}

/// What was added is found under its name, and nothing else changes there.
pub proof fn added_entry_is_found(devices: Seq<DeviceEntry>, entry: DeviceEntry, other: Seq<char>)
    requires
        entry_named(devices, entry.name@) is None,
    ensures
        entry_named(devices.push(entry), entry.name@) == Some(devices.len() as int),
        other != entry.name@ ==> entry_named(devices.push(entry), other) == entry_named(
            devices,
            other,
        ),
{
    assert(devices.push(entry).drop_last() =~= devices);
}

/// After a removal the name is gone.
pub proof fn removed_name_is_gone(devices: Seq<DeviceEntry>, name: Seq<char>)
    ensures
        entry_named(without_name(devices, name), name) is None,
    decreases devices.len(),
{
    reveal(Seq::filter);
    let left = without_name(devices, name);
    if devices.len() > 0 {
        removed_name_is_gone(devices.drop_last(), name);
        if devices.last().name@ != name {
            assert(left.drop_last() =~= without_name(devices.drop_last(), name));
        }
    }
}

/// An entry asks for a device of its vendor and product: for the one with its serial number where it
/// has one, and for any where it has none. No entry asks for a device in both ways.
pub proof fn entries_ask_for_their_devices(entry: DeviceEntry, id: UsbIdentity)
    ensures
        is_exact_match(entry, id) <==> entry.vid@ == id.vid@ && entry.pid@ == id.pid@ && entry.serial@
            == id.serial@ && entry.serial@.len() > 0,
        is_model_match(entry, id) <==> entry.vid@ == id.vid@ && entry.pid@ == id.pid@
            && entry.serial@.len() == 0,
        !(is_exact_match(entry, id) && is_model_match(entry, id)),
{
}

/// A device belongs to the first entry with its serial number, or else to the first entry that takes
/// any device of its model.
pub proof fn devices_belong_to_the_first_match(devices: Seq<DeviceEntry>, id: UsbIdentity, i: int)
    requires
        0 <= i < devices.len(),
    ensures
        is_exact_match(devices[i], id) && (forall|k: int|
            0 <= k < i ==> !is_exact_match(#[trigger] devices[k], id)) ==> matching_entry(devices, id)
            == Some(i),
        is_model_match(devices[i], id) && (forall|k: int|
            0 <= k < devices.len() ==> !is_exact_match(#[trigger] devices[k], id)) && (forall|k: int|
            0 <= k < i ==> !is_model_match(#[trigger] devices[k], id)) ==> matching_entry(devices, id)
            == Some(i),
{
    let exact = |e: DeviceEntry| is_exact_match(e, id);
    let model = |e: DeviceEntry| is_model_match(e, id);
    if is_exact_match(devices[i], id) && (forall|k: int|
        0 <= k < i ==> !is_exact_match(#[trigger] devices[k], id)) {
        lemma_first_is(devices, exact, i);
    }
    if is_model_match(devices[i], id) && (forall|k: int|
        0 <= k < devices.len() ==> !is_exact_match(#[trigger] devices[k], id)) && (forall|k: int|
        0 <= k < i ==> !is_model_match(#[trigger] devices[k], id)) {
        lemma_first_is_none(devices, exact);
        lemma_first_is(devices, model, i);
    }
}

/// Under a name the first entry of that name is found, and nothing where there is none.
pub proof fn entries_are_found_by_name(devices: Seq<DeviceEntry>, name: Seq<char>)
    ensures
        match entry_named(devices, name) {
            Some(i) => 0 <= i < devices.len() && devices[i].name@ == name && forall|k: int|
                0 <= k < i ==> (#[trigger] devices[k]).name@ != name,
            None => forall|k: int| 0 <= k < devices.len() ==> (#[trigger] devices[k]).name@ != name,
        },
        entry_names(devices).len() == devices.len(),
        forall|k: int| 0 <= k < devices.len() ==> #[trigger] entry_names(devices)[k]
            == devices[k].name@,
    decreases devices.len(),
{
    if devices.len() > 0 {
        let init = devices.drop_last();
        entries_are_found_by_name(init, name);
        assert forall|k: int| 0 <= k < init.len() implies #[trigger] devices[k] == init[k] by {}
    }
}

/// A removal takes the entries of a name and leaves all others in their order.
pub proof fn removals_leave_the_others(a: Seq<DeviceEntry>, e: DeviceEntry, name: Seq<char>)
    ensures
        without_name(Seq::<DeviceEntry>::empty(), name).len() == 0,
        e.name@ == name ==> without_name(a.push(e), name) == without_name(a, name),
        e.name@ != name ==> without_name(a.push(e), name) == without_name(a, name).push(e),
{
    reveal(Seq::filter);
    assert(a.push(e).drop_last() =~= a);
}

/// A USB device is identified by its vendor and product, which must be known, and by its serial
/// number, if it has one.
pub proof fn identities_are_read_from_properties(
    vendor_id: Option<&str>,
    model_id: Option<&str>,
    serial: Option<&str>,
    sysname: &str,
    r: Option<UsbIdentity>,
)
    requires
        call_ensures(extract_identity, (vendor_id, model_id, serial, sysname), r),
    ensures
        r is Some <==> vendor_id is Some && model_id is Some,
        r matches Some(id) ==> {
            &&& vendor_id matches Some(v) ==> id.vid@ == v@
            &&& model_id matches Some(m) ==> id.pid@ == m@
            &&& serial matches Some(s) ==> id.serial@ == s@
            &&& serial is None ==> id.serial@.len() == 0
            &&& id.sysname@ == sysname@
        },
{
}

/// An entry is added behind the others where its name is new, and refused where it is not; a removal
/// takes the entries of a name, and is refused where there is none.
pub proof fn entries_are_added_and_removed_by_name(
    adding: &mut Registry,
    entry: DeviceEntry,
    added: Result<(), String>,
    removing: &mut Registry,
    name: &str,
    removed: Result<(), String>,
)
    requires
        call_ensures(Registry::add, (adding, entry), added),
        call_ensures(Registry::remove, (removing, name), removed),
    ensures
        entry_named(old(adding).devices@, entry.name@) is None ==> added is Ok
            && final(adding).devices@ == old(adding).devices@.push(entry),
        entry_named(old(adding).devices@, entry.name@) is Some ==> (added matches Err(e) && e@ == "'"@
            + entry.name@ + "' already exists"@) && final(adding).devices@ == old(adding).devices@,
        entry_named(final(removing).devices@, name@) is None,
        removed is Ok <==> entry_named(old(removing).devices@, name@) is Some,
        removed matches Err(e) ==> e@ == "'"@ + name@ + "' not found"@ && final(removing).devices@
            == old(removing).devices@,
{
    removed_name_is_gone(old(removing).devices@, name@);
}

} // verus!
