//! Heartbeats: what the process of a device says of itself.

use vstd::prelude::*;
use crate::json::{field_of, json_read, read_json, JsonNumber, JsonTree, JsonValue};
use crate::registry::{entry_names, DeviceEntry};
use crate::seqs::{lemma_filter_none, lemma_filter_step, lemma_filter_whole, option_deref};
use crate::text::{chars_of, contains, has_part, maybe_text, occurs_at, str_eq, text_of, texts};

verus! {

/// A heartbeat older than this is stale.
pub const HEARTBEAT_STALE_MS: u64 = 3000;

/// How long a process may take to its first heartbeat.
pub const HEARTBEAT_STARTUP_GRACE_NS: u64 = 6_000_000_000;

/// How many seconds after the last frame a client without a connection counts as gone: the bits of
/// the double 4.0.
pub const CLIENT_DISCONNECT_GRACE_BITS: u64 = 0x4010_0000_0000_0000;

/// The bits of the double infinity. Doubles that are not negative are ordered as their bits are, up
/// to these.
pub const INFINITY_BITS: u64 = 0x7ff0_0000_0000_0000;

/// What a heartbeat file says.
#[derive(Debug)]
pub struct HeartbeatSnapshot {
    /// When the heartbeat was written, in seconds since 1970.
    pub updated_at: Option<JsonNumber>,
    pub client_connected: Option<bool>,
    /// When the last frame came, in seconds since 1970.
    pub last_frame_at: Option<JsonNumber>,
    pub seq: Option<u64>,
    pub pid: Option<u32>,
    pub error: Option<String>,
}

/// A heartbeat as it stands at some moment.
#[derive(Debug)]
pub struct Heartbeat {
    pub snapshot: HeartbeatSnapshot,
    /// Milliseconds since the heartbeat was written.
    pub age_ms: Option<u64>,
    /// Seconds since the last frame, as the bits of a double.
    pub last_frame_age_bits: Option<u64>,
}

/// The number that a field holds.
pub open spec fn number_field(tree: JsonTree, key: Seq<char>) -> Option<JsonNumber> {
    match field_of(tree, key) {
        Some(JsonTree::Number(n)) => Some(n),
        _ => None,
    }
}

/// The unsigned number that a field holds.
pub open spec fn unsigned_field(tree: JsonTree, key: Seq<char>) -> Option<u64> {
    match field_of(tree, key) {
        Some(JsonTree::Number(JsonNumber::Unsigned(n))) => Some(n),
        _ => None,
    }
}

/// The truth value that a field holds.
pub open spec fn bool_field(tree: JsonTree, key: Seq<char>) -> Option<bool> {
    match field_of(tree, key) {
        Some(JsonTree::Bool(b)) => Some(b),
        _ => None,
    }
}

/// The text that a field holds.
pub open spec fn text_field(tree: JsonTree, key: Seq<char>) -> Option<Seq<char>> {
    match field_of(tree, key) {
        Some(JsonTree::Text(t)) => Some(t),
        _ => None,
    }
}

fn get_number(value: &JsonValue, key: &str) -> (r: Option<JsonNumber>)
    ensures
        r == number_field(value@, key@),
{
    match value.get(key) {
        Some(JsonValue::Number(n)) => Some(*n),
        _ => None,
    }
}

fn get_unsigned(value: &JsonValue, key: &str) -> (r: Option<u64>)
    ensures
        r == unsigned_field(value@, key@),
{
    match value.get(key) {
        Some(JsonValue::Number(JsonNumber::Unsigned(n))) => Some(*n),
        _ => None,
    }
}

fn get_bool(value: &JsonValue, key: &str) -> (r: Option<bool>)
    ensures
        r == bool_field(value@, key@),
{
    match value.get(key) {
        Some(JsonValue::Bool(b)) => Some(*b),
        _ => None,
    }
}

fn get_text(value: &JsonValue, key: &str) -> (r: Option<String>)
    ensures
        maybe_text(r) == text_field(value@, key@),
{
    match value.get(key) {
        Some(JsonValue::Text(t)) => Some(t.clone()),
        _ => None,
    }
}

impl HeartbeatSnapshot {
    /// Whether this is what the contents of a heartbeat file say, where the file was last modified
    /// at `modified`.
    pub open spec fn says(self, tree: JsonTree, modified: Option<JsonNumber>) -> bool {
        &&& self.updated_at == (match number_field(tree, "updated_at"@) {
            Some(n) => Some(n),
            None => modified,
        })
        &&& self.client_connected == bool_field(tree, "client_connected"@)
        &&& self.last_frame_at == number_field(tree, "last_frame_at"@)
        &&& self.seq == unsigned_field(tree, "seq"@)
        &&& self.pid == (match unsigned_field(tree, "pid"@) {
            Some(n) if n <= u32::MAX => Some(n as u32),
            _ => None,
        })
        &&& maybe_text(self.error) == text_field(tree, "error"@)
    }

    /// Reads the fields of a heartbeat.
    pub fn of_value(value: &JsonValue, modified: Option<JsonNumber>) -> (r: Self)
        ensures
            r.says(value@, modified),
    {
        let mut updated_at: Option<JsonNumber> = get_number(value, "updated_at");
        if updated_at.is_none() {
            updated_at = modified;
        }
        HeartbeatSnapshot {
            updated_at,
            client_connected: get_bool(value, "client_connected"),
            last_frame_at: get_number(value, "last_frame_at"),
            seq: get_unsigned(value, "seq"),
            pid: match get_unsigned(value, "pid") {
                Some(n) => if n <= u32::MAX as u64 {
                    Some(n as u32)
                } else {
                    None
                },
                None => None,
            },
            error: get_text(value, "error"),
        }
    }

    /// Reads the contents of a heartbeat file that was last modified at `modified`. A file without
    /// an `updated_at` counts as updated when it was last modified.
    pub fn parse(raw: &str, modified: Option<JsonNumber>) -> (r: Option<Self>)
        ensures
            r is Some <==> json_read(raw@) is Some,
            r matches Some(s) ==> s.says(json_read(raw@)->0, modified),
    {
        match read_json(raw) {
            Some(value) => Some(HeartbeatSnapshot::of_value(&value, modified)),
            None => None,
        }
    }
}

/// Whether a heartbeat is fresh.
pub open spec fn is_fresh(heartbeat: Option<Heartbeat>) -> bool {
    heartbeat matches Some(h) && h.age_ms matches Some(age) && age <= HEARTBEAT_STALE_MS
}

/// Whether a double, by its bits, is a number greater than the one with the given bits.
pub open spec fn is_more_than(bits: u64, limit: u64) -> bool {
    limit < bits <= INFINITY_BITS
}

/// Whether a fresh heartbeat says that the client has lost its connection, and no frame has come
/// for too long. Before the first frame there is no such limit.
pub open spec fn is_cut_off(heartbeat: Option<Heartbeat>) -> bool {
    &&& is_fresh(heartbeat)
    &&& heartbeat->0.snapshot.client_connected == Some(false)
    &&& heartbeat->0.last_frame_age_bits matches Some(age)
    &&& is_more_than(age, CLIENT_DISCONNECT_GRACE_BITS)
}

/// Whether a heartbeat reports an error.
pub open spec fn reports_error(heartbeat: Option<Heartbeat>) -> bool {
    heartbeat matches Some(h) && h.snapshot.error matches Some(e) && e@.len() > 0
}

/// Tests whether a heartbeat is fresh.
pub fn heartbeat_fresh(heartbeat: Option<&Heartbeat>) -> (r: bool)
    ensures
        r == is_fresh(option_deref(heartbeat)),
{
    match heartbeat {
        Some(h) => match h.age_ms {
            Some(age) => age <= HEARTBEAT_STALE_MS,
            None => false,
        },
        None => false,
    }
}

/// Tests whether a heartbeat says that the client is gone.
pub fn heartbeat_cut_off(heartbeat: Option<&Heartbeat>) -> (r: bool)
    ensures
        r == is_cut_off(option_deref(heartbeat)),
{
    if !heartbeat_fresh(heartbeat) {
        return false;
    }
    match heartbeat {
        Some(h) => match (h.snapshot.client_connected, h.last_frame_age_bits) {
            (Some(connected), Some(age)) => !connected && age > CLIENT_DISCONNECT_GRACE_BITS && age
                <= INFINITY_BITS,
            _ => false,
        },
        None => false,
    }
}

/// Tests whether a heartbeat reports an error.
pub fn heartbeat_error(heartbeat: Option<&Heartbeat>) -> (r: bool)
    ensures
        r == reports_error(option_deref(heartbeat)),
{
    match heartbeat {
        Some(h) => match &h.snapshot.error {
            Some(e) => e.as_str().unicode_len() > 0,
            None => false,
        },
        None => false,
    }
}

/// Whether the process of a device writes a heartbeat: that of a phone does.
pub open spec fn has_heartbeat(entry: DeviceEntry) -> bool {
    entry.backend@ == "mdns"@ && has_part(entry.service_type@, "_iphonevio._tcp"@)
}

/// Tests whether the process of a device writes a heartbeat.
pub fn device_uses_heartbeat(entry: &DeviceEntry) -> (r: bool)
    ensures
        r == has_heartbeat(*entry),
{
    str_eq(entry.backend.as_str(), "mdns") && contains(entry.service_type.as_str(), "_iphonevio._tcp")
}

/// The predicate of entries whose process writes a heartbeat.
pub open spec fn heartbeat_entries() -> spec_fn(DeviceEntry) -> bool {
    |e: DeviceEntry| has_heartbeat(e)
}

/// Lists the devices whose processes write heartbeats.
pub fn heartbeat_devices(devices: &Vec<DeviceEntry>) -> (r: Vec<String>)
    ensures
        texts(r@) == entry_names(devices@.filter(heartbeat_entries())),
{
    let n: usize = devices.len();
    let mut out: Vec<String> = Vec::new();
    let mut i: usize = 0;
    proof {
        lemma_filter_none(devices@, heartbeat_entries());
        assert(texts(out@) =~= entry_names(devices@.take(0).filter(heartbeat_entries())));
    }
    while i < n
        invariant
            n == devices@.len(),
            i <= n,
            texts(out@) == entry_names(devices@.take(i as int).filter(heartbeat_entries())),
        decreases n - i,
    {
        let ghost before = out@;
        proof {
            lemma_filter_step(devices@, heartbeat_entries(), i as int);
        }
        if device_uses_heartbeat(&devices[i]) {
            let name: String = devices[i].name.clone();
            out.push(name);
            proof {
                let kept = devices@.take(i as int).filter(heartbeat_entries());
                assert(texts(out@) =~= texts(before).push(name@));
                assert(entry_names(kept.push(devices@[i as int])) =~= entry_names(kept).push(name@));
            }
        }
        i = i + 1;
    }
    proof {
        lemma_filter_whole(devices@, heartbeat_entries());
    }
    out
}

/// Whether a character may stand in a file name as it is.
pub open spec fn is_file_safe(c: char) -> bool {
    'a' <= c <= 'z' || 'A' <= c <= 'Z' || '0' <= c <= '9' || c == '_' || c == '-'
}

/// The name of a device with `_` for each character that may not stand in a file name.
pub open spec fn safe_name(name: Seq<char>) -> Seq<char> {
    name.map_values(|c: char| if is_file_safe(c) { c } else { '_' })
}

/// The name of the heartbeat file of a device.
pub fn heartbeat_file_name(device_name: &str) -> (r: String)
    ensures
        r@ == safe_name(device_name@) + ".json"@,
{
    let chars: Vec<char> = chars_of(device_name);
    let n: usize = chars.len();
    let mut safe: Vec<char> = Vec::new();
    let mut i: usize = 0;
    while i < n
        invariant
            n == chars@.len(),
            i <= n,
            chars@ == device_name@,
            safe@ == safe_name(device_name@).take(i as int),
        decreases n - i,
    {
        let c: char = chars[i];
        let ok: bool = ('a' <= c && c <= 'z') || ('A' <= c && c <= 'Z') || ('0' <= c && c <= '9') || c
            == '_' || c == '-';
        safe.push(if ok { c } else { '_' });
        assert(safe@ =~= safe_name(device_name@).take(i as int + 1));
        i = i + 1;
    }
    assert(safe_name(device_name@).take(n as int) =~= safe_name(device_name@));
    let mut out: String = text_of(&safe);
    out.append(".json");
    out
}

/// The name of a heartbeat file leads to no other directory: it holds no `/`, and it is neither
/// `.` nor `..`.
pub proof fn heartbeat_file_stays_in_its_directory(name: Seq<char>)
    ensures
        !(safe_name(name) + ".json"@).contains('/'),
        safe_name(name) + ".json"@ != "."@,
        safe_name(name) + ".json"@ != ".."@,
{
    reveal_strlit(".json");
    reveal_strlit(".");
    reveal_strlit("..");
    let file = safe_name(name) + ".json"@;
    assert forall|i: int| 0 <= i < file.len() implies file[i] != '/' by {
        if i < name.len() {
            assert(file[i] == safe_name(name)[i]);
        } else {
            assert(file[i] == ".json"@[i - name.len()]);
        }
    }
    assert(file.len() >= 5);
}

/// A heartbeat that says that the client is connected, or says nothing of it, never counts as cut
/// off, however long ago the last frame came.
pub proof fn connected_clients_are_not_cut_off(heartbeat: Option<Heartbeat>)
    requires
        heartbeat matches Some(h) ==> h.snapshot.client_connected != Some(false),
    ensures
        !is_cut_off(heartbeat),
{
}

/// A client without a connection is cut off once the last frame is more than four seconds old, and
/// not before; nor is one without any frame, nor one whose heartbeat itself is stale.
pub proof fn lost_clients_are_cut_off_after_four_seconds(heartbeat: Heartbeat)
    requires
        heartbeat.snapshot.client_connected == Some(false),
    ensures
        heartbeat.last_frame_age_bits is None ==> !is_cut_off(Some(heartbeat)),
        !is_fresh(Some(heartbeat)) ==> !is_cut_off(Some(heartbeat)),
        heartbeat.last_frame_age_bits matches Some(age) ==> {
            &&& age <= 0x4010_0000_0000_0000 ==> !is_cut_off(Some(heartbeat))
            &&& 0x4010_0000_0000_0000 < age <= 0x7ff0_0000_0000_0000 && is_fresh(Some(heartbeat))
                ==> is_cut_off(Some(heartbeat))
            &&& age > 0x7ff0_0000_0000_0000 ==> !is_cut_off(Some(heartbeat))
        },
{
}

/// A heartbeat is fresh for three seconds, and then no more; one of unknown age is not fresh, and
/// neither is none.
pub proof fn heartbeats_are_fresh_for_three_seconds(heartbeat: Heartbeat)
    ensures
        !is_fresh(None),
        heartbeat.age_ms is None ==> !is_fresh(Some(heartbeat)),
        heartbeat.age_ms matches Some(age) ==> (age <= 3_000 <==> is_fresh(Some(heartbeat))),
{
}

/// Any text but an empty one is an error, and nothing else is.
pub proof fn errors_are_texts(heartbeat: Heartbeat)
    ensures
        !reports_error(None),
        heartbeat.snapshot.error is None ==> !reports_error(Some(heartbeat)),
        heartbeat.snapshot.error matches Some(e) ==> (e@.len() == 0 <==> !reports_error(
            Some(heartbeat),
        )),
{
}

/// The processes of mDNS devices write heartbeats where the service is that of a phone, whatever
/// stands around its name, and no other ones do.
pub proof fn phones_write_heartbeats(entry: DeviceEntry, before: Seq<char>, behind: Seq<char>)
    ensures
        entry.backend@ == "mdns"@ && entry.service_type@ == before + "_iphonevio._tcp"@ + behind
            ==> has_heartbeat(entry),
        entry.backend@ != "mdns"@ ==> !has_heartbeat(entry),
        entry.service_type@.len() < 15 ==> !has_heartbeat(entry),
        has_heartbeat(entry) ==> exists|i: int|
            #![trigger entry.service_type@.subrange(i, i + 15)]
            0 <= i && i + 15 <= entry.service_type@.len() && entry.service_type@.subrange(i, i + 15)
                == "_iphonevio._tcp"@,
{
    reveal_strlit("_iphonevio._tcp");
    let part = "_iphonevio._tcp"@;
    assert(part.len() == 15);
    let text = before + part + behind;
    assert(text.subrange(before.len() as int, before.len() as int + 15) =~= part);
    assert(occurs_at(text, part, before.len() as int));
    if has_heartbeat(entry) {
        let i = choose|i: int| occurs_at(entry.service_type@, part, i);
        assert(entry.service_type@.subrange(i, i + 15) == part);
    }
}

/// In the name of a heartbeat file, letters, digits, `_` and `-` of the name of the device stay as
/// they are, and every other character becomes `_`.
pub proof fn safe_names_keep_what_is_safe(name: Seq<char>, i: int)
    requires
        0 <= i < name.len(),
    ensures
        safe_name(name).len() == name.len(),
        'a' <= name[i] <= 'z' || 'A' <= name[i] <= 'Z' || '0' <= name[i] <= '9' || name[i] == '-'
            ==> safe_name(name)[i] == name[i],
        safe_name(name)[i] == name[i] || safe_name(name)[i] == '_',
        safe_name(name)[i] != '/' && safe_name(name)[i] != '.' && safe_name(name)[i] != ' ',
        name[i] == ':' || name[i] == '@' || name[i] as int > 127 ==> safe_name(name)[i] == '_',
{
}

/// A heartbeat is what the fields of its file say: each is read from the field of its name, where
/// that is of the right kind.
pub proof fn snapshots_hold_the_fields(s: HeartbeatSnapshot, tree: JsonTree, modified: Option<JsonNumber>)
    requires
        s.says(tree, modified),
    ensures
        field_of(tree, "client_connected"@) matches Some(JsonTree::Bool(b)) ==> s.client_connected
            == Some(b),
        !(field_of(tree, "client_connected"@) matches Some(JsonTree::Bool(_)))
            ==> s.client_connected is None,
        field_of(tree, "updated_at"@) matches Some(JsonTree::Number(n)) ==> s.updated_at == Some(n),
        !(field_of(tree, "updated_at"@) matches Some(JsonTree::Number(_))) ==> s.updated_at
            == modified,
        field_of(tree, "last_frame_at"@) matches Some(JsonTree::Number(n)) ==> s.last_frame_at
            == Some(n),
        !(field_of(tree, "last_frame_at"@) matches Some(JsonTree::Number(_)))
            ==> s.last_frame_at is None,
        field_of(tree, "seq"@) matches Some(JsonTree::Number(JsonNumber::Unsigned(n))) ==> s.seq
            == Some(n),
        field_of(tree, "pid"@) matches Some(JsonTree::Number(JsonNumber::Unsigned(n))) ==> (if n
            < 0x1_0000_0000 {
            s.pid matches Some(p) && p == n
        } else {
            s.pid is None
        }),
        field_of(tree, "error"@) matches Some(JsonTree::Text(t)) ==> maybe_text(s.error) == Some(t),
        !(field_of(tree, "error"@) matches Some(JsonTree::Text(_))) ==> s.error is None,
{
}

/// A process is not told to be cut off while its client is connected, or where nothing is known of the
/// client.
pub proof fn told_clients_are_not_cut_off(heartbeat: Option<&Heartbeat>, r: bool)
    requires
        call_ensures(heartbeat_cut_off, (heartbeat,), r),
    ensures
        heartbeat is None ==> !r,
        heartbeat matches Some(h) ==> (h.snapshot.client_connected != Some(false) ==> !r),
        heartbeat matches Some(h) ==> (h.last_frame_age_bits is None ==> !r),
{
}

/// The heartbeat of a device is written to a file that is named after the device.
pub proof fn heartbeat_files_are_named_after_their_device(name: &str, r: String)
    requires
        call_ensures(heartbeat_file_name, (name,), r),
    ensures
        r@ == safe_name(name@) + ".json"@,
{
}

} // verus!
