//! The recorder: which messages of sensors go into a recording, and how.

use vstd::prelude::*;
use crate::engine::process::time_since;
use crate::engine::recorder::mcap_writer::{McapSession, WriteStep, MASK_SCHEMA, MASK_TOPIC};
use crate::json::{field_of, has_key, json_bytes, write_json, JsonNumber, JsonTree, JsonValue};
use crate::name_map::NameMap;
use crate::seqs::lemma_first_is;
use crate::text::owned;

pub mod mcap_writer;
pub mod messages;
pub mod schemas;

verus! {

/// One in so many masks is recorded.
pub const MASK_DECIMATION: u32 = 50;

/// A sensor to listen to during a recording.
#[derive(Debug)]
pub struct SensorInfo {
    pub device_name: String,
    pub address: String,
    pub sensor_type: String,
}

/// The hardware mask at some moment.
pub struct MaskSnapshot {
    pub mask: u64,
    pub sequence: u64,
    pub timestamp_ns: u64,
    /// The same moment in seconds, as the bits of a double.
    pub ts_bits: u64,
    pub device_count: u8,
    pub devices: NameMap<bool>,
}

/// What a finished recording amounts to.
#[derive(Debug)]
pub struct RecordingSummary {
    pub session_id: String,
    pub output_path: String,
    pub message_count: u64,
    pub duration_ns: u64,
}

/// What a recording amounts to so far.
#[derive(Debug)]
pub struct RecordingStats {
    pub message_count: u64,
    pub duration_ns: u64,
    pub output_path: String,
}

/// A mask to record: its JSON, and how to write it.
#[derive(Debug)]
pub struct MaskWrite {
    pub json_data: Vec<u8>,
    pub step: WriteStep,
}

/// The recorder.
pub struct RecorderCore {
    pub active: Option<McapSession>,
    pub mask_decimation: u32,
    /// Masks since the last recorded one.
    pub mask_counter: u32,
}

/// The availability of devices as fields of an object.
pub open spec fn device_fields(names: Seq<Seq<char>>, devices: Map<Seq<char>, bool>) -> Seq<
    (Seq<char>, JsonTree),
> {
    names.map_values(|n: Seq<char>| (n, JsonTree::Bool(devices[n])))
}

impl MaskSnapshot {
    /// The JSON value of a mask.
    pub open spec fn tree(self) -> JsonTree {
        JsonTree::Object(
            seq![
                ("type"@, JsonTree::Text("hardware_mask"@)),
                ("ts"@, JsonTree::Number(JsonNumber::Float(self.ts_bits))),
                ("mask"@, JsonTree::Number(JsonNumber::Unsigned(self.mask))),
                ("sequence"@, JsonTree::Number(JsonNumber::Unsigned(self.sequence))),
                ("device_count"@, JsonTree::Number(JsonNumber::Unsigned(self.device_count as u64))),
                ("devices"@, JsonTree::Object(device_fields(self.devices.names(), self.devices@))),
            ],
        )
    }

    /// The JSON value of this mask.
    pub fn to_json(&self) -> (r: JsonValue)
        ensures
            r@ == self.tree(),
    {
        let n: usize = self.devices.len();
        let ghost all = device_fields(self.devices.names(), self.devices@);
        let mut fields: Vec<(String, JsonValue)> = Vec::new();
        let mut i: usize = 0;
        while i < n
            invariant
                n == self.devices.names().len(),
                i <= n,
                all == device_fields(self.devices.names(), self.devices@),
                fields@.len() == i,
                forall|k: int| 0 <= k < i ==> (#[trigger] fields@[k].0@, fields@[k].1@) == all[k],
            decreases n - i,
        {
            let name: String = self.devices.name_at(i).clone();
            let value: JsonValue = JsonValue::Bool(*self.devices.value_at(i));
            fields.push((name, value));
            assert((fields@[i as int].0@, fields@[i as int].1@) == all[i as int]);
            i = i + 1;
        }
        let devices: JsonValue = JsonValue::Object(fields);
        assert(devices@->Object_0 =~= all);
        let mut out: Vec<(String, JsonValue)> = Vec::new();
        out.push((owned("type"), JsonValue::Text(owned("hardware_mask"))));
        out.push((owned("ts"), JsonValue::Number(JsonNumber::Float(self.ts_bits))));
        out.push((owned("mask"), JsonValue::Number(JsonNumber::Unsigned(self.mask))));
        out.push((owned("sequence"), JsonValue::Number(JsonNumber::Unsigned(self.sequence))));
        out.push(
            (owned("device_count"), JsonValue::Number(JsonNumber::Unsigned(self.device_count as u64))),
        );
        out.push((owned("devices"), devices));
        let r: JsonValue = JsonValue::Object(out);
        proof {
            reveal_with_fuel(JsonValue::view, 2);
        }
        assert(r@->Object_0 =~= self.tree()->Object_0);
        r
    }
}

/// Whether the next mask is recorded, where `counter` masks were left out since the last one.
pub open spec fn is_mask_due(counter: int, decimation: int) -> bool {
    counter + 1 >= decimation
}

/// How many masks were left out since the last recorded one, after one more mask.
pub open spec fn next_counter(counter: int, decimation: int) -> int {
    if is_mask_due(counter, decimation) {
        0
    } else {
        counter + 1
    }
}

/// The counter after `ticks` more masks.
pub open spec fn counter_after(counter: int, decimation: int, ticks: nat) -> int
    decreases ticks,
{
    if ticks == 0 {
        counter
    } else {
        next_counter(counter_after(counter, decimation, (ticks - 1) as nat), decimation)
    }
}

/// Of the masks after a recorded one, or after the start, the first `decimation - 1` are left out
/// and the next one is recorded; then the counter is back where it was.
pub proof fn one_mask_in_so_many(decimation: int, ticks: nat)
    requires
        decimation > 0,
        ticks < decimation,
    ensures
        counter_after(0, decimation, ticks) == ticks,
        is_mask_due(counter_after(0, decimation, ticks), decimation) <==> ticks == decimation - 1,
        counter_after(0, decimation, decimation as nat) == 0,
    decreases ticks,
{
    if ticks > 0 {
        one_mask_in_so_many(decimation, (ticks - 1) as nat);
    }
    lemma_counter_counts(decimation, (decimation - 1) as nat);
}

proof fn lemma_counter_counts(decimation: int, ticks: nat)
    requires
        decimation > 0,
        ticks < decimation,
    ensures
        counter_after(0, decimation, ticks) == ticks,
    decreases ticks,
{
    if ticks > 0 {
        lemma_counter_counts(decimation, (ticks - 1) as nat);
    }
}

impl RecorderCore {
    /// A recorder counts fewer masks than it leaves out between two recorded ones.
    pub open spec fn wf(self) -> bool {
        self.mask_counter < self.mask_decimation
    }

    /// A recorder that does not record.
    pub fn new() -> (r: Self)
        ensures
            r.wf(),
            r.active is None,
            r.mask_decimation == MASK_DECIMATION,
            r.mask_counter == 0,
    {
        RecorderCore { active: None, mask_decimation: MASK_DECIMATION, mask_counter: 0 }
    }

    /// Tests whether a recording may start: one at a time.
    pub fn check_idle(&self) -> (r: Result<(), String>)
        ensures
            r is Ok <==> self.active is None,
            r matches Err(e) ==> e@ == "MCAP recording already active"@,
    {
        if self.active.is_some() {
            return Err(owned("MCAP recording already active"));
        }
        Ok(())
    }

    /// Starts to record to a file, unless there is one already.
    pub fn start_recording(&mut self, session: McapSession) -> (r: Result<(), String>)
        requires
            old(self).wf(),
        ensures
            final(self).wf(),
            r is Ok <==> old(self).active is None,
            r is Ok ==> final(self).active == Some(session) && final(self).mask_counter == 0
                && final(self).mask_decimation == old(self).mask_decimation,
            r matches Err(e) ==> *final(self) == *old(self) && e@ == "MCAP recording already active"@,
    {
        if self.active.is_some() {
            return Err(owned("MCAP recording already active"));
        }
        self.active = Some(session);
        self.mask_counter = 0;
        Ok(())
    }

    /// Stops to record, and says what the recording amounts to.
    pub fn stop_recording(&mut self, now_ns: u64) -> (r: Result<RecordingSummary, String>)
        ensures
            *final(self) == (RecorderCore { active: None, ..*old(self) }),
            r is Ok <==> old(self).active is Some,
            r matches Ok(s) ==> {
                let session = old(self).active->0;
                &&& s.session_id == session.session_id
                &&& s.output_path == session.output_path
                &&& s.message_count == session.message_count
                &&& s.duration_ns == time_since(now_ns, session.started_at_ns)
            },
            r matches Err(e) ==> e@ == "no active MCAP recording"@,
    {
        match self.active.take() {
            Some(session) => Ok(
                RecordingSummary {
                    session_id: session.session_id,
                    output_path: session.output_path,
                    message_count: session.message_count,
                    duration_ns: now_ns.saturating_sub(session.started_at_ns),
                },
            ),
            None => Err(owned("no active MCAP recording")),
        }
    }

    /// Takes a mask in: one in `mask_decimation` is to be recorded.
    pub fn tick(&mut self, mask: &MaskSnapshot) -> (r: Option<MaskWrite>)
        requires
            old(self).wf(),
        ensures
            final(self).wf(),
            final(self).mask_decimation == old(self).mask_decimation,
            old(self).active is None ==> *final(self) == *old(self) && r is None,
            old(self).active is Some ==> {
                &&& final(self).active is Some
                &&& final(self).mask_counter == next_counter(
                    old(self).mask_counter as int,
                    old(self).mask_decimation as int,
                )
                &&& r is Some <==> is_mask_due(
                    old(self).mask_counter as int,
                    old(self).mask_decimation as int,
                ) && json_bytes(mask.tree()) is Ok
                &&& r matches Some(w) ==> {
                    &&& json_bytes(mask.tree()) == Ok::<Seq<u8>, Seq<char>>(w.json_data@)
                    &&& old(self).active->0.is_write(
                        MASK_TOPIC@,
                        MASK_SCHEMA@,
                        mask.timestamp_ns,
                        w.step,
                        final(self).active->0,
                    )
                }
                &&& r is None ==> final(self).active == old(self).active
            },
    {
        let Some(mut session) = self.active.take() else {
            return None;
        };
        self.mask_counter = self.mask_counter + 1;
        let mut out: Option<MaskWrite> = None;
        if self.mask_counter >= self.mask_decimation {
            self.mask_counter = 0;
            match write_json(&mask.to_json()) {
                Ok(json_data) => {
                    let step: WriteStep = session.write_mask(mask.timestamp_ns);
                    out = Some(MaskWrite { json_data, step });
                },
                Err(_) => {},
            }
        }
        self.active = Some(session);
        out
    }

    /// Tests whether there is a recording.
    pub fn is_active(&self) -> (r: bool)
        ensures
            r == self.active is Some,
    {
        self.active.is_some()
    }

    /// What the recording amounts to so far.
    pub fn stats(&self, now_ns: u64) -> (r: Option<RecordingStats>)
        ensures
            r is Some <==> self.active is Some,
            r matches Some(s) ==> {
                let session = self.active->0;
                &&& s.message_count == session.message_count
                &&& s.duration_ns == time_since(now_ns, session.started_at_ns)
                &&& s.output_path == session.output_path
            },
    {
        match &self.active {
            Some(session) => Some(
                RecordingStats {
                    message_count: session.message_count,
                    duration_ns: now_ns.saturating_sub(session.started_at_ns),
                    output_path: session.output_path.clone(),
                },
            ),
            None => None,
        }
    }
}

/// Of fifty masks in a row, counted from the start, the last one is recorded and no other.
pub proof fn one_mask_in_fifty(ticks: nat)
    requires
        ticks < 50,
    ensures
        is_mask_due(counter_after(0, MASK_DECIMATION as int, ticks), MASK_DECIMATION as int)
            <==> ticks == 49,
        counter_after(0, MASK_DECIMATION as int, 50) == 0,
{
    one_mask_in_so_many(50, ticks);
}

/// A mask that is not recorded brings the next recorded one nearer by one.
pub proof fn masks_count_towards_the_next(counter: int, decimation: int)
    requires
        0 <= counter < decimation,
    ensures
        is_mask_due(counter, decimation) <==> counter == decimation - 1,
        is_mask_due(counter, decimation) ==> next_counter(counter, decimation) == 0,
        !is_mask_due(counter, decimation) ==> next_counter(counter, decimation) == counter + 1,
        0 <= next_counter(counter, decimation) < decimation,
{
}

/// A recorded mask tells its type, time, bits, sequence number and how many devices it is for.
pub proof fn masks_tell_their_bits(snapshot: MaskSnapshot)
    ensures
        field_of(snapshot.tree(), "type"@) == Some(JsonTree::Text("hardware_mask"@)),
        field_of(snapshot.tree(), "ts"@) == Some(
            JsonTree::Number(JsonNumber::Float(snapshot.ts_bits)),
        ),
        field_of(snapshot.tree(), "mask"@) == Some(
            JsonTree::Number(JsonNumber::Unsigned(snapshot.mask)),
        ),
        field_of(snapshot.tree(), "sequence"@) == Some(
            JsonTree::Number(JsonNumber::Unsigned(snapshot.sequence)),
        ),
        field_of(snapshot.tree(), "device_count"@) == Some(
            JsonTree::Number(JsonNumber::Unsigned(snapshot.device_count as u64)),
        ),
        field_of(snapshot.tree(), "devices"@) is Some,
        snapshot.tree()->Object_0.len() == 6,
{
    reveal_strlit("type");
    reveal_strlit("ts");
    reveal_strlit("mask");
    reveal_strlit("sequence");
    reveal_strlit("device_count");
    reveal_strlit("devices");
    let fields = snapshot.tree()->Object_0;
    assert("type"@.len() == 4 && "ts"@.len() == 2 && "mask"@.len() == 4 && "sequence"@.len() == 8
        && "device_count"@.len() == 12 && "devices"@.len() == 7);
    assert("type"@[0] == 't' && "mask"@[0] == 'm');
    lemma_first_is(fields, has_key("type"@), 0);
    lemma_first_is(fields, has_key("ts"@), 1);
    lemma_first_is(fields, has_key("mask"@), 2);
    lemma_first_is(fields, has_key("sequence"@), 3);
    lemma_first_is(fields, has_key("device_count"@), 4);
    lemma_first_is(fields, has_key("devices"@), 5);
}

/// Under the name of each device a recorded mask tells whether that device is available.
pub proof fn masks_tell_each_device(snapshot: MaskSnapshot, i: int)
    requires
        0 <= i < snapshot.devices.names().len(),
        snapshot.devices.names().no_duplicates(),
    ensures
        ({
            let devices = field_of(snapshot.tree(), "devices"@)->0;
            let name = snapshot.devices.names()[i];
            &&& field_of(devices, name) == Some(JsonTree::Bool(snapshot.devices@[name]))
            &&& devices->Object_0.len() == snapshot.devices.names().len()
        }),
{
    reveal_strlit("type");
    reveal_strlit("ts");
    reveal_strlit("mask");
    reveal_strlit("sequence");
    reveal_strlit("device_count");
    reveal_strlit("devices");
    assert("type"@.len() == 4 && "ts"@.len() == 2 && "mask"@.len() == 4 && "sequence"@.len() == 8
        && "device_count"@.len() == 12 && "devices"@.len() == 7);
    lemma_first_is(snapshot.tree()->Object_0, has_key("devices"@), 5);
    let fields = device_fields(snapshot.devices.names(), snapshot.devices@);
    lemma_first_is(fields, has_key(snapshot.devices.names()[i]), i);
}

/// A recording may start where there is none.
pub proof fn one_recording_at_a_time(recorder: &RecorderCore, r: Result<(), String>)
    requires
        call_ensures(RecorderCore::check_idle, (recorder,), r),
    ensures
        recorder.active is None ==> r is Ok,
        recorder.active is Some ==> (r matches Err(e) && e@ == "MCAP recording already active"@),
{
}

/// What a recording amounts to so far is how many messages were written, where, and for how long it
/// has run.
pub proof fn recordings_are_summed_up(recorder: &RecorderCore, now_ns: u64, r: Option<RecordingStats>)
    requires
        call_ensures(RecorderCore::stats, (recorder, now_ns), r),
    ensures
        recorder.active is None ==> r is None,
        recorder.active matches Some(s) ==> (r matches Some(stats) && stats.message_count
            == s.message_count && stats.output_path@ == s.output_path@ && (s.started_at_ns <= now_ns
            ==> stats.duration_ns == now_ns - s.started_at_ns)),
{
}

/// A recording that is stopped is summed up and no longer there; where there is none, that is told.
pub proof fn stopped_recordings_are_summed_up(
    recorder: &mut RecorderCore,
    now_ns: u64,
    r: Result<RecordingSummary, String>,
)
    requires
        call_ensures(RecorderCore::stop_recording, (recorder, now_ns), r),
    ensures
        final(recorder).active is None,
        old(recorder).active is None ==> (r matches Err(e) && e@ == "no active MCAP recording"@),
        old(recorder).active matches Some(s) ==> (r matches Ok(sum) && sum.session_id@ == s.session_id@
            && sum.output_path@ == s.output_path@ && sum.message_count == s.message_count && (
        s.started_at_ns <= now_ns ==> sum.duration_ns == now_ns - s.started_at_ns)),
{
}

/// Without a recording no mask is recorded; with one, a mask that is recorded is written as its JSON
/// at its time, and begins the count anew.
pub proof fn recorded_masks_are_written(recorder: &mut RecorderCore, mask: &MaskSnapshot, r: Option<MaskWrite>)
    requires
        call_ensures(RecorderCore::tick, (recorder, mask), r),
    ensures
        old(recorder).active is None ==> r is None && *final(recorder) == *old(recorder),
        r matches Some(w) ==> json_bytes(mask.tree()) == Ok::<Seq<u8>, Seq<char>>(w.json_data@)
            && final(recorder).mask_counter == 0 && old(recorder).mask_counter + 1 >= old(recorder).mask_decimation && (w.step matches WriteStep::Write(h) ==> h.log_time == mask.timestamp_ns),
        old(recorder).active is Some && old(recorder).mask_counter + 1 < old(recorder).mask_decimation
            ==> r is None && final(recorder).mask_counter == old(recorder).mask_counter + 1,
{
}

/// A recording starts where there is none, with no masks left out so far.
pub proof fn recordings_start_where_there_is_none(
    recorder: &mut RecorderCore,
    session: McapSession,
    r: Result<(), String>,
)
    requires
        call_ensures(RecorderCore::start_recording, (recorder, session), r),
    ensures
        old(recorder).active is None ==> r is Ok && final(recorder).active == Some(session)
            && final(recorder).mask_counter == 0,
        old(recorder).active is Some ==> r is Err && *final(recorder) == *old(recorder),
{
}

} // verus!
