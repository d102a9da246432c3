//! The channels and counters of an MCAP file that is being written.

use std::collections::HashMap;
use vstd::prelude::*;
use vstd::std_specs::hash::*;
use crate::engine::recorder::messages::SensorMessage;
use crate::engine::recorder::schemas::{msg_type_to_schema_and_suffix, route};
use crate::name_map::NameMap;
use crate::text::owned;

verus! {

broadcast use vstd::std_specs::hash::group_hash_axioms;

/// The topic of the hardware mask.
pub const MASK_TOPIC: &'static str = "/hardware_mask";

/// The name of the schema of the hardware mask.
pub const MASK_SCHEMA: &'static str = "zumi.HardwareMask";

/// What stands in front of a message in the file.
#[derive(Debug, Clone, Copy, PartialEq, Eq, Structural)]
pub struct MessageHeader {
    pub channel_id: u16,
    pub sequence: u32,
    pub log_time: u64,
    pub publish_time: u64,
}

/// What to do to write a message.
#[derive(Debug)]
pub enum WriteStep {
    /// The type of the message is not known: leave it out. `first` tells the first one of its type.
    Skip { first: bool },
    /// Add a channel, tell its id with `channel_opened`, and ask again.
    OpenChannel { topic: String, schema_id: u16 },
    /// The message cannot be written.
    Refuse(String),
    /// Write the message behind this header.
    Write(MessageHeader),
}

/// An MCAP file that is being written.
pub struct McapSession {
    /// Ids of the registered schemas by their names.
    pub schema_ids: NameMap<u16>,
    /// Ids of the open channels by their topics.
    pub channel_ids: NameMap<u16>,
    pub session_id: String,
    pub output_path: String,
    pub message_count: u64,
    pub started_at_ns: u64,
    /// How many messages went to each channel.
    pub sequences: HashMap<u16, u32>,
    /// The types of messages that were left out.
    pub unknown_types_warned: NameMap<()>,
}

/// The name of the file of a session.
pub fn recording_file_name(session_id: &str) -> (r: String)
    ensures
        r@ == session_id@ + ".mcap"@,
{
    let mut name: String = owned(session_id);
    name.append(".mcap");
    name
}

/// The topic of a message of a source.
pub open spec fn topic_of(source_name: Seq<char>, suffix: Seq<char>) -> Seq<char> {
    "/"@ + source_name + suffix
}

/// The number that follows a sequence number; it starts over after the greatest.
pub open spec fn next_sequence(n: u32) -> u32 {
    if n == u32::MAX {
        0
    } else {
        (n + 1) as u32
    }
}

/// How many messages went to a channel so far.
pub open spec fn sequence_so_far(sequences: Map<u16, u32>, channel_id: u16) -> u32 {
    if sequences.contains_key(channel_id) {
        sequences[channel_id]
    } else {
        0
    }
}

impl McapSession {
    /// A file without schemas, channels and messages.
    pub fn new(session_id: &str, output_path: String, now_ns: u64) -> (r: Self)
        ensures
            r.schema_ids@ == Map::<Seq<char>, u16>::empty(),
            r.channel_ids@ == Map::<Seq<char>, u16>::empty(),
            r.session_id@ == session_id@,
            r.output_path == output_path,
            r.message_count == 0,
            r.started_at_ns == now_ns,
            r.sequences@ == Map::<u16, u32>::empty(),
            r.unknown_types_warned@ == Map::<Seq<char>, ()>::empty(),
    {
        McapSession {
            schema_ids: NameMap::new(),
            channel_ids: NameMap::new(),
            session_id: owned(session_id),
            output_path,
            message_count: 0,
            started_at_ns: now_ns,
            sequences: HashMap::new(),
            unknown_types_warned: NameMap::new(),
        }
    }

    /// Notes the id of a registered schema.
    pub fn schema_registered(&mut self, name: &str, schema_id: u16)
        ensures
            final(self).schema_ids@ == old(self).schema_ids@.insert(name@, schema_id),
            *final(self) == (McapSession { schema_ids: final(self).schema_ids, ..*old(self) }),
    {
        self.schema_ids.insert(owned(name), schema_id);
    }

    /// Notes the id of the channel of a topic.
    pub fn channel_opened(&mut self, topic: &str, channel_id: u16)
        ensures
            final(self).channel_ids@ == old(self).channel_ids@.insert(topic@, channel_id),
            *final(self) == (McapSession { channel_ids: final(self).channel_ids, ..*old(self) }),
    {
        self.channel_ids.insert(owned(topic), channel_id);
    }

    /// Notes that a message was written.
    pub fn message_written(&mut self)
        ensures
            final(self).message_count == (if old(self).message_count == u64::MAX {
                0
            } else {
                old(self).message_count + 1
            }),
            *final(self) == (McapSession { message_count: final(self).message_count, ..*old(self) }),
    {
        self.message_count = self.message_count.wrapping_add(1);
    }

    /// Whether `step` and `after` are what becomes of a message for a topic: it is written with the
    /// next sequence number of the topic's channel, once that is open; a channel is opened under a
    /// registered schema, and without one the message is refused.
    pub open spec fn is_write(
        self,
        topic: Seq<char>,
        schema_name: Seq<char>,
        timestamp_ns: u64,
        step: WriteStep,
        after: McapSession,
    ) -> bool {
        if self.channel_ids@.contains_key(topic) {
            let id = self.channel_ids@[topic];
            let sequence = next_sequence(sequence_so_far(self.sequences@, id));
            &&& step == WriteStep::Write(
                MessageHeader {
                    channel_id: id,
                    sequence,
                    log_time: timestamp_ns,
                    publish_time: timestamp_ns,
                },
            )
            &&& after.sequences@ == self.sequences@.insert(id, sequence)
            &&& after == McapSession { sequences: after.sequences, ..self }
        } else if self.schema_ids@.contains_key(schema_name) {
            &&& step matches WriteStep::OpenChannel { topic: t, schema_id }
            &&& t@ == topic
            &&& schema_id == self.schema_ids@[schema_name]
            &&& after == self
        } else {
            &&& step matches WriteStep::Refuse(e)
            &&& e@ == "unknown schema: "@ + schema_name
            &&& after == self
        }
    }

    fn plan_write(&mut self, topic: &str, schema_name: &str, timestamp_ns: u64) -> (r: WriteStep)
        ensures
            old(self).is_write(topic@, schema_name@, timestamp_ns, r, *final(self)),
    {
        if let Some(id) = self.channel_ids.get(topic) {
            let channel_id: u16 = *id;
            let so_far: u32 = match self.sequences.get(&channel_id) {
                Some(n) => *n,
                None => 0,
            };
            let sequence: u32 = so_far.wrapping_add(1);
            self.sequences.insert(channel_id, sequence);
            return WriteStep::Write(
                MessageHeader {
                    channel_id,
                    sequence,
                    log_time: timestamp_ns,
                    publish_time: timestamp_ns,
                },
            );
        }
        match self.schema_ids.get(schema_name) {
            Some(schema_id) => WriteStep::OpenChannel { topic: owned(topic), schema_id: *schema_id },
            None => {
                let mut e: String = owned("unknown schema: ");
                e.append(schema_name);
                WriteStep::Refuse(e)
            },
        }
    }

    /// What to do to write a message of a sensor. Its topic is made of its source and its type.
    pub fn write_message(&mut self, msg: &SensorMessage) -> (r: WriteStep)
        ensures
            match route(msg.msg_type@) {
                Some((schema_name, suffix)) => old(self).is_write(
                    topic_of(msg.source_name@, suffix),
                    schema_name,
                    msg.timestamp_ns,
                    r,
                    *final(self),
                ),
                None => {
                    &&& r == (WriteStep::Skip {
                        first: !old(self).unknown_types_warned@.contains_key(msg.msg_type@),
                    })
                    &&& final(self).unknown_types_warned@ == old(
                        self,
                    ).unknown_types_warned@.insert(msg.msg_type@, ())
                    &&& *final(self) == (McapSession {
                        unknown_types_warned: final(self).unknown_types_warned,
                        ..*old(self)
                    })
                },
            },
    {
        match msg_type_to_schema_and_suffix(msg.msg_type.as_str()) {
            Some((schema_name, suffix)) => {
                let mut topic: String = owned("/");
                topic.append(msg.source_name.as_str());
                topic.append(suffix);
                self.plan_write(topic.as_str(), schema_name, msg.timestamp_ns)
            },
            None => {
                let first: bool = !self.unknown_types_warned.contains_key(msg.msg_type.as_str());
                self.unknown_types_warned.insert(msg.msg_type.clone(), ());
                WriteStep::Skip { first }
            },
        }
    }

    /// What to do to write a hardware mask.
    pub fn write_mask(&mut self, timestamp_ns: u64) -> (r: WriteStep)
        ensures
            old(self).is_write(MASK_TOPIC@, MASK_SCHEMA@, timestamp_ns, r, *final(self)),
    {
        self.plan_write(MASK_TOPIC, MASK_SCHEMA, timestamp_ns)
    }
}

/// Two messages that go to one topic in a row carry sequence numbers in a row on the same channel,
/// whatever their schemas and times.
pub proof fn sequence_numbers_follow(
    start: McapSession,
    topic: Seq<char>,
    schema_1: Seq<char>,
    schema_2: Seq<char>,
    time_1: u64,
    time_2: u64,
    step_1: WriteStep,
    step_2: WriteStep,
    middle: McapSession,
    end: McapSession,
)
    requires
        start.is_write(topic, schema_1, time_1, step_1, middle),
        middle.is_write(topic, schema_2, time_2, step_2, end),
        step_1 is Write,
    ensures
        step_2 is Write,
        step_2->Write_0.channel_id == step_1->Write_0.channel_id,
        step_2->Write_0.sequence == next_sequence(step_1->Write_0.sequence),
{
}

/// A message to another channel leaves the sequence numbers of a channel alone.
pub proof fn channels_count_on_their_own(
    start: McapSession,
    topic: Seq<char>,
    schema: Seq<char>,
    time: u64,
    step: WriteStep,
    end: McapSession,
    other: u16,
)
    requires
        start.is_write(topic, schema, time, step, end),
        step is Write ==> step->Write_0.channel_id != other,
    ensures
        sequence_so_far(end.sequences@, other) == sequence_so_far(start.sequences@, other),
{
}

/// Once its channel is open, a message to a topic is written; before, one with a registered schema
/// opens the channel.
pub proof fn opened_channels_are_written(
    start: McapSession,
    topic: Seq<char>,
    schema: Seq<char>,
    time: u64,
    step: WriteStep,
    end: McapSession,
)
    requires
        start.is_write(topic, schema, time, step, end),
    ensures
        start.channel_ids@.contains_key(topic) <==> step is Write,
        !start.channel_ids@.contains_key(topic) && start.schema_ids@.contains_key(schema)
            ==> step is OpenChannel,
        end.channel_ids == start.channel_ids,
{
}

/// A message to an open channel is written to that channel at its own time, as the first message of
/// the channel under the number one and otherwise under the number that follows the last.
pub proof fn messages_are_written_at_their_time(
    start: McapSession,
    topic: Seq<char>,
    schema: Seq<char>,
    time: u64,
    step: WriteStep,
    end: McapSession,
)
    requires
        start.is_write(topic, schema, time, step, end),
        start.channel_ids@.contains_key(topic),
    ensures
        step matches WriteStep::Write(h) && h.log_time == time && h.publish_time == time
            && h.channel_id == start.channel_ids@[topic] && (if start.sequences@.contains_key(
            h.channel_id,
        ) {
            start.sequences@[h.channel_id] < u32::MAX ==> h.sequence
                == start.sequences@[h.channel_id] + 1
        } else {
            h.sequence == 1
        }) && end.sequences@ == start.sequences@.insert(h.channel_id, h.sequence),
{
}

/// What becomes of a message changes nothing of a session but the sequence numbers.
pub proof fn writing_keeps_the_rest(
    start: McapSession,
    topic: Seq<char>,
    schema: Seq<char>,
    time: u64,
    step: WriteStep,
    end: McapSession,
)
    requires
        start.is_write(topic, schema, time, step, end),
    ensures
        end.schema_ids == start.schema_ids,
        end.channel_ids == start.channel_ids,
        end.session_id == start.session_id,
        end.output_path == start.output_path,
        end.message_count == start.message_count,
        end.started_at_ns == start.started_at_ns,
        end.unknown_types_warned == start.unknown_types_warned,
        !(step is Write) ==> end == start,
        !(step is Skip),
{
}

/// A channel is opened for the topic of the message, under the id of its schema; without that
/// schema the message is refused, which is told by the schema's name.
pub proof fn channels_are_opened_for_their_topic(
    start: McapSession,
    topic: Seq<char>,
    schema: Seq<char>,
    time: u64,
    step: WriteStep,
    end: McapSession,
)
    requires
        start.is_write(topic, schema, time, step, end),
        !start.channel_ids@.contains_key(topic),
    ensures
        start.schema_ids@.contains_key(schema) ==> (step matches WriteStep::OpenChannel {
            topic: t,
            schema_id,
        } && t@ == topic && schema_id == start.schema_ids@[schema]),
        !start.schema_ids@.contains_key(schema) ==> (step matches WriteStep::Refuse(e) && e@
            == "unknown schema: "@ + schema),
{
}

/// A topic is a slash, the name of its source and the end that its type calls for: two sources have
/// different topics, and a topic gives its source back.
pub proof fn topics_name_their_source(source: Seq<char>, suffix: Seq<char>)
    ensures
        topic_of(source, suffix).len() == 1 + source.len() + suffix.len(),
        topic_of(source, suffix)[0] == '/',
        topic_of(source, suffix).subrange(1, 1 + source.len() as int) == source,
        topic_of(source, suffix).skip(1 + source.len() as int) == suffix,
{
    reveal_strlit("/");
    assert(topic_of(source, suffix).subrange(1, 1 + source.len() as int) =~= source);
    assert(topic_of(source, suffix).skip(1 + source.len() as int) =~= suffix);
}

/// Sequence numbers count up by one, and start over only after the greatest.
pub proof fn sequence_numbers_count_up(n: u32)
    ensures
        n < u32::MAX ==> next_sequence(n) == n + 1,
        n == u32::MAX ==> next_sequence(n) == 0,
{
}

/// A channel without messages has none so far; after a message the number of the message is kept.
pub proof fn sequences_are_kept_by_channel(sequences: Map<u16, u32>, id: u16, other: u16, n: u32)
    ensures
        sequence_so_far(sequences.insert(id, n), id) == n,
        other != id ==> sequence_so_far(sequences.insert(id, n), other) == sequence_so_far(
            sequences,
            other,
        ),
        !sequences.contains_key(id) ==> sequence_so_far(sequences, id) == 0,
{
}

/// The hardware mask goes to a topic and under a schema of its own, which no sensor's message has.
pub proof fn masks_have_their_own_schema(msg_type: Seq<char>)
    ensures
        MASK_TOPIC@ == "/hardware_mask"@,
        MASK_SCHEMA@ == "zumi.HardwareMask"@,
        route(msg_type) matches Some(found) ==> found.0 != MASK_SCHEMA@,
{
    reveal_strlit("zumi.HardwareMask");
    reveal_strlit("zumi.MotorState");
    reveal_strlit("zumi.VideoPacket");
    reveal_strlit("foxglove.CompressedImage");
    reveal_strlit("foxglove.PoseInFrame");
    reveal_strlit("zumi.GoProMetadata");
    assert("zumi.HardwareMask"@.len() == 17 && "zumi.MotorState"@.len() == 15
        && "zumi.VideoPacket"@.len() == 16 && "foxglove.CompressedImage"@.len() == 24
        && "foxglove.PoseInFrame"@.len() == 20 && "zumi.GoProMetadata"@.len() == 18);
}

/// The file of a session is named after it.
pub proof fn recording_files_are_named_after_their_session(session_id: &str, r: String)
    requires
        call_ensures(recording_file_name, (session_id,), r),
    ensures
        r@ == session_id@ + ".mcap"@,
{
}

/// Each message that was written is counted.
pub proof fn written_messages_are_counted(session: &mut McapSession)
    requires
        call_ensures(McapSession::message_written, (session,), ()),
        old(session).message_count < u64::MAX,
    ensures
        final(session).message_count == old(session).message_count + 1,
        final(session).channel_ids == old(session).channel_ids,
        final(session).sequences == old(session).sequences,
{
}

/// A message of a sensor goes to the topic of its source and type, at its time; one of an unknown type
/// is left out, and told only the first time.
pub proof fn sensor_messages_go_to_their_topic(session: &mut McapSession, msg: &SensorMessage, r: WriteStep)
    requires
        call_ensures(McapSession::write_message, (session, msg), r),
    ensures
        route(msg.msg_type@) is None ==> r == (WriteStep::Skip {
            first: !old(session).unknown_types_warned@.contains_key(msg.msg_type@),
        }) && final(session).unknown_types_warned@.contains_key(msg.msg_type@),
        route(msg.msg_type@) matches Some(found) ==> {
            let topic = "/"@ + msg.source_name@ + found.1;
            &&& !(r is Skip)
            &&& r matches WriteStep::Write(h) ==> old(session).channel_ids@.contains_key(topic)
                && h.channel_id == old(session).channel_ids@[topic] && h.log_time == msg.timestamp_ns
            &&& r matches WriteStep::OpenChannel { topic: t, schema_id } ==> t@ == topic && old(session).schema_ids@.contains_key(found.0) && schema_id == old(session).schema_ids@[found.0]
        },
{
}

/// A hardware mask goes to the topic of masks, at its time.
pub proof fn masks_go_to_their_topic(session: &mut McapSession, timestamp_ns: u64, r: WriteStep)
    requires
        call_ensures(McapSession::write_mask, (session, timestamp_ns), r),
    ensures
        r matches WriteStep::Write(h) ==> old(session).channel_ids@.contains_key("/hardware_mask"@)
            && h.channel_id == old(session).channel_ids@["/hardware_mask"@] && h.log_time
            == timestamp_ns,
        r matches WriteStep::OpenChannel { topic, schema_id } ==> topic@ == "/hardware_mask"@ && old(session).schema_ids@.contains_key("zumi.HardwareMask"@),
{
}

/// What the file was given an identifier for is found under its name from then on.
pub proof fn identifiers_are_kept(
    named: &mut McapSession,
    name: &str,
    schema_id: u16,
    opened: &mut McapSession,
    topic: &str,
    channel_id: u16,
)
    requires
        call_ensures(McapSession::schema_registered, (named, name, schema_id), ()),
        call_ensures(McapSession::channel_opened, (opened, topic, channel_id), ()),
    ensures
        final(named).schema_ids@.contains_key(name@),
        final(named).schema_ids@[name@] == schema_id,
        final(named).channel_ids == old(named).channel_ids,
        final(opened).channel_ids@.contains_key(topic@),
        final(opened).channel_ids@[topic@] == channel_id,
        final(opened).schema_ids == old(opened).schema_ids,
        final(opened).message_count == old(opened).message_count,
{
}

} // verus!
