//! MCAP files: the records that stand in them, and the messages that the records make up.
//!
//! A file begins with eight fixed bytes. Then come records: one byte for the kind, eight bytes for
//! the length, and as many bytes of body. A chunk is a record whose body holds more records,
//! compressed or not. A message refers to a channel that was described before it, and a channel may
//! refer to a schema.

use mcap::read::ChannelAccumulator;
use mcap::records::{Channel, Record, SchemaHeader};
use mcap::records::Record::{Attachment, AttachmentIndex, Chunk, ChunkIndex, DataEnd, Footer, Header,
    MessageIndex, Metadata, MetadataIndex, Statistics, SummaryOffset, Unknown};
use mcap::sans_io::{LinearReadEvent, LinearReader, LinearReaderOptions};
use std::collections::BTreeMap;
use vstd::prelude::*;
use vstd::slice::{slice_subrange, slice_to_vec};
use crate::engine::replay::{models, MessageModel, ReplayMessage};
use crate::mask::shm::{bytes_range, le_bytes, le_bytes_read_back, le_value, push_le_bytes};

verus! {

/// The kind of the record that ends a file.
pub const OP_FOOTER: u8 = 0x02;

/// The kind of a record that holds other records.
pub const OP_CHUNK: u8 = 0x06;

/// The kind of a record that holds another file.
pub const OP_ATTACHMENT: u8 = 0x09;

/// The kind of the record behind the last message.
pub const OP_DATA_END: u8 = 0x0f;

/// How often as long as its compressed bytes a record in a chunk can be. Zstandard writes at most
/// 128 KiB for a block of four bytes; LZ4 stays below that.
pub const GROWTH: usize = 0x8000;

/// The bytes that every file begins with.
pub open spec fn magic() -> Seq<u8> {
    seq![0x89u8, 0x4du8, 0x43u8, 0x41u8, 0x50u8, 0x30u8, 0x0du8, 0x0au8]
}

/// The number in `n` bytes at a place.
pub open spec fn le_at(s: Seq<u8>, at: int, n: int) -> nat {
    le_value(s.subrange(at, at + n))
}

/// A record as it stands in a file or in a chunk.
#[derive(Debug)]
pub struct RawRecord {
    pub op: u8,
    pub body: Vec<u8>,
    pub in_chunk: bool,
}

/// What a record stands for.
pub ghost struct RawModel {
    pub op: u8,
    pub body: Seq<u8>,
    pub in_chunk: bool,
}

impl RawRecord {
    /// What this record stands for.
    pub open spec fn view(&self) -> RawModel {
        RawModel { op: self.op, body: self.body@, in_chunk: self.in_chunk }
    }
}

/// Records as models.
pub open spec fn raw_models(v: Seq<RawRecord>) -> Seq<RawModel> {
    v.map_values(|r: RawRecord| r@)
}

/// Records that stand in a chunk.
pub open spec fn in_chunk(v: Seq<(u8, Seq<u8>)>) -> Seq<RawModel> {
    v.map_values(|r: (u8, Seq<u8>)| RawModel { op: r.0, body: r.1, in_chunk: true })
}

/// The records that stand one behind the other in some bytes, and whether the last one ends where
/// the bytes end. What is behind the last whole record is left out.
pub open spec fn framed(rest: Seq<u8>) -> (Seq<(u8, Seq<u8>)>, bool)
    decreases rest.len(),
{
    if rest.len() == 0 {
        (seq![], true)
    } else if rest.len() < 9 || le_at(rest, 1, 8) > rest.len() - 9 {
        (seq![], false)
    } else {
        let end = 9 + le_at(rest, 1, 8);
        let behind = framed(rest.skip(end as int));
        (seq![(rest[0], rest.subrange(9, end as int))] + behind.0, behind.1)
    }
}

/// What `mcap` reads out of a file that is one compressed chunk, with a limit on the length of a
/// record: the kind and the body of each record in it, and whether the chunk was read to its end.
pub uninterp spec fn mcap_chunk(record: Seq<u8>, limit: usize) -> (Seq<(u8, Seq<u8>)>, bool);

/// Records as pairs of a kind and a body.
pub open spec fn pairs(v: Seq<(u8, Vec<u8>)>) -> Seq<(u8, Seq<u8>)> {
    v.map_values(|r: (u8, Vec<u8>)| (r.0, r.1@))
}

/// Whether some bytes are one chunk, or the beginning of one, that names a compression.
pub open spec fn is_compressed_chunk(record: Seq<u8>) -> bool {
    &&& record.len() >= 49
    &&& record[0] == OP_CHUNK
    &&& le_at(record, 1, 8) >= record.len() - 9
    &&& le_at(record, 37, 4) > 0
}

/// `mcap::sans_io::LinearReader` reads the records of a compressed chunk. What it reads is a
/// function of the bytes and of the limit alone and is named by `mcap_chunk`. It is handed the bytes
/// as it asks for them, and no more once there are none. Chunks without compression are left out, since it may
/// panic where a record in one is longer than the chunk; so are limits that would let the buffer
/// for one record grow beyond what can be addressed.
#[verifier::external_body]
fn read_chunk(record: &[u8], limit: usize) -> (r: (Vec<(u8, Vec<u8>)>, bool))
    requires
        is_compressed_chunk(record@),
        limit + 9 <= isize::MAX,
    ensures
        (pairs(r.0@), r.1) == mcap_chunk(record@, limit),
{
    let options = LinearReaderOptions::default().with_skip_start_magic(true).with_skip_end_magic(true);
    let mut reader = LinearReader::new_with_options(options.with_record_length_limit(limit));
    let (mut rest, mut out) = (record, Vec::new());
    loop {
        match reader.next_event() {
            Some(Ok(LinearReadEvent::ReadRequest(need))) => {
                let (now, later) = rest.split_at(need.min(rest.len()));
                reader.insert(now.len()).copy_from_slice(now);
                reader.notify_read(now.len());
                rest = later;
            },
            Some(Ok(LinearReadEvent::Record { opcode, data })) => out.push((opcode, data.to_vec())),
            end => return (out, end.is_none()),
        }
    }
}

/// The longest record that is looked for in a compressed chunk of `n` bytes.
pub open spec fn longest_record(n: int) -> usize {
    if n * GROWTH <= isize::MAX - 9 {
        (n * GROWTH) as usize
    } else {
        (isize::MAX - 9) as usize
    }
}

/// A chunk as a record of its own, cut behind its compressed bytes.
pub open spec fn chunk_record(body: Seq<u8>, len: nat) -> Seq<u8> {
    seq![OP_CHUNK] + le_bytes(len, 8) + body
}

/// The records in a chunk, and whether all of it could be read. Of the body, whose length is said
/// to be `len`, only a part may be there.
pub open spec fn chunk_content(body: Seq<u8>, len: nat) -> (Seq<(u8, Seq<u8>)>, bool) {
    if body.len() < 40 {
        (seq![], false)
    } else {
        let name_len = le_at(body, 28, 4);
        let header = 40 + name_len;
        if header > len || header > body.len() {
            (seq![], false)
        } else {
            let size = le_at(body, (32 + name_len) as int, 8);
            if header + size > len {
                (seq![], false)
            } else {
                let end = if header + size <= body.len() {
                    (header + size) as int
                } else {
                    body.len() as int
                };
                let inside = if name_len == 0 {
                    framed(body.subrange(header as int, end))
                } else {
                    let record = chunk_record(body.subrange(0, end), (header + size) as nat);
                    mcap_chunk(record, longest_record(record.len() as int))
                };
                (inside.0, inside.1 && body.len() == len)
            }
        }
    }
}

/// The records of a file behind the bytes that it begins with, those in its chunks among them. They
/// end with the record that ends a file, or where a record cannot be read.
pub open spec fn records_of(rest: Seq<u8>) -> Seq<RawModel>
    decreases rest.len(),
{
    if rest.len() < 9 {
        seq![]
    } else {
        let len = le_at(rest, 1, 8);
        let end = if len <= rest.len() - 9 {
            (9 + len) as int
        } else {
            rest.len() as int
        };
        let body = rest.subrange(9, end);
        if rest[0] == OP_CHUNK {
            let content = chunk_content(body, len);
            in_chunk(content.0) + (if content.1 {
                records_of(rest.skip(end))
            } else {
                seq![]
            })
        } else if len > rest.len() - 9 {
            seq![]
        } else {
            let record = RawModel { op: rest[0], body, in_chunk: false };
            seq![record] + (if rest[0] == OP_FOOTER {
                seq![]
            } else {
                records_of(rest.skip(end))
            })
        }
    }
}

proof fn lemma_bytes_range(n: nat, m: nat)
    requires
        n <= m,
    ensures
        0 < bytes_range(n) <= bytes_range(m),
    decreases m,
{
    if n < m {
        lemma_bytes_range(n, (m - 1) as nat);
    } else if n > 0 {
        lemma_bytes_range((n - 1) as nat, (m - 1) as nat);
    }
}

proof fn lemma_le_value_bound(s: Seq<u8>)
    ensures
        le_value(s) < bytes_range(s.len()),
    decreases s.len(),
{
    if s.len() > 0 {
        lemma_le_value_bound(s.drop_first());
    }
}

/// Reads a number of up to eight bytes, least significant byte first.
fn read_le(data: &[u8], at: usize, n: usize) -> (r: u64)
    requires
        at + n <= data@.len(),
        n <= 8,
    ensures
        r == le_at(data@, at as int, n as int),
{
    let len: usize = data.len();
    let mut value: u64 = 0;
    let mut left: usize = n;
    let ghost all = data@.subrange(at as int, at + n);
    assert(all.skip(n as int) =~= Seq::<u8>::empty());
    while left > 0
        invariant
            left <= n <= 8,
            at + n <= len,
            len == data@.len(),
            all == data@.subrange(at as int, at + n),
            value == le_value(all.skip(left as int)),
        decreases left,
    {
        let ghost behind = all.skip(left as int);
        proof {
            lemma_le_value_bound(behind);
            lemma_bytes_range(behind.len(), 7);
            reveal_with_fuel(bytes_range, 8);
            assert(all.skip(left - 1).drop_first() =~= behind);
            assert(all.skip(left - 1)[0] == data@[at + left - 1]);
        }
        left = left - 1;
        value = value * 256 + data[at + left] as u64;
    }
    assert(all.skip(0) =~= all);
    value
}

// ── What records say ────────────────────────────────────────────────

/// A schema: a description of what messages look like.
#[derive(Debug)]
pub struct SchemaRecord {
    pub id: u16,
    pub name: String,
    pub encoding: String,
    pub data: Vec<u8>,
}

/// A channel: what messages of a topic have in common.
#[derive(Debug)]
pub struct ChannelRecord {
    pub id: u16,
    pub schema_id: u16,
    pub topic: String,
    pub message_encoding: String,
    pub metadata: Vec<(String, String)>,
}

/// What a record says, as far as it matters for messages.
#[derive(Debug)]
pub enum ParsedRecord {
    Schema(SchemaRecord),
    Channel(ChannelRecord),
    Message { channel_id: u16, log_time: u64, payload: Vec<u8> },
    Other,
}

/// What a schema stands for.
pub ghost struct SchemaModel {
    pub id: u16,
    pub name: Seq<char>,
    pub encoding: Seq<char>,
    pub data: Seq<u8>,
}

/// What a channel stands for.
pub ghost struct ChannelModel {
    pub id: u16,
    pub schema_id: u16,
    pub topic: Seq<char>,
    pub message_encoding: Seq<char>,
    pub metadata: Map<Seq<char>, Seq<char>>,
}

/// What a parsed record stands for.
pub ghost enum RecordModel {
    Schema(SchemaModel),
    Channel(ChannelModel),
    Message { channel_id: u16, log_time: u64, payload: Seq<u8> },
    Other,
}

impl SchemaRecord {
    /// What this schema stands for.
    pub open spec fn view(&self) -> SchemaModel {
        SchemaModel {
            id: self.id,
            name: self.name@,
            encoding: self.encoding@,
            data: self.data@,
        }
    }
}

/// What pairs of names and values say. Of pairs with the same name, the last one counts.
pub open spec fn fields_of(pairs: Seq<(String, String)>) -> Map<Seq<char>, Seq<char>>
    decreases pairs.len(),
{
    if pairs.len() == 0 {
        Map::empty()
    } else {
        fields_of(pairs.drop_last()).insert(pairs.last().0@, pairs.last().1@)
    }
}

impl ChannelRecord {
    /// What this channel stands for.
    pub open spec fn view(&self) -> ChannelModel {
        ChannelModel {
            id: self.id,
            schema_id: self.schema_id,
            topic: self.topic@,
            message_encoding: self.message_encoding@,
            metadata: fields_of(self.metadata@),
        }
    }
}

impl ParsedRecord {
    /// What this record stands for.
    pub open spec fn view(&self) -> RecordModel {
        match self {
            ParsedRecord::Schema(s) => RecordModel::Schema(s@),
            ParsedRecord::Channel(c) => RecordModel::Channel(c@),
            ParsedRecord::Message { channel_id, log_time, payload } => RecordModel::Message {
                channel_id: *channel_id,
                log_time: *log_time,
                payload: payload@,
            },
            ParsedRecord::Other => RecordModel::Other,
        }
    }
}

/// What `mcap` reads out of the body of a record, if it can.
pub uninterp spec fn mcap_record(op: u8, body: Seq<u8>) -> Option<RecordModel>;

/// `mcap::parse_record` reads the body of a record. What it reads is a function of the kind and the
/// body alone and is named by `mcap_record`. Bodies whose lengths point behind their end are left
/// out: of an attachment it may panic on them, and it may ask for more memory than there is.
#[verifier::external_body]
fn parse_record(op: u8, body: &[u8]) -> (r: Option<ParsedRecord>)
    requires
        lengths_fit(op, body@),
    ensures
        match r {
            Some(record) => mcap_record(op, body@) == Some(record@),
            None => mcap_record(op, body@) is None,
        },
{
    Some(match mcap::parse_record(op, body).ok()? {
        Record::Schema { header: h, data } => ParsedRecord::Schema(
            SchemaRecord { id: h.id, name: h.name, encoding: h.encoding, data: data.into_owned() },
        ),
        Record::Channel(c) => ParsedRecord::Channel(channel_record(c)),
        Record::Message { header: h, data } => ParsedRecord::Message {
            channel_id: h.channel_id, log_time: h.log_time, payload: data.into_owned(),
        },
        Header(_) | Footer(_) | Chunk { .. } | MessageIndex(_) | ChunkIndex(_) | Attachment { .. }
        | AttachmentIndex(_) | Statistics(_) | Metadata(_) | MetadataIndex(_) | SummaryOffset(_)
        | DataEnd(_) | Unknown { .. } => ParsedRecord::Other,
    })
}

/// A channel of `mcap`.
#[verifier::external_type_specification]
#[verifier::external_body]
pub struct ExMcapChannel(Channel);

/// The same contents as a channel of `mcap`. Nothing is stated of the result: only `parse_record`
/// hands it on.
#[verifier::external_body]
fn channel_record(c: Channel) -> ChannelRecord {
    ChannelRecord {
        id: c.id,
        schema_id: c.schema_id,
        topic: c.topic,
        message_encoding: c.message_encoding,
        metadata: c.metadata.into_iter().collect(),
    }
}

/// What a body is made of, up to the last length in it.
#[derive(Debug, Clone, Copy)]
pub enum Field {
    /// So many bytes.
    Bytes(usize),
    /// Four bytes for a length, and as many bytes.
    Text,
    /// Four bytes for a length, and pairs of texts in as many bytes.
    Texts,
    /// Four bytes for a length, and pairs of a number of two and one of eight bytes in as many bytes.
    Numbers,
}

/// What the body of a record of a kind is made of.
pub open spec fn layout(op: u8) -> Seq<Field> {
    if op == 0x01 {
        seq![Field::Text, Field::Text]
    } else if op == 0x03 {
        seq![Field::Bytes(2), Field::Text, Field::Text]
    } else if op == 0x04 {
        seq![Field::Bytes(4), Field::Text, Field::Text, Field::Texts]
    } else if op == 0x06 {
        seq![Field::Bytes(28), Field::Text]
    } else if op == 0x08 {
        seq![Field::Bytes(32), Field::Numbers, Field::Bytes(8), Field::Text]
    } else if op == OP_ATTACHMENT {
        seq![Field::Bytes(16), Field::Text, Field::Text, Field::Bytes(12)]
    } else if op == 0x0a {
        seq![Field::Bytes(40), Field::Text, Field::Text]
    } else if op == 0x0c {
        seq![Field::Text, Field::Texts]
    } else if op == 0x0d {
        seq![Field::Bytes(16), Field::Text]
    } else {
        seq![]
    }
}

/// How many bytes a text takes at the beginning of some bytes, its length included, if it is there.
pub open spec fn text_len(s: Seq<u8>) -> Option<nat> {
    if s.len() >= 4 && le_at(s, 0, 4) <= s.len() - 4 {
        Some(4 + le_at(s, 0, 4))
    } else {
        None
    }
}

/// How many bytes the pairs of texts take that begin in the first `want` bytes, if they are there.
pub open spec fn texts_len(s: Seq<u8>, want: nat) -> Option<nat>
    decreases want,
{
    if want == 0 {
        Some(0)
    } else {
        match text_len(s) {
            None => None,
            Some(key) => match text_len(s.skip(key as int)) {
                None => None,
                Some(value) => {
                    let pair = key + value;
                    let left = if want > pair {
                        (want - pair) as nat
                    } else {
                        0
                    };
                    match texts_len(s.skip(pair as int), left) {
                        None => None,
                        Some(behind) => Some(pair + behind),
                    }
                },
            },
        }
    }
}

/// How many bytes a field takes at the beginning of some bytes, if it is there.
pub open spec fn field_len(s: Seq<u8>, field: Field) -> Option<nat> {
    match field {
        Field::Bytes(n) => if n <= s.len() {
            Some(n as nat)
        } else {
            None
        },
        Field::Text => text_len(s),
        Field::Texts => if s.len() >= 4 {
            match texts_len(s.skip(4), le_at(s, 0, 4)) {
                Some(n) => Some(4 + n),
                None => None,
            }
        } else {
            None
        },
        Field::Numbers => if s.len() >= 4 && (le_at(s, 0, 4) + 9) / 10 * 10 <= s.len() - 4 {
            Some((4 + (le_at(s, 0, 4) + 9) / 10 * 10) as nat)
        } else {
            None
        },
    }
}

/// Whether fields stand one behind the other at the beginning of some bytes.
pub open spec fn fields_fit(s: Seq<u8>, fields: Seq<Field>) -> bool
    decreases fields.len(),
{
    if fields.len() == 0 {
        true
    } else {
        match field_len(s, fields[0]) {
            Some(n) => fields_fit(s.skip(n as int), fields.skip(1)),
            None => false,
        }
    }
}

/// Whether the lengths in the body of a record stay within it.
pub open spec fn lengths_fit(op: u8, body: Seq<u8>) -> bool {
    fields_fit(body, layout(op))
}

fn layout_of(op: u8) -> (r: Vec<Field>)
    ensures
        r@ == layout(op),
{
    match op {
        0x01 => vec![Field::Text, Field::Text],
        0x03 => vec![Field::Bytes(2), Field::Text, Field::Text],
        0x04 => vec![Field::Bytes(4), Field::Text, Field::Text, Field::Texts],
        0x06 => vec![Field::Bytes(28), Field::Text],
        0x08 => vec![Field::Bytes(32), Field::Numbers, Field::Bytes(8), Field::Text],
        0x09 => vec![Field::Bytes(16), Field::Text, Field::Text, Field::Bytes(12)],
        0x0a => vec![Field::Bytes(40), Field::Text, Field::Text],
        0x0c => vec![Field::Text, Field::Texts],
        0x0d => vec![Field::Bytes(16), Field::Text],
        _ => vec![],
    }
}

/// Where a text that begins at a place ends.
fn text_end(body: &[u8], at: usize) -> (r: Option<usize>)
    requires
        at <= body@.len(),
    ensures
        match r {
            Some(end) => at <= end <= body@.len() && text_len(body@.skip(at as int)) == Some(
                (end - at) as nat,
            ),
            None => text_len(body@.skip(at as int)) is None,
        },
{
    let left: usize = body.len() - at;
    if left < 4 {
        return None;
    }
    let n: u64 = read_le(body, at, 4);
    assert(body@.skip(at as int).subrange(0, 4) =~= body@.subrange(at as int, at + 4));
    if n > (left - 4) as u64 {
        return None;
    }
    Some(at + 4 + n as usize)
}

/// Where the pairs of texts end that begin in `want` bytes from a place on.
fn texts_end(body: &[u8], at: usize, want: u64) -> (r: Option<usize>)
    requires
        at <= body@.len(),
    ensures
        match r {
            Some(end) => at <= end <= body@.len() && texts_len(body@.skip(at as int), want as nat)
                == Some((end - at) as nat),
            None => texts_len(body@.skip(at as int), want as nat) is None,
        },
{
    let mut pos: usize = at;
    let mut left: u64 = want;
    let ghost whole = texts_len(body@.skip(at as int), want as nat);
    while left > 0
        invariant
            at <= pos <= body@.len(),
            whole == texts_len(body@.skip(at as int), want as nat),
            whole == (match texts_len(body@.skip(pos as int), left as nat) {
                Some(n) => Some(((pos - at) + n) as nat),
                None => None,
            }),
        decreases left,
    {
        let ghost start = pos;
        let key_end: usize = match text_end(body, pos) {
            Some(e) => e,
            None => {
                return None;
            },
        };
        assert(body@.skip(pos as int).skip(key_end - pos) =~= body@.skip(key_end as int));
        let end: usize = match text_end(body, key_end) {
            Some(e) => e,
            None => {
                return None;
            },
        };
        assert(body@.skip(pos as int).skip(end - pos) =~= body@.skip(end as int));
        let pair: u64 = (end - pos) as u64;
        left = if left > pair {
            left - pair
        } else {
            0
        };
        pos = end;
    }
    Some(pos)
}

/// Tests whether the lengths in the body of a record stay within it.
pub fn check_lengths(op: u8, body: &[u8]) -> (r: bool)
    ensures
        r == lengths_fit(op, body@),
{
    let fields: Vec<Field> = layout_of(op);
    let count: usize = fields.len();
    let mut pos: usize = 0;
    let mut i: usize = 0;
    assert(body@.skip(0) =~= body@);
    assert(fields@.skip(0) =~= fields@);
    while i < count
        invariant
            i <= count,
            count == fields@.len(),
            pos <= body@.len(),
            fields@ == layout(op),
            lengths_fit(op, body@) == fields_fit(body@.skip(pos as int), fields@.skip(i as int)),
        decreases count - i,
    {
        let left: usize = body.len() - pos;
        let ghost s = body@.skip(pos as int);
        let end: Option<usize> = match fields[i] {
            Field::Bytes(n) => if n <= left {
                Some(pos + n)
            } else {
                None
            },
            Field::Text => text_end(body, pos),
            Field::Texts => if left >= 4 {
                assert(s.subrange(0, 4) =~= body@.subrange(pos as int, pos + 4));
                assert(s.skip(4) =~= body@.skip(pos + 4));
                let want: u64 = read_le(body, pos, 4);
                texts_end(body, pos + 4, want)
            } else {
                None
            },
            Field::Numbers => if left >= 4 {
                assert(s.subrange(0, 4) =~= body@.subrange(pos as int, pos + 4));
                let want: u64 = read_le(body, pos, 4);
                proof {
                    lemma_le_value_bound(s.subrange(0, 4));
                    reveal_with_fuel(bytes_range, 5);
                }
                let size: u64 = (want + 9) / 10 * 10;
                if size <= (left - 4) as u64 {
                    Some(pos + 4 + size as usize)
                } else {
                    None
                }
            } else {
                None
            },
        };
        assert(fields@.skip(i as int)[0] == fields@[i as int]);
        assert(fields@.skip(i as int).skip(1) =~= fields@.skip(i + 1));
        match end {
            None => {
                return false;
            },
            Some(e) => {
                assert(s.skip(e - pos) =~= body@.skip(e as int));
                pos = e;
            },
        }
        i = i + 1;
    }
    true
}

/// What a record says, if it can be read.
pub open spec fn said_by(op: u8, body: Seq<u8>) -> Option<RecordModel> {
    if lengths_fit(op, body) {
        mcap_record(op, body)
    } else {
        None
    }
}

/// Reads the body of a record, if it can be read.
pub fn read_record(op: u8, body: &[u8]) -> (r: Option<ParsedRecord>)
    ensures
        match r {
            Some(record) => said_by(op, body@) == Some(record@),
            None => said_by(op, body@) is None,
        },
{
    if check_lengths(op, body) {
        parse_record(op, body)
    } else {
        None
    }
}

// ── From records to messages ────────────────────────────────────────

/// What is known while the records of a file are read one after the other.
pub ghost struct Reading {
    pub schemas: Map<u16, SchemaModel>,
    pub channels: Map<u16, ChannelModel>,
    /// Whether the last message was passed.
    pub past_end: bool,
    /// Whether a record could not be read, or contradicts an earlier one.
    pub stopped: bool,
    pub messages: Seq<MessageModel>,
}

impl Reading {
    /// Before the first record.
    pub open spec fn start() -> Reading {
        Reading {
            schemas: Map::empty(),
            channels: Map::empty(),
            past_end: false,
            stopped: false,
            messages: seq![],
        }
    }

    /// Whether a schema can be taken: its id is not 0, and it is the same where it comes again.
    pub open spec fn takes_schema(self, schema: SchemaModel) -> bool {
        schema.id != 0 && (self.schemas.contains_key(schema.id) ==> self.schemas[schema.id]
            == schema)
    }

    /// With a schema.
    pub open spec fn with_schema(self, schema: SchemaModel) -> Reading {
        if self.takes_schema(schema) {
            Reading { schemas: self.schemas.insert(schema.id, schema), ..self }
        } else {
            Reading { stopped: true, ..self }
        }
    }

    /// Whether a channel can be taken: its schema is known, where it has one, and it is the same
    /// where it comes again.
    pub open spec fn takes_channel(self, channel: ChannelModel) -> bool {
        &&& channel.schema_id == 0 || self.schemas.contains_key(channel.schema_id)
        &&& self.channels.contains_key(channel.id) ==> self.channels[channel.id] == channel
    }

    /// With a channel.
    pub open spec fn with_channel(self, channel: ChannelModel) -> Reading {
        if self.takes_channel(channel) {
            Reading { channels: self.channels.insert(channel.id, channel), ..self }
        } else {
            Reading { stopped: true, ..self }
        }
    }

    /// With a message; one of an unknown channel is left out.
    pub open spec fn with_message(self, channel_id: u16, log_time: u64, payload: Seq<u8>) -> Reading {
        if self.channels.contains_key(channel_id) {
            let topic = self.channels[channel_id].topic;
            Reading {
                messages: self.messages.push(MessageModel { log_time, topic, payload }),
                ..self
            }
        } else {
            self
        }
    }

    /// After one more record, given what it says and whether it stands behind the last message. From
    /// then on, records are only looked at for whether they can be read.
    pub open spec fn given(self, said: Option<RecordModel>, ends_data: bool) -> Reading {
        if self.stopped {
            self
        } else {
            match said {
                None => Reading { stopped: true, ..self },
                Some(said) => if self.past_end {
                    self
                } else {
                    match said {
                        RecordModel::Schema(schema) => self.with_schema(schema),
                        RecordModel::Channel(channel) => self.with_channel(channel),
                        RecordModel::Message { channel_id, log_time, payload } => self.with_message(
                            channel_id,
                            log_time,
                            payload,
                        ),
                        RecordModel::Other => Reading { past_end: ends_data, ..self },
                    }
                },
            }
        }
    }

    /// After one more record.
    pub open spec fn after(self, record: RawModel) -> Reading {
        self.given(
            said_by(record.op, record.body),
            record.op == OP_DATA_END && !record.in_chunk,
        )
    }
}

/// What is known after some records.
pub open spec fn reading_of(records: Seq<RawModel>) -> Reading
    decreases records.len(),
{
    if records.len() == 0 {
        Reading::start()
    } else {
        reading_of(records.drop_last()).after(records.last())
    }
}

/// The messages of a file.
pub open spec fn file_messages(data: Seq<u8>) -> Seq<MessageModel> {
    if data.len() >= 8 && data.take(8) == magic() {
        reading_of(records_of(data.skip(8))).messages
    } else {
        seq![]
    }
}

/// Tests whether some bytes are those that every file begins with.
fn has_magic(data: &[u8]) -> (r: bool)
    ensures
        r == (data@.len() >= 8 && data@.take(8) == magic()),
{
    if data.len() < 8 {
        return false;
    }
    let r: bool = data[0] == 0x89 && data[1] == 0x4d && data[2] == 0x43 && data[3] == 0x41 && data[4]
        == 0x50 && data[5] == 0x30 && data[6] == 0x0d && data[7] == 0x0a;
    proof {
        if r {
            assert(data@.take(8) =~= magic());
        } else {
            assert(forall|i: int| 0 <= i < 8 ==> data@.take(8)[i] == data@[i]);
        }
    }
    r
}

/// Reads the records that stand one behind the other in some bytes.
fn read_framed(data: &[u8]) -> (r: (Vec<(u8, Vec<u8>)>, bool))
    ensures
        (pairs(r.0@), r.1) == framed(data@),
{
    let len: usize = data.len();
    let mut out: Vec<(u8, Vec<u8>)> = Vec::new();
    let mut pos: usize = 0;
    assert(data@.skip(0) =~= data@);
    assert(pairs(out@) + framed(data@).0 =~= framed(data@).0);
    while pos < len
        invariant
            len == data@.len(),
            pos <= len,
            pairs(out@) + framed(data@.skip(pos as int)).0 == framed(data@).0,
            framed(data@.skip(pos as int)).1 == framed(data@).1,
        decreases len - pos,
    {
        let ghost rest = data@.skip(pos as int);
        let left: usize = len - pos;
        if left < 9 {
            assert(pairs(out@) + framed(rest).0 =~= pairs(out@));
            return (out, false);
        }
        let n: u64 = read_le(data, pos + 1, 8);
        assert(rest.subrange(1, 9) =~= data@.subrange(pos + 1, pos + 9));
        if n > (left - 9) as u64 {
            assert(pairs(out@) + framed(rest).0 =~= pairs(out@));
            return (out, false);
        }
        let end: usize = pos + 9 + n as usize;
        let ghost before = out@;
        let body: Vec<u8> = slice_to_vec(slice_subrange(data, pos + 9, end));
        out.push((data[pos], body));
        proof {
            assert(body@ =~= rest.subrange(9, end - pos));
            assert(rest.skip(end - pos) =~= data@.skip(end as int));
            assert(pairs(out@) =~= pairs(before).push((rest[0], body@)));
            assert(pairs(out@) + framed(data@.skip(end as int)).0 =~= pairs(before) + framed(rest).0);
        }
        pos = end;
    }
    assert(data@.skip(len as int) =~= Seq::<u8>::empty());
    assert(pairs(out@) + framed(data@.skip(len as int)).0 =~= pairs(out@));
    (out, true)
}

/// The longest record to look for in a compressed chunk.
fn record_limit(n: usize) -> (r: usize)
    ensures
        r == longest_record(n as int),
{
    let most: usize = isize::MAX as usize - 9;
    if n <= most / GROWTH {
        n * GROWTH
    } else {
        most
    }
}

/// Reads the records in a chunk.
fn read_chunk_content(body: &[u8], len: u64) -> (r: (Vec<(u8, Vec<u8>)>, bool))
    requires
        body@.len() <= len,
    ensures
        (pairs(r.0@), r.1) == chunk_content(body@, len as nat),
{
    let available: usize = body.len();
    let none: Vec<(u8, Vec<u8>)> = Vec::new();
    assert(pairs(none@) =~= Seq::<(u8, Seq<u8>)>::empty());
    if available < 40 {
        return (none, false);
    }
    let name_len: u64 = read_le(body, 28, 4);
    proof {
        lemma_le_value_bound(body@.subrange(28, 32));
        reveal_with_fuel(bytes_range, 5);
    }
    let header: u64 = 40 + name_len;
    if header > available as u64 {
        return (none, false);
    }
    let size: u64 = read_le(body, 32 + name_len as usize, 8);
    if size > len - header {
        return (none, false);
    }
    let end: usize = if header + size <= available as u64 {
        (header + size) as usize
    } else {
        available
    };
    let inside: (Vec<(u8, Vec<u8>)>, bool) = if name_len == 0 {
        read_framed(slice_subrange(body, header as usize, end))
    } else {
        let mut record: Vec<u8> = Vec::new();
        record.push(OP_CHUNK);
        push_le_bytes(&mut record, header + size, 8);
        let mut part: Vec<u8> = slice_to_vec(slice_subrange(body, 0, end));
        record.append(&mut part);
        proof {
            let whole = chunk_record(body@.subrange(0, end as int), (header + size) as nat);
            assert(record@ =~= whole);
            reveal_with_fuel(bytes_range, 9);
            le_bytes_read_back((header + size) as nat, 8);
            assert(whole.subrange(1, 9) =~= le_bytes((header + size) as nat, 8));
            assert(whole.subrange(37, 41) =~= body@.subrange(28, 32));
        }
        let limit: usize = record_limit(record.len());
        read_chunk(record.as_slice(), limit)
    };
    let whole: bool = inside.1 && available as u64 == len;
    (inside.0, whole)
}

/// Adds records of a chunk to those of a file.
pub fn append_chunk(out: &mut Vec<RawRecord>, records: Vec<(u8, Vec<u8>)>)
    ensures
        raw_models(final(out)@) == raw_models(old(out)@) + in_chunk(pairs(records@)),
{
    let ghost all = in_chunk(pairs(records@));
    let ghost start = raw_models(out@);
    let n: usize = records.len();
    let mut rest: Vec<(u8, Vec<u8>)> = records;
    let mut tail: Vec<RawRecord> = Vec::new();
    let mut left: usize = n;
    assert(all.skip(n as int) =~= Seq::<RawModel>::empty());
    assert(raw_models(tail@) =~= all.skip(n as int).reverse());
    while left > 0
        invariant
            left <= n,
            n == all.len(),
            rest@.len() == left,
            in_chunk(pairs(rest@)) == all.take(left as int),
            raw_models(tail@) == all.skip(left as int).reverse(),
        decreases left,
    {
        let ghost before = rest@;
        let ghost tail_before = tail@;
        let (op, body) = rest.remove(left - 1);
        tail.push(RawRecord { op, body, in_chunk: true });
        left = left - 1;
        proof {
            assert(in_chunk(pairs(before))[left as int] == RawModel { op, body: body@, in_chunk: true });
            assert(all.take(left + 1)[left as int] == all[left as int]);
            assert(in_chunk(pairs(rest@)) =~= in_chunk(pairs(before)).take(left as int));
            assert(all.take(left + 1).take(left as int) =~= all.take(left as int));
            assert(raw_models(tail@) =~= raw_models(tail_before).push(all[left as int]));
            assert(all.skip(left as int).reverse() =~= all.skip(left + 1).reverse().push(
                all[left as int],
            ));
        }
    }
    assert(all.skip(0) =~= all);
    while tail.len() > 0
        invariant
            raw_models(out@) + raw_models(tail@).reverse() == start + all,
        decreases tail@.len(),
    {
        let ghost before = tail@;
        let ghost out_before = out@;
        let last: usize = tail.len() - 1;
        let record: RawRecord = tail.remove(last);
        out.push(record);
        assert(raw_models(out@) =~= raw_models(out_before).push(record@));
        assert(raw_models(before).reverse() =~= seq![record@] + raw_models(tail@).reverse());
        assert(raw_models(out@) + raw_models(tail@).reverse() =~= raw_models(out_before)
            + raw_models(before).reverse());
    }
    assert(raw_models(tail@).reverse() =~= Seq::<RawModel>::empty());
    assert(raw_models(out@) + raw_models(tail@).reverse() =~= raw_models(out@));
}

/// Reads the records of a file behind the bytes that it begins with.
pub fn read_records(data: &[u8]) -> (r: Vec<RawRecord>)
    ensures
        raw_models(r@) == records_of(data@),
{
    let len: usize = data.len();
    let mut out: Vec<RawRecord> = Vec::new();
    let mut pos: usize = 0;
    assert(data@.skip(0) =~= data@);
    assert(raw_models(out@) + records_of(data@) =~= records_of(data@));
    while len - pos >= 9
        invariant
            len == data@.len(),
            pos <= len,
            raw_models(out@) + records_of(data@.skip(pos as int)) == records_of(data@),
        decreases len - pos,
    {
        let ghost rest = data@.skip(pos as int);
        let ghost before = out@;
        let op: u8 = data[pos];
        let n: u64 = read_le(data, pos + 1, 8);
        assert(rest.subrange(1, 9) =~= data@.subrange(pos + 1, pos + 9));
        let complete: bool = n <= (len - pos - 9) as u64;
        let end: usize = if complete {
            pos + 9 + n as usize
        } else {
            len
        };
        let body: &[u8] = slice_subrange(data, pos + 9, end);
        proof {
            assert(body@ =~= rest.subrange(9, end - pos));
            assert(rest.skip(end - pos) =~= data@.skip(end as int));
        }
        if op == OP_CHUNK {
            let (records, whole) = read_chunk_content(body, n);
            append_chunk(&mut out, records);
            if !whole {
                assert(raw_models(out@) =~= raw_models(before) + records_of(rest));
                return out;
            }
            assert(raw_models(out@) + records_of(data@.skip(end as int)) =~= raw_models(before)
                + records_of(rest));
        } else {
            if !complete {
                assert(raw_models(out@) =~= raw_models(before) + records_of(rest));
                return out;
            }
            let record: RawRecord = RawRecord {
                op,
                body: slice_to_vec(body),
                in_chunk: false,
            };
            let ghost model = record@;
            out.push(record);
            assert(raw_models(out@) =~= raw_models(before).push(model));
            if op == OP_FOOTER {
                assert(raw_models(out@) =~= raw_models(before) + records_of(rest));
                return out;
            }
            assert(raw_models(out@) + records_of(data@.skip(end as int)) =~= raw_models(before)
                + records_of(rest));
        }
        pos = end;
    }
    assert(raw_models(out@) + records_of(data@.skip(pos as int)) =~= raw_models(out@));
    out
}

/// The schemas and channels that `mcap` was told.
#[verifier::external_type_specification]
#[verifier::external_body]
pub struct ExChannelAccumulator<'a>(ChannelAccumulator<'a>);

/// The schemas that were told, by their ids.
pub uninterp spec fn schemas_in(known: ChannelAccumulator<'static>) -> Map<u16, SchemaModel>;

/// The channels that were told, by their ids.
pub uninterp spec fn channels_in(known: ChannelAccumulator<'static>) -> Map<u16, ChannelModel>;

/// `mcap::read::ChannelAccumulator::default` holds neither schemas nor channels.
#[verifier::external_body]
fn no_channels() -> (r: ChannelAccumulator<'static>)
    ensures
        schemas_in(r) == Reading::start().schemas,
        channels_in(r) == Reading::start().channels,
{
    ChannelAccumulator::default()
}

/// `mcap::read::ChannelAccumulator::add_schema` takes a schema, unless its id is 0 or another schema
/// has its id; then it gives an error and nothing changes.
#[verifier::external_body]
fn tell_schema(known: &mut ChannelAccumulator<'static>, schema: SchemaRecord) -> (r: bool)
    ensures
        r == (schema@.id != 0 && (schemas_in(*old(known)).contains_key(schema@.id) ==> schemas_in(
            *old(known),
        )[schema@.id] == schema@)),
        schemas_in(*final(known)) == (if r {
            schemas_in(*old(known)).insert(schema@.id, schema@)
        } else {
            schemas_in(*old(known))
        }),
        channels_in(*final(known)) == channels_in(*old(known)),
{
    let header = SchemaHeader { id: schema.id, name: schema.name, encoding: schema.encoding };
    known.add_schema(header, schema.data.into()).is_ok()
}

/// `mcap::read::ChannelAccumulator::add_channel` takes a channel, unless it has a schema that was
/// not told or another channel has its id; then it gives an error and nothing changes.
#[verifier::external_body]
fn tell_channel(known: &mut ChannelAccumulator<'static>, channel: ChannelRecord) -> (r: bool)
    ensures
        r == ((channel@.schema_id == 0 || schemas_in(*old(known)).contains_key(channel@.schema_id))
            && (channels_in(*old(known)).contains_key(channel@.id) ==> channels_in(
            *old(known),
        )[channel@.id] == channel@)),
        channels_in(*final(known)) == (if r {
            channels_in(*old(known)).insert(channel@.id, channel@)
        } else {
            channels_in(*old(known))
        }),
        schemas_in(*final(known)) == schemas_in(*old(known)),
{
    let mut metadata = BTreeMap::new();
    for (name, value) in channel.metadata {
        metadata.insert(name, value);
    }
    let (id, schema_id, topic) = (channel.id, channel.schema_id, channel.topic);
    let message_encoding = channel.message_encoding;
    known.add_channel(Channel { id, schema_id, topic, message_encoding, metadata }).is_ok()
}

/// `mcap::read::ChannelAccumulator::get` finds a channel by its id. Only its topic is handed on.
#[verifier::external_body]
fn topic_of(known: &ChannelAccumulator<'static>, channel_id: u16) -> (r: Option<String>)
    ensures
        match r {
            Some(topic) => channels_in(*known).contains_key(channel_id) && topic@ == channels_in(
                *known,
            )[channel_id].topic,
            None => !channels_in(*known).contains_key(channel_id),
        },
{
    known.get(channel_id).map(|c| c.topic.clone())
}

/// What is known while the records of a file are read one after the other.
pub struct RecordReader {
    pub known: ChannelAccumulator<'static>,
    pub past_end: bool,
    pub stopped: bool,
    pub messages: Vec<ReplayMessage>,
}

impl RecordReader {
    /// What this reader stands for.
    pub open spec fn view(&self) -> Reading {
        Reading {
            schemas: schemas_in(self.known),
            channels: channels_in(self.known),
            past_end: self.past_end,
            stopped: self.stopped,
            messages: models(self.messages@),
        }
    }

    /// Before the first record.
    pub fn new() -> (r: Self)
        ensures
            r@ == Reading::start(),
    {
        let r: RecordReader = RecordReader {
            known: no_channels(),
            past_end: false,
            stopped: false,
            messages: Vec::new(),
        };
        assert(r@.messages =~= seq![]);
        r
    }

    fn add_message(&mut self, channel_id: u16, log_time: u64, payload: Vec<u8>)
        ensures
            final(self)@ == old(self)@.with_message(channel_id, log_time, payload@),
    {
        if let Some(topic) = topic_of(&self.known, channel_id) {
            let ghost before = self.messages@;
            let message: ReplayMessage = ReplayMessage { log_time, topic, payload };
            let ghost model = message@;
            self.messages.push(message);
            assert(models(self.messages@) =~= models(before).push(model));
        }
    }

    /// Takes note of what a record says, if it could be read, and of whether it stands behind the
    /// last message.
    pub fn accept(&mut self, said: Option<ParsedRecord>, ends_data: bool)
        ensures
            final(self)@ == old(self)@.given(
                match said {
                    Some(record) => Some(record@),
                    None => None,
                },
                ends_data,
            ),
    {
        if self.stopped {
            return;
        }
        match said {
            None => {
                self.stopped = true;
            },
            Some(said) => {
                if !self.past_end {
                    match said {
                        ParsedRecord::Schema(schema) => {
                            self.stopped = !tell_schema(&mut self.known, schema);
                        },
                        ParsedRecord::Channel(channel) => {
                            self.stopped = !tell_channel(&mut self.known, channel);
                        },
                        ParsedRecord::Message { channel_id, log_time, payload } => self.add_message(
                            channel_id,
                            log_time,
                            payload,
                        ),
                        ParsedRecord::Other => {
                            self.past_end = ends_data;
                        },
                    }
                }
            },
        }
    }
}

/// The messages that records make up.
pub fn link_messages(records: &Vec<RawRecord>) -> (r: Vec<ReplayMessage>)
    ensures
        models(r@) == reading_of(raw_models(records@)).messages,
{
    let mut reader: RecordReader = RecordReader::new();
    let ghost all = raw_models(records@);
    let n: usize = records.len();
    let mut i: usize = 0;
    assert(all.take(0) =~= Seq::<RawModel>::empty());
    while i < n
        invariant
            i <= n,
            n == records@.len(),
            all == raw_models(records@),
            reader@ == reading_of(all.take(i as int)),
        decreases n - i,
    {
        let record: &RawRecord = &records[i];
        let said: Option<ParsedRecord> = read_record(record.op, record.body.as_slice());
        reader.accept(said, record.op == OP_DATA_END && !record.in_chunk);
        assert(all.take(i + 1).drop_last() =~= all.take(i as int));
        assert(all.take(i + 1).last() == records@[i as int]@);
        i = i + 1;
    }
    assert(all.take(n as int) =~= all);
    reader.messages
}

/// Reads the messages of a file.
pub fn read_messages(data: &[u8]) -> (r: Vec<ReplayMessage>)
    ensures
        models(r@) == file_messages(data@),
{
    if has_magic(data) {
        let rest: &[u8] = slice_subrange(data, 8, data.len());
        assert(rest@ =~= data@.skip(8));
        let records: Vec<RawRecord> = read_records(rest);
        link_messages(&records)
    } else {
        let none: Vec<ReplayMessage> = Vec::new();
        assert(models(none@) =~= seq![]);
        none
    }
}

/// The bytes of records that stand one behind the other.
pub open spec fn bytes_of(records: Seq<(u8, Seq<u8>)>) -> Seq<u8>
    decreases records.len(),
{
    if records.len() == 0 {
        seq![]
    } else {
        seq![records[0].0] + le_bytes(records[0].1.len(), 8) + records[0].1 + bytes_of(
            records.skip(1),
        )
    }
}

/// Records that were written one behind the other are read back.
pub proof fn records_read_back(records: Seq<(u8, Seq<u8>)>)
    requires
        forall|i: int| 0 <= i < records.len() ==> (#[trigger] records[i]).1.len() <= u64::MAX,
    ensures
        framed(bytes_of(records)) == (records, true),
    decreases records.len(),
{
    if records.len() > 0 {
        let behind = records.skip(1);
        let (op, body) = records[0];
        let all = bytes_of(records);
        records_read_back(behind);
        reveal_with_fuel(bytes_range, 9);
        assert(bytes_range(8) == 0x1_0000_0000_0000_0000);
        le_bytes_read_back(body.len(), 8);
        assert(all.subrange(1, 9) =~= le_bytes(body.len(), 8));
        assert(all.subrange(9, 9 + body.len() as int) =~= body);
        assert(all.skip(9 + body.len() as int) =~= bytes_of(behind));
        assert(seq![(op, body)] + behind =~= records);
    }
}

/// More records add messages behind those that were read before and change none of them: of a file
/// that breaks off, the messages up to there are read.
pub proof fn earlier_messages_stay(records: Seq<RawModel>, n: int)
    requires
        0 <= n <= records.len(),
    ensures
        reading_of(records.take(n)).messages.is_prefix_of(reading_of(records).messages),
    decreases records.len(),
{
    if n == records.len() {
        assert(records.take(n) =~= records);
    } else {
        earlier_messages_stay(records.drop_last(), n);
        assert(records.drop_last().take(n) =~= records.take(n));
    }
}

/// Behind the record that ends the messages, no message is read.
pub proof fn nothing_is_read_past_the_end(records: Seq<RawModel>, n: int)
    requires
        0 <= n <= records.len(),
        reading_of(records.take(n)).past_end || reading_of(records.take(n)).stopped,
    ensures
        reading_of(records).messages == reading_of(records.take(n)).messages,
        reading_of(records).past_end || reading_of(records).stopped,
    decreases records.len(),
{
    if n == records.len() {
        assert(records.take(n) =~= records);
    } else {
        assert(records.drop_last().take(n) =~= records.take(n));
        nothing_is_read_past_the_end(records.drop_last(), n);
    }
}

// ── What files hold ─────────────────────────────────────────────────

/// A file begins with a byte above ASCII, the letters `MCAP`, the digit zero and the end of a line;
/// in bytes that begin otherwise there are no messages.
pub proof fn files_begin_with_their_mark(data: Seq<u8>)
    ensures
        magic().len() == 8,
        magic()[0] == 0x89,
        magic()[1] == 'M' as u8,
        magic()[2] == 'C' as u8,
        magic()[3] == 'A' as u8,
        magic()[4] == 'P' as u8,
        magic()[5] == '0' as u8,
        magic()[6] == '\r' as u8,
        magic()[7] == '\n' as u8,
        data.len() < 8 || data.take(8) != magic() ==> file_messages(data).len() == 0,
        file_messages(magic() + data) == reading_of(records_of(data)).messages,
{
    assert((magic() + data).take(8) =~= magic());
    assert((magic() + data).skip(8) =~= data);
}

proof fn lemma_framed(op: u8, body: Seq<u8>, rest: Seq<u8>)
    requires
        body.len() <= u64::MAX,
    ensures
        ({
            let all = seq![op] + le_bytes(body.len(), 8) + body + rest;
            &&& all.len() == 9 + body.len() + rest.len()
            &&& all[0] == op
            &&& le_at(all, 1, 8) == body.len()
            &&& all.subrange(9, 9 + body.len() as int) == body
            &&& all.skip(9 + body.len() as int) == rest
        }),
{
    let all = seq![op] + le_bytes(body.len(), 8) + body + rest;
    reveal_with_fuel(bytes_range, 9);
    assert(bytes_range(8) == 0x1_0000_0000_0000_0000);
    le_bytes_read_back(body.len(), 8);
    assert(all.subrange(1, 9) =~= le_bytes(body.len(), 8));
    assert(all.subrange(9, 9 + body.len() as int) =~= body);
    assert(all.skip(9 + body.len() as int) =~= rest);
}

/// A record is its kind, its length in eight bytes and its body. The records behind it follow, unless
/// it is the one that ends a file.
pub proof fn records_are_read_one_by_one(op: u8, body: Seq<u8>, rest: Seq<u8>)
    requires
        body.len() <= u64::MAX,
        op != 0x06,
    ensures
        op != 0x02 ==> records_of(seq![op] + le_bytes(body.len(), 8) + body + rest) == seq![
            RawModel { op, body, in_chunk: false },
        ] + records_of(rest),
        op == 0x02 ==> records_of(seq![op] + le_bytes(body.len(), 8) + body + rest) == seq![
            RawModel { op, body, in_chunk: false },
        ],
{
    lemma_framed(op, body, rest);
    assert(seq![RawModel { op, body, in_chunk: false }] + Seq::<RawModel>::empty() =~= seq![
        RawModel { op, body, in_chunk: false },
    ]);
}

/// What is too short to be a record, or breaks off within one, holds none.
pub proof fn broken_records_are_not_read(rest: Seq<u8>)
    ensures
        rest.len() < 9 ==> records_of(rest).len() == 0,
        rest.len() >= 9 && rest[0] != 0x06 && le_value(rest.subrange(1, 9)) > rest.len() - 9
            ==> records_of(rest).len() == 0,
        framed(Seq::<u8>::empty()) == (Seq::<(u8, Seq<u8>)>::empty(), true),
        0 < rest.len() < 9 ==> framed(rest) == (Seq::<(u8, Seq<u8>)>::empty(), false),
        rest.len() >= 9 && le_value(rest.subrange(1, 9)) > rest.len() - 9 ==> framed(rest) == (
            Seq::<(u8, Seq<u8>)>::empty(),
            false,
        ),
{
}

/// A chunk without compression holds the records that were put into it, and the file goes on behind
/// it. Its body is twenty-eight bytes, an empty name of a compression, the length of its records
/// and the records.
pub proof fn chunks_hold_their_records(start: Seq<u8>, inner: Seq<(u8, Seq<u8>)>, rest: Seq<u8>)
    requires
        start.len() == 28,
        bytes_of(inner).len() + 40 <= u64::MAX,
        forall|i: int| 0 <= i < inner.len() ==> (#[trigger] inner[i]).1.len() <= u64::MAX,
    ensures
        ({
            let records = bytes_of(inner);
            let body = start + le_bytes(0, 4) + le_bytes(records.len(), 8) + records;
            let held = inner.map_values(
                |r: (u8, Seq<u8>)| RawModel { op: r.0, body: r.1, in_chunk: true },
            );
            records_of(seq![0x06u8] + le_bytes(body.len(), 8) + body + rest) == held + records_of(rest)
        }),
{
    let records = bytes_of(inner);
    let body = start + le_bytes(0, 4) + le_bytes(records.len(), 8) + records;
    reveal_with_fuel(bytes_range, 9);
    assert(bytes_range(4) == 0x1_0000_0000);
    assert(bytes_range(8) == 0x1_0000_0000_0000_0000);
    le_bytes_read_back(0, 4);
    le_bytes_read_back(records.len(), 8);
    lemma_framed(0x06, body, rest);
    assert(body.subrange(28, 32) =~= le_bytes(0, 4));
    assert(body.subrange(32, 40) =~= le_bytes(records.len(), 8));
    assert(body.subrange(40, body.len() as int) =~= records);
    records_read_back(inner);
    let held = inner.map_values(|r: (u8, Seq<u8>)| RawModel { op: r.0, body: r.1, in_chunk: true });
    assert(in_chunk(inner) =~= held);
}

/// A compressed chunk is handed to the reader of such chunks as a record of its own, up to the end of
/// its compressed bytes; what comes back are its records, and the file goes on where all of it was
/// read.
pub proof fn compressed_chunks_are_handed_on(body: Seq<u8>, name_len: nat, size: nat)
    requires
        0 < name_len,
        name_len == le_value(body.subrange(28, 32)),
        body.len() >= 40 + name_len + size,
        size == le_value(body.subrange(32 + name_len as int, 40 + name_len as int)),
    ensures
        ({
            let part = body.take(40 + name_len as int + size as int);
            let record = seq![0x06u8] + le_bytes(part.len(), 8) + part;
            let read = mcap_chunk(record, longest_record(record.len() as int));
            chunk_content(body, body.len()) == read
        }),
{
    assert(body.subrange(0, 40 + name_len as int + size as int) =~= body.take(
        40 + name_len as int + size as int,
    ));
}

/// A chunk that breaks off, or whose lengths lead beyond it, is not read to its end, so that nothing
/// is read behind it.
pub proof fn broken_chunks_end_the_file(body: Seq<u8>, len: nat)
    ensures
        body.len() < 40 ==> chunk_content(body, len) == (Seq::<(u8, Seq<u8>)>::empty(), false),
        body.len() != len ==> !chunk_content(body, len).1,
        body.len() >= 40 && 40 + le_value(body.subrange(28, 32)) > body.len() ==> chunk_content(
            body,
            len,
        ) == (Seq::<(u8, Seq<u8>)>::empty(), false),
{
}

/// A record of a compressed chunk may be 32768 times as long as the chunk, as far as memory can be
/// addressed.
pub proof fn records_may_grow(n: nat)
    ensures
        n * 32768 <= isize::MAX - 9 ==> longest_record(n as int) == n * 32768,
        n * 32768 > isize::MAX - 9 ==> longest_record(n as int) == isize::MAX - 9,
{
}

/// What the bodies of records are made of, up to their last lengths.
pub proof fn bodies_are_made_of_fields(op: u8)
    ensures
        layout(0x01) == seq![Field::Text, Field::Text],
        layout(0x03) == seq![Field::Bytes(2), Field::Text, Field::Text],
        layout(0x04) == seq![Field::Bytes(4), Field::Text, Field::Text, Field::Texts],
        layout(0x06) == seq![Field::Bytes(28), Field::Text],
        layout(0x08) == seq![Field::Bytes(32), Field::Numbers, Field::Bytes(8), Field::Text],
        layout(0x09) == seq![Field::Bytes(16), Field::Text, Field::Text, Field::Bytes(12)],
        layout(0x0a) == seq![Field::Bytes(40), Field::Text, Field::Text],
        layout(0x0c) == seq![Field::Text, Field::Texts],
        layout(0x0d) == seq![Field::Bytes(16), Field::Text],
        op == 0 || op == 2 || op == 5 || op == 7 || op == 0x0b || op > 0x0d ==> layout(op).len() == 0,
{
}

/// A text takes its length and four bytes; one that leads beyond the end is not there.
pub proof fn texts_take_their_length(text: Seq<u8>, rest: Seq<u8>, s: Seq<u8>)
    requires
        text.len() < 0x1_0000_0000,
    ensures
        text_len(le_bytes(text.len(), 4) + text + rest) == Some(4 + text.len()),
        field_len(le_bytes(text.len(), 4) + text + rest, Field::Text) == Some(4 + text.len()),
        s.len() < 4 ==> text_len(s) is None,
        s.len() >= 4 && le_value(s.subrange(0, 4)) > s.len() - 4 ==> text_len(s) is None,
        text_len(s) matches Some(n) ==> 4 <= n <= s.len(),
{
    let all = le_bytes(text.len(), 4) + text + rest;
    reveal_with_fuel(bytes_range, 5);
    assert(bytes_range(4) == 0x1_0000_0000);
    le_bytes_read_back(text.len(), 4);
    assert(all.subrange(0, 4) =~= le_bytes(text.len(), 4));
}

/// Fields stand one behind the other: where the first fits, the others are looked for behind it.
pub proof fn fields_stand_one_behind_the_other(a: Seq<u8>, rest: Seq<u8>, n: usize, fields: Seq<Field>)
    requires
        a.len() == n,
    ensures
        fields_fit(a + rest, seq![Field::Bytes(n)] + fields) == fields_fit(rest, fields),
        a.len() > 0 ==> !fields_fit(a.drop_last(), seq![Field::Bytes(n)] + fields),
        fields_fit(rest, Seq::<Field>::empty()),
{
    assert((a + rest).skip(n as int) =~= rest);
    assert((seq![Field::Bytes(n)] + fields).skip(1) =~= fields);
    assert((seq![Field::Bytes(n)] + fields)[0] == Field::Bytes(n));
}

/// A text among the fields is passed by its own length.
pub proof fn texts_are_passed(text: Seq<u8>, rest: Seq<u8>, fields: Seq<Field>)
    requires
        text.len() < 0x1_0000_0000,
    ensures
        fields_fit(le_bytes(text.len(), 4) + text + rest, seq![Field::Text] + fields) == fields_fit(
            rest,
            fields,
        ),
{
    texts_take_their_length(text, rest, rest);
    reveal_with_fuel(bytes_range, 5);
    assert(bytes_range(4) == 0x1_0000_0000);
    le_bytes_read_back(text.len(), 4);
    let all = le_bytes(text.len(), 4) + text + rest;
    assert(all.skip(4 + text.len() as int) =~= rest);
    assert((seq![Field::Text] + fields).skip(1) =~= fields);
    assert((seq![Field::Text] + fields)[0] == Field::Text);
}

/// Pairs of texts are passed one after the other, until as many bytes were passed as asked for.
pub proof fn pairs_of_texts_are_passed(key: Seq<u8>, value: Seq<u8>, rest: Seq<u8>, more: nat)
    requires
        key.len() < 0x1_0000_0000,
        value.len() < 0x1_0000_0000,
    ensures
        ({
            let pair = le_bytes(key.len(), 4) + key + (le_bytes(value.len(), 4) + value);
            &&& texts_len(rest, 0) == Some(0nat)
            &&& texts_len(rest, more) matches Some(n) ==> texts_len(pair + rest, pair.len() + more)
                == Some(pair.len() + n)
            &&& texts_len(rest, more) is None ==> texts_len(pair + rest, pair.len() + more) is None
        }),
{
    let first = le_bytes(key.len(), 4) + key;
    let second = le_bytes(value.len(), 4) + value;
    let pair = first + second;
    texts_take_their_length(key, second + rest, rest);
    texts_take_their_length(value, rest, rest);
    reveal_with_fuel(bytes_range, 5);
    assert(bytes_range(4) == 0x1_0000_0000);
    le_bytes_read_back(key.len(), 4);
    le_bytes_read_back(value.len(), 4);
    assert(pair + rest =~= first + (second + rest));
    assert((pair + rest).skip(first.len() as int) =~= second + rest);
    assert((pair + rest).skip(pair.len() as int) =~= rest);
    assert(le_bytes(value.len(), 4) + value + rest =~= second + rest);
    assert(le_bytes(key.len(), 4) + key + (second + rest) =~= first + (second + rest));
}

/// Pairs of numbers take ten bytes each, and a part of a pair as much as a pair.
pub proof fn pairs_of_numbers_take_ten_bytes(count: nat, data: Seq<u8>, s: Seq<u8>)
    requires
        10 * count < 0x1_0000_0000,
        data.len() >= 10 * count,
    ensures
        field_len(le_bytes(10 * count, 4) + data, Field::Numbers) == Some(4 + 10 * count),
        s.len() < 4 ==> field_len(s, Field::Numbers) is None,
        s.len() >= 4 && le_value(s.subrange(0, 4)) > s.len() - 4 ==> field_len(s, Field::Numbers) is None,
{
    reveal_with_fuel(bytes_range, 5);
    assert(bytes_range(4) == 0x1_0000_0000);
    le_bytes_read_back(10 * count, 4);
    assert((le_bytes(10 * count, 4) + data).subrange(0, 4) =~= le_bytes(10 * count, 4));
}

/// A record says what is read out of it where its lengths stay within it, and nothing else.
pub proof fn records_with_wrong_lengths_say_nothing(op: u8, body: Seq<u8>)
    ensures
        fields_fit(body, layout(op)) ==> said_by(op, body) == mcap_record(op, body),
        !fields_fit(body, layout(op)) ==> said_by(op, body) is None,
{
}

/// A message of a known channel is read under the channel's topic, behind those that were read
/// before; one of an unknown channel is left out.
pub proof fn messages_are_read_under_their_topic(
    r: Reading,
    channel_id: u16,
    log_time: u64,
    payload: Seq<u8>,
    ends: bool,
)
    requires
        !r.stopped,
        !r.past_end,
    ensures
        ({
            let after = r.given(Some(RecordModel::Message { channel_id, log_time, payload }), ends);
            &&& r.channels.contains_key(channel_id) ==> after.messages == r.messages.push(
                MessageModel { log_time, topic: r.channels[channel_id].topic, payload },
            )
            &&& !r.channels.contains_key(channel_id) ==> after.messages == r.messages
            &&& after.schemas == r.schemas
            &&& after.channels == r.channels
            &&& !after.stopped
            &&& !after.past_end
        }),
{
}

/// Schemas and channels are known from then on by their ids. One that contradicts an earlier one, a
/// schema with the id zero and a channel of an unknown schema stop the reading.
pub proof fn schemas_and_channels_are_known_by_id(
    r: Reading,
    schema: SchemaModel,
    channel: ChannelModel,
    ends: bool,
)
    requires
        !r.stopped,
        !r.past_end,
    ensures
        ({
            let with = r.given(Some(RecordModel::Schema(schema)), ends);
            let fits = schema.id != 0 && (!r.schemas.contains_key(schema.id) || r.schemas[schema.id]
                == schema);
            &&& fits ==> with.schemas == r.schemas.insert(schema.id, schema) && !with.stopped
            &&& !fits ==> with.stopped && with.schemas == r.schemas
            &&& with.messages == r.messages
            &&& with.channels == r.channels
        }),
        ({
            let with = r.given(Some(RecordModel::Channel(channel)), ends);
            let fits = (channel.schema_id == 0 || r.schemas.contains_key(channel.schema_id)) && (
            !r.channels.contains_key(channel.id) || r.channels[channel.id] == channel);
            &&& fits ==> with.channels == r.channels.insert(channel.id, channel) && !with.stopped
            &&& !fits ==> with.stopped && with.channels == r.channels
            &&& with.messages == r.messages
            &&& with.schemas == r.schemas
        }),
{
}

/// A record that cannot be read stops the reading, and the one behind the last message ends it, unless
/// it stands in a chunk. After either, nothing changes but that a record that cannot be read is
/// noted.
pub proof fn readings_end(r: Reading, record: RawModel, said: Option<RecordModel>, ends: bool)
    ensures
        r.stopped ==> r.given(said, ends) == r,
        !r.stopped && said is None ==> r.given(said, ends) == (Reading { stopped: true, ..r }),
        !r.stopped && r.past_end && said is Some ==> r.given(said, ends) == r,
        !r.stopped && !r.past_end ==> r.given(Some(RecordModel::Other), ends) == (Reading {
            past_end: ends,
            ..r
        }),
        r.after(record) == r.given(
            said_by(record.op, record.body),
            record.op == 0x0f && !record.in_chunk,
        ),
{
}

/// A reading begins with nothing, and goes on record by record.
pub proof fn readings_begin_with_nothing(records: Seq<RawModel>, record: RawModel)
    ensures
        reading_of(Seq::<RawModel>::empty()).messages.len() == 0,
        reading_of(Seq::<RawModel>::empty()).schemas == Map::<u16, SchemaModel>::empty(),
        reading_of(Seq::<RawModel>::empty()).channels == Map::<u16, ChannelModel>::empty(),
        !reading_of(Seq::<RawModel>::empty()).stopped,
        !reading_of(Seq::<RawModel>::empty()).past_end,
        reading_of(records.push(record)) == reading_of(records).after(record),
{
    assert(records.push(record).drop_last() =~= records);
}

/// Records, schemas, channels and readers stand for what they hold; of two values under one name the
/// later counts.
pub proof fn records_stand_for_what_they_hold(
    raw: Seq<RawRecord>,
    i: int,
    schema: SchemaRecord,
    channel: ChannelRecord,
    fields: Seq<(String, String)>,
    name: String,
    value: String,
    reader: RecordReader,
)
    ensures
        raw_models(raw).len() == raw.len(),
        0 <= i < raw.len() ==> raw_models(raw)[i] == (RawModel {
            op: raw[i].op,
            body: raw[i].body@,
            in_chunk: raw[i].in_chunk,
        }),
        schema@ == (SchemaModel {
            id: schema.id,
            name: schema.name@,
            encoding: schema.encoding@,
            data: schema.data@,
        }),
        channel@.id == channel.id,
        channel@.schema_id == channel.schema_id,
        channel@.topic == channel.topic@,
        channel@.message_encoding == channel.message_encoding@,
        channel@.metadata == fields_of(channel.metadata@),
        fields_of(fields.push((name, value))) == fields_of(fields).insert(name@, value@),
        reader@.messages == models(reader.messages@),
        reader@.stopped == reader.stopped,
        reader@.past_end == reader.past_end,
{
    assert(fields.push((name, value)).drop_last() =~= fields);
}

} // verus!
