//! MCAP files, byte by byte.

use rapid_driver::engine::mcap_file::{
    append_chunk, check_lengths, link_messages, read_messages, read_record, read_records,
    ChannelRecord, ParsedRecord, RawRecord, RecordReader, SchemaRecord, OP_ATTACHMENT, OP_CHUNK,
    OP_DATA_END, OP_FOOTER,
};
use std::borrow::Cow;
use std::collections::BTreeMap;
use std::io::Cursor;

const MAGIC: [u8; 8] = [0x89, b'M', b'C', b'A', b'P', 0x30, b'\r', b'\n'];

type Plain = Vec<(u64, String, Vec<u8>)>;

fn ours(data: &[u8]) -> Plain {
    read_messages(data).into_iter().map(|m| (m.log_time, m.topic, m.payload)).collect()
}

/// What `mcap` itself makes of a file.
fn theirs(data: &[u8]) -> Plain {
    mcap::MessageStream::new(data)
        .expect("stream")
        .filter_map(|m| m.ok())
        .map(|m| (m.log_time, m.channel.topic.clone(), m.data.to_vec()))
        .collect()
}

/// A file with two channels, an attachment and messages of some lengths.
fn build(compression: Option<mcap::Compression>, chunks: bool, lengths: &[usize]) -> Vec<u8> {
    let mut writer = mcap::WriteOptions::new()
        .compression(compression)
        .use_chunks(chunks)
        .chunk_size(Some(200))
        .create(Cursor::new(Vec::new()))
        .expect("writer");
    let schema = writer.add_schema("Example", "jsonschema", b"{}").expect("schema");
    let metadata = BTreeMap::from([("unit".to_string(), "m".to_string()), ("by".to_string(), "x".to_string())]);
    let first = writer.add_channel(schema, "/first", "json", &metadata).expect("channel");
    let second = writer.add_channel(0, "/second", "raw", &BTreeMap::new()).expect("channel");
    writer
        .attach(&mcap::Attachment {
            log_time: 1,
            create_time: 2,
            name: "note".to_string(),
            media_type: "text/plain".to_string(),
            data: Cow::Borrowed(b"hello"),
        })
        .expect("attachment");
    for (i, n) in lengths.iter().enumerate() {
        let header = mcap::records::MessageHeader {
            channel_id: if i % 2 == 0 { first } else { second },
            sequence: i as u32,
            log_time: 100 + i as u64,
            publish_time: 100 + i as u64,
        };
        writer.write_to_known_channel(&header, &vec![i as u8; *n]).expect("message");
    }
    writer.finish().expect("finish");
    writer.into_inner().into_inner()
}

fn record(op: u8, body: &[u8]) -> Vec<u8> {
    let mut out = vec![op];
    out.extend_from_slice(&(body.len() as u64).to_le_bytes());
    out.extend_from_slice(body);
    out
}

fn text(s: &str) -> Vec<u8> {
    let mut out = (s.len() as u32).to_le_bytes().to_vec();
    out.extend_from_slice(s.as_bytes());
    out
}

fn schema(id: u16, name: &str) -> Vec<u8> {
    record(3, &[id.to_le_bytes().to_vec(), text(name), text("jsonschema"), text("{}")].concat())
}

fn channel(id: u16, schema_id: u16, topic: &str) -> Vec<u8> {
    let ids = [id.to_le_bytes(), schema_id.to_le_bytes()].concat();
    record(4, &[ids, text(topic), text("json"), 0u32.to_le_bytes().to_vec()].concat())
}

fn message(channel_id: u16, log_time: u64, payload: &[u8]) -> Vec<u8> {
    let mut body = channel_id.to_le_bytes().to_vec();
    body.extend_from_slice(&7u32.to_le_bytes());
    body.extend_from_slice(&log_time.to_le_bytes());
    body.extend_from_slice(&log_time.to_le_bytes());
    body.extend_from_slice(payload);
    record(5, &body)
}

/// A chunk without compression that says it holds `size` bytes.
fn chunk(records: &[u8], size: u64) -> Vec<u8> {
    let mut body = vec![0u8; 16];
    body.extend_from_slice(&size.to_le_bytes());
    body.extend_from_slice(&0u32.to_le_bytes());
    body.extend_from_slice(&text(""));
    body.extend_from_slice(&size.to_le_bytes());
    body.extend_from_slice(records);
    record(OP_CHUNK, &body)
}

fn file(records: &[Vec<u8>]) -> Vec<u8> {
    [MAGIC.to_vec(), records.concat()].concat()
}

fn data_end() -> Vec<u8> {
    record(OP_DATA_END, &[0; 4])
}

fn ending() -> Vec<u8> {
    [record(OP_FOOTER, &[0; 20]), MAGIC.to_vec()].concat()
}

#[test]
fn files_are_read_as_mcap_reads_them() {
    let lengths = [3, 0, 17, 250, 40, 40, 40, 1];
    for compression in [None, Some(mcap::Compression::Zstd), Some(mcap::Compression::Lz4)] {
        for chunks in [true, false] {
            let data = build(compression, chunks, &lengths);
            let read = ours(&data);
            assert_eq!(read, theirs(&data));
            assert_eq!(read.len(), lengths.len());
            assert_eq!(read[3], (103, "/second".to_string(), vec![3; 250]));
        }
    }
}

#[test]
fn broken_off_files_are_read_up_to_there() {
    let lengths = [3, 0, 17, 120, 40];
    for compression in [None, Some(mcap::Compression::Zstd), Some(mcap::Compression::Lz4)] {
        for chunks in [true, false] {
            let data = build(compression, chunks, &lengths);
            let whole = ours(&data);
            for n in 0..data.len() {
                let part = ours(&data[..n]);
                assert_eq!(part, theirs(&data[..n]));
                assert_eq!(part, whole[..part.len()]);
            }
        }
    }
}

#[test]
fn records_longer_than_the_file_are_read() {
    let data = build(Some(mcap::Compression::Zstd), true, &[1_000_000, 2]);
    assert!(data.len() < 10_000);
    assert_eq!(ours(&data), theirs(&data));
    assert_eq!(ours(&data)[0].2.len(), 1_000_000);
}

#[test]
fn bad_beginnings_hold_nothing() {
    assert_eq!(ours(b""), vec![]);
    assert_eq!(ours(b"no mcap at all, but long enough"), vec![]);
    let mut data = file(&[channel(1, 0, "/t"), message(1, 5, b"x")]);
    assert_eq!(ours(&data), vec![(5, "/t".to_string(), b"x".to_vec())]);
    data[0] = 0;
    assert_eq!(ours(&data), vec![]);
}

#[test]
fn lengths_beyond_all_bounds_end_a_file() {
    let start = file(&[channel(1, 0, "/t"), message(1, 5, b"x")]);
    let endless = [start.clone(), vec![0xff; 9]].concat();
    assert_eq!(ours(&endless).len(), 1);
    // A chunk that says it is endless.
    let mut huge = chunk(&message(1, 6, b"y"), u64::MAX);
    huge[1..9].copy_from_slice(&u64::MAX.to_le_bytes());
    assert_eq!(ours(&[start.clone(), huge].concat()).len(), 1);
    // A message inside a chunk that says it is endless.
    let mut inner = message(1, 6, b"y");
    inner[1..9].copy_from_slice(&u64::MAX.to_le_bytes());
    let n = inner.len() as u64;
    assert_eq!(ours(&[start, chunk(&inner, n)].concat()).len(), 1);
}

#[test]
fn attachments_without_a_checksum_end_a_file() {
    let stump = record(OP_ATTACHMENT, &[0; 32]);
    assert!(!check_lengths(OP_ATTACHMENT, &[0; 32]));
    assert!(check_lengths(OP_ATTACHMENT, &[0; 36]));
    let data = file(&[channel(1, 0, "/t"), message(1, 5, b"x"), stump.clone(), message(1, 6, b"y")]);
    assert_eq!(ours(&data), vec![(5, "/t".to_string(), b"x".to_vec())]);
    let inside = [message(1, 5, b"x"), stump, message(1, 6, b"y")].concat();
    let data = file(&[channel(1, 0, "/t"), chunk(&inside, inside.len() as u64)]);
    assert_eq!(ours(&data), vec![(5, "/t".to_string(), b"x".to_vec())]);
}

#[test]
fn records_stay_within_their_chunk() {
    let inside = [message(1, 5, b"x"), message(1, 6, b"yy")].concat();
    let n = inside.len() as u64;
    let whole = file(&[channel(1, 0, "/t"), chunk(&inside, n), message(1, 7, b"z"), data_end(), ending()]);
    assert_eq!(ours(&whole).len(), 3);
    assert_eq!(ours(&whole), theirs(&whole));
    // The second message is longer than what is left of the chunk.
    let cut = file(&[channel(1, 0, "/t"), chunk(&inside, n - 1), message(1, 7, b"z")]);
    assert_eq!(ours(&cut), vec![(5, "/t".to_string(), b"x".to_vec())]);
}

#[test]
fn contradictions_end_a_file() {
    let good = [channel(1, 0, "/t"), message(1, 5, b"x")];
    let tail = message(1, 6, b"y");
    for (bad, expected) in [
        (channel(1, 0, "/t"), 2),
        (channel(1, 0, "/other"), 1),
        (channel(2, 9, "/u"), 1),
        (schema(0, "Zero"), 1),
        (schema(4, "A"), 2),
        ([schema(4, "A"), schema(4, "A")].concat(), 2),
        ([schema(4, "A"), schema(4, "B")].concat(), 1),
        ([schema(4, "A"), channel(2, 4, "/u")].concat(), 2),
        (message(3, 9, b"nowhere"), 2),
        (record(3, &[1, 0, 9, 0, 0, 0]), 1),
    ] {
        let data = file(&[good[0].clone(), good[1].clone(), bad, tail.clone(), data_end(), ending()]);
        assert_eq!(ours(&data).len(), expected);
        assert_eq!(ours(&data), theirs(&data));
    }
}

#[test]
fn nothing_is_read_behind_the_data() {
    let data = file(&[channel(1, 0, "/t"), message(1, 5, b"x"), data_end(), message(1, 6, b"y"), ending()]);
    assert_eq!(ours(&data).len(), 1);
    assert_eq!(ours(&data), theirs(&data));
    // Inside a chunk the record that ends the data means nothing.
    let inside = [message(1, 5, b"x"), data_end(), message(1, 6, b"y")].concat();
    let data = file(&[channel(1, 0, "/t"), chunk(&inside, inside.len() as u64), data_end(), ending()]);
    assert_eq!(ours(&data).len(), 2);
    assert_eq!(ours(&data), theirs(&data));
    // Nor is anything behind the end of the file.
    let data = file(&[channel(1, 0, "/t"), data_end(), ending(), message(1, 6, b"y")]);
    assert_eq!(read_records(&data[8..]).len(), 3);
}

#[test]
fn records_are_listed_and_linked() {
    let data = [channel(1, 0, "/t"), message(1, 5, b"x")].concat();
    let records = read_records(&data);
    assert_eq!(records.len(), 2);
    assert_eq!((records[0].op, records[1].op), (4, 5));
    assert!(!records[1].in_chunk);
    assert_eq!(link_messages(&records).len(), 1);
    let alone = RawRecord { op: records[1].op, body: records[1].body.clone(), in_chunk: true };
    assert_eq!(link_messages(&vec![alone]).len(), 0);
}

#[test]
fn records_are_parsed() {
    match read_record(4, &channel(3, 0, "/t")[9..]) {
        Some(ParsedRecord::Channel(c)) => {
            assert_eq!((c.id, c.schema_id), (3, 0));
            assert_eq!((c.topic.as_str(), c.message_encoding.as_str()), ("/t", "json"));
            assert!(c.metadata.is_empty());
        }
        other => panic!("not a channel: {:?}", other),
    }
    match read_record(3, &schema(2, "A")[9..]) {
        Some(ParsedRecord::Schema(s)) => {
            assert_eq!((s.id, s.name.as_str(), s.encoding.as_str()), (2, "A", "jsonschema"));
            assert_eq!(s.data, b"{}");
        }
        other => panic!("not a schema: {:?}", other),
    }
    match read_record(5, &message(1, 5, b"xyz")[9..]) {
        Some(ParsedRecord::Message { channel_id, log_time, payload }) => {
            assert_eq!((channel_id, log_time, payload), (1, 5, b"xyz".to_vec()));
        }
        other => panic!("not a message: {:?}", other),
    }
    assert!(matches!(read_record(0x80, b"anything"), Some(ParsedRecord::Other)));
    assert!(read_record(5, b"short").is_none());
    assert!(read_record(1, &[0xff, 0xff, 0xff, 0xff]).is_none());
}

#[test]
fn lengths_are_checked() {
    assert!(check_lengths(1, &[text("a"), text("bc")].concat()));
    assert!(!check_lengths(1, &[text("a"), 5u32.to_le_bytes().to_vec()].concat()));
    let pairs = [text("k"), text("v")].concat();
    let map = [(pairs.len() as u32).to_le_bytes().to_vec(), pairs.clone()].concat();
    assert!(check_lengths(0x0c, &[text("name"), map.clone()].concat()));
    assert!(!check_lengths(0x0c, &[text("name"), map[..map.len() - 1].to_vec()].concat()));
    let mut index = vec![0u8; 32];
    index.extend_from_slice(&20u32.to_le_bytes());
    index.extend_from_slice(&[0; 20 + 8]);
    assert!(!check_lengths(0x08, &index));
    index.extend_from_slice(&text("zstd"));
    assert!(check_lengths(0x08, &index));
    assert!(check_lengths(0x42, b""));
}

#[test]
fn readers_take_what_records_say() {
    let channel = |id: u16, topic: &str| {
        Some(ParsedRecord::Channel(ChannelRecord {
            id,
            schema_id: 0,
            topic: topic.to_string(),
            message_encoding: "json".to_string(),
            metadata: vec![("k".to_string(), "v".to_string())],
        }))
    };
    let message = |channel_id: u16, log_time: u64| {
        Some(ParsedRecord::Message { channel_id, log_time, payload: vec![1] })
    };
    let mut reader = RecordReader::new();
    reader.accept(channel(1, "/t"), false);
    reader.accept(message(1, 5), false);
    reader.accept(message(2, 6), false);
    reader.accept(channel(1, "/t"), false);
    reader.accept(Some(ParsedRecord::Other), false);
    reader.accept(message(1, 7), false);
    assert!(!reader.stopped && !reader.past_end);
    assert_eq!(reader.messages.iter().map(|m| m.log_time).collect::<Vec<u64>>(), vec![5, 7]);
    assert_eq!(reader.messages[1].topic, "/t");
    reader.accept(Some(ParsedRecord::Other), true);
    assert!(reader.past_end);
    reader.accept(message(1, 8), false);
    reader.accept(channel(1, "/other"), false);
    assert!(!reader.stopped);
    reader.accept(None, false);
    assert!(reader.stopped);
    assert_eq!(reader.messages.len(), 2);
    let mut reader = RecordReader::new();
    reader.accept(channel(1, "/t"), false);
    reader.accept(channel(1, "/other"), false);
    assert!(reader.stopped);
    let schema = |id: u16, name: &str| {
        Some(ParsedRecord::Schema(SchemaRecord {
            id,
            name: name.to_string(),
            encoding: "jsonschema".to_string(),
            data: vec![1],
        }))
    };
    for (first, second, stops) in [(4, 4, true), (4, 5, false), (4, 0, true)] {
        let mut reader = RecordReader::new();
        reader.accept(schema(first, "A"), false);
        reader.accept(schema(first, "A"), false);
        assert!(!reader.stopped);
        reader.accept(schema(second, "B"), false);
        assert_eq!(reader.stopped, stops);
    }
}

#[test]
fn records_of_chunks_are_marked() {
    let mut records = vec![RawRecord { op: 4, body: vec![1], in_chunk: false }];
    append_chunk(&mut records, vec![(5, vec![2]), (6, vec![3, 4])]);
    let seen: Vec<(u8, Vec<u8>, bool)> = records.into_iter().map(|r| (r.op, r.body, r.in_chunk)).collect();
    assert_eq!(seen, vec![(4, vec![1], false), (5, vec![2], true), (6, vec![3, 4], true)]);
}
