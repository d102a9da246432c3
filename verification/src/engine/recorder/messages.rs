//! Messages of sensors: MessagePack in, JSON out.

use base64::Engine;
use rmpv::Value;
use rmpv::Value::{Array, Binary, Boolean, Ext, Integer, Nil, F32, F64};
use vstd::arithmetic::power2::{lemma2_to64, lemma_pow2_adds, lemma_pow2_pos,
    lemma_pow2_strictly_increases, lemma_pow2_unfold, pow2};
use vstd::prelude::*;
use crate::json::{field_of, has_key, json_bytes, write_json, JsonNumber, JsonTree, JsonValue};
use crate::seqs::{first_where, lemma_first_is, lemma_first_is_none};
use crate::text::{maybe_text, owned, str_eq};

verus! {

/// A MessagePack value.
#[derive(Debug)]
pub enum MsgValue {
    Nil,
    Boolean(bool),
    /// An integer: as a signed and as an unsigned number where it fits, and as the bits of the
    /// nearest double.
    Integer { signed: Option<i64>, unsigned: Option<u64>, float_bits: Option<u64> },
    /// A number with a fraction, as the bits of a double.
    Float(u64),
    /// A number with a fraction in half as many bits.
    Single(u32),
    /// A text; without one where its bytes are not UTF-8.
    Text(Option<String>),
    Binary(Vec<u8>),
    Array(Vec<MsgValue>),
    /// Entries: how the key is displayed, the key and the value.
    Entries(Vec<(String, MsgValue, MsgValue)>),
    Ext(i8, Vec<u8>),
}

/// What a MessagePack value stands for.
pub ghost enum MsgTree {
    Nil,
    Boolean(bool),
    Integer { signed: Option<i64>, unsigned: Option<u64>, float_bits: Option<u64> },
    Float(u64),
    Single(u32),
    Text(Option<Seq<char>>),
    Binary(Seq<u8>),
    Array(Seq<MsgTree>),
    Entries(Seq<(Seq<char>, MsgTree, MsgTree)>),
    Ext(i8, Seq<u8>),
}

impl MsgValue {
    /// What this value stands for.
    pub open spec fn view(&self) -> MsgTree
        decreases self,
    {
        match self {
            MsgValue::Nil => MsgTree::Nil,
            MsgValue::Boolean(b) => MsgTree::Boolean(*b),
            MsgValue::Integer { signed, unsigned, float_bits } => MsgTree::Integer {
                signed: *signed,
                unsigned: *unsigned,
                float_bits: *float_bits,
            },
            MsgValue::Float(bits) => MsgTree::Float(*bits),
            MsgValue::Single(bits) => MsgTree::Single(*bits),
            MsgValue::Text(Some(t)) => MsgTree::Text(Some(t@)),
            MsgValue::Text(None) => MsgTree::Text(None),
            MsgValue::Binary(b) => MsgTree::Binary(b@),
            MsgValue::Array(items) => MsgTree::Array(
                Seq::new(
                    items@.len(),
                    |i: int| if 0 <= i < items@.len() {
                        items@[i].view()
                    } else {
                        MsgTree::Nil
                    },
                ),
            ),
            MsgValue::Entries(entries) => MsgTree::Entries(
                Seq::new(
                    entries@.len(),
                    |i: int| if 0 <= i < entries@.len() {
                        (entries@[i].0@, entries@[i].1.view(), entries@[i].2.view())
                    } else {
                        (seq![], MsgTree::Nil, MsgTree::Nil)
                    },
                ),
            ),
            MsgValue::Ext(kind, data) => MsgTree::Ext(*kind, data@),
        }
    }
}

/// A value of `rmpv`.
#[verifier::external_type_specification]
#[verifier::external_body]
pub struct ExMsgpackValue(Value);

/// What `rmpv` reads at the start of some bytes: a value, or the text of its error.
pub uninterp spec fn msgpack_read(raw: Seq<u8>) -> Result<MsgTree, Seq<char>>;

/// The character that stands for six bits in Base64.
pub open spec fn base64_char(n: int) -> char {
    if n < 26 {
        (0x41 + n) as char
    } else if n < 52 {
        (0x61 + (n - 26)) as char
    } else if n < 62 {
        (0x30 + (n - 52)) as char
    } else if n == 62 {
        '+'
    } else {
        '/'
    }
}

/// Bytes in Base64: four characters for every three bytes, the last ones filled up with `=`.
pub open spec fn base64_text(bytes: Seq<u8>) -> Seq<char>
    decreases bytes.len(),
{
    let first = bytes[0] as int;
    let second = bytes[1] as int;
    let third = bytes[2] as int;
    if bytes.len() == 0 {
        seq![]
    } else if bytes.len() == 1 {
        seq![base64_char(first / 4), base64_char(first % 4 * 16), '=', '=']
    } else if bytes.len() == 2 {
        seq![
            base64_char(first / 4),
            base64_char(first % 4 * 16 + second / 16),
            base64_char(second % 16 * 4),
            '=',
        ]
    } else {
        seq![
            base64_char(first / 4),
            base64_char(first % 4 * 16 + second / 16),
            base64_char(second % 16 * 4 + third / 64),
            base64_char(third % 64),
        ] + base64_text(bytes.skip(3))
    }
}

/// Base64 takes four characters for every three bytes that were begun.
pub proof fn base64_comes_in_fours(bytes: Seq<u8>)
    ensures
        base64_text(bytes).len() == (bytes.len() + 2) / 3 * 4,
    decreases bytes.len(),
{
    if bytes.len() > 2 {
        base64_comes_in_fours(bytes.skip(3));
    }
}

/// The same contents as a value of `rmpv`. Nothing is stated of the result: only `read_msgpack`
/// hands it on.
#[verifier::external_body]
fn from_rmpv(value: Value) -> MsgValue {
    match value {
        Nil => MsgValue::Nil,
        Boolean(b) => MsgValue::Boolean(b),
        Integer(i) => MsgValue::Integer {
            signed: i.as_i64(), unsigned: i.as_u64(), float_bits: i.as_f64().map(|f| f.to_bits()),
        },
        F32(f) => MsgValue::Single(f.to_bits()),
        F64(f) => MsgValue::Float(f.to_bits()),
        Value::String(s) => MsgValue::Text(s.into_str()),
        Binary(b) => MsgValue::Binary(b),
        Array(a) => MsgValue::Array(a.into_iter().map(from_rmpv).collect()),
        Value::Map(m) => MsgValue::Entries(m.into_iter().map(from_rmpv_entry).collect()),
        Ext(kind, data) => MsgValue::Ext(kind, data),
    }
}

/// How a key of `rmpv` is displayed, and the same contents as the key and its value. Nothing is
/// stated of the result: only `from_rmpv` hands it on.
#[verifier::external_body]
fn from_rmpv_entry(entry: (Value, Value)) -> (String, MsgValue, MsgValue) {
    (entry.0.to_string(), from_rmpv(entry.0), from_rmpv(entry.1))
}

/// `rmpv::decode::read_value` reads one MessagePack value at the start of some bytes. What it reads
/// is a function of the bytes alone and is named by `msgpack_read`.
#[verifier::external_body]
fn read_msgpack(raw: &[u8]) -> (r: Result<MsgValue, String>)
    ensures
        match r {
            Ok(value) => msgpack_read(raw@) == Ok::<MsgTree, Seq<char>>(value@),
            Err(e) => msgpack_read(raw@) == Err::<MsgTree, Seq<char>>(e@),
        },
{
    rmpv::decode::read_value(&mut std::io::Cursor::new(raw)).map(from_rmpv).map_err(|e| e.to_string())
}

/// `base64`'s standard engine encodes bytes: with the standard alphabet and with padding, as
/// `base64_text` says.
#[verifier::external_body]
fn encode_base64(bytes: &Vec<u8>) -> (r: String)
    ensures
        r@ == base64_text(bytes@),
{
    base64::engine::general_purpose::STANDARD.encode(bytes)
}

/// Whether the bits of a double are those of a number: not of an infinity, and not of none.
pub open spec fn is_finite(bits: u64) -> bool {
    bits as int / 0x10_0000_0000_0000 % 2048 != 2047
}

/// A fraction that is not zero, doubled until its highest bit is the one before the fraction of a
/// number in 32 bits, and the exponent less one for each time.
pub open spec fn settled(fraction: int, exponent: int) -> (int, int)
    decreases 0x100_0000 - fraction,
{
    if fraction <= 0 || fraction >= 0x80_0000 {
        (fraction, exponent)
    } else {
        settled(2 * fraction, exponent - 1)
    }
}

/// The double, as its bits, that is the same as a number in 32 bits. What is no number becomes one
/// and the same.
pub open spec fn widened(bits: u32) -> u64 {
    let sign = bits as int / 0x8000_0000 * 0x8000_0000_0000_0000;
    let exponent = bits as int / 0x80_0000 % 256;
    let fraction = bits as int % 0x80_0000;
    if exponent == 255 && fraction != 0 {
        0x7ff8_0000_0000_0000
    } else if exponent == 255 {
        (sign + 0x7ff0_0000_0000_0000) as u64
    } else if exponent > 0 {
        (sign + (exponent + 896) * 0x10_0000_0000_0000 + fraction * 0x2000_0000) as u64
    } else if fraction == 0 {
        sign as u64
    } else {
        let (f, e) = settled(fraction, 897);
        (sign + e * 0x10_0000_0000_0000 + (f - 0x80_0000) * 0x2000_0000) as u64
    }
}

/// Widens a number in 32 bits to a double.
pub fn widen(bits: u32) -> (r: u64)
    ensures
        r == widened(bits),
{
    let b: u64 = bits as u64;
    let sign: u64 = b / 0x8000_0000 * 0x8000_0000_0000_0000;
    let exponent: u64 = b / 0x80_0000 % 256;
    let fraction: u64 = b % 0x80_0000;
    if exponent == 255 {
        return if fraction != 0 {
            0x7ff8_0000_0000_0000
        } else {
            sign + 0x7ff0_0000_0000_0000
        };
    }
    if exponent > 0 {
        return sign + (exponent + 896) * 0x10_0000_0000_0000 + fraction * 0x2000_0000;
    }
    if fraction == 0 {
        return sign;
    }
    let mut f: u64 = fraction;
    let mut e: u64 = 897;
    proof {
        lemma2_to64();
    }
    while f < 0x80_0000
        invariant
            pow2((897 - e) as nat) <= f < 0x100_0000,
            pow2(23) == 0x80_0000,
            874 <= e <= 897,
            settled(f as int, e as int) == settled(fraction as int, 897),
        decreases 0x100_0000 - f,
    {
        proof {
            let i = (897 - e) as nat;
            lemma_pow2_pos(i);
            lemma_pow2_unfold(i + 1);
            if i >= 23 {
                if i > 23 {
                    lemma_pow2_strictly_increases(23, i);
                }
                assert(false);
            }
        }
        f = 2 * f;
        e = e - 1;
    }
    sign + e * 0x10_0000_0000_0000 + (f - 0x80_0000) * 0x2000_0000
}

/// The text that a key becomes: that of a text itself, and what is displayed of any other key.
pub open spec fn key_text(shown: Seq<char>, key: MsgTree) -> Seq<char> {
    match key {
        MsgTree::Text(Some(t)) => t,
        MsgTree::Text(None) => seq![],
        _ => shown,
    }
}

/// The JSON value for a MessagePack value. Bytes become Base64, and what JSON has no number for
/// becomes `null`.
pub open spec fn json_of(tree: MsgTree) -> JsonTree
    decreases tree,
{
    match tree {
        MsgTree::Nil => JsonTree::Null,
        MsgTree::Boolean(b) => JsonTree::Bool(b),
        MsgTree::Integer { signed, unsigned, .. } => match (signed, unsigned) {
            (Some(n), _) => JsonTree::Number(JsonNumber::Signed(n)),
            (None, Some(n)) => JsonTree::Number(JsonNumber::Unsigned(n)),
            (None, None) => JsonTree::Null,
        },
        MsgTree::Float(bits) => if is_finite(bits) {
            JsonTree::Number(JsonNumber::Float(bits))
        } else {
            JsonTree::Null
        },
        MsgTree::Single(bits) => if is_finite(widened(bits)) {
            JsonTree::Number(JsonNumber::Float(widened(bits)))
        } else {
            JsonTree::Null
        },
        MsgTree::Text(Some(t)) => JsonTree::Text(t),
        MsgTree::Text(None) => JsonTree::Text(seq![]),
        MsgTree::Binary(b) => JsonTree::Text(base64_text(b)),
        MsgTree::Array(items) => JsonTree::Array(
            Seq::new(
                items.len(),
                |i: int| if 0 <= i < items.len() {
                    json_of(items[i])
                } else {
                    JsonTree::Null
                },
            ),
        ),
        MsgTree::Entries(entries) => JsonTree::Object(
            Seq::new(
                entries.len(),
                |i: int| if 0 <= i < entries.len() {
                    (key_text(entries[i].0, entries[i].1), json_of(entries[i].2))
                } else {
                    (seq![], JsonTree::Null)
                },
            ),
        ),
        MsgTree::Ext(_, data) => JsonTree::Text(base64_text(data)),
    }
}

fn float_to_json(bits: u64) -> (r: JsonValue)
    ensures
        r@ == (if is_finite(bits) {
            JsonTree::Number(JsonNumber::Float(bits))
        } else {
            JsonTree::Null
        }),
{
    if bits / 0x10_0000_0000_0000 % 2048 != 2047 {
        JsonValue::Number(JsonNumber::Float(bits))
    } else {
        JsonValue::Null
    }
}

/// Converts a MessagePack value to JSON.
pub fn rmpv_to_json(value: &MsgValue) -> (r: JsonValue)
    ensures
        r@ == json_of(value@),
    decreases value,
{
    match value {
        MsgValue::Nil => JsonValue::Null,
        MsgValue::Boolean(b) => JsonValue::Bool(*b),
        MsgValue::Integer { signed, unsigned, .. } => match (signed, unsigned) {
            (Some(n), _) => JsonValue::Number(JsonNumber::Signed(*n)),
            (None, Some(n)) => JsonValue::Number(JsonNumber::Unsigned(*n)),
            (None, None) => JsonValue::Null,
        },
        MsgValue::Float(bits) => float_to_json(*bits),
        MsgValue::Single(bits) => float_to_json(widen(*bits)),
        MsgValue::Text(Some(t)) => JsonValue::Text(t.clone()),
        MsgValue::Text(None) => {
            let empty: String = String::new();
            assert(empty@ =~= seq![]);
            JsonValue::Text(empty)
        },
        MsgValue::Binary(b) => JsonValue::Text(encode_base64(b)),
        MsgValue::Array(items) => {
            let n: usize = items.len();
            let mut out: Vec<JsonValue> = Vec::new();
            let mut i: usize = 0;
            while i < n
                invariant
                    n == items@.len(),
                    i <= n,
                    *value == MsgValue::Array(*items),
                    out@.len() == i,
                    forall|k: int| 0 <= k < i ==> (#[trigger] out@[k])@ == json_of(items@[k]@),
                decreases n - i,
            {
                assert(decreases_to!(*value => value->Array_0));
                assert(decreases_to!(items => items@));
                assert(decreases_to!(items@ => items@[i as int]));
                out.push(rmpv_to_json(&items[i]));
                i = i + 1;
            }
            let r: JsonValue = JsonValue::Array(out);
            assert(r@->Array_0 =~= json_of(value@)->Array_0);
            r
        },
        MsgValue::Entries(entries) => {
            let n: usize = entries.len();
            let mut out: Vec<(String, JsonValue)> = Vec::new();
            let mut i: usize = 0;
            while i < n
                invariant
                    n == entries@.len(),
                    i <= n,
                    *value == MsgValue::Entries(*entries),
                    out@.len() == i,
                    forall|k: int|
                        0 <= k < i ==> (#[trigger] out@[k]).0@ == key_text(entries@[k].0@, entries@[k].1@)
                            && out@[k].1@ == json_of(entries@[k].2@),
                decreases n - i,
            {
                let key: String = match &entries[i].1 {
                    MsgValue::Text(Some(t)) => t.clone(),
                    MsgValue::Text(None) => String::new(),
                    _ => entries[i].0.clone(),
                };
                assert(key@ =~= key_text(entries@[i as int].0@, entries@[i as int].1@));
                assert(decreases_to!(*value => value->Entries_0));
                assert(decreases_to!(entries => entries@));
                assert(decreases_to!(entries@ => entries@[i as int]));
                assert(decreases_to!(entries@[i as int] => entries@[i as int].2));
                out.push((key, rmpv_to_json(&entries[i].2)));
                i = i + 1;
            }
            let r: JsonValue = JsonValue::Object(out);
            assert(r@->Object_0 =~= json_of(value@)->Object_0);
            r
        },
        MsgValue::Ext(_, data) => JsonValue::Text(encode_base64(data)),
    }
}

/// A message of a sensor, ready to be recorded.
#[derive(Debug)]
pub struct SensorMessage {
    pub source_name: String,
    pub msg_type: String,
    pub timestamp_ns: u64,
    pub json_data: Vec<u8>,
}

/// A message of a sensor whose time is still as the sensor gave it.
#[derive(Debug)]
pub struct UntimedMessage {
    pub source_name: String,
    pub msg_type: String,
    /// Seconds since 1970 as the bits of a double; missing where the sensor gave no time.
    pub ts_bits: Option<u64>,
    pub json_data: Vec<u8>,
}

impl UntimedMessage {
    /// The message with its time in nanoseconds since 1970.
    pub fn at(self, timestamp_ns: u64) -> (r: SensorMessage)
        ensures
            r.source_name == self.source_name,
            r.msg_type == self.msg_type,
            r.timestamp_ns == timestamp_ns,
            r.json_data == self.json_data,
    {
        SensorMessage {
            source_name: self.source_name,
            msg_type: self.msg_type,
            timestamp_ns,
            json_data: self.json_data,
        }
    }
}

/// The bits of the double nearest to a number.
pub open spec fn float_bits_of(tree: MsgTree) -> Option<u64> {
    match tree {
        MsgTree::Integer { float_bits, .. } => float_bits,
        MsgTree::Float(bits) => Some(bits),
        MsgTree::Single(bits) => Some(widened(bits)),
        _ => None,
    }
}

/// The predicate of entries that give the type of a message.
pub open spec fn gives_type() -> spec_fn((Seq<char>, MsgTree, MsgTree)) -> bool {
    |e: (Seq<char>, MsgTree, MsgTree)|
        e.1 == MsgTree::Text(Some("type"@)) && e.2 matches MsgTree::Text(Some(_))
}

/// The predicate of entries that give the time of a message.
pub open spec fn gives_time() -> spec_fn((Seq<char>, MsgTree, MsgTree)) -> bool {
    |e: (Seq<char>, MsgTree, MsgTree)|
        e.1 == MsgTree::Text(Some("ts"@)) && float_bits_of(e.2) is Some
}

/// The type of a message: that of the first entry that gives one, or else empty.
pub open spec fn message_type(entries: Seq<(Seq<char>, MsgTree, MsgTree)>) -> Seq<char> {
    match first_where(entries, gives_type()) {
        Some(i) => entries[i].2->Text_0->0,
        None => seq![],
    }
}

/// The time of a message, if an entry gives one.
pub open spec fn message_time(entries: Seq<(Seq<char>, MsgTree, MsgTree)>) -> Option<u64> {
    match first_where(entries, gives_time()) {
        Some(i) => float_bits_of(entries[i].2),
        None => None,
    }
}

fn as_text(value: &MsgValue) -> (r: Option<&String>)
    ensures
        match r {
            Some(t) => value@ == MsgTree::Text(Some(t@)),
            None => !(value@ matches MsgTree::Text(Some(_))),
        },
{
    match value {
        MsgValue::Text(Some(t)) => Some(t),
        _ => None,
    }
}

fn is_text_key(value: &MsgValue, key: &str) -> (r: bool)
    ensures
        r == (value@ == MsgTree::Text(Some(key@))),
{
    match as_text(value) {
        Some(t) => str_eq(t.as_str(), key),
        None => false,
    }
}

fn as_float_bits(value: &MsgValue) -> (r: Option<u64>)
    ensures
        r == float_bits_of(value@),
{
    match value {
        MsgValue::Integer { float_bits, .. } => *float_bits,
        MsgValue::Float(bits) => Some(*bits),
        MsgValue::Single(bits) => Some(widen(*bits)),
        _ => None,
    }
}

fn find_type(value: &MsgValue, entries: &Vec<(String, MsgValue, MsgValue)>) -> (r: String)
    requires
        *value == MsgValue::Entries(*entries),
    ensures
        r@ == message_type(value@->Entries_0),
{
    let ghost seen = value@->Entries_0;
    let n: usize = entries.len();
    let mut i: usize = 0;
    while i < n
        invariant
            n == entries@.len(),
            i <= n,
            seen.len() == n,
            forall|k: int|
                0 <= k < n ==> #[trigger] seen[k] == (entries@[k].0@, entries@[k].1@, entries@[k].2@),
            forall|k: int| 0 <= k < i ==> !gives_type()(#[trigger] seen[k]),
            seen == value@->Entries_0,
        decreases n - i,
    {
        assert(seen[i as int] == (entries@[i as int].0@, entries@[i as int].1@, entries@[i as int].2@));
        if is_text_key(&entries[i].1, "type") {
            if let Some(t) = as_text(&entries[i].2) {
                proof {
                    lemma_first_is(seen, gives_type(), i as int);
                }
                return t.clone();
            }
        }
        i = i + 1;
    }
    proof {
        lemma_first_is_none(seen, gives_type());
    }
    let empty: String = String::new();
    assert(empty@ =~= seq![]);
    empty
}

fn find_time(value: &MsgValue, entries: &Vec<(String, MsgValue, MsgValue)>) -> (r: Option<u64>)
    requires
        *value == MsgValue::Entries(*entries),
    ensures
        r == message_time(value@->Entries_0),
{
    let ghost seen = value@->Entries_0;
    let n: usize = entries.len();
    let mut i: usize = 0;
    while i < n
        invariant
            n == entries@.len(),
            i <= n,
            seen.len() == n,
            forall|k: int|
                0 <= k < n ==> #[trigger] seen[k] == (entries@[k].0@, entries@[k].1@, entries@[k].2@),
            forall|k: int| 0 <= k < i ==> !gives_time()(#[trigger] seen[k]),
            seen == value@->Entries_0,
        decreases n - i,
    {
        assert(seen[i as int] == (entries@[i as int].0@, entries@[i as int].1@, entries@[i as int].2@));
        if is_text_key(&entries[i].1, "ts") {
            let bits: Option<u64> = as_float_bits(&entries[i].2);
            if bits.is_some() {
                proof {
                    lemma_first_is(seen, gives_time(), i as int);
                }
                return bits;
            }
        }
        i = i + 1;
    }
    proof {
        lemma_first_is_none(seen, gives_time());
    }
    None
}

/// Whether `r` is what becomes of a MessagePack value: a message for a map, an error for anything
/// else.
pub open spec fn is_message_of(
    r: Result<UntimedMessage, String>,
    source_name: Seq<char>,
    tree: MsgTree,
) -> bool {
    match tree {
        MsgTree::Entries(entries) => match json_bytes(json_of(tree)) {
            Ok(bytes) => {
                &&& r is Ok
                &&& r->Ok_0.source_name@ == source_name
                &&& r->Ok_0.msg_type@ == message_type(entries)
                &&& r->Ok_0.ts_bits == message_time(entries)
                &&& r->Ok_0.json_data@ == bytes
            },
            Err(e) => r is Err && r->Err_0@ == "json serialize: "@ + e,
        },
        _ => r is Err && r->Err_0@ == "expected msgpack Map at top level"@,
    }
}

/// Makes a message of a MessagePack value.
pub fn message_of(source_name: &str, value: &MsgValue) -> (r: Result<UntimedMessage, String>)
    ensures
        is_message_of(r, source_name@, value@),
{
    match value {
        MsgValue::Entries(entries) => {
            let msg_type: String = find_type(value, entries);
            let ts_bits: Option<u64> = find_time(value, entries);
            match write_json(&rmpv_to_json(value)) {
                Ok(json_data) => Ok(
                    UntimedMessage { source_name: owned(source_name), msg_type, ts_bits, json_data },
                ),
                Err(e) => {
                    let mut text: String = owned("json serialize: ");
                    text.append(e.as_str());
                    Err(text)
                },
            }
        },
        _ => Err(owned("expected msgpack Map at top level")),
    }
}

/// Reads a message of a sensor out of MessagePack bytes: its type and time, and all of it as JSON
/// with Base64 for bytes.
pub fn msgpack_to_sensor_message(source_name: &str, raw: &[u8]) -> (r: Result<
    UntimedMessage,
    String,
>)
    ensures
        match msgpack_read(raw@) {
            Ok(tree) => is_message_of(r, source_name@, tree),
            Err(e) => r is Err && r->Err_0@ == "msgpack decode: "@ + e,
        },
{
    match read_msgpack(raw) {
        Ok(value) => message_of(source_name, &value),
        Err(e) => {
            let mut text: String = owned("msgpack decode: ");
            text.append(e.as_str());
            Err(text)
        },
    }
}

// ── What is kept of a message ───────────────────────────────────────

/// Integers are kept: one that fits into 64 bits, signed or not, becomes a JSON number of the same
/// value.
pub proof fn integers_are_kept(signed: Option<i64>, unsigned: Option<u64>, float_bits: Option<u64>)
    ensures
        signed matches Some(n) ==> json_of(MsgTree::Integer { signed, unsigned, float_bits })
            == JsonTree::Number(JsonNumber::Signed(n)),
        signed is None ==> (unsigned matches Some(n) ==> json_of(
            MsgTree::Integer { signed, unsigned, float_bits },
        ) == JsonTree::Number(JsonNumber::Unsigned(n))),
{
}

/// Different integers become different JSON values.
pub proof fn integers_stay_apart(a: i64, b: i64, c: u64, unsigned: Option<u64>, bits: Option<u64>)
    requires
        a != b,
    ensures
        json_of(MsgTree::Integer { signed: Some(a), unsigned, float_bits: bits }) != json_of(
            MsgTree::Integer { signed: Some(b), unsigned, float_bits: bits },
        ),
        json_of(MsgTree::Integer { signed: None, unsigned: Some(c), float_bits: bits }) != json_of(
            MsgTree::Integer { signed: Some(a), unsigned, float_bits: bits },
        ),
{
}

/// `null` stands for nothing, for integers that fit neither way and for what is no finite number,
/// and for nothing else.
pub proof fn null_stands_for_what_json_has_no_value_for(tree: MsgTree)
    ensures
        json_of(tree) == JsonTree::Null <==> (match tree {
            MsgTree::Nil => true,
            MsgTree::Integer { signed, unsigned, .. } => signed is None && unsigned is None,
            MsgTree::Float(bits) => bits % 0x8000_0000_0000_0000 >= 0x7ff0_0000_0000_0000,
            MsgTree::Single(bits) => bits % 0x8000_0000 >= 0x7f80_0000,
            _ => false,
        }),
{
    finite_numbers_are_below_infinity(0);
    if let MsgTree::Float(bits) = tree {
        finite_numbers_are_below_infinity(bits);
    }
    if let MsgTree::Single(bits) = tree {
        widened_numbers_have_their_value(bits);
    }
}

/// The bits of a finite number, without its sign, are below those of infinity.
pub proof fn finite_numbers_are_below_infinity(bits: u64)
    ensures
        is_finite(bits) <==> bits % 0x8000_0000_0000_0000 < 0x7ff0_0000_0000_0000,
{
}

/// Truth values, texts and finite doubles are kept as they are; a text that is not UTF-8 becomes
/// empty.
pub proof fn plain_values_are_kept(b: bool, t: Seq<char>, bits: u64)
    ensures
        json_of(MsgTree::Boolean(b)) == JsonTree::Bool(b),
        json_of(MsgTree::Text(Some(t))) == JsonTree::Text(t),
        json_of(MsgTree::Text(None)) == JsonTree::Text(seq![]),
        bits % 0x8000_0000_0000_0000 < 0x7ff0_0000_0000_0000 ==> json_of(MsgTree::Float(bits))
            == JsonTree::Number(JsonNumber::Float(bits)),
{
    finite_numbers_are_below_infinity(bits);
}

/// Lists keep their items, in their order.
pub proof fn lists_keep_their_items(items: Seq<MsgTree>, i: int)
    requires
        0 <= i < items.len(),
    ensures
        json_of(MsgTree::Array(items)) matches JsonTree::Array(out) && out.len() == items.len()
            && out[i] == json_of(items[i]),
{
}

/// Maps keep their entries, in their order: a key that is a text stays that text, any other key
/// becomes what is displayed of it.
pub proof fn maps_keep_their_entries(entries: Seq<(Seq<char>, MsgTree, MsgTree)>, i: int)
    requires
        0 <= i < entries.len(),
    ensures
        json_of(MsgTree::Entries(entries)) matches JsonTree::Object(out) && out.len()
            == entries.len() && out[i].1 == json_of(entries[i].2) && (match entries[i].1 {
            MsgTree::Text(Some(t)) => out[i].0 == t,
            MsgTree::Text(None) => out[i].0.len() == 0,
            _ => out[i].0 == entries[i].0,
        }),
{
}

/// A reader of the JSON finds under the text of a key what the first entry with that key held.
pub proof fn fields_are_found_under_their_keys(
    entries: Seq<(Seq<char>, MsgTree, MsgTree)>,
    key: Seq<char>,
    i: int,
)
    requires
        0 <= i < entries.len(),
        entries[i].1 == MsgTree::Text(Some(key)),
        forall|k: int| 0 <= k < entries.len() ==> (#[trigger] entries[k]).1 is Text,
        forall|k: int|
            0 <= k < i ==> (#[trigger] entries[k]).1 != MsgTree::Text(Some(key)) && !(entries[k].1
                == MsgTree::Text(None) && key.len() == 0),
    ensures
        field_of(json_of(MsgTree::Entries(entries)), key) == Some(json_of(entries[i].2)),
{
    let fields = json_of(MsgTree::Entries(entries))->Object_0;
    assert(fields[i].0 == key);
    assert forall|k: int| 0 <= k < i implies !has_key(key)(#[trigger] fields[k]) by {
        assert(entries[k].1 is Text);
        if let MsgTree::Text(None) = entries[k].1 {
            assert(fields[k].0.len() == 0);
        }
    }
    lemma_first_is(fields, has_key(key), i);
}

/// The six bits that a character of Base64 stands for.
pub open spec fn base64_value(c: char) -> int {
    if 'A' <= c <= 'Z' {
        c as int - 'A' as int
    } else if 'a' <= c <= 'z' {
        c as int - 'a' as int + 26
    } else if '0' <= c <= '9' {
        c as int - '0' as int + 52
    } else if c == '+' {
        62
    } else {
        63
    }
}

/// The bytes that a text in Base64 stands for.
pub open spec fn base64_bytes(t: Seq<char>) -> Seq<u8>
    decreases t.len(),
{
    if t.len() < 4 {
        seq![]
    } else {
        let first = (base64_value(t[0]) * 4 + base64_value(t[1]) / 16) as u8;
        let second = (base64_value(t[1]) % 16 * 16 + base64_value(t[2]) / 4) as u8;
        let third = (base64_value(t[2]) % 4 * 64 + base64_value(t[3])) as u8;
        if t[2] == '=' {
            seq![first]
        } else if t[3] == '=' {
            seq![first, second]
        } else {
            seq![first, second, third] + base64_bytes(t.skip(4))
        }
    }
}

proof fn lemma_base64_char(n: int)
    requires
        0 <= n < 64,
    ensures
        base64_value(base64_char(n)) == n,
        base64_char(n) != '=',
{
}

/// Bytes are read back from their Base64.
pub proof fn base64_reads_back(bytes: Seq<u8>)
    ensures
        base64_bytes(base64_text(bytes)) == bytes,
    decreases bytes.len(),
{
    let text = base64_text(bytes);
    if bytes.len() > 0 {
        let first = bytes[0] as int;
        lemma_base64_char(first / 4);
        if bytes.len() == 1 {
            lemma_base64_char(first % 4 * 16);
            assert(base64_bytes(text) =~= bytes);
        } else {
            let second = bytes[1] as int;
            lemma_base64_char(first % 4 * 16 + second / 16);
            if bytes.len() == 2 {
                lemma_base64_char(second % 16 * 4);
                assert(base64_bytes(text) =~= bytes);
            } else {
                let third = bytes[2] as int;
                lemma_base64_char(second % 16 * 4 + third / 64);
                lemma_base64_char(third % 64);
                base64_reads_back(bytes.skip(3));
                assert(text.skip(4) =~= base64_text(bytes.skip(3)));
                assert(base64_bytes(text) =~= bytes);
            }
        }
    }
}

/// Bytes, and the data of extensions, become texts that stand for them.
pub proof fn bytes_become_base64(bytes: Seq<u8>, kind: i8)
    ensures
        json_of(MsgTree::Binary(bytes)) matches JsonTree::Text(t) && base64_bytes(t) == bytes,
        json_of(MsgTree::Ext(kind, bytes)) == json_of(MsgTree::Binary(bytes)),
{
    base64_reads_back(bytes);
}

/// What a finite number in 32 bits is, in units of the smallest one.
pub open spec fn single_value(bits: u32) -> int {
    let exponent = bits as int / 0x80_0000 % 256;
    let fraction = bits as int % 0x80_0000;
    let size = if exponent == 0 {
        fraction
    } else {
        (0x80_0000 + fraction) * pow2((exponent - 1) as nat)
    };
    if bits >= 0x8000_0000 {
        -size
    } else {
        size
    }
}

/// What a finite double is, in units of the smallest one.
pub open spec fn double_value(bits: u64) -> int {
    let exponent = bits as int / 0x10_0000_0000_0000 % 2048;
    let fraction = bits as int % 0x10_0000_0000_0000;
    let size = if exponent == 0 {
        fraction
    } else {
        (0x10_0000_0000_0000 + fraction) * pow2((exponent - 1) as nat)
    };
    if bits >= 0x8000_0000_0000_0000 {
        -size
    } else {
        size
    }
}

proof fn lemma_settled(fraction: int, exponent: int, j: nat)
    requires
        pow2(j) <= fraction < 0x100_0000,
        j <= 23,
        exponent >= 23 - j,
    ensures
        ({
            let (f, e) = settled(fraction, exponent);
            &&& 0x80_0000 <= f < 0x100_0000
            &&& exponent - (23 - j) <= e <= exponent
            &&& f * pow2(e as nat) == fraction * pow2(exponent as nat)
        }),
    decreases 0x100_0000 - fraction,
{
    lemma2_to64();
    lemma_pow2_pos(j);
    if fraction < 0x80_0000 {
        if j == 23 {
            assert(false);
        }
        lemma_pow2_unfold(j + 1);
        lemma_settled(2 * fraction, exponent - 1, j + 1);
        lemma_pow2_unfold(exponent as nat);
        let p = pow2((exponent - 1) as nat) as int;
        assert(2 * fraction * p == fraction * (2 * p)) by (nonlinear_arith);
    }
}

proof fn lemma_fields_of_double(sign: int, exponent: int, fraction: int)
    requires
        sign == 0 || sign == 0x8000_0000_0000_0000,
        0 <= exponent < 2048,
        0 <= fraction < 0x10_0000_0000_0000,
    ensures
        ({
            let bits = (sign + exponent * 0x10_0000_0000_0000 + fraction) as u64;
            &&& bits == sign + exponent * 0x10_0000_0000_0000 + fraction
            &&& bits as int / 0x10_0000_0000_0000 % 2048 == exponent
            &&& bits as int % 0x10_0000_0000_0000 == fraction
            &&& bits >= 0x8000_0000_0000_0000 <==> sign != 0
            &&& bits % 0x8000_0000_0000_0000 == exponent * 0x10_0000_0000_0000 + fraction
        }),
{
}

/// A number in 32 bits is widened to the double of the same value; infinities stay infinite, each
/// with its sign, and what is no number stays none.
pub proof fn widened_numbers_have_their_value(bits: u32)
    ensures
        bits % 0x8000_0000 < 0x7f80_0000 ==> is_finite(widened(bits)) && double_value(widened(bits))
            == single_value(bits) * pow2(925),
        bits % 0x8000_0000 < 0x7f80_0000 ==> (widened(bits) >= 0x8000_0000_0000_0000 <==> bits
            >= 0x8000_0000),
        bits == 0x7f80_0000 ==> widened(bits) == 0x7ff0_0000_0000_0000,
        bits == 0xff80_0000 ==> widened(bits) == 0xfff0_0000_0000_0000,
        bits % 0x8000_0000 > 0x7f80_0000 ==> widened(bits) % 0x8000_0000_0000_0000
            > 0x7ff0_0000_0000_0000,
        bits % 0x8000_0000 >= 0x7f80_0000 ==> !is_finite(widened(bits)),
{
    let sign = bits as int / 0x8000_0000 * 0x8000_0000_0000_0000;
    let exponent = bits as int / 0x80_0000 % 256;
    let fraction = bits as int % 0x80_0000;
    lemma2_to64();
    assert(bits % 0x8000_0000 == exponent * 0x80_0000 + fraction);
    if exponent < 255 {
        if exponent > 0 {
            lemma_fields_of_double(sign, exponent + 896, fraction * 0x2000_0000);
            lemma_pow2_adds(29, (exponent + 895) as nat);
            lemma_pow2_adds((exponent - 1) as nat, 925);
            let m = 0x80_0000 + fraction;
            let p = pow2((exponent + 895) as nat) as int;
            let q = pow2((exponent - 1) as nat) as int;
            let r = pow2(925) as int;
            assert((m * 0x2000_0000) * p == m * (0x2000_0000 * p)) by (nonlinear_arith);
            assert(m * (q * r) == (m * q) * r) by (nonlinear_arith);
            assert((-(m * q)) * r == -((m * q) * r)) by (nonlinear_arith);
        } else if fraction > 0 {
            lemma_settled(fraction, 897, 0);
            let (f, e) = settled(fraction, 897);
            lemma_fields_of_double(sign, e, (f - 0x80_0000) * 0x2000_0000);
            lemma_pow2_adds(28, 897);
            lemma_pow2_unfold(e as nat);
            let p = pow2((e - 1) as nat) as int;
            let q = pow2(897) as int;
            let r = pow2(925) as int;
            assert((f * 0x2000_0000) * p == (f * (2 * p)) * 0x1000_0000) by (nonlinear_arith);
            assert((fraction * q) * 0x1000_0000 == fraction * (0x1000_0000 * q)) by (nonlinear_arith);
            assert((-fraction) * r == -(fraction * r)) by (nonlinear_arith);
        } else {
            lemma_fields_of_double(sign, 0, 0);
            assert(0 * pow2(925) == 0) by (nonlinear_arith);
        }
        finite_numbers_are_below_infinity(widened(bits));
    }
}

/// The type of a message is the text of the first entry under the key `type` that holds a text, and
/// empty without such an entry.
pub proof fn types_stand_under_their_key(entries: Seq<(Seq<char>, MsgTree, MsgTree)>, i: int, t: Seq<char>)
    ensures
        0 <= i < entries.len() && entries[i].1 == MsgTree::Text(Some("type"@)) && entries[i].2
            == MsgTree::Text(Some(t)) && (forall|k: int|
            0 <= k < i ==> !((#[trigger] entries[k]).1 == MsgTree::Text(Some("type"@))
                && entries[k].2 is Text)) ==> message_type(entries) == t,
        (forall|k: int|
            0 <= k < entries.len() ==> (#[trigger] entries[k]).1 != MsgTree::Text(Some("type"@)))
            ==> message_type(entries).len() == 0,
{
    if 0 <= i < entries.len() && entries[i].1 == MsgTree::Text(Some("type"@)) && entries[i].2
        == MsgTree::Text(Some(t)) && (forall|k: int|
        0 <= k < i ==> !((#[trigger] entries[k]).1 == MsgTree::Text(Some("type"@)) && entries[k].2
            is Text)) {
        lemma_first_is(entries, gives_type(), i);
    }
    if forall|k: int|
        0 <= k < entries.len() ==> (#[trigger] entries[k]).1 != MsgTree::Text(Some("type"@)) {
        lemma_first_is_none(entries, gives_type());
    }
}

/// The time of a message is the number of the first entry under the key `ts` that holds one: a
/// double as it is, an integer as the double nearest to it. Without such an entry there is no time.
pub proof fn times_stand_under_their_key(entries: Seq<(Seq<char>, MsgTree, MsgTree)>, i: int, bits: u64)
    ensures
        0 <= i < entries.len() && entries[i].1 == MsgTree::Text(Some("ts"@)) && (entries[i].2
            == MsgTree::Float(bits) || (entries[i].2 matches MsgTree::Integer { float_bits, .. }
            && float_bits == Some(bits))) && (forall|k: int|
            0 <= k < i ==> (#[trigger] entries[k]).1 != MsgTree::Text(Some("ts"@))) ==> message_time(
            entries,
        ) == Some(bits),
        (forall|k: int|
            0 <= k < entries.len() ==> (#[trigger] entries[k]).1 != MsgTree::Text(Some("ts"@)))
            ==> message_time(entries) is None,
{
    if 0 <= i < entries.len() && gives_time()(entries[i]) && (forall|k: int|
        0 <= k < i ==> (#[trigger] entries[k]).1 != MsgTree::Text(Some("ts"@))) {
        lemma_first_is(entries, gives_time(), i);
    }
    if forall|k: int|
        0 <= k < entries.len() ==> (#[trigger] entries[k]).1 != MsgTree::Text(Some("ts"@)) {
        lemma_first_is_none(entries, gives_time());
    }
}

/// A map becomes a message of its source that holds the JSON of all of it; nothing but a map does.
/// Why nothing comes of a value is told.
pub proof fn maps_become_messages(r: Result<UntimedMessage, String>, source_name: Seq<char>, tree: MsgTree)
    requires
        is_message_of(r, source_name, tree),
    ensures
        !(tree is Entries) ==> (r matches Err(e) && e@ == "expected msgpack Map at top level"@),
        tree is Entries && json_bytes(json_of(tree)) is Ok ==> r is Ok,
        tree is Entries ==> (json_bytes(json_of(tree)) matches Err(cause) ==> (r matches Err(e) && e@
            == "json serialize: "@ + cause)),
        r matches Ok(m) ==> m.source_name@ == source_name && json_bytes(json_of(tree)) == Ok::<
            Seq<u8>,
            Seq<char>,
        >(m.json_data@) && m.msg_type@ == message_type(tree->Entries_0) && m.ts_bits
            == message_time(tree->Entries_0),
{
}

/// A value stands for what it holds.
pub proof fn values_stand_for_what_they_hold(value: MsgValue)
    ensures
        match value {
            MsgValue::Nil => value@ == MsgTree::Nil,
            MsgValue::Boolean(b) => value@ == MsgTree::Boolean(b),
            MsgValue::Integer { signed, unsigned, float_bits } => value@ == (MsgTree::Integer {
                signed,
                unsigned,
                float_bits,
            }),
            MsgValue::Float(bits) => value@ == MsgTree::Float(bits),
            MsgValue::Single(bits) => value@ == MsgTree::Single(bits),
            MsgValue::Text(t) => value@ == MsgTree::Text(maybe_text(t)),
            MsgValue::Binary(b) => value@ == MsgTree::Binary(b@),
            MsgValue::Array(items) => value@ matches MsgTree::Array(s) && s.len() == items@.len()
                && forall|i: int| 0 <= i < s.len() ==> #[trigger] s[i] == items@[i]@,
            MsgValue::Entries(entries) => value@ matches MsgTree::Entries(s) && s.len()
                == entries@.len() && forall|i: int|
                0 <= i < s.len() ==> #[trigger] s[i] == (
                    entries@[i].0@,
                    entries@[i].1@,
                    entries@[i].2@,
                ),
            MsgValue::Ext(kind, data) => value@ == MsgTree::Ext(kind, data@),
        },
{
}

/// An integer that fits into sixty-four bits becomes a JSON number of the same value, and becomes
/// `null` only where it fits neither way.
pub proof fn converted_integers_are_kept(value: &MsgValue, r: JsonValue)
    requires
        call_ensures(rmpv_to_json, (value,), r),
    ensures
        value matches MsgValue::Integer { signed: Some(n), .. } ==> r == JsonValue::Number(
            JsonNumber::Signed(*n),
        ),
        value matches MsgValue::Integer { signed: None, unsigned: Some(n), .. } ==> r
            == JsonValue::Number(JsonNumber::Unsigned(*n)),
        value matches MsgValue::Integer { signed: None, unsigned: None, .. } ==> r is Null,
        value is Nil ==> r is Null,
        r is Null ==> value is Nil || value is Integer || value is Float || value is Single,
        value matches MsgValue::Boolean(b) ==> r == JsonValue::Bool(*b),
        value matches MsgValue::Text(Some(t)) ==> (r matches JsonValue::Text(s) && s@ == t@),
{
}

/// A message keeps its contents when it is given its time.
pub proof fn messages_keep_their_contents(m: UntimedMessage, timestamp_ns: u64, r: SensorMessage)
    requires
        call_ensures(UntimedMessage::at, (m, timestamp_ns), r),
    ensures
        r.timestamp_ns == timestamp_ns,
        r.source_name == m.source_name,
        r.msg_type == m.msg_type,
        r.json_data == m.json_data,
{
}

} // verus!
