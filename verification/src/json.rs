//! JSON values.

use bytes::Buf;
use serde_json::Value;
use vstd::prelude::*;
use crate::seqs::{first_where, lemma_first_is, lemma_first_is_none};
use crate::text::str_eq;

verus! {

/// A JSON number. A number with a fraction is kept as the bits of a double.
#[derive(Debug, Clone, Copy, PartialEq, Eq, Structural)]
pub enum JsonNumber {
    Unsigned(u64),
    Signed(i64),
    Float(u64),
}

/// A JSON value.
#[derive(Debug)]
pub enum JsonValue {
    Null,
    Bool(bool),
    Number(JsonNumber),
    Text(String),
    Array(Vec<JsonValue>),
    Object(Vec<(String, JsonValue)>),
}

/// What a JSON value stands for.
pub ghost enum JsonTree {
    Null,
    Bool(bool),
    Number(JsonNumber),
    Text(Seq<char>),
    Array(Seq<JsonTree>),
    Object(Seq<(Seq<char>, JsonTree)>),
}

impl JsonValue {
    /// What this value stands for.
    pub open spec fn view(&self) -> JsonTree
        decreases self,
    {
        match self {
            JsonValue::Null => JsonTree::Null,
            JsonValue::Bool(b) => JsonTree::Bool(*b),
            JsonValue::Number(n) => JsonTree::Number(*n),
            JsonValue::Text(t) => JsonTree::Text(t@),
            JsonValue::Array(items) => JsonTree::Array(
                Seq::new(
                    items@.len(),
                    |i: int| if 0 <= i < items@.len() {
                        items@[i].view()
                    } else {
                        JsonTree::Null
                    },
                ),
            ),
            JsonValue::Object(fields) => JsonTree::Object(
                Seq::new(
                    fields@.len(),
                    |i: int| if 0 <= i < fields@.len() {
                        (fields@[i].0@, fields@[i].1.view())
                    } else {
                        (seq![], JsonTree::Null)
                    },
                ),
            ),
        }
    }
}

/// A value of `serde_json`.
#[verifier::external_type_specification]
#[verifier::external_body]
pub struct ExSerdeValue(Value);

/// What `serde_json` writes for a value: the bytes, or the text of its error.
pub uninterp spec fn json_bytes(tree: JsonTree) -> Result<Seq<u8>, Seq<char>>;

/// What `serde_json` reads out of a text, if the text is JSON.
pub uninterp spec fn json_read(text: Seq<char>) -> Option<JsonTree>;

/// The value of `serde_json` with the same contents. The bits of a double become the double that
/// `bytes` reads out of them. Nothing is stated of the result: only `write_json` hands it on.
#[verifier::external_body]
fn to_serde(value: &JsonValue) -> Value {
    match value {
        JsonValue::Null => Value::Null,
        JsonValue::Bool(b) => (*b).into(),
        JsonValue::Number(JsonNumber::Unsigned(n)) => (*n).into(),
        JsonValue::Number(JsonNumber::Signed(n)) => (*n).into(),
        JsonValue::Number(JsonNumber::Float(bits)) => (&bits.to_be_bytes()[..]).get_f64().into(),
        JsonValue::Text(t) => t.as_str().into(),
        JsonValue::Array(items) => items.iter().map(to_serde).collect(),
        JsonValue::Object(fields) => fields.iter().map(|f| (f.0.clone(), to_serde(&f.1))).collect(),
    }
}

/// The same contents as a value of `serde_json`. Nothing is stated of the result: only `read_json`
/// hands it on.
#[verifier::external_body]
fn from_serde(value: Value) -> JsonValue {
    match value {
        Value::Null => JsonValue::Null,
        Value::Bool(b) => JsonValue::Bool(b),
        Value::Number(n) => JsonValue::Number(match (n.as_u64(), n.as_i64()) {
            (Some(u), _) => JsonNumber::Unsigned(u),
            (None, Some(i)) => JsonNumber::Signed(i),
            (None, None) => JsonNumber::Float(n.as_f64().map(|f| f.to_bits()).unwrap_or_default()),
        }),
        Value::String(t) => JsonValue::Text(t),
        Value::Array(items) => JsonValue::Array(items.into_iter().map(from_serde).collect()),
        Value::Object(fields) => JsonValue::Object(fields.into_iter().map(from_serde_field).collect()),
    }
}

/// The same name and contents as a field of `serde_json`. Nothing is stated of the result: only
/// `from_serde` hands it on.
#[verifier::external_body]
fn from_serde_field(field: (String, Value)) -> (String, JsonValue) {
    (field.0, from_serde(field.1))
}

/// `serde_json::to_vec` writes a value as JSON. What it writes is a function of the value alone and
/// is named by `json_bytes`.
#[verifier::external_body]
pub(crate) fn write_json(value: &JsonValue) -> (r: Result<Vec<u8>, String>)
    ensures
        match r {
            Ok(bytes) => json_bytes(value@) == Ok::<Seq<u8>, Seq<char>>(bytes@),
            Err(e) => json_bytes(value@) == Err::<Seq<u8>, Seq<char>>(e@),
        },
{
    serde_json::to_vec(&to_serde(value)).map_err(|e| e.to_string())
}

/// `serde_json::from_str` reads JSON. What it reads is a function of the text alone and is named by
/// `json_read`.
#[verifier::external_body]
pub(crate) fn read_json(text: &str) -> (r: Option<JsonValue>)
    ensures
        match r {
            Some(value) => json_read(text@) == Some(value@),
            None => json_read(text@) == None::<JsonTree>,
        },
{
    serde_json::from_str(text).ok().map(from_serde)
}

/// The predicate of fields with the given key.
pub open spec fn has_key(key: Seq<char>) -> spec_fn((Seq<char>, JsonTree)) -> bool {
    |f: (Seq<char>, JsonTree)| f.0 == key
}

/// The value of a field of an object.
pub open spec fn field_of(tree: JsonTree, key: Seq<char>) -> Option<JsonTree> {
    match tree {
        JsonTree::Object(fields) => match first_where(fields, has_key(key)) {
            Some(i) => Some(fields[i].1),
            None => None,
        },
        _ => None,
    }
}

impl JsonValue {
    /// The value of a field, if this is an object with such a field.
    pub fn get(&self, key: &str) -> (r: Option<&JsonValue>)
        ensures
            match r {
                Some(v) => field_of(self@, key@) == Some(v@),
                None => field_of(self@, key@) == None::<JsonTree>,
            },
    {
        match self {
            JsonValue::Object(fields) => {
                let ghost seen = self@->Object_0;
                let n: usize = fields.len();
                let mut i: usize = 0;
                while i < n
                    invariant
                        n == fields@.len(),
                        i <= n,
                        seen.len() == n,
                        self@ == JsonTree::Object(seen),
                        forall|k: int| 0 <= k < n ==> #[trigger] seen[k] == (fields@[k].0@, fields@[k].1@),
                        forall|k: int| 0 <= k < i ==> !has_key(key@)(#[trigger] seen[k]),
                    decreases n - i,
                {
                    assert(seen[i as int] == (fields@[i as int].0@, fields@[i as int].1@));
                    if str_eq(fields[i].0.as_str(), key) {
                        proof {
                            lemma_first_is(seen, has_key(key@), i as int);
                        }
                        return Some(&fields[i].1);
                    }
                    i = i + 1;
                }
                proof {
                    lemma_first_is_none(seen, has_key(key@));
                }
                None
            },
            _ => None,
        }
    }
}

/// The value of a field is that of the first field with its key; other values than objects have no
/// fields.
pub proof fn fields_are_found_by_their_key(fields: Seq<(Seq<char>, JsonTree)>, key: Seq<char>, i: int)
    ensures
        0 <= i < fields.len() && fields[i].0 == key && (forall|k: int|
            0 <= k < i ==> (#[trigger] fields[k]).0 != key) ==> field_of(
            JsonTree::Object(fields),
            key,
        ) == Some(fields[i].1),
        (forall|k: int| 0 <= k < fields.len() ==> (#[trigger] fields[k]).0 != key) ==> field_of(
            JsonTree::Object(fields),
            key,
        ) is None,
        field_of(JsonTree::Null, key) is None,
        field_of(JsonTree::Text(key), key) is None,
{
    if 0 <= i < fields.len() && fields[i].0 == key && (forall|k: int|
        0 <= k < i ==> (#[trigger] fields[k]).0 != key) {
        lemma_first_is(fields, has_key(key), i);
    }
    if forall|k: int| 0 <= k < fields.len() ==> (#[trigger] fields[k]).0 != key {
        lemma_first_is_none(fields, has_key(key));
    }
}

/// A value stands for what it holds.
pub proof fn json_values_stand_for_what_they_hold(value: JsonValue)
    ensures
        match value {
            JsonValue::Null => value@ == JsonTree::Null,
            JsonValue::Bool(b) => value@ == JsonTree::Bool(b),
            JsonValue::Number(n) => value@ == JsonTree::Number(n),
            JsonValue::Text(t) => value@ == JsonTree::Text(t@),
            JsonValue::Array(items) => value@ matches JsonTree::Array(s) && s.len() == items@.len()
                && forall|i: int| 0 <= i < s.len() ==> #[trigger] s[i] == items@[i]@,
            JsonValue::Object(fields) => value@ matches JsonTree::Object(s) && s.len()
                == fields@.len() && forall|i: int|
                0 <= i < s.len() ==> #[trigger] s[i] == (fields@[i].0@, fields@[i].1@),
        },
{
}

} // verus!
