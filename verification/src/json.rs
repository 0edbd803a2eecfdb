//! JSON values as plain data, decoded by serde_json, with field lookups.
use vstd::prelude::*;
use serde_json::Value;

verus! {

/// serde_json's dynamically typed JSON value, carried only from the decoder to
/// `JsonValue::from_serde`.
#[verifier::external_type_specification]
#[verifier::external_body]
pub struct ExSerdeValue(serde_json::Value);

/// A JSON number, as serde_json holds it: a non-negative integer, a negative integer, or a
/// float, kept as serde_json's decimal text of it.
#[derive(Debug, Clone, PartialEq, Eq)]
pub enum JsonNumber {
    PosInt(u64),
    NegInt(i64),
    Float(String),
}

/// A JSON value. Object members keep the order in which serde_json's map yields them
/// (sorted by key), and keys occur once.
#[derive(Debug, PartialEq, Eq)]
pub enum JsonValue {
    Null,
    Bool(bool),
    Number(JsonNumber),
    Str(String),
    Array(Vec<JsonValue>),
    Object(Vec<(String, JsonValue)>),
}

/// What serde_json decodes from a text into its `Value`, as a `JsonValue`; `None` when the
/// text is not one JSON value (surrounded by optional whitespace).
pub uninterp spec fn json_decode(text: Seq<char>) -> Option<JsonValue>;

/// The contents of a serde_json `Value`, as a `JsonValue`.
pub uninterp spec fn json_tree(v: serde_json::Value) -> JsonValue;

/// serde_json's `from_str::<Value>`: the value that the text holds, if it is valid JSON.
#[verifier::external_body]
fn serde_decode(text: &str) -> (r: Option<serde_json::Value>)
    ensures
        r is Some <==> json_decode(text@) is Some,
        r matches Some(v) ==> json_decode(text@) == Some(json_tree(v)),
{
    serde_json::from_str::<serde_json::Value>(text).ok()
}

impl JsonValue {
    /// Converts serde_json's `Value` into this type, variant by variant.
    #[verifier::external_body]
    fn from_serde(v: serde_json::Value) -> (r: JsonValue)
        ensures
            r == json_tree(v),
    {
        match v {
            Value::Null => JsonValue::Null,
            Value::Bool(b) => JsonValue::Bool(b),
            Value::Number(n) => JsonValue::Number(match (n.as_u64(), n.as_i64()) {
                (Some(u), _) => JsonNumber::PosInt(u),
                (None, Some(i)) => JsonNumber::NegInt(i),
                _ => JsonNumber::Float(n.to_string()),
            }),
            Value::String(s) => JsonValue::Str(s),
            Value::Array(a) => JsonValue::Array(a.into_iter().map(Self::from_serde).collect()),
            Value::Object(m) => JsonValue::Object(m.into_iter().map(|(k, x)| (k, Self::from_serde(x))).collect()),
        }
    }

    /// The member named `key` of an object: the first one with that name. `None` for a
    /// value that is not an object or has no such member.
    pub open spec fn spec_get(self, key: Seq<char>) -> Option<JsonValue> {
        match self {
            JsonValue::Object(fields) => member(fields@, key),
            _ => None,
        }
    }

    /// What indexing by a name gives (serde_json's `value[key]`): the member, or `Null`.
    pub open spec fn spec_index(self, key: Seq<char>) -> JsonValue {
        match self.spec_get(key) {
            Some(v) => v,
            None => JsonValue::Null,
        }
    }

    /// The text of a string value.
    pub open spec fn spec_as_str(self) -> Option<Seq<char>> {
        match self {
            JsonValue::Str(s) => Some(s@),
            _ => None,
        }
    }

    /// The value of a non-negative integer.
    pub open spec fn spec_as_u64(self) -> Option<u64> {
        match self {
            JsonValue::Number(JsonNumber::PosInt(u)) => Some(u),
            _ => None,
        }
    }

    /// The value of a boolean.
    pub open spec fn spec_as_bool(self) -> Option<bool> {
        match self {
            JsonValue::Bool(b) => Some(b),
            _ => None,
        }
    }

    /// The text of the string member `key` (as `value[key].as_str()`).
    pub open spec fn spec_str_field(self, key: Seq<char>) -> Option<Seq<char>> {
        self.spec_index(key).spec_as_str()
    }

    /// Looks up the member `key` of an object (as serde_json's `Value::get`).
    pub fn get(&self, key: &str) -> (r: Option<&JsonValue>)
        ensures
            r is Some <==> self.spec_get(key@) is Some,
            r matches Some(x) ==> self.spec_get(key@) == Some(*x),
    {
        match self {
            JsonValue::Object(fields) => {
                let i = member_index(fields, key);
                match i {
                    Some(i) => Some(&fields[i].1),
                    None => None,
                }
            },
            _ => None,
        }
    }

    /// The text of a string value (as serde_json's `Value::as_str`).
    pub fn as_str(&self) -> (r: Option<&String>)
        ensures
            r is Some <==> self.spec_as_str() is Some,
            r matches Some(s) ==> self.spec_as_str() == Some(s@),
    {
        match self {
            JsonValue::Str(s) => Some(s),
            _ => None,
        }
    }

    /// The value of a non-negative integer (as serde_json's `Value::as_u64`).
    pub fn as_u64(&self) -> (r: Option<u64>)
        ensures
            r == self.spec_as_u64(),
    {
        match self {
            JsonValue::Number(JsonNumber::PosInt(u)) => Some(*u),
            _ => None,
        }
    }

    /// The text of the string member `key`, copied (as `value[key].as_str()`).
    pub fn str_field(&self, key: &str) -> (r: Option<String>)
        ensures
            r is Some <==> self.spec_str_field(key@) is Some,
            r matches Some(s) ==> self.spec_str_field(key@) == Some(s@),
    {
        match self.get(key) {
            Some(v) => match v.as_str() {
                Some(s) => Some(s.clone()),
                None => None,
            },
            None => None,
        }
    }

    /// The non-negative integer member `key` (as `value[key].as_u64()`).
    pub fn u64_field(&self, key: &str) -> (r: Option<u64>)
        ensures
            r == self.spec_index(key@).spec_as_u64(),
    {
        match self.get(key) {
            Some(v) => v.as_u64(),
            None => None,
        }
    }

    /// The boolean member `key` (as `value[key].as_bool()`).
    pub fn bool_field(&self, key: &str) -> (r: Option<bool>)
        ensures
            r == self.spec_index(key@).spec_as_bool(),
    {
        match self.get(key) {
            Some(JsonValue::Bool(b)) => Some(*b),
            _ => None,
        }
    }

    /// Removes the member `key` from an object and returns it; a value that is not an
    /// object, or has no such member, is left as it was.
    pub fn take_member(&mut self, key: &str) -> (r: Option<JsonValue>)
        ensures
            r == old(self).spec_get(key@),
            r is None ==> *final(self) == *old(self),
            match *old(self) {
                JsonValue::Object(fs) => match member_position(fs@, key@) {
                    Some(i) => *final(self) matches JsonValue::Object(gs) && gs@ == fs@.remove(i),
                    None => true,
                },
                _ => true,
            },
    {
        match self {
            JsonValue::Object(fields) => {
                let i = member_index(fields, key);
                match i {
                    Some(i) => {
                        let (_, v) = fields.remove(i);
                        Some(v)
                    },
                    None => None,
                }
            },
            _ => None,
        }
    }
}

/// The index of the first member named `key`.
pub open spec fn member_position(fields: Seq<(String, JsonValue)>, key: Seq<char>) -> Option<int> {
    if exists|i: int| 0 <= i < fields.len() && fields[i].0@ == key {
        Some(
            choose|i: int|
                0 <= i < fields.len() && fields[i].0@ == key && forall|j: int|
                    0 <= j < i ==> fields[j].0@ != key,
        )
    } else {
        None
    }
}

/// The value of the first member named `key`.
pub open spec fn member(fields: Seq<(String, JsonValue)>, key: Seq<char>) -> Option<JsonValue> {
    match member_position(fields, key) {
        Some(i) => Some(fields[i].1),
        None => None,
    }
}

fn member_index(fields: &Vec<(String, JsonValue)>, key: &str) -> (r: Option<usize>)
    ensures
        r matches Some(i) ==> i < fields@.len() && member_position(fields@, key@) == Some(i as int),
        r is None ==> member_position(fields@, key@) is None,
{
    let k = crate::text::owned(key);
    let n = fields.len();
    let mut i: usize = 0;
    while i < n
        invariant
            n == fields@.len(),
            i <= n,
            k@ == key@,
            forall|j: int| 0 <= j < i ==> fields@[j].0@ != key@,
        decreases n - i,
    {
        if fields[i].0 == k {
            proof {
                let c = choose|m: int|
                    0 <= m < fields@.len() && fields@[m].0@ == key@ && forall|j: int|
                        0 <= j < m ==> fields@[j].0@ != key@;
                assert(0 <= i < fields@.len() && fields@[i as int].0@ == key@);
                if c < i {
                } else if c > i {
                    assert(fields@[i as int].0@ != key@);
                }
            }
            return Some(i);
        }
        i = i + 1;
    }
    None
}

/// Decodes a JSON text (serde_json's `from_str::<Value>`).
pub fn parse_json(text: &str) -> (r: Option<JsonValue>)
    ensures
        r == json_decode(text@),
{
    match serde_decode(text) {
        Some(v) => Some(JsonValue::from_serde(v)),
        None => None,
    }
}

} // verus!
