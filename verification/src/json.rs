//! JSON values as plain data, read through serde_json, and their members.
use vstd::prelude::*;
use crate::text::{chars_of, str_is};

verus! {

/// A JSON number: its text as serde_json prints it, and its value where it
/// is an unsigned integer that fits in a `u64`.
pub struct JsonNumber {
    pub text: String,
    pub unsigned: Option<u64>,
}

/// A JSON value. The members of an object are held in the order serde_json
/// keeps them, each name once.
pub enum Json {
    Null,
    Bool(bool),
    Number(JsonNumber),
    Str(String),
    Array(Vec<Json>),
    Object(Vec<(String, Json)>),
}

/// `serde_json::Value`, read only inside the conversion below.
#[verifier::external_type_specification]
#[verifier::external_body]
pub struct ExJsonValue(serde_json::Value);

/// What `serde_json::from_slice` reads from `bytes`: the JSON value, as a
/// [`Json`], or the `Display` text of its error where the bytes are not
/// JSON.
pub uninterp spec fn json_of(bytes: Seq<u8>) -> Result<Json, Seq<char>>;

/// Trusted: converts a `serde_json::Value` into a [`Json`] variant for
/// variant: numbers keep their `Display` text and `Number::as_u64`, arrays
/// and objects are converted member for member in the order the value holds
/// them. Nothing is claimed of the result; [`parse_json`] names it.
#[verifier::external_body]
fn json_from_value(v: serde_json::Value) -> Json {
    match v {
        serde_json::Value::Null => Json::Null,
        serde_json::Value::Bool(b) => Json::Bool(b),
        serde_json::Value::Number(n) => Json::Number(
            JsonNumber { text: n.to_string(), unsigned: n.as_u64() },
        ),
        serde_json::Value::String(s) => Json::Str(s),
        serde_json::Value::Array(a) => Json::Array(a.into_iter().map(json_from_value).collect()),
        serde_json::Value::Object(m) => Json::Object(
            m.into_iter().map(|(k, x)| (k, json_from_value(x))).collect(),
        ),
    }
}

/// Trusted: calls `serde_json::from_slice` to read `bytes` as a
/// `serde_json::Value`, converted as [`json_from_value`] converts it, or
/// renders its error with the error's `Display` impl. The contract names the
/// outcome `json_of(bytes@)`, a function of the bytes alone.
#[verifier::external_body]
pub(crate) fn parse_json(bytes: &[u8]) -> (r: Result<Json, String>)
    ensures
        match r {
            Ok(v) => json_of(bytes@) == Ok::<Json, Seq<char>>(v),
            Err(e) => json_of(bytes@) == Err::<Json, Seq<char>>(e@),
        },
{
    match serde_json::from_slice::<serde_json::Value>(bytes) {
        Ok(v) => Ok(json_from_value(v)),
        Err(e) => Err(e.to_string()),
    }
}

/// The value of the first member named `key` among `entries`.
pub open spec fn entry_value(entries: Seq<(String, Json)>, key: Seq<char>) -> Option<Json>
    decreases entries.len(),
{
    if entries.len() == 0 {
        None
    } else if entries[0].0@ == key {
        Some(entries[0].1)
    } else {
        entry_value(entries.drop_first(), key)
    }
}

/// The member `key` of `j`, where `j` is an object that has one
/// (`Value::get` with a name).
pub open spec fn member(j: Json, key: Seq<char>) -> Option<Json> {
    match j {
        Json::Object(entries) => entry_value(entries@, key),
        _ => None,
    }
}

/// The text of a value that is a string (`Value::as_str`).
pub open spec fn text_of(j: Option<Json>) -> Option<Seq<char>> {
    match j {
        Some(Json::Str(s)) => Some(s@),
        _ => None,
    }
}

/// The value of a number that is an unsigned integer (`Value::as_u64`).
pub open spec fn unsigned_of(j: Option<Json>) -> Option<u64> {
    match j {
        Some(Json::Number(n)) => n.unsigned,
        _ => None,
    }
}

proof fn lemma_entry_value(entries: Seq<(String, Json)>, key: Seq<char>, i: int)
    requires
        0 <= i <= entries.len(),
        forall|k: int| 0 <= k < i ==> entries[k].0@ != key,
        i < entries.len() ==> entries[i].0@ == key,
    ensures
        entry_value(entries, key) == if i < entries.len() {
            Some(entries[i].1)
        } else {
            None
        },
    decreases i,
{
    if i > 0 {
        let rest = entries.drop_first();
        assert forall|k: int| 0 <= k < i - 1 implies rest[k].0@ != key by {
            assert(rest[k] == entries[k + 1]);
        }
        if i < entries.len() {
            assert(rest[i - 1] == entries[i]);
        }
        lemma_entry_value(rest, key, i - 1);
    }
}

/// The position of the first member named `key` among `entries`.
pub fn find_entry(entries: &Vec<(String, Json)>, key: &str) -> (r: Option<usize>)
    ensures
        match r {
            Some(i) => i < entries@.len() && entry_value(entries@, key@) == Some(
                entries@[i as int].1,
            ),
            None => entry_value(entries@, key@) is None,
        },
{
    let mut i: usize = 0;
    while i < entries.len()
        invariant
            i <= entries@.len(),
            forall|k: int| 0 <= k < i ==> entries@[k].0@ != key@,
        decreases entries@.len() - i,
    {
        let name = chars_of(entries[i].0.as_str());
        if str_is(&name, key) {
            proof {
                lemma_entry_value(entries@, key@, i as int);
            }
            return Some(i);
        }
        i = i + 1;
    }
    proof {
        lemma_entry_value(entries@, key@, i as int);
    }
    None
}

/// The member `key` of `j`.
pub fn member_exec<'a>(j: &'a Json, key: &str) -> (r: Option<&'a Json>)
    ensures
        match member(*j, key@) {
            Some(m) => r matches Some(x) && *x == m,
            None => r is None,
        },
{
    match j {
        Json::Object(entries) => match find_entry(entries, key) {
            Some(i) => Some(&entries[i].1),
            None => None,
        },
        _ => None,
    }
}

/// The text of the member `key` of `j`, where it is a string.
pub fn text_member(j: &Json, key: &str) -> (r: Option<String>)
    ensures
        match text_of(member(*j, key@)) {
            Some(t) => r matches Some(s) && s@ == t,
            None => r is None,
        },
{
    match member_exec(j, key) {
        Some(Json::Str(s)) => Some(s.clone()),
        _ => None,
    }
}

/// The value of the member `key` of `j`, where it is an unsigned integer.
pub fn unsigned_member(j: &Json, key: &str) -> (r: Option<u64>)
    ensures
        r == unsigned_of(member(*j, key@)),
{
    match member_exec(j, key) {
        Some(Json::Number(n)) => n.unsigned,
        _ => None,
    }
}

/// The member `key` of `j`, taken out of it.
pub fn take_member(j: Json, key: &str) -> (r: Option<Json>)
    ensures
        r == member(j, key@),
{
    match j {
        Json::Object(mut entries) => match find_entry(&entries, key) {
            Some(i) => {
                let (_, v) = entries.remove(i);
                Some(v)
            },
            None => None,
        },
        _ => None,
    }
}

} // verus!
