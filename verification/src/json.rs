use crate::number::{WholeNumber, WholeView};
use crate::text::str_eq;
use vstd::prelude::*;

verus! {

/// A JSON number, held as what the status line reads of it: its exact value
/// when it is an integer that fits in an `i64`, and its value rounded up to a
/// whole number, of any size (percentages are shown rounded up).
#[derive(Debug)]
pub struct JsonNumber {
    pub exact: Option<i64>,
    pub rounded_up: WholeNumber,
}

/// One `"key": value` member of a JSON object.
#[derive(Debug)]
pub struct JsonMember {
    pub key: String,
    pub value: JsonValue,
}

/// A JSON document. An object holds each key once, as a parsed document does;
/// lookups take the first member with the key.
#[derive(Debug)]
pub enum JsonValue {
    Null,
    Bool(bool),
    Number(JsonNumber),
    Str(String),
    Array(Vec<JsonValue>),
    Object(Vec<JsonMember>),
}

/// The value of the first member named `key`.
pub open spec fn member_value(members: Seq<JsonMember>, key: Seq<char>) -> Option<JsonValue>
    decreases members.len(),
{
    if members.len() == 0 {
        None
    } else if members[0].key@ == key {
        Some(members[0].value)
    } else {
        member_value(members.drop_first(), key)
    }
}

/// `Value::get` with a key: the member's value when `v` is an object that has
/// the key.
pub open spec fn spec_get(v: JsonValue, key: Seq<char>) -> Option<JsonValue> {
    match v {
        JsonValue::Object(members) => member_value(members@, key),
        _ => None,
    }
}

/// The value reached from `v` by following the keys of `path` in turn.
pub open spec fn value_at(v: JsonValue, path: Seq<Seq<char>>) -> Option<JsonValue>
    decreases path.len(),
{
    if path.len() == 0 {
        Some(v)
    } else {
        match spec_get(v, path[0]) {
            Some(child) => value_at(child, path.drop_first()),
            None => None,
        }
    }
}

/// The texts of a path of keys.
pub open spec fn keys(path: Seq<&str>) -> Seq<Seq<char>> {
    path.map_values(|k: &str| k@)
}

/// The string at `path`, if there is one.
pub open spec fn spec_string_at(v: JsonValue, path: Seq<Seq<char>>) -> Option<Seq<char>> {
    match value_at(v, path) {
        Some(JsonValue::Str(s)) => Some(s@),
        _ => None,
    }
}

/// The whole percentage (rounded up) of the number at `path`, if there is one.
pub open spec fn spec_percentage_at(v: JsonValue, path: Seq<Seq<char>>) -> Option<WholeView> {
    match value_at(v, path) {
        Some(JsonValue::Number(n)) => Some(n.rounded_up@),
        _ => None,
    }
}

/// The integer (Unix epoch seconds) at `path`, if there is one.
pub open spec fn spec_epoch_at(v: JsonValue, path: Seq<Seq<char>>) -> Option<i64> {
    match value_at(v, path) {
        Some(JsonValue::Number(n)) => n.exact,
        _ => None,
    }
}

/// The elements of the array at `path`, if there is one.
pub open spec fn spec_array_at(v: JsonValue, path: Seq<Seq<char>>) -> Option<Seq<JsonValue>> {
    match value_at(v, path) {
        Some(JsonValue::Array(items)) => Some(items@),
        _ => None,
    }
}

impl JsonValue {
    /// The value of member `key` when this is an object that has one.
    pub fn get(&self, key: &str) -> (r: Option<&JsonValue>)
        ensures
            r matches Some(c) ==> spec_get(*self, key@) == Some(*c),
            r is None ==> spec_get(*self, key@) is None,
    {
        match self {
            JsonValue::Object(members) => {
                let n = members.len();
                let mut i: usize = 0;
                assert(members@.skip(0) =~= members@);
                while i < n
                    invariant
                        n == members@.len(),
                        *self == JsonValue::Object(*members),
                        i <= n,
                        member_value(members@, key@) == member_value(members@.skip(i as int), key@),
                    decreases n - i,
                {
                    assert(members@.skip(i as int)[0] == members@[i as int]);
                    if str_eq(members[i].key.as_str(), key) {
                        assert(member_value(members@.skip(i as int), key@) == Some(members@[i as int].value));
                        return Some(&members[i].value);
                    }
                    assert(members@.skip(i as int).drop_first() =~= members@.skip(i + 1));
                    i = i + 1;
                }
                None
            },
            _ => None,
        }
    }
}

/// The value at `path`.
pub fn value_at_path<'a>(json: &'a JsonValue, path: &[&str]) -> (r: Option<&'a JsonValue>)
    ensures
        r matches Some(c) ==> value_at(*json, keys(path@)) == Some(*c),
        r is None ==> value_at(*json, keys(path@)) is None,
{
    let ghost ks = keys(path@);
    let mut cur = json;
    let n = path.len();
    let mut i: usize = 0;
    assert(ks.skip(0) =~= ks);
    while i < n
        invariant
            n == path@.len(),
            ks == keys(path@),
            i <= n,
            value_at(*json, ks) == value_at(*cur, ks.skip(i as int)),
        decreases n - i,
    {
        assert(ks.skip(i as int)[0] == path@[i as int]@);
        assert(ks.skip(i as int).drop_first() =~= ks.skip(i + 1));
        match cur.get(path[i]) {
            Some(child) => {
                cur = child;
            },
            None => {
                return None;
            },
        }
        i = i + 1;
    }
    assert(ks.skip(n as int).len() == 0);
    Some(cur)
}

/// The string at `path`.
pub fn string_at<'a>(json: &'a JsonValue, path: &[&str]) -> (r: Option<&'a str>)
    ensures
        r matches Some(s) ==> spec_string_at(*json, keys(path@)) == Some(s@),
        r is None ==> spec_string_at(*json, keys(path@)) is None,
{
    match value_at_path(json, path) {
        Some(JsonValue::Str(s)) => Some(s.as_str()),
        _ => None,
    }
}

/// The whole percentage (rounded up) of the number at `path`.
pub fn percentage_at<'a>(json: &'a JsonValue, path: &[&str]) -> (r: Option<&'a WholeNumber>)
    ensures
        match r {
            Some(w) => spec_percentage_at(*json, keys(path@)) == Some(w@),
            None => spec_percentage_at(*json, keys(path@)) is None,
        },
{
    match value_at_path(json, path) {
        Some(JsonValue::Number(n)) => Some(&n.rounded_up),
        _ => None,
    }
}

/// Reads an integer Unix-epoch value at `path`. `five_hour`/`seven_day`
/// `resets_at` are reported as integer seconds; `null`, missing, or non-integer
/// values yield `None`.
pub fn epoch_at(json: &JsonValue, path: &[&str]) -> (r: Option<i64>)
    ensures
        r == spec_epoch_at(*json, keys(path@)),
{
    match value_at_path(json, path) {
        Some(JsonValue::Number(n)) => n.exact,
        _ => None,
    }
}

/// The array at `path`.
pub fn array_at<'a>(json: &'a JsonValue, path: &[&str]) -> (r: Option<&'a Vec<JsonValue>>)
    ensures
        r matches Some(items) ==> spec_array_at(*json, keys(path@)) == Some(items@),
        r is None ==> spec_array_at(*json, keys(path@)) is None,
{
    match value_at_path(json, path) {
        Some(JsonValue::Array(items)) => Some(items),
        _ => None,
    }
}

} // verus!
