//! A JSON tree of the library's own, read from bytes through `serde_json`,
//! and typed reads of its fields.
use crate::fixed::{decimal_value, parse_decimal, VOLUME_PLACES};
use vstd::prelude::*;

verus! {

#[verifier::external_type_specification]
#[verifier::external_body]
pub struct ExValue(serde_json::Value);

/// A JSON value. A number keeps its decimal text, and its integer value
/// where it is an integer that fits `i64`.
#[derive(Debug)]
pub enum Json {
    Null,
    Bool(bool),
    Number { integer: Option<i64>, text: String },
    Str(String),
    Array(Vec<Json>),
    Object(Vec<(String, Json)>),
}

/// The JSON value that `bytes` hold, as `serde_json` reads them; `None`
/// where they hold no JSON document.
pub uninterp spec fn json_of(bytes: Seq<u8>) -> Option<Json>;

/// Relies on `serde_json::Value`'s variants: turns a value into a `Json`
/// one variant for one, a number into its `as_i64` and its `Display` text.
#[verifier::external_body]
fn json_from_value(v: serde_json::Value) -> (r: Json) {
    match v {
        serde_json::Value::Null => Json::Null,
        serde_json::Value::Bool(b) => Json::Bool(b),
        serde_json::Value::Number(n) => Json::Number { integer: n.as_i64(), text: n.to_string() },
        serde_json::Value::String(s) => Json::Str(s),
        serde_json::Value::Array(a) => Json::Array(a.into_iter().map(json_from_value).collect()),
        serde_json::Value::Object(m) => Json::Object(
            m.into_iter().map(|(k, x)| (k, json_from_value(x))).collect(),
        ),
    }
}

/// Relies on `serde_json::from_slice`: reads one JSON document from bytes;
/// the result depends on the bytes alone.
#[verifier::external_body]
fn json_from_bytes(bytes: &[u8]) -> (r: Option<Json>)
    ensures
        r == json_of(bytes@),
{
    match serde_json::from_slice::<serde_json::Value>(bytes) {
        Ok(v) => Some(json_from_value(v)),
        Err(_) => None,
    }
}

/// Reads a JSON document; `None` where the bytes are not one.
pub fn parse_json(bytes: &[u8]) -> (r: Option<Json>)
    ensures
        r == json_of(bytes@),
{
    json_from_bytes(bytes)
}

/// The first member of `members` under `key`.
pub open spec fn lookup(members: Seq<(String, Json)>, key: Seq<char>) -> Option<Json>
    decreases members.len(),
{
    if members.len() == 0 {
        None
    } else if members[0].0@ == key {
        Some(members[0].1)
    } else {
        lookup(members.drop_first(), key)
    }
}

/// The member of object `j` under `key`; `None` where `j` is no object or
/// has no such member.
pub open spec fn get(j: Json, key: Seq<char>) -> Option<Json> {
    match j {
        Json::Object(members) => lookup(members@, key),
        _ => None,
    }
}

pub open spec fn str_of(j: Json) -> Option<Seq<char>> {
    match j {
        Json::Str(s) => Some(s@),
        _ => None,
    }
}

pub open spec fn bool_of(j: Json) -> Option<bool> {
    match j {
        Json::Bool(b) => Some(b),
        _ => None,
    }
}

/// An integer field: a number that is an integer and fits `i64`.
pub open spec fn int_of(j: Json) -> Option<i64> {
    match j {
        Json::Number { integer, .. } => integer,
        _ => None,
    }
}

/// A volume field: any number, in volume units.
pub open spec fn volume_of(j: Json) -> Option<i64> {
    match j {
        Json::Number { text, .. } => match decimal_value(text@, VOLUME_PLACES as nat) {
            Some(v) => Some(v as i64),
            None => None,
        },
        _ => None,
    }
}

/// A list of volumes.
pub open spec fn volumes_of(j: Json) -> Option<Seq<i64>> {
    match j {
        Json::Array(items) => if forall|i: int| 0 <= i < items@.len() ==> #[trigger] volume_of(items@[i]) is Some {
            Some(Seq::new(items@.len(), |i: int| volume_of(items@[i])->0))
        } else {
            None
        },
        _ => None,
    }
}

pub open spec fn get_str(j: Json, key: Seq<char>) -> Option<Seq<char>> {
    match get(j, key) {
        Some(x) => str_of(x),
        None => None,
    }
}

pub open spec fn get_bool(j: Json, key: Seq<char>) -> Option<bool> {
    match get(j, key) {
        Some(x) => bool_of(x),
        None => None,
    }
}

pub open spec fn get_int(j: Json, key: Seq<char>) -> Option<i64> {
    match get(j, key) {
        Some(x) => int_of(x),
        None => None,
    }
}

pub open spec fn get_volume(j: Json, key: Seq<char>) -> Option<i64> {
    match get(j, key) {
        Some(x) => volume_of(x),
        None => None,
    }
}

pub open spec fn get_volumes(j: Json, key: Seq<char>) -> Option<Seq<i64>> {
    match get(j, key) {
        Some(x) => volumes_of(x),
        None => None,
    }
}

/// Whether two texts are equal.
pub fn text_eq(a: &str, b: &str) -> (r: bool)
    ensures
        r == (a@ == b@),
{
    let n = a.unicode_len();
    if n != b.unicode_len() {
        return false;
    }
    let mut i: usize = 0;
    while i < n
        invariant
            n == a@.len() == b@.len(),
            i <= n,
            forall|k: int| 0 <= k < i ==> a@[k] == b@[k],
        decreases n - i,
    {
        if a.get_char(i) != b.get_char(i) {
            return false;
        }
        i = i + 1;
    }
    assert(a@ =~= b@);
    true
}

/// The member of `j` under `key`.
pub fn get_exec<'a>(j: &'a Json, key: &str) -> (r: Option<&'a Json>)
    ensures
        r matches Some(x) ==> get(*j, key@) == Some(*x),
        r is None ==> get(*j, key@) is None,
{
    match j {
        Json::Object(members) => {
            let mut i: usize = 0;
            assert(members@.subrange(0, members@.len() as int) =~= members@);
            while i < members.len()
                invariant
                    i <= members@.len(),
                    get(*j, key@) == lookup(members@, key@),
                    lookup(members@, key@) == lookup(members@.subrange(i as int, members@.len() as int), key@),
                decreases members.len() - i,
            {
                let ghost rest = members@.subrange(i as int, members@.len() as int);
                assert(rest[0] == members@[i as int]);
                if text_eq(members[i].0.as_str(), key) {
                    return Some(&members[i].1);
                }
                assert(rest.drop_first() =~= members@.subrange(i + 1, members@.len() as int));
                i = i + 1;
            }
            None
        },
        _ => None,
    }
}

pub fn get_str_exec(j: &Json, key: &str) -> (r: Option<String>)
    ensures
        r matches Some(s) ==> get_str(*j, key@) == Some(s@),
        r is None ==> get_str(*j, key@) is None,
{
    match get_exec(j, key) {
        Some(Json::Str(s)) => Some(s.clone()),
        _ => None,
    }
}

pub fn get_bool_exec(j: &Json, key: &str) -> (r: Option<bool>)
    ensures
        r == get_bool(*j, key@),
{
    match get_exec(j, key) {
        Some(Json::Bool(b)) => Some(*b),
        _ => None,
    }
}

pub fn get_int_exec(j: &Json, key: &str) -> (r: Option<i64>)
    ensures
        r == get_int(*j, key@),
{
    match get_exec(j, key) {
        Some(Json::Number { integer, .. }) => *integer,
        _ => None,
    }
}

pub fn volume_exec(j: &Json) -> (r: Option<i64>)
    ensures
        r == volume_of(*j),
{
    match j {
        Json::Number { text, .. } => parse_decimal(text.as_str(), VOLUME_PLACES),
        _ => None,
    }
}

pub fn get_volume_exec(j: &Json, key: &str) -> (r: Option<i64>)
    ensures
        r == get_volume(*j, key@),
{
    match get_exec(j, key) {
        Some(x) => volume_exec(x),
        None => None,
    }
}

pub fn get_volumes_exec(j: &Json, key: &str) -> (r: Option<Vec<i64>>)
    ensures
        r matches Some(v) ==> get_volumes(*j, key@) == Some(v@),
        r is None ==> get_volumes(*j, key@) is None,
{
    match get_exec(j, key) {
        Some(Json::Array(items)) => {
            let mut out: Vec<i64> = Vec::new();
            let mut i: usize = 0;
            while i < items.len()
                invariant
                    i <= items@.len(),
                    out@.len() == i,
                    get(*j, key@) == Some(Json::Array(*items)),
                    forall|k: int| 0 <= k < i ==> volume_of(items@[k]) == Some(out@[k]),
                decreases items.len() - i,
            {
                match volume_exec(&items[i]) {
                    Some(v) => out.push(v),
                    None => {
                        assert(volume_of(items@[i as int]) is None);
                        return None;
                    },
                }
                i = i + 1;
            }
            assert(out@ =~= Seq::new(items@.len(), |k: int| volume_of(items@[k])->0));
            Some(out)
        },
        _ => None,
    }
}

} // verus!
