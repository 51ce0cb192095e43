//! A self-contained model of parsed JSON documents.
//!
//! The service hands every response to this crate as a parsed JSON value;
//! [`JsonValue`] is that value. An object keeps its fields as an ordered
//! list of key/value pairs with distinct keys (a JSON object cannot repeat
//! a key); readers take the first occurrence of a key, so a malformed
//! duplicate cannot change what a decoder sees.
//!
//! Field access follows one two-tier rule everywhere: a structurally
//! required key must be present (absence is a [`Error::Decode`] failure),
//! while the value under it may be lenient (null or a wrong-shaped value
//! coerces to a default) or strict (a wrong-shaped value is a failure),
//! depending on the field. The `take_*` helpers below implement exactly
//! these policies, so every entity decoder states its field rules with one
//! call per field.

use vstd::prelude::*;
use crate::error::Error;

verus! {

/// A parsed JSON value.
#[derive(Debug)]
pub enum JsonValue {
    /// JSON `null`.
    Null,
    /// A JSON boolean.
    Bool(bool),
    /// A JSON number representable as an unsigned 64-bit integer.
    UInt(u64),
    /// A JSON number representable only as a signed 64-bit integer.
    Int(i64),
    /// Any other JSON number, kept as its textual form.
    Num(String),
    /// A JSON string.
    Str(String),
    /// A JSON array.
    Array(Vec<JsonValue>),
    /// A JSON object: key/value pairs in document order, keys distinct.
    Object(Vec<(String, JsonValue)>),
}

/// The fields of a JSON object.
pub type JsonFields = Vec<(String, JsonValue)>;

/// The value under the first occurrence of `key`, if any.
pub open spec fn lookup(fields: Seq<(String, JsonValue)>, key: Seq<char>) -> Option<JsonValue>
    decreases fields.len(),
{
    if fields.len() == 0 {
        None
    } else if fields[0].0@ == key {
        Some(fields[0].1)
    } else {
        lookup(fields.skip(1), key)
    }
}

/// `fields` with the first occurrence of `key` taken out.
pub open spec fn remove_key(fields: Seq<(String, JsonValue)>, key: Seq<char>) -> Seq<
    (String, JsonValue),
>
    decreases fields.len(),
{
    if fields.len() == 0 {
        fields
    } else if fields[0].0@ == key {
        fields.skip(1)
    } else {
        seq![fields[0]] + remove_key(fields.skip(1), key)
    }
}

proof fn lemma_lookup_at(fields: Seq<(String, JsonValue)>, key: Seq<char>, i: int)
    requires
        0 <= i < fields.len(),
        forall|j: int| 0 <= j < i ==> fields[j].0@ != key,
        fields[i].0@ == key,
    ensures
        lookup(fields, key) == Some(fields[i].1),
    decreases i,
{
    if i > 0 {
        lemma_lookup_at(fields.skip(1), key, i - 1);
    }
}

proof fn lemma_lookup_none(fields: Seq<(String, JsonValue)>, key: Seq<char>)
    requires
        forall|j: int| 0 <= j < fields.len() ==> fields[j].0@ != key,
    ensures
        lookup(fields, key) is None,
    decreases fields.len(),
{
    if fields.len() > 0 {
        lemma_lookup_none(fields.skip(1), key);
    }
}

proof fn lemma_remove_at(fields: Seq<(String, JsonValue)>, key: Seq<char>, i: int)
    requires
        0 <= i < fields.len(),
        forall|j: int| 0 <= j < i ==> fields[j].0@ != key,
        fields[i].0@ == key,
    ensures
        remove_key(fields, key) =~= fields.subrange(0, i) + fields.skip(i + 1),
    decreases i,
{
    if i > 0 {
        lemma_remove_at(fields.skip(1), key, i - 1);
        assert(fields.skip(1).subrange(0, i - 1) =~= fields.subrange(1, i));
        assert(fields.skip(1).skip(i) =~= fields.skip(i + 1));
    }
}

/// The position of the first occurrence of `key`, if any.
fn field_index(fields: &JsonFields, key: &str) -> (r: Option<usize>)
    ensures
        match r {
            Some(i) => {
                &&& i < fields@.len()
                &&& fields@[i as int].0@ == key@
                &&& forall|j: int| 0 <= j < i ==> fields@[j].0@ != key@
                &&& lookup(fields@, key@) == Some(fields@[i as int].1)
            },
            None => lookup(fields@, key@) is None,
        },
{
    let key_string = String::from_str(key);
    let mut i: usize = 0;
    while i < fields.len()
        invariant
            i <= fields@.len(),
            key_string@ == key@,
            forall|j: int| 0 <= j < i ==> fields@[j].0@ != key@,
        decreases fields@.len() - i,
    {
        if fields[i].0 == key_string {
            proof {
                lemma_lookup_at(fields@, key@, i as int);
            }
            return Some(i);
        }
        i += 1;
    }
    proof {
        lemma_lookup_none(fields@, key@);
    }
    None
}

/// True when `e` is the decode error that reports key `key` as absent.
pub open spec fn absent_key_error(e: Error, key: Seq<char>) -> bool {
    &&& e matches Error::Decode(d, v)
    &&& d@ == "Unexpected absent key"@
    &&& v matches JsonValue::Str(s) && s@ == key
}

/// Takes the first occurrence of `key` out of `map`, or returns `None` and
/// leaves `map` unchanged.
pub(crate) fn take_entry(map: &mut JsonFields, key: &str) -> (r: Option<JsonValue>)
    ensures
        match r {
            Some(v) => {
                &&& lookup(old(map)@, key@) == Some(v)
                &&& final(map)@ == remove_key(old(map)@, key@)
            },
            None => {
                &&& lookup(old(map)@, key@) is None
                &&& final(map)@ == old(map)@
            },
        },
{
    match field_index(map, key) {
        Some(i) => {
            let ghost pre = map@;
            let (_, v) = map.remove(i);
            proof {
                lemma_remove_at(pre, key@, i as int);
                assert(map@ =~= remove_key(pre, key@));
            }
            Some(v)
        },
        None => None,
    }
}

/// The boolean under a lenient boolean field: any non-boolean value reads
/// as `false`.
pub open spec fn as_bool_or_false(v: JsonValue) -> bool {
    match v {
        JsonValue::Bool(b) => b,
        _ => false,
    }
}

/// The number under a field when it is an unsigned integer.
pub open spec fn as_u64_option(v: JsonValue) -> Option<u64> {
    match v {
        JsonValue::UInt(n) => Some(n),
        _ => None,
    }
}

/// The number under a field when it fits a signed 64-bit integer.
pub open spec fn as_i64_option(v: JsonValue) -> Option<i64> {
    match v {
        JsonValue::UInt(n) => if n <= i64::MAX {
            Some(n as i64)
        } else {
            None
        },
        JsonValue::Int(i) => Some(i),
        _ => None,
    }
}

/// The value under `key` reads as a signed 64-bit integer.
pub open spec fn has_i64(o: Option<JsonValue>) -> bool {
    o matches Some(v) && as_i64_option(v) is Some
}

/// The number under a lenient integer field: any non-integer value reads
/// as zero.
pub open spec fn u64_or_zero(v: JsonValue) -> u64 {
    match v {
        JsonValue::UInt(n) => n,
        _ => 0u64,
    }
}

/// The characters of a string field; any non-string value reads as the
/// empty string.
pub open spec fn str_or_empty(v: JsonValue) -> Seq<char> {
    match v {
        JsonValue::Str(s) => s@,
        _ => Seq::empty(),
    }
}

/// How an optional string field reads: a string value must be kept
/// verbatim (even when empty), any other value reads as `None`.
pub open spec fn opt_str_matches(v: JsonValue, o: Option<String>) -> bool {
    match v {
        JsonValue::Str(s0) => o matches Some(s) && s@ == s0@,
        _ => o is None,
    }
}

/// True when `e` is the decode error a strict unsigned-integer field
/// reports for `key` in `fields`: the key is absent, or its value has
/// another shape and rides along in the error.
pub open spec fn strict_u64_error(fields: Seq<(String, JsonValue)>, key: Seq<char>, e: Error) -> bool {
    match lookup(fields, key) {
        None => absent_key_error(e, key),
        Some(v) => {
            &&& !(v matches JsonValue::UInt(_))
            &&& e matches Error::Decode(d, offending)
            &&& d@ == "Expected an unsigned integer"@
            &&& offending == v
        },
    }
}

/// Required key, lenient boolean value.
pub fn take_bool(fields: &JsonFields, key: &str) -> (r: Result<bool, Error>)
    ensures
        match r {
            Ok(b) => lookup(fields@, key@) matches Some(v) && b == as_bool_or_false(v),
            Err(e) => lookup(fields@, key@) is None && absent_key_error(e, key@),
        },
{
    match field_index(fields, key) {
        Some(i) => match &fields[i].1 {
            JsonValue::Bool(b) => Ok(*b),
            _ => Ok(false),
        },
        None => Err(absent_key(key)),
    }
}

/// Required key, lenient unsigned-integer value: any non-integer reads as
/// zero.
pub fn take_u64_or_zero(fields: &JsonFields, key: &str) -> (r: Result<u64, Error>)
    ensures
        match r {
            Ok(n) => lookup(fields@, key@) matches Some(v) && n == u64_or_zero(v),
            Err(e) => lookup(fields@, key@) is None && absent_key_error(e, key@),
        },
{
    match field_index(fields, key) {
        Some(i) => match &fields[i].1 {
            JsonValue::UInt(n) => Ok(*n),
            _ => Ok(0),
        },
        None => Err(absent_key(key)),
    }
}

/// Required key, optional unsigned-integer value: any non-integer reads as
/// `None`.
pub fn take_opt_u64(fields: &JsonFields, key: &str) -> (r: Result<Option<u64>, Error>)
    ensures
        match r {
            Ok(o) => lookup(fields@, key@) matches Some(v) && o == as_u64_option(v),
            Err(e) => lookup(fields@, key@) is None && absent_key_error(e, key@),
        },
{
    match field_index(fields, key) {
        Some(i) => match &fields[i].1 {
            JsonValue::UInt(n) => Ok(Some(*n)),
            _ => Ok(None),
        },
        None => Err(absent_key(key)),
    }
}

/// Required key, lenient string value: any non-string reads as the empty
/// string.
pub fn take_string_or_empty(fields: &JsonFields, key: &str) -> (r: Result<String, Error>)
    ensures
        match r {
            Ok(s) => lookup(fields@, key@) matches Some(v) && s@ == str_or_empty(v),
            Err(e) => lookup(fields@, key@) is None && absent_key_error(e, key@),
        },
{
    match field_index(fields, key) {
        Some(i) => match &fields[i].1 {
            JsonValue::Str(s) => Ok(s.clone()),
            _ => Ok(String::new()),
        },
        None => Err(absent_key(key)),
    }
}

/// Required key, optional string value: any non-string reads as `None`.
pub fn take_opt_string(fields: &JsonFields, key: &str) -> (r: Result<Option<String>, Error>)
    ensures
        match r {
            Ok(o) => lookup(fields@, key@) matches Some(v) && opt_str_matches(v, o),
            Err(e) => lookup(fields@, key@) is None && absent_key_error(e, key@),
        },
{
    match field_index(fields, key) {
        Some(i) => match &fields[i].1 {
            JsonValue::Str(s) => Ok(Some(s.clone())),
            _ => Ok(None),
        },
        None => Err(absent_key(key)),
    }
}

/// Required key, strict unsigned-integer value: any other value is a
/// decode error that carries it, moved out of the field set.
pub fn take_u64_strict(fields: &mut JsonFields, key: &str) -> (r: Result<u64, Error>)
    ensures
        match r {
            Ok(n) => lookup(old(fields)@, key@) == Some(JsonValue::UInt(n)) && final(fields)@ == old(fields)@,
            Err(e) => {
                &&& strict_u64_error(old(fields)@, key@, e)
                &&& final(fields)@ == (if lookup(old(fields)@, key@) is Some {
                    remove_key(old(fields)@, key@)
                } else {
                    old(fields)@
                })
            },
        },
{
    match field_index(fields, key) {
        Some(i) => match &fields[i].1 {
            JsonValue::UInt(n) => Ok(*n),
            _ => {
                let ghost pre = fields@;
                let (_, v) = fields.remove(i);
                proof {
                    lemma_remove_at(pre, key@, i as int);
                    assert(fields@ =~= remove_key(pre, key@));
                }
                Err(Error::Decode("Expected an unsigned integer", v))
            },
        },
        None => Err(absent_key(key)),
    }
}

/// True when `e` is the decode error a strict signed-integer field
/// reports for `key` in `fields`: the key is absent, or its value does
/// not fit a signed 64-bit integer and rides along in the error.
pub open spec fn strict_i64_error(fields: Seq<(String, JsonValue)>, key: Seq<char>, e: Error) -> bool {
    match lookup(fields, key) {
        None => absent_key_error(e, key),
        Some(v) => {
            &&& as_i64_option(v) is None
            &&& e matches Error::Decode(d, offending)
            &&& d@ == "Expected an integer"@
            &&& offending == v
        },
    }
}

/// Required key, strict signed-integer value: any value that does not
/// fit a signed 64-bit integer is a decode error that carries it, moved
/// out of the field set.
pub fn take_i64_strict(fields: &mut JsonFields, key: &str) -> (r: Result<i64, Error>)
    ensures
        match r {
            Ok(n) => {
                &&& lookup(old(fields)@, key@) matches Some(v)
                &&& as_i64_option(v) == Some(n)
                &&& final(fields)@ == old(fields)@
            },
            Err(e) => {
                &&& strict_i64_error(old(fields)@, key@, e)
                &&& final(fields)@ == (if lookup(old(fields)@, key@) is Some {
                    remove_key(old(fields)@, key@)
                } else {
                    old(fields)@
                })
            },
        },
{
    match field_index(fields, key) {
        Some(i) => {
            match &fields[i].1 {
                JsonValue::UInt(n) => {
                    if *n <= 9_223_372_036_854_775_807u64 {
                        return Ok(*n as i64);
                    }
                },
                JsonValue::Int(n) => {
                    return Ok(*n);
                },
                _ => {},
            }
            let ghost pre = fields@;
            let (_, v) = fields.remove(i);
            proof {
                lemma_remove_at(pre, key@, i as int);
                assert(fields@ =~= remove_key(pre, key@));
            }
            Err(Error::Decode("Expected an integer", v))
        },
        None => Err(absent_key(key)),
    }
}

/// A borrow of the value under the first occurrence of `key`, if any.
pub(crate) fn field_ref<'a>(fields: &'a JsonFields, key: &str) -> (r: Option<&'a JsonValue>)
    ensures
        match r {
            Some(v) => lookup(fields@, key@) == Some(*v),
            None => lookup(fields@, key@) is None,
        },
{
    match field_index(fields, key) {
        Some(i) => Some(&fields[i].1),
        None => None,
    }
}

/// The concatenation of a key prefix and a field name, as the flattened
/// sub-records (players, point configurations) address their fields.
pub(crate) fn prefixed(prefix: &str, suffix: &str) -> (r: String)
    ensures
        r@ == prefix@ + suffix@,
{
    let mut out = String::from_str(prefix);
    out.append(suffix);
    out
}

/// The messages of the service's structured validation-error shape: an
/// object whose `errors` key holds an array of strings. Any other shape
/// carries no validation messages.
pub open spec fn validation_messages(v: JsonValue) -> Option<Seq<Seq<char>>> {
    match v {
        JsonValue::Object(fields) => match lookup(fields@, "errors"@) {
            Some(e) => match e {
                JsonValue::Array(items) => if forall|i: int|
                    0 <= i < items@.len() ==> (#[trigger] items@[i]) matches JsonValue::Str(_) {
                    Some(items@.map_values(|x: JsonValue| str_or_empty(x)))
                } else {
                    None
                },
                _ => None,
            },
            None => None,
        },
        _ => None,
    }
}

/// Extracts the field-error strings of a validation-error body, where the
/// body has that shape.
pub fn validation_errors(v: &JsonValue) -> (r: Option<Vec<String>>)
    ensures
        match r {
            Some(list) => {
                &&& validation_messages(*v) matches Some(msgs)
                &&& list@.len() == msgs.len()
                &&& forall|i: int| 0 <= i < msgs.len() ==> list@[i]@ == msgs[i]
            },
            None => validation_messages(*v) is None,
        },
{
    let fields = match v {
        JsonValue::Object(fields) => fields,
        _ => {
            return None;
        },
    };
    let items = match field_ref(fields, "errors") {
        Some(JsonValue::Array(items)) => items,
        _ => {
            return None;
        },
    };
    let mut out: Vec<String> = Vec::new();
    let mut i: usize = 0;
    while i < items.len()
        invariant
            v matches JsonValue::Object(obj) && lookup(obj@, "errors"@) == Some(
                JsonValue::Array(*items),
            ),
            i <= items@.len(),
            out@.len() == i,
            forall|j: int| 0 <= j < i ==> (#[trigger] items@[j]) matches JsonValue::Str(_),
            forall|j: int| 0 <= j < i ==> out@[j]@ == str_or_empty(items@[j]),
        decreases items@.len() - i,
    {
        match &items[i] {
            JsonValue::Str(s) => {
                out.push(s.clone());
            },
            _ => {
                return None;
            },
        }
        i += 1;
    }
    Some(out)
}

fn absent_key(key: &str) -> (e: Error)
    ensures
        absent_key_error(e, key@),
{
    Error::Decode("Unexpected absent key", JsonValue::Str(String::from_str(key)))
}

} // verus!
