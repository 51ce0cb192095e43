//! Object unwrapping helpers shared by every entity decoder.

use vstd::prelude::*;
use crate::error::Error;
use crate::json::{lookup, remove_key, absent_key_error, JsonFields, JsonValue};

verus! {

/// Asserts that `value` is a JSON object and returns its fields; any other
/// value fails with a decode error that carries the value itself.
pub fn into_map(value: JsonValue) -> (r: Result<JsonFields, Error>)
    ensures
        match r {
            Ok(fields) => value matches JsonValue::Object(f) && fields == f,
            Err(e) => {
                &&& !(value matches JsonValue::Object(_))
                &&& e matches Error::Decode(d, v)
                &&& d@ == "Expected object"@
                &&& v == value
            },
        },
{
    match value {
        JsonValue::Object(fields) => Ok(fields),
        other => Err(Error::Decode("Expected object", other)),
    }
}

/// Takes the first occurrence of `key` out of `map` and returns its value;
/// an absent key is a decode error and leaves `map` unchanged.
pub fn remove(map: &mut JsonFields, key: &str) -> (r: Result<JsonValue, Error>)
    ensures
        match r {
            Ok(v) => {
                &&& lookup(old(map)@, key@) == Some(v)
                &&& final(map)@ == remove_key(old(map)@, key@)
            },
            Err(e) => {
                &&& lookup(old(map)@, key@) is None
                &&& absent_key_error(e, key@)
                &&& final(map)@ == old(map)@
            },
        },
{
    match crate::json::take_entry(map, key) {
        Some(v) => Ok(v),
        None => Err(Error::Decode("Unexpected absent key", JsonValue::Str(String::from_str(key)))),
    }
}

/// The field set a wrapped entity payload carries: the payload must be an
/// object holding an object under the wrapper key.
pub open spec fn unwrapped_fields(v: JsonValue, key: Seq<char>) -> Option<
    Seq<(String, JsonValue)>,
> {
    match v {
        JsonValue::Object(top) => match lookup(top@, key) {
            Some(inner) => match inner {
                JsonValue::Object(fields) => Some(fields@),
                _ => None,
            },
            _ => None,
        },
        _ => None,
    }
}

/// True when `e` is the decode error unwrapping `v` under `key` reports:
/// the payload is not an object (and rides along), the wrapper key is
/// absent, or the wrapped value is not an object (and rides along).
pub open spec fn unwrap_error(v: JsonValue, key: Seq<char>, e: Error) -> bool {
    match v {
        JsonValue::Object(top) => match lookup(top@, key) {
            Some(inner) => {
                &&& !(inner matches JsonValue::Object(_))
                &&& e matches Error::Decode(d, offending)
                &&& d@ == "Expected object"@
                &&& offending == inner
            },
            None => absent_key_error(e, key),
        },
        _ => {
            &&& e matches Error::Decode(d, offending)
            &&& d@ == "Expected object"@
            &&& offending == v
        },
    }
}

/// Unwraps the single-key wrapper object every entity payload arrives
/// under (for example `{"tournament": {...}}`) and returns the entity's
/// own field set.
pub fn unwrap_entity(value: JsonValue, key: &str) -> (r: Result<JsonFields, Error>)
    ensures
        match r {
            Ok(fields) => unwrapped_fields(value, key@) == Some(fields@),
            Err(e) => unwrapped_fields(value, key@) is None && unwrap_error(value, key@, e),
        },
{
    let mut top = into_map(value)?;
    let inner = remove(&mut top, key)?;
    into_map(inner)
}

/// Decodes every element of a JSON array with `f`, in order, propagating
/// the first failure (every earlier element decoded); a non-array payload
/// fails with a decode error that carries it.
pub fn decode_array<T, F: Fn(JsonValue) -> Result<T, Error>>(value: JsonValue, f: F) -> (r: Result<
    Vec<T>,
    Error,
>)
    requires
        forall|v: JsonValue| f.requires((v,)),
    ensures
        match r {
            Ok(out) => {
                &&& value matches JsonValue::Array(arr)
                &&& out@.len() == arr@.len()
                &&& forall|i: int|
                    0 <= i < arr@.len() ==> f.ensures((arr@[i],), Ok::<T, Error>(out@[i]))
            },
            Err(e) => {
                ||| {
                    &&& !(value matches JsonValue::Array(_))
                    &&& e matches Error::Decode(d, offending)
                    &&& d@ == "Error decoding object"@
                    &&& offending == value
                }
                ||| (value matches JsonValue::Array(arr) && exists|i: int|
                    {
                        &&& 0 <= i < arr@.len()
                        &&& #[trigger] f.ensures((arr@[i],), Err::<T, Error>(e))
                        &&& exists|prefix: Seq<T>|
                            {
                                &&& #[trigger] prefix.len() == i
                                &&& forall|j: int|
                                    0 <= j < i ==> #[trigger] f.ensures(
                                        (arr@[j],),
                                        Ok::<T, Error>(prefix[j]),
                                    )
                            }
                    })
            },
        },
{
    match value {
        JsonValue::Array(mut arr) => {
            let ghost arr0 = arr@;
            let mut out: Vec<T> = Vec::new();
            while arr.len() > 0
                invariant
                    forall|v: JsonValue| f.requires((v,)),
                    value matches JsonValue::Array(whole) && whole@ == arr0,
                    out@.len() + arr@.len() == arr0.len(),
                    arr@ =~= arr0.skip(out@.len() as int),
                    forall|i: int|
                        0 <= i < out@.len() ==> f.ensures((arr0[i],), Ok::<T, Error>(out@[i])),
                decreases arr@.len(),
            {
                let v = arr.remove(0);
                proof {
                    assert(v == arr0[out@.len() as int]);
                    assert(arr@ =~= arr0.skip(out@.len() as int + 1));
                }
                match f(v) {
                    Ok(t) => {
                        out.push(t);
                    },
                    Err(e) => {
                        proof {
                            let k = out@.len() as int;
                            assert(value->Array_0@ == arr0);
                            assert(f.ensures((value->Array_0@[k],), Err::<T, Error>(e)));
                            assert(out@.len() == k);
                            assert forall|j: int| 0 <= j < k implies #[trigger] f.ensures(
                                (value->Array_0@[j],),
                                Ok::<T, Error>(out@[j]),
                            ) by {
                                assert(value->Array_0@[j] == arr0[j]);
                                assert(f.ensures((arr0[j],), Ok::<T, Error>(out@[j])));
                            }
                        }
                        return Err(e);
                    },
                }
            }
            Ok(out)
        },
        other => Err(Error::Decode("Error decoding object", other)),
    }
}

} // verus!
