//! Timestamps of the wire format.
//!
//! The service writes every timestamp as an RFC 3339 string with an
//! explicit offset, such as `2015-01-19T16:57:17-05:00`. A [`Timestamp`]
//! holds what such a string carries, as plain integers: the instant as
//! seconds and subsecond nanoseconds since the Unix epoch, and the local
//! offset from UTC in seconds. Parsing and rendering of the RFC 3339 text
//! itself is done by the `chrono` crate through the trusted wrappers
//! below.

use vstd::prelude::*;
use crate::error::Error;
use crate::json::{absent_key_error, lookup, remove_key, JsonFields, JsonValue};

verus! {

/// A point in time with its local offset, as carried by an RFC 3339
/// string.
#[derive(Debug, Clone, Copy, PartialEq, Eq, Structural)]
pub struct Timestamp {
    /// Non-leap seconds since the Unix epoch (UTC).
    pub seconds: i64,
    /// Nanoseconds since the last second boundary; values of one billion
    /// and above stand for a leap second.
    pub nanos: u32,
    /// Local offset from UTC in seconds, strictly within one day.
    pub offset_seconds: i32,
}

impl Timestamp {
    /// The ranges that RFC 3339 text can carry: a local time in years
    /// 0000 through 9999 (so the instant may lie up to one day outside
    /// that range, depending on the offset), a fraction below two seconds
    /// (one regular, one leap), and an offset strictly within one day.
    pub open spec fn wf(self) -> bool {
        &&& self.nanos < 2_000_000_000
        &&& -86_400 < self.offset_seconds < 86_400
        &&& -62_167_219_200 - 86_400 <= self.seconds <= 253_402_300_799 + 86_400
    }

    /// A timestamp that can be rendered back to RFC 3339 text: no leap
    /// second, and a local time that still falls in years 0000 through
    /// 9999 after the offset is applied.
    pub open spec fn renderable(self) -> bool {
        &&& self.nanos < 1_000_000_000
        &&& -86_400 < self.offset_seconds < 86_400
        &&& -62_167_219_200 <= self.seconds <= 253_402_300_799
        &&& -62_167_219_200 <= self.seconds + self.offset_seconds <= 253_402_300_799
    }
}

/// What `chrono::DateTime::parse_from_rfc3339` makes of a string: the
/// parsed instant and offset, or `None` where the string is not a valid
/// RFC 3339 date-and-time.
pub uninterp spec fn rfc3339_parse(s: Seq<char>) -> Option<Timestamp>;

/// What `chrono::DateTime::to_rfc3339` renders for a timestamp.
pub uninterp spec fn rfc3339_render(t: Timestamp) -> Seq<char>;

/// Relies on `chrono::DateTime::parse_from_rfc3339`: accepts exactly the
/// valid RFC 3339 date-and-time strings, whose fields always lie in the
/// `wf` ranges (four-digit year, fraction below two seconds, offset
/// within a day).
#[verifier::external_body]
pub fn parse_rfc3339(s: &str) -> (r: Option<Timestamp>)
    ensures
        r == rfc3339_parse(s@),
        r matches Some(t) ==> t.wf(),
{
    match chrono::DateTime::parse_from_rfc3339(s) {
        Ok(dt) => Some(
            Timestamp {
                seconds: dt.timestamp(),
                nanos: dt.timestamp_subsec_nanos(),
                offset_seconds: dt.offset().local_minus_utc(),
            },
        ),
        Err(_) => None,
    }
}

/// Relies on `chrono::DateTime::to_rfc3339` (with
/// `chrono::DateTime::from_timestamp` and `chrono::FixedOffset::east_opt`
/// rebuilding the value): renders a function of the timestamp alone. The
/// `renderable` bounds are exactly what keeps those three calls from
/// failing.
#[verifier::external_body]
pub fn render_rfc3339(t: &Timestamp) -> (r: String)
    requires
        t.renderable(),
    ensures
        r@ == rfc3339_render(*t),
{
    let utc = chrono::DateTime::from_timestamp(t.seconds, t.nanos).expect(
        "seconds and nanoseconds are in range",
    );
    let offset = chrono::FixedOffset::east_opt(t.offset_seconds).expect("offset is within a day");
    utc.with_timezone(&offset).to_rfc3339()
}

/// The value under a required timestamp key is a string that parses as
/// RFC 3339.
pub open spec fn ts_ok(o: Option<JsonValue>) -> bool {
    o matches Some(v) && v matches JsonValue::Str(s) && rfc3339_parse(s@) is Some
}

/// The timestamp an optional timestamp field reads to: `Some` exactly
/// where the value is a parseable RFC 3339 string.
pub open spec fn opt_ts_of(v: JsonValue) -> Option<Timestamp> {
    match v {
        JsonValue::Str(s) => rfc3339_parse(s@),
        _ => None,
    }
}

/// True when `e` is the decode error a required timestamp field reports
/// for `key` in `fields`: the key is absent, or its value is not a
/// parseable RFC 3339 string and rides along in the error.
pub open spec fn ts_error(fields: Seq<(String, JsonValue)>, key: Seq<char>, e: Error) -> bool {
    match lookup(fields, key) {
        None => absent_key_error(e, key),
        Some(v) => {
            &&& (v matches JsonValue::Str(s) ==> rfc3339_parse(s@) is None)
            &&& e matches Error::Decode(d, offending)
            &&& d@ == "Expected a timestamp string"@
            &&& offending == v
        },
    }
}

/// Required key whose value must be an RFC 3339 string: any other shape
/// is a decode error that carries the offending value, moved out of the
/// field set.
pub fn take_timestamp(fields: &mut JsonFields, key: &str) -> (r: Result<Timestamp, Error>)
    ensures
        match r {
            Ok(ts) => {
                &&& lookup(old(fields)@, key@) matches Some(v)
                &&& v matches JsonValue::Str(s)
                &&& rfc3339_parse(s@) == Some(ts)
                &&& ts.wf()
                &&& final(fields)@ == old(fields)@
            },
            Err(e) => {
                &&& ts_error(old(fields)@, key@, e)
                &&& final(fields)@ == (if lookup(old(fields)@, key@) is Some {
                    remove_key(old(fields)@, key@)
                } else {
                    old(fields)@
                })
            },
        },
{
    match crate::json::field_ref(fields, key) {
        Some(v) => {
            if let JsonValue::Str(s) = v {
                if let Some(ts) = parse_rfc3339(s.as_str()) {
                    return Ok(ts);
                }
            }
        },
        None => {
            return Err(
                Error::Decode("Unexpected absent key", JsonValue::Str(String::from_str(key))),
            );
        },
    }
    match crate::json::take_entry(fields, key) {
        Some(v) => Err(Error::Decode("Expected a timestamp string", v)),
        None => vstd::pervasive::unreached(),
    }
}

/// Required key whose value may be an RFC 3339 string: a null, another
/// shape, or an unparseable string all read as `None`.
pub fn take_opt_timestamp(fields: &JsonFields, key: &str) -> (r: Result<Option<Timestamp>, Error>)
    ensures
        match r {
            Ok(o) => {
                &&& lookup(fields@, key@) matches Some(v)
                &&& o == opt_ts_of(v)
                &&& o matches Some(ts) ==> ts.wf()
            },
            Err(e) => lookup(fields@, key@) is None && absent_key_error(e, key@),
        },
{
    match crate::json::field_ref(fields, key) {
        Some(v) => match v {
            JsonValue::Str(s) => Ok(parse_rfc3339(s.as_str())),
            _ => Ok(None),
        },
        None => Err(
            Error::Decode("Unexpected absent key", JsonValue::Str(String::from_str(key))),
        ),
    }
}

} // verus!
