//! The telemetry record that a payload carries.
//!
//! A payload is a self-describing binary record. Reading it is left to a
//! parser outside this crate, which hands over a JSON value; what is done
//! here is the lookup of the two counters in that value and the decision
//! on what to forward.

use vstd::prelude::*;
use rustc_serialize::json::Json;
use crate::error::DecodeError;

verus! {

/// A JSON value of `rustc_serialize`. Nothing inside it is visible to the
/// verifier.
#[verifier::external_type_specification]
#[verifier::external_body]
pub struct ExJson(Json);

/// The member that a JSON value holds under a key: `Json::find` of that
/// value and key.
pub uninterp spec fn json_member(json: Json, key: Seq<char>) -> Option<Json>;

/// The unsigned integer that a JSON value stands for: `Json::as_u64` of that
/// value.
pub uninterp spec fn json_unsigned(json: Json) -> Option<u64>;

/// `Json::find` is a lookup that depends on the value and the key alone. It
/// gives the member stored under the key if the value is an object that has
/// one, and nothing for a missing key or a value that is no object; nothing
/// is claimed here beyond the name of its result.
pub assume_specification<'a>[ Json::find ](json: &'a Json, key: &str) -> (member: Option<&'a Json>)
    ensures
        match member {
            Some(found) => json_member(*json, key@) == Some(*found),
            None => json_member(*json, key@) is None,
        },
;

/// `Json::as_u64` depends on the value alone. It gives the number if the
/// value is an unsigned integer or a signed one that is not negative, and
/// nothing for any other value; nothing is claimed here beyond the name of
/// its result.
pub assume_specification[ Json::as_u64 ](json: &Json) -> (number: Option<u64>)
    ensures
        number == json_unsigned(*json),
;

/// The unsigned integer that a JSON value holds under a key, if it holds one.
pub open spec fn unsigned_member(json: Json, key: Seq<char>) -> Option<u64> {
    match json_member(json, key) {
        Some(member) => json_unsigned(member),
        None => None,
    }
}

/// The two counters of a record that drive the actuator.
#[derive(Clone, Copy, Debug, PartialEq, Eq, Structural)]
pub struct TelemetryRecord {
    pub healing: u64,
    pub overhealing: u64,
}

/// What a lookup of the two keys in a parsed payload gave: each counter if
/// the key is there and holds an unsigned integer.
#[derive(Clone, Copy, Debug, PartialEq, Eq, Structural)]
pub struct RecordFields {
    pub healing: Option<u64>,
    pub overhealing: Option<u64>,
}

/// The record that a parse gives: one with both counters if the payload was
/// readable and held both, none otherwise.
pub open spec fn record_outcome(parsed: Option<RecordFields>) -> Result<
    TelemetryRecord,
    DecodeError,
> {
    match parsed {
        Some(RecordFields { healing: Some(healing), overhealing: Some(overhealing) }) => Ok(
            TelemetryRecord { healing, overhealing },
        ),
        _ => Err(DecodeError::MalformedRecord),
    }
}

/// Looks up an unsigned integer under a key of a JSON value.
pub fn unsigned_field(json: &Json, key: &str) -> (value: Option<u64>)
    ensures
        value == unsigned_member(*json, key@),
{
    match json.find(key) {
        Some(member) => member.as_u64(),
        None => None,
    }
}

/// Looks up the two counters in a parsed payload.
pub fn record_fields(json: &Json) -> (fields: RecordFields)
    ensures
        fields.healing == unsigned_member(*json, "healing"@),
        fields.overhealing == unsigned_member(*json, "overhealing"@),
{
    RecordFields {
        healing: unsigned_field(json, "healing"),
        overhealing: unsigned_field(json, "overhealing"),
    }
}

impl TelemetryRecord {
    /// A record is worth forwarding if one of its counters is not zero.
    pub open spec fn carries_signal(self) -> bool {
        self.healing != 0 || self.overhealing != 0
    }

    pub fn should_forward(&self) -> (forward: bool)
        ensures
            forward == self.carries_signal(),
    {
        self.healing != 0 || self.overhealing != 0
    }
}

/// Turns the outcome of parsing a payload into a record. `parsed` is `None`
/// where the payload could not be read as a record at all.
pub fn decode_record(parsed: Option<RecordFields>) -> (record: Result<TelemetryRecord, DecodeError>)
    ensures
        record == record_outcome(parsed),
{
    match parsed {
        Some(fields) => match (fields.healing, fields.overhealing) {
            (Some(healing), Some(overhealing)) => Ok(TelemetryRecord { healing, overhealing }),
            _ => Err(DecodeError::MalformedRecord),
        },
        None => Err(DecodeError::MalformedRecord),
    }
}

/// The record to put on the channel, if any: records with both counters at
/// zero are dropped here.
pub fn record_to_forward(parsed: Option<RecordFields>) -> (forward: Result<
    Option<TelemetryRecord>,
    DecodeError,
>)
    ensures
        forward == match record_outcome(parsed) {
            Ok(record) => Ok::<Option<TelemetryRecord>, DecodeError>(
                if record.carries_signal() {
                    Some(record)
                } else {
                    None
                },
            ),
            Err(e) => Err::<Option<TelemetryRecord>, DecodeError>(e),
        },
{
    match decode_record(parsed) {
        Ok(record) => if record.should_forward() {
            Ok(Some(record))
        } else {
            Ok(None)
        },
        Err(e) => Err(e),
    }
}

} // verus!
