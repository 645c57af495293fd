//! The identity and time that each emitted record carries.
use vstd::prelude::*;

verus! {

/// Relies on uuid::Uuid::new_v4 and its `Display`, which writes the
/// hyphenated lower-case form: a random UUID as 36 characters.
#[verifier::external_body]
fn new_uuid() -> (r: String)
    ensures
        r@.len() == 36,
{
    uuid::Uuid::new_v4().to_string()
}

/// Relies on chrono::Utc::now and DateTime::timestamp_micros: the time now,
/// in microseconds since the Unix epoch.
#[verifier::external_body]
fn now_micros() -> (r: i64) {
    chrono::Utc::now().timestamp_micros()
}

/// A fresh identity and the time of creation for one record.
pub struct RecordStamp {
    pub uuid: String,
    pub time_stamp: i64,
}

/// A new random identity and the current time.
pub fn new_stamp() -> (r: RecordStamp)
    ensures
        r.uuid@.len() == 36,
{
    RecordStamp { uuid: new_uuid(), time_stamp: now_micros() }
}

} // verus!
