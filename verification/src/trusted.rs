//! Trusted declarations for the outside crates the logic leans on: numeric
//! literal recognition, run identifiers, and calendar dates. Each wrapper's
//! contract states only what the called crate's source or documentation
//! shows.

use vstd::prelude::*;

use crate::orchestrator::AdmissionError;
use crate::orchestrator::CreateRunRequest;
use crate::orchestrator::RunRecord;
use crate::orchestrator::admit_run;
use crate::types::TimestampMs;

verus! {

/// Whether `uuid::Uuid::parse_str` accepts the string.
pub uninterp spec fn is_uuid_text(s: Seq<char>) -> bool;

/// Relies on `uuid::Uuid::parse_str`: acceptance depends on the characters
/// alone.
#[verifier::external_body]
pub(crate) fn is_run_id(s: &str) -> (r: bool)
    ensures
        r == is_uuid_text(s@),
{
    uuid::Uuid::parse_str(s).is_ok()
}

/// Relies on `uuid::Uuid::new_v4` and its `to_string`: a fresh random v4
/// identifier in the 36-character hyphenated form. The value itself is
/// random; nothing more is claimed of it.
#[verifier::external_body]
pub(crate) fn fresh_run_id() -> (r: String)
    ensures
        r@.len() == 36,
{
    uuid::Uuid::new_v4().to_string()
}

/// Relies on `chrono::Utc::now`: the machine clock in epoch milliseconds.
/// Nothing is claimed of the value.
#[verifier::external_body]
pub(crate) fn now_ms() -> (r: i64)
{
    chrono::Utc::now().timestamp_millis()
}

/// Whether `chrono::NaiveDate::parse_from_str` accepts the string as a
/// `%Y-%m-%d` date.
pub uninterp spec fn is_date_text(s: Seq<char>) -> bool;

/// The UTC-midnight epoch milliseconds of such a date.
pub uninterp spec fn date_ms_of(s: Seq<char>) -> int;

/// Relies on `chrono::NaiveDate::parse_from_str` (format `%Y-%m-%d`) and
/// the UTC conversion: the result depends on the characters alone.
#[verifier::external_body]
pub(crate) fn parse_date_ms(s: &str) -> (r: Option<i64>)
    ensures
        (r is Some) == is_date_text(s@),
        (r matches Some(v) ==> v == date_ms_of(s@)),
{
    match chrono::NaiveDate::parse_from_str(s, "%Y-%m-%d") {
        Ok(d) => match d.and_hms_opt(0, 0, 0) {
            Some(dt) => Some(
                chrono::TimeZone::from_utc_datetime(&chrono::Utc, &dt).timestamp_millis(),
            ),
            None => None,
        },
        Err(_) => None,
    }
}

/// Validate a queue element as a run identifier: the text is kept when the
/// identifier parser accepts it.
pub fn validate_run_id(s: &str) -> (r: Option<String>)
    ensures
        (r is Some) == is_uuid_text(s@),
        (r matches Some(v) ==> v@ == s@),
{
    if is_run_id(s) {
        Some(s.to_owned())
    } else {
        None
    }
}

/// Admit a run with a freshly drawn identifier and the current clock.
/// Rejected exactly when the name is blank.
pub fn admit_run_now(req: &CreateRunRequest) -> (r: Result<RunRecord, AdmissionError>)
    ensures
        (r is Err) <==> crate::orchestrator::spec_is_blank(vstd::utf8::encode_utf8(req.name@)),
        (r matches Ok(rec) ==> rec.id@.len() == 36 && rec.name@ == req.name@ && rec.kind
            == req.kind && rec.status == crate::orchestrator::RunStatus::Queued),
{
    let id = fresh_run_id();
    let now = now_ms();
    admit_run(req, id, TimestampMs(now))
}

/// The inclusive millisecond range of a start and end date: start midnight
/// through the last millisecond of the end day. `None` when either date is
/// malformed or the end of range cannot be represented.
pub fn date_range_ms(start: &str, end: &str) -> (r: Option<(i64, i64)>)
    ensures
        (r matches Some(p) ==> is_date_text(start@) && is_date_text(end@) && p.0 == date_ms_of(
            start@,
        ) && p.1 == date_ms_of(end@) + 86_400_000 - 1),
        !(is_date_text(start@) && is_date_text(end@)) ==> r is None,
{
    let s_ms = match parse_date_ms(start) {
        Some(v) => v,
        None => {
            return None;
        }
    };
    let e_ms = match parse_date_ms(end) {
        Some(v) => v,
        None => {
            return None;
        }
    };
    if e_ms > i64::MAX - 86_400_000 {
        return None;
    }
    Some((s_ms, e_ms + 86_400_000 - 1))
}

} // verus!
