//! Outside types that the library carries as opaque values, and the calls
//! that produce them.
use vstd::prelude::*;

verus! {

/// `uuid::Uuid`, carried as an opaque identifier.
#[verifier::external_type_specification]
#[verifier::external_body]
pub struct ExUuid(uuid::Uuid);

/// `serde_json::Value`, carried as an opaque JSON document.
#[verifier::external_type_specification]
#[verifier::external_body]
pub struct ExJsonValue(serde_json::Value);

/// A fresh random identifier (`uuid::Uuid::new_v4`); nothing is promised of
/// its value, which comes from a random number generator.
#[verifier::external_body]
pub(crate) fn new_uuid() -> uuid::Uuid {
    uuid::Uuid::new_v4()
}

/// An instant in UTC as seconds and nanoseconds since the Unix epoch.
pub struct Timestamp {
    pub secs: i64,
    pub nanos: u32,
}

impl Timestamp {
    /// A timestamp with the same instant.
    pub fn copy(&self) -> (r: Timestamp)
        ensures
            r == *self,
    {
        Timestamp { secs: self.secs, nanos: self.nanos }
    }
}

/// The current time (`chrono::Utc::now`); nothing is promised of the
/// instant, which comes from the system clock.
#[verifier::external_body]
pub(crate) fn utc_now() -> Timestamp {
    let now = chrono::Utc::now();
    Timestamp { secs: now.timestamp(), nanos: now.timestamp_subsec_nanos() }
}

/// The instant that RFC 3339 text `s` denotes, in UTC; `None` when `s` is
/// not such a text.
pub uninterp spec fn rfc3339_instant(s: Seq<char>) -> Option<Timestamp>;

/// Parses RFC 3339 text (`chrono::DateTime::parse_from_rfc3339`, then
/// converted to UTC). The instants chrono represents lie within its year
/// range (about 262 000 years each side of year 0), so their seconds fit in
/// 48 bits, and their nanoseconds stay under two seconds' worth (a leap
/// second is carried there).
#[verifier::external_body]
pub(crate) fn parse_rfc3339(s: &str) -> (r: Option<Timestamp>)
    ensures
        r == rfc3339_instant(s@),
        r matches Some(t) ==> -0x1_0000_0000_0000 <= t.secs <= 0x1_0000_0000_0000 && t.nanos < 2_000_000_000,
{
    match chrono::DateTime::parse_from_rfc3339(s) {
        Ok(dt) => {
            let u = dt.with_timezone(&chrono::Utc);
            Some(Timestamp { secs: u.timestamp(), nanos: u.timestamp_subsec_nanos() })
        },
        Err(_) => None,
    }
}

/// The RFC 3339 text of instant `t` in UTC (`chrono::DateTime::to_rfc3339`);
/// empty when chrono cannot represent the instant.
pub uninterp spec fn rfc3339_text(t: Timestamp) -> Seq<char>;

/// Formats an instant as RFC 3339 text (`chrono::DateTime::from_timestamp`,
/// then `to_rfc3339`).
#[verifier::external_body]
pub(crate) fn format_rfc3339(t: &Timestamp) -> (r: String)
    ensures
        r@ == rfc3339_text(*t),
{
    match chrono::DateTime::from_timestamp(t.secs, t.nanos) {
        Some(dt) => dt.to_rfc3339(),
        None => String::new(),
    }
}

/// The JSON text `text` laid out by `serde_json::to_string_pretty`; empty
/// when `text` is not JSON.
pub uninterp spec fn json_pretty(text: Seq<char>) -> Seq<char>;

/// Lays out JSON text with indentation (`serde_json::from_str` into a
/// `serde_json::Value`, then `serde_json::to_string_pretty`).
#[verifier::external_body]
pub(crate) fn pretty_json(text: &str) -> (r: String)
    ensures
        r@ == json_pretty(text@),
{
    match serde_json::from_str::<serde_json::Value>(text) {
        Ok(v) => match serde_json::to_string_pretty(&v) {
            Ok(s) => s,
            Err(_) => String::new(),
        },
        Err(_) => String::new(),
    }
}

/// The short date of instant `t` in UTC, as `%b %d, %Y` formats it (month
/// abbreviation, day, year); empty when chrono cannot represent the instant.
pub uninterp spec fn short_date_text(t: Timestamp) -> Seq<char>;

/// Formats an instant as a short date (`chrono::DateTime::from_timestamp`,
/// then `format("%b %d, %Y")`).
#[verifier::external_body]
pub(crate) fn format_short_date(t: &Timestamp) -> (r: String)
    ensures
        r@ == short_date_text(*t),
{
    match chrono::DateTime::from_timestamp(t.secs, t.nanos) {
        Some(dt) => dt.format("%b %d, %Y").to_string(),
        None => String::new(),
    }
}

} // verus!
