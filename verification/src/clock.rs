//! Trusted access to the system clock through the `time` crate. What comes
//! back depends on the moment of the call, so nothing is promised of the
//! returned strings; the verified code treats every outcome alike.

use vstd::prelude::*;

verus! {

/// The characters a rendered timestamp can hold: digits and the fixed
/// separators of the zero-padded `YYYY-MM-DD HH:MM` format. This is what
/// makes the lines lexicographically sortable by time, and it rules out a
/// newline inside the timestamp.
pub open spec fn timestamp_chars(s: Seq<char>) -> bool {
    forall|i: int|
        0 <= i < s.len() ==> ('0' <= s[i] <= '9' || s[i] == '-' || s[i] == ' ' || s[i] == ':')
}

/// The characters a rendered date can hold: digits and `-`.
pub open spec fn date_chars(s: Seq<char>) -> bool {
    forall|i: int| 0 <= i < s.len() ==> ('0' <= s[i] <= '9' || s[i] == '-')
}

/// Relies on `time::OffsetDateTime::now_utc` and `OffsetDateTime::format`
/// with the fixed description `[year]-[month]-[day] [hour]:[minute]`:
/// renders the current UTC time; `None` when the `time` crate reports a
/// formatting error. Every rendered value holds a zero-padded year of at
/// least four digits (a sign only for years before zero), two digits for
/// each other component, and the literal separators, so it is at least 16
/// characters of digits, `-`, space and `:`.
#[verifier::external_body]
pub fn now_timestamp() -> (r: Option<String>)
    ensures
        r matches Some(s) ==> s@.len() >= 16 && timestamp_chars(s@),
{
    let desc = match time::format_description::parse("[year]-[month]-[day] [hour]:[minute]") {
        Ok(d) => d,
        Err(_) => return None,
    };
    match time::OffsetDateTime::now_utc().format(&desc) {
        Ok(s) => Some(s),
        Err(_) => None,
    }
}

/// Relies on `time::OffsetDateTime::now_utc`, `checked_sub` and `format`
/// with the fixed description `[year]-[month]-[day]`: renders the UTC date
/// `secs` seconds before now; `None` when the subtraction leaves the
/// representable range or the `time` crate reports a formatting error.
/// Every rendered value is at least 10 characters of digits and `-`: a
/// zero-padded year of at least four digits (a sign only for years before
/// zero) and two digits each for month and day.
#[verifier::external_body]
pub fn date_days_back(secs: i64) -> (r: Option<String>)
    ensures
        r matches Some(s) ==> s@.len() >= 10 && date_chars(s@),
{
    let desc = match time::format_description::parse("[year]-[month]-[day]") {
        Ok(d) => d,
        Err(_) => return None,
    };
    let then = match time::OffsetDateTime::now_utc().checked_sub(time::Duration::seconds(secs)) {
        Some(t) => t,
        None => return None,
    };
    match then.format(&desc) {
        Ok(s) => Some(s),
        Err(_) => None,
    }
}

} // verus!
