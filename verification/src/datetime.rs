use vstd::prelude::*;

verus! {

/// The instant that chrono's RFC 3339 reader finds in `s`, as the UTC Unix
/// timestamp in whole seconds and the nanoseconds past that second; `None`
/// when chrono refuses the text.
pub uninterp spec fn rfc3339_instant(s: Seq<char>) -> Option<(i64, u32)>;

/// The Unix timestamp of 00:00:00 UTC on the calendar day that chrono's
/// `%Y-%m-%d` reader finds in `s`; `None` when chrono refuses the text.
pub uninterp spec fn ymd_midnight(s: Seq<char>) -> Option<i64>;

/// Seconds from 00:00:00 to 23:59:59 of one day.
pub const LAST_SECOND_OF_DAY: i64 = 86_399;

/// Reads `s` with `chrono::DateTime::parse_from_rfc3339`.
///
/// Trusted: the result is what chrono's reader gives for `s`, taken to
/// `(timestamp(), timestamp_subsec_nanos())` of the parsed instant (both are
/// read from the UTC form that chrono keeps inside every `DateTime`). The
/// grammar that chrono accepts is not restated here; it is named by
/// `rfc3339_instant`.
#[verifier::external_body]
pub(crate) fn parse_rfc3339(s: &str) -> (r: Option<(i64, u32)>)
    ensures
        r == rfc3339_instant(s@),
{
    match chrono::DateTime::parse_from_rfc3339(s) {
        Ok(dt) => Some((dt.timestamp(), dt.timestamp_subsec_nanos())),
        Err(_) => None,
    }
}

/// Reads `s` with `chrono::NaiveDate::parse_from_str(s, "%Y-%m-%d")`.
///
/// Trusted: the result is the Unix timestamp of that date at 00:00:00 UTC
/// (`and_time(NaiveTime::MIN).and_utc().timestamp()`), or `None` when chrono
/// refuses the text. chrono computes a timestamp as days since the epoch
/// times 86 400 plus the seconds since midnight, so 23:59:59 of the same day
/// lies `LAST_SECOND_OF_DAY` seconds later. chrono documents that a
/// `NaiveDate` lies between January 1, 262145 BCE and December 31, 262143 CE,
/// so the timestamp lies within ten trillion seconds of the epoch.
#[verifier::external_body]
pub(crate) fn parse_ymd(s: &str) -> (r: Option<i64>)
    ensures
        r == ymd_midnight(s@),
        r matches Some(t) ==> -10_000_000_000_000 <= t <= 10_000_000_000_000,
{
    match chrono::NaiveDate::parse_from_str(s, "%Y-%m-%d") {
        Ok(d) => Some(d.and_time(chrono::NaiveTime::MIN).and_utc().timestamp()),
        Err(_) => None,
    }
}

/// The current time from `chrono::Utc::now()`, written by `to_rfc3339`.
///
/// Trusted: chrono documents that `to_rfc3339` writes an RFC 3339 date and
/// time, and that `parse_from_rfc3339` reads every valid RFC 3339 value, so
/// the text is one that `rfc3339_instant` reads, and, being a date and a
/// time written in digits, is not blank. Which instant it is, is left
/// open: it depends on the clock.
#[verifier::external_body]
pub(crate) fn now_rfc3339() -> (r: String)
    ensures
        rfc3339_instant(r@) is Some,
        !crate::text::is_blank(r@),
{
    chrono::Utc::now().to_rfc3339()
}

/// A lower-case hexadecimal digit.
pub open spec fn is_hex_digit(c: char) -> bool {
    ('0' <= c && c <= '9') || ('a' <= c && c <= 'f')
}

/// The hyphenated text of a version-4 UUID: 36 characters, hyphens at 8,
/// 13, 18 and 23, lower-case hexadecimal digits elsewhere, the version
/// digit `4` at 14.
pub open spec fn uuid_v4_text(s: Seq<char>) -> bool {
    &&& s.len() == 36
    &&& forall|i: int|
        0 <= i < 36 ==> if i == 8 || i == 13 || i == 18 || i == 23 {
            #[trigger] s[i] == '-'
        } else {
            is_hex_digit(s[i])
        }
    &&& s[14] == '4'
}

/// A fresh random identifier from `uuid::Uuid::new_v4()`, in its hyphenated
/// text form.
///
/// Trusted: the text has the hyphenated lower-case form that `Display`
/// writes for a `Uuid`, and the version digit of a random (version 4)
/// UUID; which UUID it is, is left open, as it is random.
#[verifier::external_body]
pub(crate) fn new_uuid_v4() -> (r: String)
    ensures
        uuid_v4_text(r@),
{
    uuid::Uuid::new_v4().to_string()
}

} // verus!
