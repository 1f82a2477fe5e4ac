//! Time stamps and identifiers: instants written as RFC 3339 text, the
//! current time, and fresh random identifiers.
use vstd::prelude::*;
use crate::decimal::all_digits;
use crate::text::opt_view;

verus! {

/// Names what `time` gives for a count of seconds since the epoch: the
/// RFC 3339 text of that instant in UTC, or nothing where `time` cannot
/// represent or write it.
pub uninterp spec fn rfc3339_of_unix(seconds: int) -> Option<Seq<char>>;

/// Writes an instant as RFC 3339 with `time`
/// (`OffsetDateTime::from_unix_timestamp`, then `format(&Rfc3339)`); the
/// contract names the result and states its shape: the instant is in UTC
/// and whole seconds, so `time` writes it as `YYYY-MM-DDTHH:MM:SSZ`.
#[verifier::external_body]
fn format_unix_rfc3339(seconds: i64) -> (r: Option<String>)
    ensures
        opt_view(r) == rfc3339_of_unix(seconds as int),
        r matches Some(t) ==> utc_rfc3339_shape(t@),
{
    let instant = time::OffsetDateTime::from_unix_timestamp(seconds).ok()?;
    instant.format(&time::format_description::well_known::Rfc3339).ok()
}

/// The RFC 3339 text of an instant given in seconds since the epoch.
pub fn rfc3339_from_unix_timestamp(seconds: i64) -> (r: Option<String>)
    ensures
        opt_view(r) == rfc3339_of_unix(seconds as int),
        r matches Some(t) ==> utc_rfc3339_shape(t@),
{
    format_unix_rfc3339(seconds)
}

/// The shape of an instant in UTC as `time` writes it with `Rfc3339`:
/// `YYYY-MM-DDTHH:MM:SS`, then, where the second has a fraction, `.` and one
/// to nine digits, then `Z`.
pub open spec fn utc_rfc3339_shape(t: Seq<char>) -> bool {
    &&& 20 <= t.len() <= 30
    &&& all_digits(t.subrange(0, 4))
    &&& t[4] == '-'
    &&& all_digits(t.subrange(5, 7))
    &&& t[7] == '-'
    &&& all_digits(t.subrange(8, 10))
    &&& t[10] == 'T'
    &&& all_digits(t.subrange(11, 13))
    &&& t[13] == ':'
    &&& all_digits(t.subrange(14, 16))
    &&& t[16] == ':'
    &&& all_digits(t.subrange(17, 19))
    &&& t[t.len() - 1] == 'Z'
    &&& t.len() > 20 ==> t[19] == '.' && all_digits(t.subrange(20, t.len() - 1))
}

/// The current time as RFC 3339 with `time` (`OffsetDateTime::now_utc`, then
/// `format(&Rfc3339)`), or nothing where it cannot be written. Which instant
/// it is changes from call to call and is not said; what is said is the
/// shape that `time`'s `Rfc3339` formatting writes for a UTC offset: the
/// four-digit year (other years are refused), two-digit month, day, hour,
/// minute and second with their separators, the fraction digits of a
/// non-zero nanosecond, and `Z`.
#[verifier::external_body]
fn clock_rfc3339() -> (r: Option<String>)
    ensures
        r matches Some(t) ==> utc_rfc3339_shape(t@),
{
    time::OffsetDateTime::now_utc().format(&time::format_description::well_known::Rfc3339).ok()
}

/// The current time as RFC 3339 in UTC, or the epoch where the clock cannot
/// be written; either way text of the shape `time` writes.
pub fn now_rfc3339() -> (r: String)
    ensures
        utc_rfc3339_shape(r@),
{
    match clock_rfc3339() {
        Some(t) => t,
        None => {
            let epoch = "1970-01-01T00:00:00Z";
            proof {
                reveal_strlit("1970-01-01T00:00:00Z");
                let e = epoch@;
                assert(all_digits(e.subrange(0, 4)));
                assert(all_digits(e.subrange(5, 7)));
                assert(all_digits(e.subrange(8, 10)));
                assert(all_digits(e.subrange(11, 13)));
                assert(all_digits(e.subrange(14, 16)));
                assert(all_digits(e.subrange(17, 19)));
            }
            epoch.to_owned()
        },
    }
}

/// The furthest an instant of `time` lies from the epoch, in seconds: its
/// years reach at most 999,999 either way (9,999 without the `large-dates`
/// feature).
pub const TIME_RANGE_SECS: i64 = 100_000_000_000_000;

/// The current time in whole seconds since the epoch, from `time`
/// (`OffsetDateTime::now_utc`, then `unix_timestamp`). Which instant it is
/// changes from call to call; what is said is that it lies within the range
/// of years that `time` represents.
#[verifier::external_body]
fn clock_unix_seconds() -> (r: i64)
    ensures
        -TIME_RANGE_SECS <= r <= TIME_RANGE_SECS,
{
    time::OffsetDateTime::now_utc().unix_timestamp()
}

/// The instant `seconds` after `now`, in seconds since the epoch; a negative
/// wait counts as none.
pub fn seconds_after(now: i64, seconds: i64) -> (r: i64)
    requires
        now + (if seconds > 0 { seconds as int } else { 0 }) <= i64::MAX,
    ensures
        r == now + (if seconds > 0 { seconds as int } else { 0 }),
{
    if seconds > 0 {
        now + seconds
    } else {
        now
    }
}

/// Whether `r` is what writing the instant `seconds` after `now` gives: its
/// RFC 3339 text, or, where `time` cannot write it, some RFC 3339 UTC time.
pub open spec fn later_text(r: Seq<char>, now: int, seconds: i64) -> bool {
    match rfc3339_of_unix(now + (if seconds > 0 { seconds as int } else { 0 })) {
        Some(t) => r == t,
        None => utc_rfc3339_shape(r),
    }
}

/// The time `seconds` from now as RFC 3339 in UTC (a negative wait counts as
/// none), or the current time where that instant cannot be written.
pub fn now_plus_seconds_rfc3339(seconds: i64) -> (r: String)
    requires
        seconds <= i64::MAX - TIME_RANGE_SECS,
    ensures
        utc_rfc3339_shape(r@),
        exists|now: int|
            -TIME_RANGE_SECS <= now <= TIME_RANGE_SECS && #[trigger] later_text(r@, now, seconds),
{
    let now = clock_unix_seconds();
    let at = seconds_after(now, seconds);
    let r = match rfc3339_from_unix_timestamp(at) {
        Some(t) => t,
        None => now_rfc3339(),
    };
    assert(later_text(r@, now as int, seconds));
    r
}

/// Names what `time` reads from RFC 3339 text: the instant as nanoseconds
/// since the epoch, or nothing where the text is not RFC 3339.
pub uninterp spec fn rfc3339_unix_nanos(text: Seq<char>) -> Option<int>;

/// Reads RFC 3339 text with `time` (`OffsetDateTime::parse` with `Rfc3339`,
/// then `unix_timestamp_nanos`); the contract names the result.
#[verifier::external_body]
fn parse_rfc3339_unix_nanos(text: &str) -> (r: Option<i128>)
    ensures
        match r {
            Some(n) => rfc3339_unix_nanos(text@) == Some(n as int),
            None => rfc3339_unix_nanos(text@) is None,
        },
{
    let parsed = time::OffsetDateTime::parse(text, &time::format_description::well_known::Rfc3339);
    parsed.ok().map(|t| t.unix_timestamp_nanos())
}

/// The current time in nanoseconds since the epoch, from `time`
/// (`OffsetDateTime::now_utc`, then `unix_timestamp_nanos`). It changes from
/// call to call, so nothing is said of it.
#[verifier::external_body]
fn clock_unix_nanos() -> (r: i128) {
    time::OffsetDateTime::now_utc().unix_timestamp_nanos()
}

/// Whether an instant, if there is one, lies after `now`.
pub fn instant_is_after(instant: Option<i128>, now: i128) -> (r: bool)
    ensures
        r == (instant matches Some(t) && t > now),
{
    match instant {
        Some(t) => t > now,
        None => false,
    }
}

/// Whether an RFC 3339 time lies ahead of the current time; text that is not
/// RFC 3339 does not.
pub fn timestamp_is_future(timestamp: &str) -> (r: bool)
    ensures
        rfc3339_unix_nanos(timestamp@) is None ==> !r,
{
    let instant = parse_rfc3339_unix_nanos(timestamp);
    instant_is_after(instant, clock_unix_nanos())
}

/// A lowercase hexadecimal digit.
pub open spec fn is_lower_hex(c: char) -> bool {
    ('0' <= c && c <= '9') || ('a' <= c && c <= 'f')
}

/// A version 4 UUID as `uuid` writes it: 36 characters, `-` at positions 8,
/// 13, 18 and 23, lowercase hexadecimal digits elsewhere, the version digit
/// `4` at position 14 and the variant digit `8`, `9`, `a` or `b` at 19.
pub open spec fn uuid_v4_text(s: Seq<char>) -> bool {
    &&& s.len() == 36
    &&& forall|i: int|
        0 <= i < 36 && i != 8 && i != 13 && i != 18 && i != 23 ==> is_lower_hex(#[trigger] s[i])
    &&& s[8] == '-' && s[13] == '-' && s[18] == '-' && s[23] == '-'
    &&& s[14] == '4'
    &&& (s[19] == '8' || s[19] == '9' || s[19] == 'a' || s[19] == 'b')
}

/// A fresh random identifier: a version 4 UUID from `uuid::Uuid::new_v4`,
/// written out. Which one is random and is not said; what is said is the
/// form `uuid` gives it: `new_v4` sets the version bits to 4 and the variant
/// bits to 10, and `Display` writes the hyphenated lowercase form.
#[verifier::external_body]
pub fn new_id() -> (r: String)
    ensures
        uuid_v4_text(r@),
{
    uuid::Uuid::new_v4().to_string()
}

} // verus!
