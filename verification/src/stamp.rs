//! Fresh ids and the current time.
use vstd::prelude::*;

use crate::output::{clock_fields, two_digits, year_text};
use crate::text::{chars_of, slice_to, string_of};

verus! {

/// A lowercase hexadecimal digit.
pub open spec fn is_lower_hex(c: char) -> bool {
    ('0' <= c && c <= '9') || ('a' <= c && c <= 'f')
}

/// The hyphenated text of a UUID: 36 characters, hyphens at 8, 13, 18
/// and 23, lowercase hexadecimal digits elsewhere.
pub open spec fn is_uuid_text(s: Seq<char>) -> bool {
    &&& s.len() == 36
    &&& forall|k: int| 0 <= k < 36 ==> if k == 8 || k == 13 || k == 18 || k == 23 {
        s[k] == '-'
    } else {
        is_lower_hex(#[trigger] s[k])
    }
}

/// Calls `uuid::Uuid::new_v4` and `to_string` on the result: a random
/// UUID in its hyphenated lowercase form.  Which UUID is left unsaid.
#[verifier::external_body]
pub(crate) fn new_uuid() -> (r: String)
    ensures
        is_uuid_text(r@),
{
    uuid::Uuid::new_v4().to_string()
}

/// Calls `chrono::Utc::now` and `timestamp_nanos_opt` on the result: the
/// current time in nanoseconds since the Unix epoch, none outside the range
/// of `i64`.  `Utc::now` panics on a system time before the epoch, so a
/// time it returns is not negative.  Which time is left unsaid.
#[verifier::external_body]
pub(crate) fn now_nanos() -> (r: Option<i64>)
    ensures
        r matches Some(n) ==> n >= 0,
{
    chrono::Utc::now().timestamp_nanos_opt()
}

/// Calls `chrono::Utc::now` and `timestamp` on the result: the current time
/// in whole seconds since the Unix epoch.  `Utc::now` panics on a system
/// time before the epoch, so the result is not negative.  Which time is
/// left unsaid.
#[verifier::external_body]
pub(crate) fn now_seconds() -> (r: i64)
    ensures
        r >= 0,
{
    chrono::Utc::now().timestamp()
}

/// A short fresh id: the first eight characters of a random UUID.
pub fn short_id() -> (r: String)
    ensures
        r@.len() == 8,
        forall|k: int| 0 <= k < 8 ==> is_lower_hex(#[trigger] r@[k]),
{
    let u = new_uuid();
    let cs = chars_of(u.as_str());
    proof {
        assert forall|k: int| 0 <= k < 8 implies is_lower_hex(#[trigger] cs@[k]) by {
            assert(is_lower_hex(u@[k]));
        }
    }
    let p = slice_to(cs.as_slice(), 8);
    string_of(p.as_slice())
}

/// The current time in nanoseconds since the Unix epoch, `i64::MAX` past
/// the range of `i64`; never before the epoch.
pub fn current_time() -> (r: i64)
    ensures
        r >= 0,
{
    match now_nanos() {
        Some(t) => t,
        None => i64::MAX,
    }
}


/// The fraction of a second as chrono's RFC 3339 writing gives it: none,
/// or a `.` and three, six or nine digits.
pub open spec fn second_fraction(f: Seq<char>) -> bool {
    ||| f.len() == 0
    ||| {
        &&& f[0] == '.'
        &&& (f.len() == 4 || f.len() == 7 || f.len() == 10)
        &&& forall|i: int| 1 <= i < f.len() ==> '0' <= #[trigger] f[i] && f[i] <= '9'
    }
}

/// A UTC time written in RFC 3339 as chrono writes it.
pub open spec fn utc_rfc3339_text(y: int, mo: int, d: int, h: int, mi: int, s: int, frac: Seq<char>) -> Seq<char> {
    year_text(y) + "-"@ + two_digits(mo) + "-"@ + two_digits(d) + "T"@ + two_digits(h) + ":"@ + two_digits(mi) + ":"@
        + two_digits(s) + frac + "+00:00"@
}

/// Some UTC time written in RFC 3339 as chrono writes it.
pub open spec fn utc_rfc3339_stamp(t: Seq<char>) -> bool {
    exists|y: int, mo: int, d: int, h: int, mi: int, s: int, frac: Seq<char>|
        clock_fields(y, mo, d, h, mi, s) && second_fraction(frac) && t == #[trigger] utc_rfc3339_text(
            y,
            mo,
            d,
            h,
            mi,
            s,
            frac,
        )
}

/// Calls `chrono::Utc::now` and `to_rfc3339` on the result: the current
/// time in RFC 3339 form.  chrono writes the year (zero-padded to four
/// digits, signed outside 0 to 9999), `-`, month, `-`, day, `T`, hour, `:`,
/// minute, `:`, second, each two digits, then the fraction of a second (none,
/// or three, six or nine digits after a `.`) and the UTC offset `+00:00`.
/// Which time is left unsaid.
#[verifier::external_body]
pub(crate) fn now_rfc3339() -> (r: String)
    ensures
        utc_rfc3339_stamp(r@),
{
    chrono::Utc::now().to_rfc3339()
}

} // verus!
