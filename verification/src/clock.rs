//! The wall clock and random ids, as the tasks record them.
use vstd::prelude::*;

verus! {

/// `c` is one of the digits '0'..='9'.
pub open spec fn is_digit(c: char) -> bool {
    '0' <= c && c <= '9'
}

/// `c` is a lowercase hexadecimal digit: '0'..='9' or 'a'..='f'.
pub open spec fn is_lower_hex(c: char) -> bool {
    is_digit(c) || ('a' <= c && c <= 'f')
}

/// Every character of `s` from `lo` up to `hi` is a digit.
pub open spec fn digits_between(s: Seq<char>, lo: int, hi: int) -> bool {
    0 <= lo <= hi <= s.len() && forall|i: int| lo <= i < hi ==> is_digit(#[trigger] s[i])
}

/// The date part of an RFC 3339 stamp, ending just before index `t`: a year of four digits,
/// or a sign and at least four digits, then '-', two digits of month, '-', two of day.
pub open spec fn is_stamp_date(s: Seq<char>, t: int) -> bool {
    &&& t >= 10
    &&& digits_between(s, t - 2, t)
    &&& s[t - 3] == '-'
    &&& digits_between(s, t - 5, t - 3)
    &&& s[t - 6] == '-'
    &&& ((t == 10 && digits_between(s, 0, 4)) || (t >= 11 && (s[0] == '+' || s[0] == '-')
        && digits_between(s, 1, t - 6)))
}

/// `s` is a time stamp as chrono's `DateTime::to_rfc3339` writes it: the date, 'T', hours,
/// ':', minutes, ':', seconds, then no fraction or '.' and 3, 6 or 9 digits, then the
/// offset from UTC as a sign, two digits of hours, ':' and two digits of minutes.
pub open spec fn is_rfc3339_stamp(s: Seq<char>) -> bool {
    exists|frac: int|
        (frac == 0 || frac == 4 || frac == 7 || frac == 10) && #[trigger] is_rfc3339_stamp_with(
            s,
            frac,
        )
}

/// `s` is an RFC 3339 stamp whose fraction of a second, the '.' included, takes `frac`
/// characters.
pub open spec fn is_rfc3339_stamp_with(s: Seq<char>, frac: int) -> bool {
    let n = s.len() as int;
    let z = n - 6;
    let e = z - frac;
    let t = e - 9;
    &&& t >= 10
    &&& (s[z] == '+' || s[z] == '-')
    &&& digits_between(s, z + 1, z + 3)
    &&& s[z + 3] == ':'
    &&& digits_between(s, z + 4, n)
    &&& (frac > 0 ==> s[e] == '.' && digits_between(s, e + 1, z))
    &&& s[t] == 'T'
    &&& digits_between(s, t + 1, t + 3)
    &&& s[t + 3] == ':'
    &&& digits_between(s, t + 4, t + 6)
    &&& s[t + 6] == ':'
    &&& digits_between(s, t + 7, e)
    &&& is_stamp_date(s, t)
}

/// `s` is a random (version 4) UUID in the hyphenated lowercase form: 36 characters,
/// '-' at indices 8, 13, 18 and 23, lowercase hexadecimal digits elsewhere, '4' at index 14
/// and one of '8', '9', 'a', 'b' at index 19.
pub open spec fn is_v4_uuid_text(s: Seq<char>) -> bool {
    &&& s.len() == 36
    &&& forall|i: int|
        0 <= i < 36 ==> if i == 8 || i == 13 || i == 18 || i == 23 {
            #[trigger] s[i] == '-'
        } else {
            is_lower_hex(s[i])
        }
    &&& s[14] == '4'
    &&& (s[19] == '8' || s[19] == '9' || s[19] == 'a' || s[19] == 'b')
}

/// std's `SystemTime`, carried from the system clock to chrono.
#[verifier::external_type_specification]
#[verifier::external_body]
pub struct ExSystemTime(std::time::SystemTime);

/// Calls std's `SystemTime::now`. Nothing is claimed of the time it reads; the call does
/// not fail, and a clock set before 1970 is read like any other.
#[verifier::external_body]
fn system_now() -> (r: std::time::SystemTime) {
    std::time::SystemTime::now()
}

/// Converts a system time to chrono's `DateTime<Local>` (its `From<SystemTime>`, which
/// takes times before 1970 too) and formats it with `DateTime::to_rfc3339`.
///
/// Claimed: the text has the form that `to_rfc3339` writes (seconds as `AutoSi`: no
/// fraction, or 3, 6 or 9 digits; the offset as `+HH:MM` or `-HH:MM`, never 'Z'). Which
/// time it names is not claimed.
///
/// Left unsaid, as faults of the platform rather than of any input: chrono's lookup of
/// the local offset stops with `expect` when the time-zone data on the machine is
/// malformed, and the conversion stops on a time beyond chrono's range of about 262,000
/// years from now, which no system clock reads.
#[verifier::external_body]
fn local_rfc3339_of(t: std::time::SystemTime) -> (r: String)
    ensures
        is_rfc3339_stamp(r@),
{
    chrono::DateTime::<chrono::Local>::from(t).to_rfc3339()
}

/// The current local time as an RFC 3339 stamp.
pub(crate) fn local_now_rfc3339() -> (r: String)
    ensures
        is_rfc3339_stamp(r@),
{
    let t = system_now();
    local_rfc3339_of(t)
}

/// Calls uuid's `Uuid::new_v4` and formats it with `to_string` (its `Display`, the
/// hyphenated lowercase form).
///
/// Claimed: the text is a version 4 UUID in that form (`is_v4_uuid_text`). Which one is
/// not claimed: it is drawn at random.
///
/// Left unsaid, as a fault of the platform: uuid stops with a panic when the operating
/// system's random source fails; this version of uuid has no fallible way to draw one.
#[verifier::external_body]
pub(crate) fn new_uuid_v4_string() -> (r: String)
    ensures
        is_v4_uuid_text(r@),
{
    uuid::Uuid::new_v4().to_string()
}

} // verus!
