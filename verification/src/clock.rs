//! The clock and random identifiers, read through their outside crates.

use vstd::prelude::*;

verus! {

/// A lower-case hexadecimal digit character.
pub open spec fn is_lower_hex_char(c: char) -> bool {
    ('0' <= c && c <= '9') || ('a' <= c && c <= 'f')
}

/// The text of a version-4 UUID: 36 characters, hyphens at 8, 13, 18 and 23,
/// lower-case hex digits elsewhere, `4` at 14 and one of `8`, `9`, `a`, `b`
/// at 19.
pub open spec fn is_v4_uuid_text(s: Seq<char>) -> bool {
    &&& s.len() == 36
    &&& forall|i: int|
        0 <= i < 36 ==> if i == 8 || i == 13 || i == 18 || i == 23 {
            s[i] == '-'
        } else {
            is_lower_hex_char(#[trigger] s[i])
        }
    &&& s[14] == '4'
    &&& (s[19] == '8' || s[19] == '9' || s[19] == 'a' || s[19] == 'b')
}

/// Calls `uuid::Uuid::new_v4` and renders the id as text.
///
/// Trusted: the id is random; what holds of every outcome is its shape.
/// `new_v4` masks the random bits so that the version nibble is 4 and the
/// variant nibble is 8 to b, and `Display` writes the hyphenated lower-case
/// form.
#[verifier::external_body]
pub(crate) fn random_uuid_text() -> (s: String)
    ensures
        is_v4_uuid_text(s@),
{
    uuid::Uuid::new_v4().to_string()
}

/// Calls `chrono::Utc::now` and renders it with `to_rfc3339`.
///
/// Trusted: the time is read from the clock; what holds of every outcome is
/// that the text ends with the UTC offset `+00:00`, which `to_rfc3339` writes
/// for a zero offset.
#[verifier::external_body]
pub(crate) fn now_rfc3339() -> (s: String)
    ensures
        s@.len() >= 6,
        s@.subrange(s@.len() - 6, s@.len() as int) == "+00:00"@,
{
    chrono::Utc::now().to_rfc3339()
}

/// The age in seconds of the RFC 3339 time `stamp` at the RFC 3339 time
/// `now`, when both parse; what chrono's `parse_from_rfc3339`, subtraction
/// and `num_seconds` compute.
pub uninterp spec fn rfc3339_age(stamp: Seq<char>, now: Seq<char>) -> Option<int>;

/// The age in seconds of `stamp` at `now`, both RFC 3339 times.
///
/// Trusted: parses both with chrono's `DateTime::parse_from_rfc3339` and
/// returns the whole seconds of their difference; `None` when either fails
/// to parse. The result is named, not stated.
#[verifier::external_body]
pub(crate) fn age_seconds(stamp: &str, now: &str) -> (r: Option<i64>)
    ensures
        match r {
            Some(a) => rfc3339_age(stamp@, now@) == Some(a as int),
            None => rfc3339_age(stamp@, now@) is None,
        },
{
    match (chrono::DateTime::parse_from_rfc3339(stamp), chrono::DateTime::parse_from_rfc3339(now)) {
        (Ok(s), Ok(n)) => Some((n - s).num_seconds()),
        _ => None,
    }
}

/// Whether the RFC 3339 time `a` is strictly earlier than `b`, when both
/// parse; what chrono's `parse_from_rfc3339` and `<` compute.
pub uninterp spec fn rfc3339_before(a: Seq<char>, b: Seq<char>) -> Option<bool>;

/// Whether `a` is strictly earlier than `b`, both RFC 3339 times.
///
/// Trusted: parses both with chrono's `DateTime::parse_from_rfc3339` and
/// compares the instants with `<`; `None` when either fails to parse. The
/// result is named, not stated.
#[verifier::external_body]
pub(crate) fn rfc3339_is_before(a: &str, b: &str) -> (r: Option<bool>)
    ensures
        r == rfc3339_before(a@, b@),
{
    match (chrono::DateTime::parse_from_rfc3339(a), chrono::DateTime::parse_from_rfc3339(b)) {
        (Ok(x), Ok(y)) => Some(x < y),
        _ => None,
    }
}

} // verus!
