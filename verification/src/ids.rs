//! Identifiers and the clock.

use vstd::arithmetic::power::pow;
use vstd::prelude::*;

use crate::digest::hex_digit;
use crate::text::{byte_len, byte_len_ascii, same};

verus! {

broadcast use vstd::string::group_string_axioms;

/// The value of a UUID text in any of the forms that `uuid::Uuid::parse_str` takes.
pub uninterp spec fn uuid_value(s: Seq<char>) -> Option<u128>;

/// The hexadecimal digit number `k` of `v`, counted from the most significant of its
/// thirty-two digits.
pub open spec fn nibble(v: u128, k: int) -> int {
    (v as int / pow(16, (31 - k) as nat)) % 16
}

/// How many of the hyphens of a UUID text stand before position `i`.
pub open spec fn hyphens_before(i: int) -> int {
    if i <= 8 {
        0
    } else if i <= 13 {
        1
    } else if i <= 18 {
        2
    } else if i <= 23 {
        3
    } else {
        4
    }
}

/// The canonical text of a UUID: thirty-two lower-case hexadecimal digits in groups of
/// eight, four, four, four and twelve.
pub open spec fn uuid_text(v: u128) -> Seq<char> {
    Seq::new(
        36,
        |i: int|
            if i == 8 || i == 13 || i == 18 || i == 23 {
                '-'
            } else {
                hex_digit(nibble(v, i - hyphens_before(i)))
            },
    )
}

/// The value of a random UUID: the digit of the version is four, and the digit of the variant
/// starts with the bits one and zero.
pub open spec fn is_random_uuid(v: u128) -> bool {
    nibble(v, 12) == 4 && 8 <= nibble(v, 16) <= 11
}

/// `uuid::Uuid::parse_str`: the value of a UUID text, where it is one.
#[verifier::external_body]
fn parse_text(s: &str) -> (r: Option<u128>)
    ensures
        r == uuid_value(s@),
{
    uuid::Uuid::parse_str(s).ok().map(|u| u.as_u128())
}

/// The `Display` form of `uuid::Uuid`: the canonical text, which parses back to the
/// value.
#[verifier::external_body]
fn format_value(v: u128) -> (r: String)
    ensures
        r@ == uuid_text(v),
        uuid_value(r@) == Some(v),
{
    uuid::Uuid::from_u128(v).to_string()
}

/// `uuid::Uuid::new_v4`: some value with the version and the variant of a random UUID. That it
/// is different at every call, with overwhelming probability, is not claimed.
#[verifier::external_body]
fn random_value() -> (r: u128)
    ensures
        is_random_uuid(r),
{
    uuid::Uuid::new_v4().as_u128()
}

/// `std::time::SystemTime::elapsed` since the Unix epoch, in whole seconds, or nothing
/// where the clock stands before the epoch; nothing is claimed of it.
#[verifier::external_body]
fn seconds_since_epoch() -> (r: Option<u64>) {
    std::time::UNIX_EPOCH.elapsed().ok().map(|d| d.as_secs())
}

/// The value of a UUID text.
pub fn parse_uuid(s: &str) -> (r: Option<u128>)
    ensures
        r == uuid_value(s@),
{
    parse_text(s)
}

/// The canonical text of a UUID.
pub fn uuid_string(v: u128) -> (r: String)
    ensures
        r@ == uuid_text(v),
        uuid_value(r@) == Some(v),
{
    format_value(v)
}

/// A fresh random identifier in canonical form.
pub fn new_id() -> (r: String)
    ensures
        uuid_value(r@) matches Some(v) && r@ == uuid_text(v) && is_random_uuid(v),
{
    let v: u128 = random_value();
    format_value(v)
}

/// A text in the canonical form of a UUID.
pub open spec fn is_canonical_uuid(s: Seq<char>) -> bool {
    uuid_value(s) matches Some(v) && s == uuid_text(v)
}

/// Whether a text is a UUID in canonical form.
pub fn canonical_uuid(s: &str) -> (r: bool)
    ensures
        r == is_canonical_uuid(s@),
{
    match parse_text(s) {
        None => false,
        Some(v) => {
            let text = format_value(v);
            same(text.as_str(), s)
        },
    }
}

/// A canonical UUID has thirty-six ASCII characters, none of which separates paths.
pub proof fn uuid_text_shape(v: u128)
    ensures
        uuid_text(v).len() == 36,
        byte_len(uuid_text(v)) == 36,
        forall|i: int|
            0 <= i < 36 ==> #[trigger] uuid_text(v)[i] == '-' || crate::digest::is_hex_digit(
                uuid_text(v)[i],
            ),
        !uuid_text(v).contains('/'),
{
    let s = uuid_text(v);
    assert forall|i: int| 0 <= i < 36 implies #[trigger] s[i] == '-' || crate::digest::is_hex_digit(
        s[i],
    ) by {
        if s[i] != '-' {
            let n = nibble(v, i - hyphens_before(i));
            assert(0 <= n < 16);
        }
    }
    byte_len_ascii(s);
}

/// Why the clock could not be used.
#[derive(Clone, Copy, Debug, PartialEq, Eq, Structural)]
pub enum ClockError {
    BeforeEpoch,
    OutsideRange,
}

impl ClockError {
    /// The text shown to an operator.
    pub fn message(&self) -> (r: &'static str)
        ensures
            r@ == match *self {
                ClockError::BeforeEpoch => "system clock is before the Unix epoch"@,
                ClockError::OutsideRange => "system clock is outside the supported range"@,
            },
    {
        match self {
            ClockError::BeforeEpoch => "system clock is before the Unix epoch",
            ClockError::OutsideRange => "system clock is outside the supported range",
        }
    }
}

/// The time stamp for a clock reading, or why there is none.
pub fn checked_time(elapsed: Option<u64>) -> (r: Result<i64, ClockError>)
    ensures
        r == match elapsed {
            None => Err::<i64, ClockError>(ClockError::BeforeEpoch),
            Some(s) => if s > i64::MAX {
                Err::<i64, ClockError>(ClockError::OutsideRange)
            } else {
                Ok::<i64, ClockError>(s as i64)
            },
        },
{
    match elapsed {
        None => Err(ClockError::BeforeEpoch),
        Some(s) => if s > i64::MAX as u64 {
            Err(ClockError::OutsideRange)
        } else {
            Ok(s as i64)
        },
    }
}

/// The time stamp for a clock reading; a clock before the epoch reads as the epoch, and
/// one beyond the range as the end of the range.
pub fn saturated_time(elapsed: Option<u64>) -> (r: i64)
    ensures
        r == match elapsed {
            None => 0i64,
            Some(s) => if s > i64::MAX {
                i64::MAX
            } else {
                s as i64
            },
        },
        r >= 0,
{
    match elapsed {
        None => 0,
        Some(s) => if s > i64::MAX as u64 {
            i64::MAX
        } else {
            s as i64
        },
    }
}

/// The present time, where the clock can be used.
pub fn current_unix_time() -> (r: Result<i64, ClockError>)
    ensures
        r matches Ok(now) ==> now >= 0,
{
    checked_time(seconds_since_epoch())
}

/// The present time.
pub fn unix_timestamp() -> (r: i64)
    ensures
        r >= 0,
{
    saturated_time(seconds_since_epoch())
}

} // verus!
