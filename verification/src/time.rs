//! Instants (milliseconds since the Unix epoch, UTC), session identifiers,
//! and the decimal and clock texts built from them.
use vstd::prelude::*;
use crate::text::push_char;

verus! {

/// Earliest instant a `chrono::DateTime<Utc>` can hold, in milliseconds
/// (1 January of year -262143, midnight).
pub const MIN_UTC_MILLIS: i64 = -8334601315200000;

/// Latest instant a `chrono::DateTime<Utc>` can hold, in whole milliseconds
/// (31 December of year 262142, 23:59:59.999).
pub const MAX_UTC_MILLIS: i64 = 8210266876799999;

/// `ms` is an instant that `chrono::DateTime<Utc>` can represent.
pub open spec fn in_utc_range(ms: int) -> bool {
    MIN_UTC_MILLIS <= ms <= MAX_UTC_MILLIS
}

/// Milliseconds per day.
pub open spec fn day_millis() -> int {
    86400000
}

/// Two decimal digits of `n` (0..=99).
pub open spec fn two_digits(n: int) -> Seq<char> {
    seq![(48 + n / 10) as char, (48 + n % 10) as char]
}

/// The `%H:%M:%S` text of the UTC time of day at instant `ms`.
pub open spec fn clock_text(ms: int) -> Seq<char> {
    let secs = (ms % day_millis()) / 1000;
    two_digits(secs / 3600) + seq![':'] + two_digits((secs / 60) % 60) + seq![':'] + two_digits(
        secs % 60,
    )
}

/// The decimal digits of `n`, without sign or leading zeros.
pub open spec fn decimal(n: nat) -> Seq<char>
    decreases n,
{
    if n < 10 {
        seq![(48 + n) as char]
    } else {
        decimal(n / 10).push((48 + n % 10) as char)
    }
}

/// `n` as `Display` for an integer writes it.
pub open spec fn signed_decimal(n: int) -> Seq<char> {
    if n < 0 {
        seq!['-'] + decimal((-n) as nat)
    } else {
        decimal(n as nat)
    }
}

/// Lower-case hexadecimal digit of `n` (0..=15).
pub open spec fn hex_digit(n: int) -> char {
    if n < 10 {
        (48 + n) as char
    } else {
        (87 + n) as char
    }
}

/// The last `count` hexadecimal digits of `v`, most significant first.
pub open spec fn hex_digits(v: nat, count: nat) -> Seq<char>
    decreases count,
{
    if count == 0 {
        seq![]
    } else {
        hex_digits(v / 16, (count - 1) as nat).push(hex_digit((v % 16) as int))
    }
}

/// The hyphenated lower-case text of a UUID (8-4-4-4-12 digits).
pub open spec fn uuid_text(id: u128) -> Seq<char> {
    let h = hex_digits(id as nat, 32);
    h.subrange(0, 8) + seq!['-'] + h.subrange(8, 12) + seq!['-'] + h.subrange(12, 16) + seq!['-']
        + h.subrange(16, 20) + seq!['-'] + h.subrange(20, 32)
}

/// The fixed bits of a version-4, RFC 4122 variant UUID.
pub open spec fn is_random_uuid(id: u128) -> bool {
    id & 0xF000_C000_0000_0000_0000u128 == 0x4000_8000_0000_0000_0000u128
}

/// What `NaiveDateTime::parse_from_str(text, format)` parses, as
/// milliseconds since the epoch taken as UTC; `None` where it fails.
pub uninterp spec fn parsed_utc_millis(text: Seq<char>, format: Seq<char>) -> Option<i64>;

/// What `Uuid::parse_str` parses, as the UUID's 128-bit value.
pub uninterp spec fn parsed_uuid(text: Seq<char>) -> Option<u128>;

#[verifier::external_type_specification]
#[verifier::external_body]
pub struct ExChronoParseError(chrono::format::ParseError);

/// The current time in milliseconds: `SystemTime::now()` converted with
/// chrono's `DateTime::<Utc>::from`, which, unlike `Utc::now`, also takes a
/// clock set before 1970 (giving a negative instant). All that is stated of
/// the value is that chrono can represent it. The conversion would panic
/// only for a clock more than 262 000 years away from 1970, which the
/// system clock cannot hold (Linux keeps real time as 64-bit nanoseconds,
/// within about 292 years of 1970).
#[verifier::external_body]
pub(crate) fn now_millis() -> (r: i64)
    ensures
        in_utc_range(r as int),
{
    chrono::DateTime::<chrono::Utc>::from(std::time::SystemTime::now()).timestamp_millis()
}

/// `chrono::NaiveDateTime::parse_from_str(text, format)`, taken as UTC and
/// given in milliseconds since the epoch. The result is named
/// `parsed_utc_millis`. With the format `%Y%m%d %H%M%S` and a text that
/// ends in `00`, a parsed instant has second 0 (no leap second) and a date
/// that chrono holds, so it is in chrono's range; for other texts and
/// formats nothing is stated of the range.
#[verifier::external_body]
pub(crate) fn parse_utc_millis(text: &str, format: &str) -> (r: Result<i64, chrono::format::ParseError>)
    ensures
        r is Ok <==> parsed_utc_millis(text@, format@) is Some,
        r matches Ok(ms) ==> parsed_utc_millis(text@, format@) == Some(ms),
        r matches Ok(ms) ==> (format@ == "%Y%m%d %H%M%S"@ && text@.len() >= 2 && text@[text@.len()
            - 1] == '0' && text@[text@.len() - 2] == '0' ==> in_utc_range(ms as int)),
{
    chrono::NaiveDateTime::parse_from_str(text, format).map(|t| t.and_utc().timestamp_millis())
}

/// `ParseError::to_string`: chrono's description of a parse failure. What
/// the text says is not stated.
#[verifier::external_body]
pub(crate) fn parse_error_text(e: &chrono::format::ParseError) -> String {
    e.to_string()
}

/// `DateTime::<Utc>::from_timestamp_millis(ms)` formatted with `format`,
/// which is held to `%H:%M:%S` (a format item that chrono cannot render
/// would make `to_string` panic). The text is the two-digit hour, minute
/// and second of the UTC time of day (`clock_text`).
#[verifier::external_body]
pub(crate) fn format_utc_millis(ms: i64, format: &str) -> (r: String)
    requires
        in_utc_range(ms as int),
        format@ == "%H:%M:%S"@,
    ensures
        r@ == clock_text(ms as int),
{
    chrono::DateTime::from_timestamp_millis(ms).unwrap().format(format).to_string()
}

/// The `%H:%M:%S` label of an instant.
pub fn clock_label(ms: i64) -> (r: String)
    requires
        in_utc_range(ms as int),
    ensures
        r@ == clock_text(ms as int),
{
    format_utc_millis(ms, "%H:%M:%S")
}

/// `Uuid::new_v4().as_u128()`: a fresh random identifier. Its value is
/// left open except for the version and variant bits that `new_v4` sets.
#[verifier::external_body]
pub(crate) fn new_session_id() -> (r: u128)
    ensures
        is_random_uuid(r),
{
    uuid::Uuid::new_v4().as_u128()
}

/// `Uuid::parse_str(text)`, as the UUID's value; the result is named
/// `parsed_uuid`. The hyphenated lower-case text of a UUID parses back to
/// that UUID.
#[verifier::external_body]
pub(crate) fn parse_session_id(text: &str) -> (r: Option<u128>)
    ensures
        r == parsed_uuid(text@),
        forall|id: u128| #[trigger] uuid_text(id) == text@ ==> r == Some(id),
{
    uuid::Uuid::parse_str(text).ok().map(|u| u.as_u128())
}

/// `Uuid::from_u128(id).to_string()`: the hyphenated lower-case form.
#[verifier::external_body]
pub(crate) fn session_id_text(id: u128) -> (r: String)
    ensures
        r@ == uuid_text(id),
{
    uuid::Uuid::from_u128(id).to_string()
}

/// Appends the decimal digits of `n`.
pub fn push_decimal(out: &mut String, n: u64)
    ensures
        final(out)@ == old(out)@ + decimal(n as nat),
    decreases n,
{
    if n >= 10 {
        push_decimal(out, n / 10);
    }
    push_char(out, digit_char(n % 10));
}

/// The ASCII digit for `d` (0..=9).
fn digit_char(d: u64) -> (c: char)
    requires
        d < 10,
    ensures
        c == (48 + d) as char,
{
    if d == 0 {
        '0'
    } else if d == 1 {
        '1'
    } else if d == 2 {
        '2'
    } else if d == 3 {
        '3'
    } else if d == 4 {
        '4'
    } else if d == 5 {
        '5'
    } else if d == 6 {
        '6'
    } else if d == 7 {
        '7'
    } else if d == 8 {
        '8'
    } else {
        '9'
    }
}

/// Appends `n` as `Display` writes it.
pub fn push_signed_decimal(out: &mut String, n: i64)
    ensures
        final(out)@ == old(out)@ + signed_decimal(n as int),
{
    if n < 0 {
        push_char(out, '-');
        let m: u64 = if n == i64::MIN {
            9223372036854775808u64
        } else {
            (-n) as u64
        };
        push_decimal(out, m);
        assert(final(out)@ =~= old(out)@ + signed_decimal(n as int));
    } else {
        push_decimal(out, n as u64);
    }
}

} // verus!
