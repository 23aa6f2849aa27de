//! Calls into `uuid`, `chrono`, `serde_json` and the parts of `std` that have
//! no specification in vstd. Each function here is trusted: its contract is
//! what the called function's documentation and source show, and Verus does
//! not check it.

use vstd::arithmetic::power::pow;
use vstd::prelude::*;

use crate::model::UtcTime;

verus! {

/// The 128-bit value of the UUID that `uuid::Uuid::parse_str` reads from
/// `text`, or `None` where it reports an error.
pub uninterp spec fn spec_uuid_parse(text: Seq<char>) -> Option<u128>;

/// The lower-case hexadecimal digit for a value below 16.
pub open spec fn hex_digit(n: int) -> char {
    if n < 10 {
        ('0' as int + n) as char
    } else {
        ('a' as int + (n - 10)) as char
    }
}

/// The `k`-th of the 32 hexadecimal digits of `id`, most significant first.
pub open spec fn uuid_digit(id: u128, k: int) -> char {
    hex_digit((id as int / pow(16, (31 - k) as nat)) % 16)
}

/// Where the character at position `i` of the hyphenated form comes from
/// among the 32 digits (the hyphens stand at 8, 13, 18 and 23).
pub open spec fn uuid_digit_index(i: int) -> int {
    if i < 8 {
        i
    } else if i < 13 {
        i - 1
    } else if i < 18 {
        i - 2
    } else if i < 23 {
        i - 3
    } else {
        i - 4
    }
}

/// The hyphenated text of a UUID: its 32 lower-case hexadecimal digits, most
/// significant first, in groups of 8, 4, 4, 4 and 12 joined by hyphens.
pub open spec fn uuid_hyphenated(id: u128) -> Seq<char> {
    Seq::new(
        36,
        |i: int|
            if i == 8 || i == 13 || i == 18 || i == 23 {
                '-'
            } else {
                uuid_digit(id, uuid_digit_index(i))
            },
    )
}

/// The instant that `chrono::DateTime::parse_from_rfc3339` reads from `text`,
/// converted to UTC, or `None` where it reports an error.
pub uninterp spec fn spec_rfc3339_instant(text: Seq<char>) -> Option<UtcTime>;

/// The text that `chrono::DateTime::<Utc>::to_rfc3339` writes for the instant
/// built by `chrono::DateTime::from_timestamp(at.secs, at.nanos)`, or `None`
/// where `from_timestamp` yields no instant.
pub uninterp spec fn spec_rfc3339_text(at: UtcTime) -> Option<Seq<char>>;

/// The list that `serde_json::from_str::<Vec<String>>` reads from `text`, or
/// `None` where it reports an error.
pub uninterp spec fn spec_json_strings(text: Seq<char>) -> Option<Seq<Seq<char>>>;

/// The JSON text that `serde_json::to_string` writes for a list of strings.
pub uninterp spec fn spec_json_text(items: Seq<Seq<char>>) -> Seq<char>;

/// Whether `c` has the Unicode `White_Space` property: the code points
/// U+0009 to U+000D, U+0020, U+0085, U+00A0, U+1680, U+2000 to U+200A,
/// U+2028, U+2029, U+202F, U+205F and U+3000.
pub open spec fn white_space(c: char) -> bool {
    let n = c as int;
    ||| 0x09 <= n <= 0x0d
    ||| n == 0x20
    ||| n == 0x85
    ||| n == 0xa0
    ||| n == 0x1680
    ||| 0x2000 <= n <= 0x200a
    ||| n == 0x2028
    ||| n == 0x2029
    ||| n == 0x202f
    ||| n == 0x205f
    ||| n == 0x3000
}

/// What `str::to_lowercase` returns for `text` (the Unicode lower-case mapping).
pub uninterp spec fn spec_lowercase(text: Seq<char>) -> Seq<char>;

/// Parses a UUID with `uuid::Uuid::parse_str` and returns its 128-bit value
/// (`Uuid::as_u128`). The contract names the result and claims nothing more.
#[verifier::external_body]
pub(crate) fn uuid_parse(text: &str) -> (r: Option<u128>)
    ensures
        r == spec_uuid_parse(text@),
{
    match uuid::Uuid::parse_str(text) {
        Ok(id) => Some(id.as_u128()),
        Err(_) => None,
    }
}

/// Writes the UUID with this 128-bit value (`Uuid::from_u128`, which takes
/// the value's bytes most significant first) with its `Display`, which writes
/// the lower-case hyphenated form. The contract states that text and claims
/// that `parse_str` reads the value back, as the crate documents that it
/// parses every format the crate writes.
#[verifier::external_body]
pub(crate) fn uuid_text(id: u128) -> (r: String)
    ensures
        r@ == uuid_hyphenated(id),
        spec_uuid_parse(r@) == Some(id),
{
    uuid::Uuid::from_u128(id).to_string()
}

/// Parses an RFC 3339 date and time with `chrono::DateTime::parse_from_rfc3339`,
/// converts it to UTC and returns its seconds (`timestamp`) and nanoseconds
/// (`timestamp_subsec_nanos`). The contract names the result and claims nothing more.
#[verifier::external_body]
pub(crate) fn rfc3339_parse(text: &str) -> (r: Option<UtcTime>)
    ensures
        r == spec_rfc3339_instant(text@),
{
    match chrono::DateTime::parse_from_rfc3339(text) {
        Ok(at) => {
            let utc = at.with_timezone(&chrono::Utc);
            Some(UtcTime { secs: utc.timestamp(), nanos: utc.timestamp_subsec_nanos() })
        },
        Err(_) => None,
    }
}

/// Whether the instant falls in the years 0000 to 9999 (from
/// 0000-01-01T00:00:00Z to 9999-12-31T23:59:59Z and its fractions), the
/// years that RFC 3339 writes with four digits.
pub open spec fn four_digit_year(at: UtcTime) -> bool {
    -62_167_219_200 <= at.secs <= 253_402_300_799
}

/// Whether `chrono::DateTime::from_timestamp` yields an instant: the
/// seconds fall between -262143-01-01T00:00:00Z and 262142-12-31T23:59:59Z
/// (chrono's date range), and the nanoseconds are below one second, or below
/// two seconds on the last second of a minute (a leap second).
pub open spec fn chrono_represents(at: UtcTime) -> bool {
    &&& -8_334_601_228_800 <= at.secs <= 8_210_266_876_799
    &&& (at.nanos < 1_000_000_000 || (at.nanos < 2_000_000_000 && at.secs % 60 == 59))
}

/// Builds the instant with `chrono::DateTime::from_timestamp` and writes it
/// with `to_rfc3339`. The contract names the text and claims two facts of
/// the source: `from_timestamp` yields an instant exactly on chrono's date
/// range with valid nanoseconds, and in the years 0000 to 9999 `to_rfc3339`
/// writes the year with four digits, the fraction with as many digits as it
/// needs and the offset `+00:00`, which `parse_from_rfc3339` reads back as
/// the same instant (a leap second as second 60). Outside those years the
/// year is written with a sign, which `parse_from_rfc3339` refuses.
#[verifier::external_body]
pub(crate) fn rfc3339_text(at: UtcTime) -> (r: Option<String>)
    ensures
        match r {
            Some(text) => spec_rfc3339_text(at) == Some(text@),
            None => spec_rfc3339_text(at) is None,
        },
        r is Some <==> chrono_represents(at),
        r matches Some(text) ==> (four_digit_year(at) ==> spec_rfc3339_instant(text@) == Some(at)),
{
    match chrono::DateTime::from_timestamp(at.secs, at.nanos) {
        Some(instant) => Some(instant.to_rfc3339()),
        None => None,
    }
}

/// Reads a JSON array of strings with `serde_json::from_str::<Vec<String>>`.
/// The contract names the result and claims nothing more.
#[verifier::external_body]
pub(crate) fn json_strings(text: &str) -> (r: Option<Vec<String>>)
    ensures
        match r {
            Some(items) => spec_json_strings(text@) == Some(items.deep_view()),
            None => spec_json_strings(text@) is None,
        },
{
    match serde_json::from_str::<Vec<String>>(text) {
        Ok(items) => Some(items),
        Err(_) => None,
    }
}

/// Writes a list of strings as JSON with `serde_json::to_string`. The
/// contract claims that this succeeds (the crate fails only on a failing
/// `Serialize` impl or on maps with non-string keys) and that
/// `serde_json::from_str::<Vec<String>>` reads the same list back (strings
/// are written escaped and read unescaped).
#[verifier::external_body]
pub(crate) fn json_text(items: &Vec<String>) -> (r: Option<String>)
    ensures
        r is Some,
        r matches Some(text) ==> text@ == spec_json_text(items.deep_view()) && spec_json_strings(
            text@,
        ) == Some(items.deep_view()),
{
    match serde_json::to_string(items) {
        Ok(text) => Some(text),
        Err(_) => None,
    }
}

/// `char::is_whitespace`, which its documentation defines as the Unicode
/// `White_Space` property of the Unicode Character Database; the contract
/// states the code points that property lists.
#[verifier::external_body]
pub(crate) fn is_whitespace(c: char) -> (r: bool)
    ensures
        r == white_space(c),
{
    c.is_whitespace()
}

/// `str::to_lowercase`. The contract names the result; it also claims that
/// the empty text stays empty, as every character maps to at least one.
#[verifier::external_body]
pub(crate) fn lowercase(text: &str) -> (r: String)
    ensures
        r@ == spec_lowercase(text@),
        text@.len() == 0 ==> r@.len() == 0,
{
    text.to_lowercase()
}

} // verus!
