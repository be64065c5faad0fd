//! Identifiers. Every UUID of the service is held as its 128-bit value
//! (`Uuid::as_u128`), which orders exactly as the UUID's bytes do.

use vstd::prelude::*;

use crate::text::same_ignoring_ascii_case;

verus! {

/// The value of a hexadecimal digit, in either case.
pub open spec fn hex_digit_value(c: char) -> Option<nat> {
    if '0' <= c <= '9' {
        Some((c as nat - '0' as nat) as nat)
    } else if 'a' <= c <= 'f' {
        Some((c as nat - 'a' as nat + 10) as nat)
    } else if 'A' <= c <= 'F' {
        Some((c as nat - 'A' as nat + 10) as nat)
    } else {
        None
    }
}

/// Every character is a hexadecimal digit.
pub open spec fn all_hex(s: Seq<char>) -> bool {
    forall|i: int| 0 <= i < s.len() ==> (#[trigger] hex_digit_value(s[i])) is Some
}

/// The number that hexadecimal digits write, most significant first.
pub open spec fn hex_number(s: Seq<char>) -> nat
    decreases s.len(),
{
    if s.len() == 0 {
        0
    } else {
        hex_number(s.drop_last()) * 16 + hex_digit_value(s.last()).unwrap_or(0)
    }
}

/// The 32 digits of the hyphenated form `8-4-4-4-12`, or `None` where a
/// hyphen is missing or the length is not 36.
pub open spec fn hyphenated_digits(s: Seq<char>) -> Option<Seq<char>> {
    if s.len() == 36 && s[8] == '-' && s[13] == '-' && s[18] == '-' && s[23] == '-' {
        Some(s.subrange(0, 8) + s.subrange(9, 13) + s.subrange(14, 18) + s.subrange(19, 23) + s.subrange(24, 36))
    } else {
        None
    }
}

/// The 32 digits of a UUID text: 32 digits alone; the hyphenated form; the
/// hyphenated form in braces; or the hyphenated form after `urn:uuid:`,
/// that prefix in any ASCII case. `None` for any other shape.
pub open spec fn uuid_digits(s: Seq<char>) -> Option<Seq<char>> {
    if s.len() == 32 {
        Some(s)
    } else if s.len() == 36 {
        hyphenated_digits(s)
    } else if s.len() == 38 && s[0] == '{' && s[37] == '}' {
        hyphenated_digits(s.subrange(1, 37))
    } else if s.len() == 45 && same_ignoring_ascii_case(s.subrange(0, 9), "urn:uuid:"@) {
        hyphenated_digits(s.subrange(9, 45))
    } else {
        None
    }
}

/// The 128-bit value of a UUID text, its digits read as one big-endian
/// number, or `None` where the text is no UUID.
pub open spec fn uuid_text_value(s: Seq<char>) -> Option<u128> {
    match uuid_digits(s) {
        Some(d) => if all_hex(d) {
            Some(hex_number(d) as u128)
        } else {
            None
        },
        None => None,
    }
}

/// Parses a UUID in any of the text forms that `uuid::Uuid::parse_str`
/// accepts (simple, hyphenated, braced, urn).
///
/// Trusted: calls `uuid::Uuid::parse_str` and `Uuid::as_u128`. The crate's
/// parser takes a text of 32 hexadecimal digits, of 36 characters with
/// hyphens at 8, 13, 18 and 23, the latter in braces, or after `urn:uuid:`
/// in any ASCII case; digits are taken in either case, and `as_u128` reads
/// the 16 bytes they make as one big-endian number.
#[verifier::external_body]
pub(crate) fn parse_uuid(text: &str) -> (result: Option<u128>)
    ensures
        result == uuid_text_value(text@),
{
    match uuid::Uuid::parse_str(text) {
        Ok(id) => Some(id.as_u128()),
        Err(_) => None,
    }
}

/// Draws a fresh random (version 4) UUID.
///
/// Trusted: calls `uuid::Uuid::new_v4`; nothing is claimed of the value.
#[verifier::external_body]
pub(crate) fn random_uuid() -> (result: u128) {
    uuid::Uuid::new_v4().as_u128()
}

} // verus!
