//! Client identifiers: 128-bit values written in the hyphenated
//! `8-4-4-4-12` hexadecimal form, and freshly drawn random identifiers.
use vstd::prelude::*;
use vstd::string::*;

verus! {

/// A client identifier, the 128-bit value of the client's UUID.
pub type ClientId = u128;

/// Whether `b` is an ASCII hexadecimal digit, in either case.
pub open spec fn is_hex_digit(b: u8) -> bool {
    (48 <= b <= 57) || (97 <= b <= 102) || (65 <= b <= 70)
}

/// The value of the hexadecimal digit `b`.
pub open spec fn hex_digit_value(b: u8) -> nat {
    if 48 <= b <= 57 {
        (b - 48) as nat
    } else if 97 <= b <= 102 {
        (b - 87) as nat
    } else {
        (b - 55) as nat
    }
}

/// The number written by the hexadecimal digits `digits`, most significant first.
pub open spec fn hex_value(digits: Seq<u8>) -> nat
    decreases digits.len(),
{
    if digits.len() == 0 {
        0
    } else {
        hex_value(digits.drop_last()) * 16 + hex_digit_value(digits.last())
    }
}

/// The 32 digit positions of a 36-byte hyphenated identifier, hyphens left out.
pub open spec fn id_digits(text: Seq<u8>) -> Seq<u8> {
    text.subrange(0, 8) + text.subrange(9, 13) + text.subrange(14, 18) + text.subrange(19, 23)
        + text.subrange(24, 36)
}

/// Whether `text` is a hyphenated identifier: 36 bytes, hyphens at 8, 13, 18
/// and 23, hexadecimal digits everywhere else.
pub open spec fn is_hyphenated_id(text: Seq<u8>) -> bool {
    &&& text.len() == 36
    &&& text[8] == 45u8 && text[13] == 45u8 && text[18] == 45u8 && text[23] == 45u8
    &&& forall|i: int| 0 <= i < 32 ==> #[trigger] is_hex_digit(id_digits(text)[i])
}

/// Whether `id` carries the version and variant bits of a random (version 4)
/// UUID: version nibble 4, variant bits `10`.
pub open spec fn is_random_v4(id: u128) -> bool {
    &&& (id >> 76u128) & 0xfu128 == 4
    &&& (id >> 62u128) & 3u128 == 2
}

/// The text of the error that `uuid::Uuid::parse_str` reports for `text`
/// (its `Display`), which depends on the bytes of `text` alone.
pub uninterp spec fn uuid_error_text(text: Seq<u8>) -> Seq<char>;

/// Parses a 36-byte identifier with `uuid::Uuid::parse_str` and takes the
/// result's 128-bit value (`Uuid::as_u128`, big-endian over its bytes), or
/// the text of the error it reports. Claimed of the crate: on 36 bytes it
/// accepts exactly the hyphenated form, either case of hexadecimal digit, and
/// reads the 32 digits as one hexadecimal number; the error text is named,
/// not spelled out.
#[verifier::external_body]
pub(crate) fn parse_hyphenated_id(text: &str) -> (parsed: Result<ClientId, String>)
    requires
        text.spec_bytes().len() == 36,
    ensures
        parsed is Ok <==> is_hyphenated_id(text.spec_bytes()),
        parsed matches Ok(id) ==> id as nat == hex_value(id_digits(text.spec_bytes())),
        parsed matches Err(message) ==> message@ == uuid_error_text(text.spec_bytes()),
{
    match uuid::Uuid::parse_str(text) {
        Ok(parsed) => Ok(parsed.as_u128()),
        Err(e) => Err(e.to_string()),
    }
}

/// Draws a random identifier with `uuid::Uuid::new_v4` and takes its 128-bit
/// value. Claimed of the crate: the random bits are masked so that the
/// version nibble is 4 and the variant bits are `10`; nothing else is known
/// of the value.
#[verifier::external_body]
pub(crate) fn random_v4_id() -> (id: ClientId)
    ensures
        is_random_v4(id),
{
    uuid::Uuid::new_v4().as_u128()
}

} // verus!
