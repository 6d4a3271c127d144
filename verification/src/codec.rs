//! Text encodings of bytes: hexadecimal and URL-safe base64.
//!
//! The decoding itself is done by the `hex` and `base64` crates. What they
//! return is stated here and believed, not proved.

use vstd::prelude::*;
use vstd::string::StringSliceAdditionalSpecFns;

verus! {

/// Why text is not the hexadecimal form of bytes.
#[derive(Clone, Copy, Debug, PartialEq, Eq)]
pub enum HexError {
    /// A character that is no hexadecimal digit, and its index.
    InvalidHexCharacter { c: char, index: usize },
    /// An odd number of digits.
    OddLength,
    /// The digits do not fill a container of fixed size.
    InvalidStringLength,
}

/// Why text is not the base64 form of bytes.
#[derive(Clone, Copy, Debug, PartialEq, Eq)]
pub enum Base64Error {
    /// A byte outside the alphabet, with its offset.
    InvalidByte(usize, u8),
    /// A length that no encoding has, or one too large to decode.
    InvalidLength,
    /// A last symbol with bits that would be lost, with its offset.
    InvalidLastSymbol(usize, u8),
}

/// The value of a hexadecimal digit, in either case.
pub open spec fn hex_digit_value(b: u8) -> Option<u8> {
    if 48 <= b <= 57 {
        Some((b - 48) as u8)
    } else if 97 <= b <= 102 {
        Some((b - 87) as u8)
    } else if 65 <= b <= 70 {
        Some((b - 55) as u8)
    } else {
        None
    }
}

/// The index of the first byte from `from` on that is no hexadecimal digit,
/// or the length of `text` if there is none.
pub open spec fn first_bad_digit(text: Seq<u8>, from: int) -> int
    decreases text.len() - from,
{
    if 0 <= from < text.len() && hex_digit_value(text[from]) is Some {
        first_bad_digit(text, from + 1)
    } else {
        from
    }
}

/// The byte that the two digits at `2 * i` and `2 * i + 1` spell.
pub open spec fn hex_pair(text: Seq<u8>, i: int) -> u8 {
    (hex_digit_value(text[2 * i])->0 * 16 + hex_digit_value(text[2 * i + 1])->0) as u8
}

/// What hexadecimal text decodes to: one byte for each two digits, or the
/// first thing that is wrong with it.
pub open spec fn hex_decoding(text: Seq<u8>) -> Result<Seq<u8>, HexError> {
    if text.len() % 2 != 0 {
        Err(HexError::OddLength)
    } else if first_bad_digit(text, 0) < text.len() {
        Err(
            HexError::InvalidHexCharacter {
                c: text[first_bad_digit(text, 0)] as char,
                index: first_bad_digit(text, 0) as usize,
            },
        )
    } else {
        Ok(Seq::new(text.len() / 2, |i: int| hex_pair(text, i)))
    }
}

/// The bytes that URL-safe base64 text without padding decodes to, or what
/// is wrong with the text where it is no such encoding.
pub uninterp spec fn base64_url_decoding(text: Seq<char>) -> Result<Seq<u8>, Base64Error>;

/// `hex::decode` on the bytes of `text`. An odd length is refused first.
/// Then each two digits give one byte, the first digit the upper half; the
/// first byte that is no digit is reported with its index.
#[verifier::external_body]
pub(crate) fn decode_hex(text: &str) -> (r: Result<Vec<u8>, HexError>)
    ensures
        match r {
            Ok(bytes) => hex_decoding(text.spec_bytes()) == Ok::<Seq<u8>, HexError>(bytes@),
            Err(e) => hex_decoding(text.spec_bytes()) == Err::<Seq<u8>, HexError>(e),
        },
{
    match hex::decode(text) {
        Ok(bytes) => Ok(bytes),
        Err(hex::FromHexError::InvalidHexCharacter { c, index }) => Err(
            HexError::InvalidHexCharacter { c, index },
        ),
        Err(hex::FromHexError::OddLength) => Err(HexError::OddLength),
        Err(hex::FromHexError::InvalidStringLength) => Err(HexError::InvalidStringLength),
    }
}

/// `base64::decode_config` with `URL_SAFE_NO_PAD`. To size its output it
/// adds up to 7 to the length of the text, and panics if that overflows.
#[verifier::external_body]
pub(crate) fn decode_base64_url(text: &str) -> (r: Result<Vec<u8>, Base64Error>)
    requires
        text.spec_bytes().len() + 7 <= usize::MAX,
    ensures
        match r {
            Ok(bytes) => base64_url_decoding(text@) == Ok::<Seq<u8>, Base64Error>(bytes@),
            Err(e) => base64_url_decoding(text@) == Err::<Seq<u8>, Base64Error>(e),
        },
{
    match base64::decode_config(text, base64::URL_SAFE_NO_PAD) {
        Ok(bytes) => Ok(bytes),
        Err(base64::DecodeError::InvalidByte(at, byte)) => Err(Base64Error::InvalidByte(at, byte)),
        Err(base64::DecodeError::InvalidLength) => Err(Base64Error::InvalidLength),
        Err(base64::DecodeError::InvalidLastSymbol(at, byte)) => Err(
            Base64Error::InvalidLastSymbol(at, byte),
        ),
    }
}

} // verus!
