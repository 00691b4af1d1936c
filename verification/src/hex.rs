//! Hexadecimal text: what the `hex` crate's functions return, stated as
//! specification functions, and the calls into that crate.

use crate::error::HexError;
use crate::text::ascii_chars;
use vstd::prelude::*;

verus! {

/// The byte is one of `0`-`9`, `a`-`f`, `A`-`F`.
pub open spec fn is_hex_digit(b: u8) -> bool {
    (0x30 <= b <= 0x39) || (0x41 <= b <= 0x46) || (0x61 <= b <= 0x66)
}

/// The number, 0 to 15, that a hex digit stands for.
pub open spec fn hex_value(b: u8) -> int {
    if 0x30 <= b <= 0x39 {
        b - 0x30
    } else if 0x41 <= b <= 0x46 {
        b - 0x41 + 10
    } else {
        b - 0x61 + 10
    }
}

/// The digit for a number from 0 to 15, with `a`-`f` in lower case.
pub open spec fn lower_digit(v: int) -> u8 {
    if v < 10 {
        (0x30 + v) as u8
    } else {
        (0x61 + v - 10) as u8
    }
}

/// The digit for a number from 0 to 15, with `A`-`F` in upper case.
pub open spec fn upper_digit(v: int) -> u8 {
    if v < 10 {
        (0x30 + v) as u8
    } else {
        (0x41 + v - 10) as u8
    }
}

/// The upper-case form of an ASCII byte.
pub open spec fn to_upper(b: u8) -> u8 {
    if 0x61 <= b <= 0x7a {
        (b - 0x20) as u8
    } else {
        b
    }
}

/// Every byte is a hex digit.
pub open spec fn all_hex(digits: Seq<u8>) -> bool {
    forall|i: int| 0 <= i < digits.len() ==> is_hex_digit(#[trigger] digits[i])
}

/// `index` is the offset of the first byte that is no hex digit.
pub open spec fn first_bad_digit(digits: Seq<u8>, index: int) -> bool {
    &&& 0 <= index < digits.len()
    &&& !is_hex_digit(digits[index])
    &&& forall|j: int| 0 <= j < index ==> is_hex_digit(#[trigger] digits[j])
}

/// The bytes that an even number of hex digits stand for, two digits a byte,
/// the high half first.
pub open spec fn decoded(digits: Seq<u8>) -> Seq<u8> {
    Seq::new(
        digits.len() / 2,
        |i: int| (16 * hex_value(digits[2 * i]) + hex_value(digits[2 * i + 1])) as u8,
    )
}

/// The digits of `data` as bytes, two for each byte of it, in lower case.
pub open spec fn encoded_lower(data: Seq<u8>) -> Seq<u8> {
    Seq::new(
        2 * data.len(),
        |i: int|
            if i % 2 == 0 {
                lower_digit((data[i / 2] / 16) as int)
            } else {
                lower_digit((data[i / 2] % 16) as int)
            },
    )
}

/// The digits of `data` as bytes, two for each byte of it, in upper case.
pub open spec fn encoded_upper(data: Seq<u8>) -> Seq<u8> {
    Seq::new(
        2 * data.len(),
        |i: int|
            if i % 2 == 0 {
                upper_digit((data[i / 2] / 16) as int)
            } else {
                upper_digit((data[i / 2] % 16) as int)
            },
    )
}

/// Calls `hex::encode`, which writes each byte as two digits, the high half
/// first, with `a`-`f` in lower case.
#[verifier::external_body]
pub(crate) fn encode(data: &[u8]) -> (r: String)
    ensures
        r@ == ascii_chars(encoded_lower(data@)),
{
    hex::encode(data)
}

/// Calls `hex::encode_upper`, which writes each byte as two digits, the high
/// half first, with `A`-`F` in upper case.
#[verifier::external_body]
pub(crate) fn encode_upper(data: &[u8]) -> (r: String)
    ensures
        r@ == ascii_chars(encoded_upper(data@)),
{
    hex::encode_upper(data)
}

/// Calls `hex::decode`. It refuses an odd number of bytes; else it reads the
/// bytes in pairs from the left and stops at the first byte that is no hex
/// digit, which it reports with its offset; else it returns the bytes that
/// the digits stand for.
#[verifier::external_body]
pub(crate) fn decode(digits: &[u8]) -> (r: Result<Vec<u8>, HexError>)
    ensures
        match r {
            Ok(v) => digits@.len() % 2 == 0 && all_hex(digits@) && v@ == decoded(digits@),
            Err(HexError::OddLength) => digits@.len() % 2 == 1,
            Err(HexError::InvalidHexCharacter { c, index }) => {
                &&& digits@.len() % 2 == 0
                &&& first_bad_digit(digits@, index as int)
                &&& c == digits@[index as int] as char
            },
            Err(HexError::InvalidStringLength) => false,
        },
{
    match hex::decode(digits) {
        Ok(v) => Ok(v),
        Err(hex::FromHexError::OddLength) => Err(HexError::OddLength),
        Err(hex::FromHexError::InvalidHexCharacter { c, index }) => {
            Err(HexError::InvalidHexCharacter { c, index })
        },
        Err(hex::FromHexError::InvalidStringLength) => Err(HexError::InvalidStringLength),
    }
}

} // verus!
