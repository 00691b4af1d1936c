//! The errors of the protocol engine.

use vstd::prelude::*;

verus! {

/// Why a string of hex digits could not be decoded.
#[derive(Debug, Clone, Copy, PartialEq, Eq)]
pub enum HexError {
    /// The byte `c`, at offset `index`, is no hex digit.
    InvalidHexCharacter { c: char, index: usize },
    /// The digits do not pair up into bytes.
    OddLength,
    /// The digits do not fill the container they were decoded into.
    InvalidStringLength,
}

/// Why a string is not an identifier.
#[derive(Debug, Clone, Copy, PartialEq, Eq)]
pub enum ParseError {
    /// The string is not made of hex digits.
    FromHex(HexError),
    /// The string decodes to this many bytes, which is not the identifier's size.
    VecWrongSize(usize),
}

/// Why an operation on the modem failed.
#[derive(Debug, Clone, PartialEq, Eq)]
pub enum Error {
    /// The modem sent bytes that are not UTF-8; the first `valid_up_to` of them are.
    Utf8 { valid_up_to: usize },
    /// The response does not have the expected frame or value; it is carried as received.
    UnexpectedResponse(String),
    /// The response did not end within the timeout; what had arrived is carried.
    PartialResponse(String),
    /// No serial port belongs to a USB device with these identifiers.
    PortNotFound { vid: u16, pid: u16 },
    /// An identifier sent by the modem could not be parsed.
    Parse(ParseError),
    /// The port took the first number of bytes where the second was handed to it.
    IncorrectWrite(usize, usize),
    /// A confirmed uplink was not acknowledged.
    Nack,
    /// The response, carried here, holds no line with signal data at the given place.
    FailedToParseRssiSnr(String),
    /// The RSSI in the response, carried here, is not an integer.
    FailedToParseRssiInt(String),
    /// The SNR in the response, carried here, is not a number.
    FailedToParseSnrF32(String),
    /// The string, carried here, names no data rate.
    InvalidDatarateStr(String),
}

} // verus!
