//! The signal data of a downlink, as the modem reports it after an uplink.
//!
//! The modem writes one line for the receive window in which a downlink
//! came, such as `+CMSGHEX: RXWIN1, RSSI -79, SNR 7.0`.

use crate::error::Error;
use crate::number::{integer_in_isize, is_number, lemma_number_is_ascii, number, parse_isize};
use crate::text::{ascii_chars, ascii_string, find, index_of, occurs};
use vstd::prelude::*;
use vstd::slice::*;
use vstd::string::*;
use vstd::utf8::*;

verus! {

/// What the modem heard of a downlink.
#[derive(Debug, Clone, PartialEq, Eq)]
pub struct Downlink {
    /// The received signal strength, in dBm.
    pub rssi: isize,
    /// The signal-to-noise ratio, in dB, in the modem's own writing: a
    /// number with a decimal point, which a floating-point type reads.
    pub snr: String,
}

/// The end of a line of the modem.
pub open spec fn line_end() -> Seq<u8> {
    "\r\n".spec_bytes()
}

/// What stands between two fields of a line.
pub open spec fn separator() -> Seq<u8> {
    ", ".spec_bytes()
}

/// The width of what stands from the marker of a receive window up to the
/// name of the first field.
pub open spec fn marker_width() -> int {
    ", RSSI ".spec_bytes().len() as int
}

/// The width of the name of the first field, with the blanks around it.
pub open spec fn rssi_width() -> int {
    " RSSI ".spec_bytes().len() as int
}

/// The width of the name of the second field, with what stands around it.
pub open spec fn snr_width() -> int {
    ", SNR ".spec_bytes().len() as int
}

/// The texts of the RSSI and of the SNR in the line of `response` that
/// begins at `at`.
///
/// The line runs from `at` to the first line end behind it. Its first
/// `marker_width()` bytes are dropped. What is left is parted at its first
/// separator; of the left half the first `rssi_width()` bytes are dropped,
/// of the right half, which begins with the separator, the first
/// `snr_width()`. There are no fields where `at` is not in `response`,
/// where a line end or a separator is missing, or where there is less to
/// drop than the width.
pub open spec fn signal_fields(response: Seq<u8>, at: int) -> Option<(Seq<u8>, Seq<u8>)> {
    if at < 0 || at > response.len() {
        None
    } else {
        let rest = response.subrange(at, response.len() as int);
        match index_of(rest, line_end()) {
            None => None,
            Some(end) => {
                let line = rest.subrange(0, end);
                if line.len() < marker_width() {
                    None
                } else {
                    let signal = line.subrange(marker_width(), line.len() as int);
                    match index_of(signal, separator()) {
                        None => None,
                        Some(cut) => {
                            let left = signal.subrange(0, cut);
                            let right = signal.subrange(cut, signal.len() as int);
                            if left.len() < rssi_width() || right.len() < snr_width() {
                                None
                            } else {
                                Some(
                                    (
                                        left.subrange(rssi_width(), left.len() as int),
                                        right.subrange(snr_width(), right.len() as int),
                                    ),
                                )
                            }
                        },
                    }
                }
            },
        }
    }
}

/// `outcome` is what reading the signal data at `at` in `response` gives.
///
/// The fields must be there, the RSSI must be an integer that an `isize`
/// holds, and the SNR must be a number; the first of these that fails is
/// the error, and every error carries the whole response.
pub open spec fn signal_read(response: Seq<u8>, at: int, outcome: Result<(isize, String), Error>) -> bool {
    let fields = signal_fields(response, at);
    match outcome {
        Ok((rssi, snr)) => {
            &&& fields matches Some((left, right))
            &&& integer_in_isize(left) == Some(rssi)
            &&& is_number(right)
            &&& snr@ == ascii_chars(right)
        },
        Err(Error::FailedToParseRssiSnr(seen)) => fields is None && encode_utf8(seen@) == response,
        Err(Error::FailedToParseRssiInt(seen)) => {
            &&& fields matches Some((left, right))
            &&& integer_in_isize(left) is None
            &&& encode_utf8(seen@) == response
        },
        Err(Error::FailedToParseSnrF32(seen)) => {
            &&& fields matches Some((left, right))
            &&& integer_in_isize(left) is Some
            &&& !is_number(right)
            &&& encode_utf8(seen@) == response
        },
        Err(_) => false,
    }
}

/// The bytes and the widths by which a line of signal data is cut.
pub proof fn lemma_signal_layout()
    ensures
        line_end() == seq![0x0du8, 0x0a],
        separator() == seq![0x2cu8, 0x20],
        marker_width() == 7,
        rssi_width() == 6,
        snr_width() == 6,
{
    reveal_strlit("\r\n");
    reveal_strlit(", ");
    reveal_strlit(", RSSI ");
    reveal_strlit(" RSSI ");
    reveal_strlit(", SNR ");
    is_ascii_spec_bytes("\r\n");
    is_ascii_spec_bytes(", ");
    is_ascii_spec_bytes(", RSSI ");
    is_ascii_spec_bytes(" RSSI ");
    is_ascii_spec_bytes(", SNR ");
    assert(line_end() =~= seq![0x0du8, 0x0a]);
    assert(separator() =~= seq![0x2cu8, 0x20]);
}

/// Cuts the texts of the RSSI and of the SNR out of the line that begins at `m`.
fn fields<'a>(response: &'a [u8], m: usize) -> (r: Option<(&'a [u8], &'a [u8])>)
    ensures
        match r {
            Some((left, right)) => signal_fields(response@, m as int) == Some((left@, right@)),
            None => signal_fields(response@, m as int) is None,
        },
{
    if m > response.len() {
        return None;
    }
    let rest = slice_subrange(response, m, response.len());
    let end = match find(rest, "\r\n".as_bytes()) {
        None => {
            return None;
        },
        Some(end) => end,
    };
    let line = slice_subrange(rest, 0, end);
    let marker_width = ", RSSI ".as_bytes().len();
    if line.len() < marker_width {
        return None;
    }
    let signal = slice_subrange(line, marker_width, line.len());
    let cut = match find(signal, ", ".as_bytes()) {
        None => {
            return None;
        },
        Some(cut) => cut,
    };
    let left = slice_subrange(signal, 0, cut);
    let right = slice_subrange(signal, cut, signal.len());
    let rssi_width = " RSSI ".as_bytes().len();
    let snr_width = ", SNR ".as_bytes().len();
    if left.len() < rssi_width || right.len() < snr_width {
        return None;
    }
    Some((slice_subrange(left, rssi_width, left.len()), slice_subrange(right, snr_width, right.len())))
}

/// Reads the RSSI and the SNR from the line of `response` that begins at
/// the byte offset `m`, the place of the marker of a receive window.
pub fn parse_rssi_snr(response: &str, m: usize) -> (r: Result<(isize, String), Error>)
    ensures
        signal_read(response.spec_bytes(), m as int, r),
{
    let (left, right) = match fields(response.as_bytes(), m) {
        None => {
            return Err(Error::FailedToParseRssiSnr(response.to_owned()));
        },
        Some(found) => found,
    };
    let rssi = match parse_isize(left) {
        None => {
            return Err(Error::FailedToParseRssiInt(response.to_owned()));
        },
        Some(rssi) => rssi,
    };
    if !number(right) {
        return Err(Error::FailedToParseSnrF32(response.to_owned()));
    }
    proof {
        lemma_number_is_ascii(right@);
    }
    Ok((rssi, ascii_string(right)))
}

/// The marker of the first receive window.
pub open spec fn first_window() -> Seq<u8> {
    "RXWIN1".spec_bytes()
}

/// The marker of the second receive window.
pub open spec fn second_window() -> Seq<u8> {
    "RXWIN2".spec_bytes()
}

/// The place in `response` where signal data is to be read: the first
/// marker of the first receive window or, where there is none, the first
/// marker of the second.
pub open spec fn window(response: Seq<u8>) -> Option<int> {
    match index_of(response, first_window()) {
        Some(at) => Some(at),
        None => index_of(response, second_window()),
    }
}

/// `outcome` is what the response to an uplink says of a downlink.
///
/// Where a receive window is marked, the signal data behind the marker is
/// the downlink, and a fault in it is the error. Where none is marked, an
/// uplink that asked for confirmation was not acknowledged, and any other
/// has no downlink.
pub open spec fn downlink_read(
    response: Seq<u8>,
    confirmed: bool,
    outcome: Result<Option<Downlink>, Error>,
) -> bool {
    match window(response) {
        Some(at) => match outcome {
            Ok(Some(downlink)) => signal_read(response, at, Ok((downlink.rssi, downlink.snr))),
            Ok(None) => false,
            Err(e) => signal_read(response, at, Err(e)),
        },
        None => if confirmed {
            outcome == Err::<Option<Downlink>, Error>(Error::Nack)
        } else {
            outcome == Ok::<Option<Downlink>, Error>(None)
        },
    }
}

/// A response that marks no receive window is a failure of a confirmed
/// uplink, for want of an acknowledgement, and is the success of any other,
/// without a downlink.
pub proof fn lemma_no_window(response: Seq<u8>, confirmed: bool, outcome: Result<Option<Downlink>, Error>)
    requires
        !occurs(response, first_window()),
        !occurs(response, second_window()),
        downlink_read(response, confirmed, outcome),
    ensures
        confirmed ==> outcome == Err::<Option<Downlink>, Error>(Error::Nack),
        !confirmed ==> outcome == Ok::<Option<Downlink>, Error>(None),
{
}

/// Reads what the response to an uplink says of a downlink.
pub fn downlink(response: &str, confirmed: bool) -> (r: Result<Option<Downlink>, Error>)
    ensures
        downlink_read(response.spec_bytes(), confirmed, r),
{
    let bytes = response.as_bytes();
    let at = match find(bytes, "RXWIN1".as_bytes()) {
        Some(at) => Some(at),
        None => find(bytes, "RXWIN2".as_bytes()),
    };
    match at {
        Some(m) => match parse_rssi_snr(response, m) {
            Ok((rssi, snr)) => Ok(Some(Downlink { rssi, snr })),
            Err(e) => Err(e),
        },
        None => if confirmed {
            Err(Error::Nack)
        } else {
            Ok(None)
        },
    }
}

} // verus!
