//! A sans-I/O driver for the LoRa-E5 modem's AT command protocol.
//!
//! The crate holds everything that is decided when talking to the modem:
//! the command lines, the rule that tells when a response is complete, the
//! parsers of the responses and the order in which queued requests are
//! served. It performs no I/O itself. A caller owns the serial port, writes
//! what the crate hands out and feeds back what it read.
//!
//! - [`command`]: the commands, their lines, terminators and timeouts.
//! - [`parse`]: the session's buffer, the read loop and the frame of a response.
//! - [`device`]: what the response to each command means.
//! - [`signal`]: the signal data of a downlink.
//! - [`credentials`]: the identifiers and the key of a device.
//! - [`process`]: requests, and the runtime that serves them one at a time.
//! - [`text`], [`number`], [`hex`]: byte strings, numbers and hex digits.

pub mod command;
pub mod credentials;
pub mod device;
pub mod error;
pub mod hex;
pub mod number;
pub mod parse;
pub mod process;
pub mod signal;
pub mod text;
pub mod types;

pub use command::Command;
pub use credentials::{AppEui, AppKey, Credentials, DevEui};
pub use device::{PortInfo, Reply};
pub use error::{Error, HexError, ParseError};
pub use parse::LoraE5;
pub use signal::Downlink;
pub use types::{JoinResponse, Mode, Region, DR};
use vstd::prelude::*;

verus! {

/// The USB vendor identifier of Silicon Labs.
pub const SILICON_LABS_VID: u16 = 0x10C4;

/// The USB product identifier of the CP210x UART bridge, through which the modem is reached.
pub const CP210X_UART_BRIDGE_PID: u16 = 0xEA60;

/// The speed of the serial line to the modem, in baud.
pub const BAUD_RATE: u32 = 9600;

/// The time that one read from the serial port may take, in milliseconds.
pub const READ_TIMEOUT_MS: u64 = 10;

} // verus!
