//! The commands of the modem: the line that is written for each, the
//! texts that end its response, and the time to wait for them.

use crate::credentials::{AppEui, AppKey, DevEui};
use crate::hex::{encoded_lower, encoded_upper};
use crate::text::{ascii_chars, ascii_string};
use crate::types::{Mode, Region, DR};
use vstd::prelude::*;
use vstd::string::*;
use vstd::utf8::*;

verus! {

/// The time to wait for the answer to a liveness check, in milliseconds.
pub const LIVENESS_TIMEOUT_MS: u64 = 50;

/// The time to wait for a response of one line, in milliseconds.
pub const DEFAULT_TIMEOUT_MS: u64 = 5000;

/// The time to wait for the end of a join, in milliseconds.
pub const JOIN_TIMEOUT_MS: u64 = 20000;

/// The time to wait for the end of an uplink, in milliseconds.
pub const SEND_TIMEOUT_MS: u64 = 3000;

/// One command of the modem, with what it carries.
#[derive(Debug, Clone, PartialEq, Eq)]
pub enum Command {
    /// Asks whether the modem is there.
    At,
    /// Asks for the version of the firmware.
    Version,
    /// Switches a channel on or off.
    Channel(u8, bool),
    /// Sets the frequency plan.
    Region(Region),
    /// Sets the mode.
    Mode(Mode),
    /// Asks for the identifier of the device.
    GetDevEui,
    /// Asks for the identifier of the application.
    GetAppEui,
    /// Sets the identifier of the device.
    SetDevEui(DevEui),
    /// Sets the identifier of the application.
    SetAppEui(AppEui),
    /// Sets the key of the application.
    SetAppKey(AppKey),
    /// Joins the network unless the modem holds a session.
    Join,
    /// Joins the network anew.
    ForceJoin,
    /// Sets the port of the uplinks that follow.
    Port(u8),
    /// Sets the data rate.
    DataRate(DR),
    /// Sends bytes; the flag asks for confirmation.
    MsgHex(Vec<u8>, bool),
    /// Sends text; the flag asks for confirmation.
    Msg(String, bool),
    /// A line given by the caller, with the time to wait for its answer in milliseconds.
    Raw(String, u64),
}

/// The decimal digits of a number, without leading zeros.
pub open spec fn decimal_digits(n: u8) -> Seq<u8> {
    if n < 10 {
        seq![(0x30 + n) as u8]
    } else if n < 100 {
        seq![(0x30 + n / 10) as u8, (0x30 + n % 10) as u8]
    } else {
        seq![(0x30 + n / 100) as u8, (0x30 + (n / 10) % 10) as u8, (0x30 + n % 10) as u8]
    }
}

/// The name of a channel state on the wire.
pub open spec fn switch(enable: bool) -> Seq<char> {
    if enable {
        "on"@
    } else {
        "off"@
    }
}

/// The name of the command that sends bytes.
pub open spec fn hex_uplink(confirmed: bool) -> Seq<char> {
    if confirmed {
        "CMSGHEX"@
    } else {
        "MSGHEX"@
    }
}

/// The name of the command that sends text.
pub open spec fn text_uplink(confirmed: bool) -> Seq<char> {
    if confirmed {
        "CMSG"@
    } else {
        "MSG"@
    }
}

/// What the modem answers to a channel command that it has taken.
pub open spec fn channel_echo(ch: u8) -> Seq<char> {
    ascii_chars(decimal_digits(ch)) + " off"@
}

/// A number in decimal digits.
pub fn decimal(n: u8) -> (r: String)
    ensures
        r@ == ascii_chars(decimal_digits(n)),
{
    let mut digits: Vec<u8> = Vec::new();
    if n >= 100 {
        digits.push(0x30 + n / 100);
    }
    if n >= 10 {
        digits.push(0x30 + (n / 10) % 10);
    }
    digits.push(0x30 + n % 10);
    assert(digits@ =~= decimal_digits(n));
    ascii_string(digits.as_slice())
}

impl Command {
    /// The line that is written to the modem for the command, without the
    /// line feed that ends it.
    pub open spec fn line(self) -> Seq<char> {
        match self {
            Command::At => "AT"@,
            Command::Version => "AT+VER"@,
            Command::Channel(ch, enable) => "AT+CH="@ + ascii_chars(decimal_digits(ch)) + ","@
                + switch(enable),
            Command::Region(region) => "AT+DR="@ + region.wire(),
            Command::Mode(mode) => "AT+MODE="@ + mode.wire(),
            Command::GetDevEui => "AT+ID=DevEui"@,
            Command::GetAppEui => "AT+ID=AppEui"@,
            Command::SetDevEui(id) => "AT+ID=DevEui, "@ + ascii_chars(encoded_upper(id@)),
            Command::SetAppEui(id) => "AT+ID=AppEui, "@ + ascii_chars(encoded_upper(id@)),
            Command::SetAppKey(key) => "AT+KEY=APPKEY, "@ + ascii_chars(encoded_upper(key@)),
            Command::Join => "AT+JOIN"@,
            Command::ForceJoin => "AT+JOIN=FORCE"@,
            Command::Port(port) => "AT+PORT="@ + ascii_chars(decimal_digits(port)),
            Command::DataRate(dr) => "AT+DR="@ + dr.wire(),
            Command::MsgHex(data, confirmed) => "AT+"@ + hex_uplink(confirmed) + "=\""@
                + ascii_chars(encoded_lower(data@)) + "\""@,
            Command::Msg(text, confirmed) => "AT+"@ + text_uplink(confirmed) + "=\""@ + ascii_chars(
                encoded_lower(encode_utf8(text@)),
            ) + "\""@,
            Command::Raw(line, _) => line@,
        }
    }

    /// The texts of which one ends the response to the command.
    pub open spec fn ends(self) -> Seq<Seq<char>> {
        match self {
            Command::Join => seq!["+JOIN: Done\r\n"@, "+JOIN: Joined already\r\n"@],
            Command::ForceJoin => seq!["+JOIN: Done\r\n"@],
            Command::MsgHex(_, confirmed) => if confirmed {
                seq!["+CMSGHEX: Done\r\n"@]
            } else {
                seq!["+MSGHEX: Done\r\n"@]
            },
            Command::Msg(_, confirmed) => if confirmed {
                seq!["+CMSG: Done\r\n"@]
            } else {
                seq!["+MSG: Done\r\n"@]
            },
            Command::DataRate(_) => Seq::new(5, |i: int| DR::of_index(i).echo()),
            _ => seq!["\n"@],
        }
    }

    /// The time to wait for the response to the command, in milliseconds.
    pub open spec fn wait(self) -> u64 {
        match self {
            Command::At => LIVENESS_TIMEOUT_MS,
            Command::Join => JOIN_TIMEOUT_MS,
            Command::ForceJoin => JOIN_TIMEOUT_MS,
            Command::MsgHex(_, _) => SEND_TIMEOUT_MS,
            Command::Msg(_, _) => SEND_TIMEOUT_MS,
            Command::Raw(_, timeout_ms) => timeout_ms,
            _ => DEFAULT_TIMEOUT_MS,
        }
    }

    /// The line to write to the modem, without the line feed that ends it.
    pub fn text(&self) -> (r: String)
        ensures
            r@ == self.line(),
    {
        match self {
            Command::At => "AT".to_owned(),
            Command::Version => "AT+VER".to_owned(),
            Command::Channel(ch, enable) => {
                let mut line = "AT+CH=".to_owned();
                line.append(decimal(*ch).as_str());
                line.append(",");
                line.append(
                    if *enable {
                        "on"
                    } else {
                        "off"
                    },
                );
                line
            },
            Command::Region(region) => {
                let mut line = "AT+DR=".to_owned();
                line.append(region.as_str());
                line
            },
            Command::Mode(mode) => {
                let mut line = "AT+MODE=".to_owned();
                line.append(mode.as_str());
                line
            },
            Command::GetDevEui => "AT+ID=DevEui".to_owned(),
            Command::GetAppEui => "AT+ID=AppEui".to_owned(),
            Command::SetDevEui(id) => {
                let mut line = "AT+ID=DevEui, ".to_owned();
                line.append(id.to_string().as_str());
                line
            },
            Command::SetAppEui(id) => {
                let mut line = "AT+ID=AppEui, ".to_owned();
                line.append(id.to_string().as_str());
                line
            },
            Command::SetAppKey(key) => {
                let mut line = "AT+KEY=APPKEY, ".to_owned();
                line.append(key.to_string().as_str());
                line
            },
            Command::Join => "AT+JOIN".to_owned(),
            Command::ForceJoin => "AT+JOIN=FORCE".to_owned(),
            Command::Port(port) => {
                let mut line = "AT+PORT=".to_owned();
                line.append(decimal(*port).as_str());
                line
            },
            Command::DataRate(dr) => {
                let mut line = "AT+DR=".to_owned();
                line.append(dr.as_str());
                line
            },
            Command::MsgHex(data, confirmed) => {
                let mut line = "AT+".to_owned();
                line.append(
                    if *confirmed {
                        "CMSGHEX"
                    } else {
                        "MSGHEX"
                    },
                );
                line.append("=\"");
                line.append(crate::hex::encode(data.as_slice()).as_str());
                line.append("\"");
                line
            },
            Command::Msg(text, confirmed) => {
                let mut line = "AT+".to_owned();
                line.append(
                    if *confirmed {
                        "CMSG"
                    } else {
                        "MSG"
                    },
                );
                line.append("=\"");
                line.append(crate::hex::encode(text.as_str().as_bytes()).as_str());
                line.append("\"");
                line
            },
            Command::Raw(line, _) => line.clone(),
        }
    }

    /// The texts of which one ends the response to the command.
    pub fn terminators(&self) -> (r: Vec<&'static str>)
        ensures
            r@.len() == self.ends().len(),
            forall|i: int| 0 <= i < r@.len() ==> (#[trigger] r@[i])@ == self.ends()[i],
    {
        let mut ends: Vec<&'static str> = Vec::new();
        match self {
            Command::Join => {
                ends.push("+JOIN: Done\r\n");
                ends.push("+JOIN: Joined already\r\n");
            },
            Command::ForceJoin => {
                ends.push("+JOIN: Done\r\n");
            },
            Command::MsgHex(_, confirmed) => {
                ends.push(
                    if *confirmed {
                        "+CMSGHEX: Done\r\n"
                    } else {
                        "+MSGHEX: Done\r\n"
                    },
                );
            },
            Command::Msg(_, confirmed) => {
                ends.push(
                    if *confirmed {
                        "+CMSG: Done\r\n"
                    } else {
                        "+MSG: Done\r\n"
                    },
                );
            },
            Command::DataRate(_) => {
                ends.push(DR::_0.termination_pattern());
                ends.push(DR::_1.termination_pattern());
                ends.push(DR::_2.termination_pattern());
                ends.push(DR::_3.termination_pattern());
                ends.push(DR::_4.termination_pattern());
            },
            _ => {
                ends.push("\n");
            },
        }
        ends
    }

    /// The time to wait for the response to the command, in milliseconds.
    pub fn timeout_ms(&self) -> (r: u64)
        ensures
            r == self.wait(),
    {
        match self {
            Command::At => LIVENESS_TIMEOUT_MS,
            Command::Join => JOIN_TIMEOUT_MS,
            Command::ForceJoin => JOIN_TIMEOUT_MS,
            Command::MsgHex(_, _) => SEND_TIMEOUT_MS,
            Command::Msg(_, _) => SEND_TIMEOUT_MS,
            Command::Raw(_, timeout_ms) => *timeout_ms,
            _ => DEFAULT_TIMEOUT_MS,
        }
    }
}

} // verus!
