//! The operations of the modem: what the response to each command means.
//!
//! Each method reads the response that the session has received. A response
//! that is not UTF-8 is an error for every one of them.

use crate::command::{channel_echo, decimal, decimal_digits, Command};
use crate::credentials::{reads_as, without_colons, AppEui, AppKey, Credentials, DevEui};
use crate::error::Error;
use crate::hex::{decoded, encoded_upper};
use crate::parse::{check_framed_response, echoes, frame_checked, garbled, payload, trim_end, LoraE5};
use crate::signal::{downlink, downlink_read, Downlink};
use crate::text::{ascii_chars, contains, ends_with, is_suffix, occurs, occurs_at, trimmed};
use crate::types::{JoinResponse, Mode, Region, DR};
use vstd::prelude::*;
use vstd::string::*;
use vstd::utf8::*;

verus! {

/// How a join ended, by the text of the response. A response that speaks of
/// an earlier join counts as that, whatever else it says; else one that
/// speaks of a network joined counts as a join; any other is a failure.
pub open spec fn join_outcome(response: Seq<u8>) -> JoinResponse {
    if occurs(response, "Joined already".spec_bytes()) {
        JoinResponse::AlreadyJoined
    } else if occurs(response, "Network joined".spec_bytes()) {
        JoinResponse::JoinComplete
    } else {
        JoinResponse::JoinFailed
    }
}

/// A response that ends with the line by which the modem says that it had
/// joined already counts as an earlier join: neither as a failure nor as a
/// new join.
pub proof fn lemma_joined_already(response: Seq<u8>)
    requires
        is_suffix("+JOIN: Joined already\r\n".spec_bytes(), response),
    ensures
        join_outcome(response) == JoinResponse::AlreadyJoined,
{
    reveal_strlit("+JOIN: Joined already\r\n");
    reveal_strlit("Joined already");
    is_ascii_spec_bytes("+JOIN: Joined already\r\n");
    is_ascii_spec_bytes("Joined already");
    let line = "+JOIN: Joined already\r\n".spec_bytes();
    let words = "Joined already".spec_bytes();
    let begin = response.len() - line.len();
    let tail = response.subrange(begin, response.len() as int);
    assert(tail == line);
    assert forall|i: int| 0 <= i < words.len() implies response[begin + 7 + i] == words[i] by {
        assert(tail[7 + i] == response[begin + 7 + i]);
    }
    assert(response.subrange(begin + 7, begin + 7 + words.len()) =~= words);
    assert(occurs_at(response, words, begin + 7));
}

/// How a forced join ended, by the text of the response.
pub open spec fn forced_join_outcome(response: Seq<u8>) -> JoinResponse {
    if occurs(response, "Network joined".spec_bytes()) {
        JoinResponse::JoinComplete
    } else {
        JoinResponse::JoinFailed
    }
}

/// `outcome` is what reading a value behind `prelude` gives: what stands
/// behind the prelude, without the carriage returns and line feeds at its
/// end. Where the prelude is missing, the error carries the whole response.
pub open spec fn value_read(response: Seq<u8>, prelude: Seq<u8>, outcome: Result<String, Error>) -> bool {
    match outcome {
        Ok(value) => payload(response, prelude) matches Some(rest) && encode_utf8(value@) == trimmed(
            rest,
        ),
        Err(Error::UnexpectedResponse(seen)) => {
            &&& payload(response, prelude) is None
            &&& encode_utf8(seen@) == response
        },
        Err(_) => false,
    }
}

/// `outcome` is what reading an identifier of `size` bytes behind `prelude`
/// gives. Where the prelude is missing, the error carries the whole response.
pub open spec fn identifier_read(
    response: Seq<u8>,
    prelude: Seq<u8>,
    size: int,
    outcome: Result<Seq<u8>, Error>,
) -> bool {
    match payload(response, prelude) {
        None => outcome matches Err(Error::UnexpectedResponse(seen)) && encode_utf8(seen@) == response,
        Some(rest) => match outcome {
            Ok(bytes) => reads_as(trimmed(rest), size, Ok(bytes)),
            Err(Error::Parse(e)) => reads_as(trimmed(rest), size, Err(e)),
            Err(_) => false,
        },
    }
}

/// `outcome` is what checking the answer to the setting of an identifier of
/// `size` bytes gives: the modem must send back the bytes `wanted`, in
/// whatever writing. Where it sent back other bytes, the error carries what
/// `seen_for` makes of what stands behind the prelude and of those bytes.
pub open spec fn identifier_set(
    response: Seq<u8>,
    prelude: Seq<u8>,
    size: int,
    wanted: Seq<u8>,
    outcome: Result<(), Error>,
    seen_for: spec_fn(Seq<u8>, Seq<u8>) -> Seq<u8>,
) -> bool {
    match payload(response, prelude) {
        None => outcome matches Err(Error::UnexpectedResponse(seen)) && encode_utf8(seen@) == response,
        Some(rest) => {
            let sent = decoded(without_colons(trimmed(rest)));
            match outcome {
                Ok(()) => reads_as(trimmed(rest), size, Ok(wanted)),
                Err(Error::Parse(e)) => reads_as(trimmed(rest), size, Err(e)),
                Err(Error::UnexpectedResponse(seen)) => {
                    &&& reads_as(trimmed(rest), size, Ok(sent))
                    &&& sent != wanted
                    &&& encode_utf8(seen@) == seen_for(rest, sent)
                },
                Err(_) => false,
            }
        },
    }
}

/// What the error carries where the modem sent back another identifier:
/// that identifier, in upper-case hex digits.
pub open spec fn seen_identifier() -> spec_fn(Seq<u8>, Seq<u8>) -> Seq<u8> {
    |rest: Seq<u8>, sent: Seq<u8>| encoded_upper(sent)
}

/// What the error carries where the modem sent back another key: what
/// stands behind the prelude, as it was received.
pub open spec fn seen_payload() -> spec_fn(Seq<u8>, Seq<u8>) -> Seq<u8> {
    |rest: Seq<u8>, sent: Seq<u8>| rest
}

/// `outcome` is what checking the answer to the setting of a data rate
/// gives: the response must end with the line that confirms that rate; any
/// other response is carried whole in the error.
pub open spec fn datarate_set(response: Seq<u8>, dr: DR, outcome: Result<(), Error>) -> bool {
    match outcome {
        Ok(()) => is_suffix(encode_utf8(dr.echo()), response),
        Err(Error::UnexpectedResponse(seen)) => {
            &&& !is_suffix(encode_utf8(dr.echo()), response)
            &&& encode_utf8(seen@) == response
        },
        Err(_) => false,
    }
}

/// What is known of a serial port of the machine.
#[derive(Debug, Clone, PartialEq, Eq)]
pub struct PortInfo {
    /// The name by which the port is opened.
    pub name: String,
    /// The vendor and product identifiers of the USB device behind the
    /// port, where it is one.
    pub usb: Option<(u16, u16)>,
}

/// The port numbered `i` is the first of a USB device with these identifiers.
pub open spec fn first_usb_port(ports: Seq<PortInfo>, vid: u16, pid: u16, i: int) -> bool {
    &&& 0 <= i < ports.len()
    &&& ports[i].usb == Some((vid, pid))
    &&& forall|j: int| 0 <= j < i ==> (#[trigger] ports[j]).usb != Some((vid, pid))
}

/// The line feed that ends a command.
pub open spec fn line_feed() -> Seq<u8> {
    seq![0x0au8]
}

/// What is to be written next for the command `line`, where the port took
/// `taken[i]` bytes of the write numbered `i`.
///
/// A command goes out in two writes: the line, then a line feed. A write of
/// which the port did not take every byte is an error, which names the
/// number taken and the number handed over. After both writes nothing is left.
pub open spec fn next_write(line: Seq<u8>, taken: Seq<usize>) -> Result<Option<Seq<u8>>, Error> {
    if taken.len() == 0 {
        Ok(Some(line))
    } else if taken[0] != line.len() {
        Err(Error::IncorrectWrite(taken[0], line.len() as usize))
    } else if taken.len() == 1 {
        Ok(Some(line_feed()))
    } else if taken[1] != 1 {
        Err(Error::IncorrectWrite(taken[1], 1))
    } else {
        Ok(None)
    }
}

/// The channel that the command numbered `i` of the restriction to the
/// second sub-band switches off: 0 to 7, then 16 to 71.
pub open spec fn subband2_channel(i: int) -> u8 {
    if i < 8 {
        i as u8
    } else {
        (i + 8) as u8
    }
}

/// The commands that restrict the modem to the second sub-band: each of the
/// channels 0 to 7 and 16 to 71 is switched off, in rising order.
pub open spec fn subband2_plan() -> Seq<Command> {
    Seq::new(64, |i: int| Command::Channel(subband2_channel(i), false))
}

/// The commands that set the credentials: the identifier of the device,
/// that of the application, then the key.
pub open spec fn credentials_plan(credentials: Credentials) -> Seq<Command> {
    seq![
        Command::SetDevEui(credentials.dev_eui),
        Command::SetAppEui(credentials.app_eui),
        Command::SetAppKey(credentials.app_key),
    ]
}

/// What the response to a command says.
#[derive(Debug, Clone, PartialEq, Eq)]
pub enum Reply {
    /// The modem has taken the setting.
    Done,
    /// Whether the modem says that it is there.
    Alive(bool),
    /// A text: the version of the firmware, or the response to a line of the caller.
    Text(String),
    /// The identifier of the device.
    DevEui(DevEui),
    /// The identifier of the application.
    AppEui(AppEui),
    /// How a join ended.
    Joined(JoinResponse),
    /// The downlink that came with an uplink, if one did.
    Sent(Option<Downlink>),
}

/// `outcome` as the result of a setting, if it is one.
pub open spec fn as_done(outcome: Result<Reply, Error>) -> Option<Result<(), Error>> {
    match outcome {
        Ok(Reply::Done) => Some(Ok(())),
        Ok(_) => None,
        Err(e) => Some(Err(e)),
    }
}

/// `outcome` as the result of the reading of a text, if it is one.
pub open spec fn as_text_read(outcome: Result<Reply, Error>) -> Option<Result<String, Error>> {
    match outcome {
        Ok(Reply::Text(text)) => Some(Ok(text)),
        Ok(_) => None,
        Err(e) => Some(Err(e)),
    }
}

/// `outcome` as the result of an uplink, if it is one.
pub open spec fn as_sent(outcome: Result<Reply, Error>) -> Option<Result<Option<Downlink>, Error>> {
    match outcome {
        Ok(Reply::Sent(downlink)) => Some(Ok(downlink)),
        Ok(_) => None,
        Err(e) => Some(Err(e)),
    }
}

/// `outcome` as the result of the reading of the identifier of a device, if it is one.
pub open spec fn as_dev_eui(outcome: Result<Reply, Error>) -> Option<Result<Seq<u8>, Error>> {
    match outcome {
        Ok(Reply::DevEui(id)) => Some(Ok(id@)),
        Ok(_) => None,
        Err(e) => Some(Err(e)),
    }
}

/// `outcome` as the result of the reading of the identifier of an application, if it is one.
pub open spec fn as_app_eui(outcome: Result<Reply, Error>) -> Option<Result<Seq<u8>, Error>> {
    match outcome {
        Ok(Reply::AppEui(id)) => Some(Ok(id@)),
        Ok(_) => None,
        Err(e) => Some(Err(e)),
    }
}

/// `outcome` is what the response `received` says in answer to `command`.
pub open spec fn answers(received: Seq<u8>, command: Command, outcome: Result<Reply, Error>) -> bool {
    if !valid_utf8(received) {
        garbled(received, outcome)
    } else {
        match command {
            Command::At => outcome == Ok::<Reply, Error>(
                Reply::Alive(echoes(received, "+AT: ".spec_bytes(), "OK".spec_bytes())),
            ),
            Command::Version => as_text_read(outcome) matches Some(r) && value_read(
                received,
                "+VER: ".spec_bytes(),
                r,
            ),
            Command::Channel(ch, _) => as_done(outcome) matches Some(r) && frame_checked(
                received,
                "+CH: CH".spec_bytes(),
                encode_utf8(channel_echo(ch)),
                r,
            ),
            Command::Region(region) => as_done(outcome) matches Some(r) && frame_checked(
                received,
                "+DR: ".spec_bytes(),
                encode_utf8(region.wire()),
                r,
            ),
            Command::Mode(mode) => as_done(outcome) matches Some(r) && frame_checked(
                received,
                "+MODE: ".spec_bytes(),
                encode_utf8(mode.wire()),
                r,
            ),
            Command::GetDevEui => as_dev_eui(outcome) matches Some(r) && identifier_read(
                received,
                "+ID: DevEui, ".spec_bytes(),
                8,
                r,
            ),
            Command::GetAppEui => as_app_eui(outcome) matches Some(r) && identifier_read(
                received,
                "+ID: AppEui, ".spec_bytes(),
                8,
                r,
            ),
            Command::SetDevEui(id) => as_done(outcome) matches Some(r) && identifier_set(
                received,
                "+ID: DevEui, ".spec_bytes(),
                8,
                id@,
                r,
                seen_identifier(),
            ),
            Command::SetAppEui(id) => as_done(outcome) matches Some(r) && identifier_set(
                received,
                "+ID: AppEui, ".spec_bytes(),
                8,
                id@,
                r,
                seen_identifier(),
            ),
            Command::SetAppKey(key) => as_done(outcome) matches Some(r) && identifier_set(
                received,
                "+KEY: APPKEY ".spec_bytes(),
                16,
                key@,
                r,
                seen_payload(),
            ),
            Command::Join => outcome == Ok::<Reply, Error>(Reply::Joined(join_outcome(received))),
            Command::ForceJoin => outcome == Ok::<Reply, Error>(
                Reply::Joined(forced_join_outcome(received)),
            ),
            Command::Port(port) => as_done(outcome) matches Some(r) && frame_checked(
                received,
                "+PORT: ".spec_bytes(),
                encode_utf8(ascii_chars(decimal_digits(port))),
                r,
            ),
            Command::DataRate(dr) => as_done(outcome) matches Some(r) && datarate_set(received, dr, r),
            Command::MsgHex(_, confirmed) => as_sent(outcome) matches Some(r) && downlink_read(
                received,
                confirmed,
                r,
            ),
            Command::Msg(_, confirmed) => as_sent(outcome) matches Some(r) && downlink_read(
                received,
                confirmed,
                r,
            ),
            Command::Raw(_, _) => outcome matches Ok(Reply::Text(text)) && encode_utf8(text@)
                == received,
        }
    }
}

/// The commands that restrict the modem to the second sub-band.
pub fn subband2_commands() -> (r: Vec<Command>)
    ensures
        r@ == subband2_plan(),
{
    let mut plan: Vec<Command> = Vec::new();
    let mut ch: u8 = 0;
    while ch < 8
        invariant
            ch <= 8,
            plan@.len() == ch,
            forall|i: int| 0 <= i < ch ==> plan@[i] == Command::Channel(subband2_channel(i), false),
        decreases 8 - ch,
    {
        plan.push(Command::Channel(ch, false));
        ch += 1;
    }
    ch = 16;
    while ch < 72
        invariant
            16 <= ch <= 72,
            plan@.len() == ch - 8,
            forall|i: int| 0 <= i < ch - 8 ==> plan@[i] == Command::Channel(subband2_channel(i), false),
        decreases 72 - ch,
    {
        plan.push(Command::Channel(ch, false));
        ch += 1;
    }
    assert(plan@ =~= subband2_plan());
    plan
}

/// The commands that set the credentials.
pub fn credentials_commands(credentials: &Credentials) -> (r: Vec<Command>)
    ensures
        r@ == credentials_plan(*credentials),
{
    let mut plan: Vec<Command> = Vec::new();
    plan.push(Command::SetDevEui(credentials.dev_eui));
    plan.push(Command::SetAppEui(credentials.app_eui));
    plan.push(Command::SetAppKey(credentials.app_key));
    assert(plan@ =~= credentials_plan(*credentials));
    plan
}

impl<const N: usize> LoraE5<N> {
    /// Picks the port to open for the modem: the first of the ports of the
    /// machine, in the order given, that belongs to a USB device with the
    /// vendor identifier `vid` and the product identifier `pid`.
    pub fn open_usb<'a>(ports: &'a [PortInfo], vid: u16, pid: u16) -> (r: Result<&'a str, Error>)
        ensures
            match r {
                Ok(name) => exists|i: int| first_usb_port(ports@, vid, pid, i) && name@ == ports@[i].name@,
                Err(e) => e == (Error::PortNotFound { vid, pid }) && forall|i: int|
                    0 <= i < ports@.len() ==> (#[trigger] ports@[i]).usb != Some((vid, pid)),
            },
    {
        let mut k: usize = 0;
        while k < ports.len()
            invariant
                k <= ports@.len(),
                forall|j: int| 0 <= j < k ==> (#[trigger] ports@[j]).usb != Some((vid, pid)),
            decreases ports@.len() - k,
        {
            let found = match ports[k].usb {
                Some((v, p)) => v == vid && p == pid,
                None => false,
            };
            if found {
                assert(first_usb_port(ports@, vid, pid, k as int));
                return Ok(ports[k].name.as_str());
            }
            k += 1;
        }
        Err(Error::PortNotFound { vid, pid })
    }

    /// Says what to write to the port next for the command line `cmd`,
    /// where `taken` holds, for each write made so far, the number of bytes
    /// that the port took: the bytes to write, or `None` when the command is out.
    pub fn write_command<'a>(&self, cmd: &'a str, taken: &[usize]) -> (r: Result<Option<&'a [u8]>, Error>)
        ensures
            next_write(cmd.spec_bytes(), taken@) == (match r {
                Ok(Some(bytes)) => Ok::<Option<Seq<u8>>, Error>(Some(bytes@)),
                Ok(None) => Ok(None),
                Err(e) => Err(e),
            }),
    {
        let line = cmd.as_bytes();
        if taken.len() == 0 {
            return Ok(Some(line));
        }
        if taken[0] != line.len() {
            return Err(Error::IncorrectWrite(taken[0], line.len()));
        }
        if taken.len() == 1 {
            proof {
                reveal_strlit("\n");
                crate::text::lemma_ascii_is_utf8(line_feed());
                assert("\n"@ =~= ascii_chars(line_feed()));
            }
            return Ok(Some("\n".as_bytes()));
        }
        if taken[1] != 1 {
            return Err(Error::IncorrectWrite(taken[1], 1));
        }
        Ok(None)
    }

    /// The commands that restrict the modem to the second sub-band.
    pub fn subband2_only(&self) -> (r: Vec<Command>)
        ensures
            r@ == subband2_plan(),
    {
        subband2_commands()
    }

    /// The commands that set the credentials.
    pub fn set_credentials(&self, credentials: &Credentials) -> (r: Vec<Command>)
        ensures
            r@ == credentials_plan(*credentials),
    {
        credentials_commands(credentials)
    }

    /// Reads the response that the session has received as the answer to `command`.
    pub fn complete(&self, command: &Command) -> (r: Result<Reply, Error>)
        ensures
            answers(self.received(), *command, r),
    {
        match command {
            Command::At => match self.is_ok() {
                Ok(alive) => Ok(Reply::Alive(alive)),
                Err(e) => Err(e),
            },
            Command::Version => match self.get_version() {
                Ok(version) => Ok(Reply::Text(version)),
                Err(e) => Err(e),
            },
            Command::Channel(ch, _) => match self.set_channel(*ch) {
                Ok(()) => Ok(Reply::Done),
                Err(e) => Err(e),
            },
            Command::Region(region) => match self.set_region(*region) {
                Ok(()) => Ok(Reply::Done),
                Err(e) => Err(e),
            },
            Command::Mode(mode) => match self.set_mode(*mode) {
                Ok(()) => Ok(Reply::Done),
                Err(e) => Err(e),
            },
            Command::GetDevEui => match self.get_dev_eui() {
                Ok(id) => Ok(Reply::DevEui(id)),
                Err(e) => Err(e),
            },
            Command::GetAppEui => match self.get_app_eui() {
                Ok(id) => Ok(Reply::AppEui(id)),
                Err(e) => Err(e),
            },
            Command::SetDevEui(id) => match self.set_dev_eui(id) {
                Ok(()) => Ok(Reply::Done),
                Err(e) => Err(e),
            },
            Command::SetAppEui(id) => match self.set_app_eui(id) {
                Ok(()) => Ok(Reply::Done),
                Err(e) => Err(e),
            },
            Command::SetAppKey(key) => match self.set_app_key(key) {
                Ok(()) => Ok(Reply::Done),
                Err(e) => Err(e),
            },
            Command::Join => match self.join() {
                Ok(joined) => Ok(Reply::Joined(joined)),
                Err(e) => Err(e),
            },
            Command::ForceJoin => match self.force_join() {
                Ok(joined) => Ok(Reply::Joined(joined)),
                Err(e) => Err(e),
            },
            Command::Port(port) => match self.set_port(*port) {
                Ok(()) => Ok(Reply::Done),
                Err(e) => Err(e),
            },
            Command::DataRate(dr) => match self.set_datarate(*dr) {
                Ok(()) => Ok(Reply::Done),
                Err(e) => Err(e),
            },
            Command::MsgHex(_, confirmed) => match self.send(*confirmed) {
                Ok(downlink) => Ok(Reply::Sent(downlink)),
                Err(e) => Err(e),
            },
            Command::Msg(_, confirmed) => match self.send_ascii(*confirmed) {
                Ok(downlink) => Ok(Reply::Sent(downlink)),
                Err(e) => Err(e),
            },
            Command::Raw(_, _) => match self.raw() {
                Ok(text) => Ok(Reply::Text(text)),
                Err(e) => Err(e),
            },
        }
    }

    /// The answer to `AT`: whether the modem says that it is there.
    pub fn is_ok(&self) -> (r: Result<bool, Error>)
        ensures
            if valid_utf8(self.received()) {
                r == Ok::<bool, Error>(
                    echoes(self.received(), "+AT: ".spec_bytes(), "OK".spec_bytes()),
                )
            } else {
                garbled(self.received(), r)
            },
    {
        let text = self.response()?;
        Ok(check_framed_response(text, "+AT: ", "OK").is_ok())
    }

    /// The answer to `AT+VER`: the version of the firmware.
    pub fn get_version(&self) -> (r: Result<String, Error>)
        ensures
            if valid_utf8(self.received()) {
                value_read(self.received(), "+VER: ".spec_bytes(), r)
            } else {
                garbled(self.received(), r)
            },
    {
        let version = self.framed_response("+VER: ")?;
        Ok(trim_end(version).to_owned())
    }

    /// The answer to a channel command: the modem must name the channel as
    /// switched off.
    pub fn set_channel(&self, ch: u8) -> (r: Result<(), Error>)
        ensures
            if valid_utf8(self.received()) {
                frame_checked(
                    self.received(),
                    "+CH: CH".spec_bytes(),
                    encode_utf8(channel_echo(ch)),
                    r,
                )
            } else {
                garbled(self.received(), r)
            },
    {
        let mut expected = decimal(ch);
        expected.append(" off");
        self.check_framed_response("+CH: CH", expected.as_str())
    }

    /// The answer to the setting of the region: the modem must name it.
    pub fn set_region(&self, region: Region) -> (r: Result<(), Error>)
        ensures
            if valid_utf8(self.received()) {
                frame_checked(
                    self.received(),
                    "+DR: ".spec_bytes(),
                    encode_utf8(region.wire()),
                    r,
                )
            } else {
                garbled(self.received(), r)
            },
    {
        self.check_framed_response("+DR: ", region.as_str())
    }

    /// The answer to the setting of the mode: the modem must name it.
    pub fn set_mode(&self, mode: Mode) -> (r: Result<(), Error>)
        ensures
            if valid_utf8(self.received()) {
                frame_checked(
                    self.received(),
                    "+MODE: ".spec_bytes(),
                    encode_utf8(mode.wire()),
                    r,
                )
            } else {
                garbled(self.received(), r)
            },
    {
        self.check_framed_response("+MODE: ", mode.as_str())
    }

    /// The answer to the setting of the data rate: the modem must end with
    /// the line that confirms it.
    pub fn set_datarate(&self, dr: DR) -> (r: Result<(), Error>)
        ensures
            if valid_utf8(self.received()) {
                datarate_set(self.received(), dr, r)
            } else {
                garbled(self.received(), r)
            },
    {
        let text = self.response()?;
        if ends_with(text.as_bytes(), dr.termination_pattern().as_bytes()) {
            Ok(())
        } else {
            Err(Error::UnexpectedResponse(text.to_owned()))
        }
    }

    /// The answer to `AT+JOIN`: how the join ended.
    pub fn join(&self) -> (r: Result<JoinResponse, Error>)
        ensures
            if valid_utf8(self.received()) {
                r == Ok::<JoinResponse, Error>(join_outcome(self.received()))
            } else {
                garbled(self.received(), r)
            },
    {
        let text = self.response()?;
        let bytes = text.as_bytes();
        Ok(
            if contains(bytes, "Joined already".as_bytes()) {
                JoinResponse::AlreadyJoined
            } else if contains(bytes, "Network joined".as_bytes()) {
                JoinResponse::JoinComplete
            } else {
                JoinResponse::JoinFailed
            },
        )
    }

    /// The answer to `AT+JOIN=FORCE`: how the join ended.
    pub fn force_join(&self) -> (r: Result<JoinResponse, Error>)
        ensures
            if valid_utf8(self.received()) {
                r == Ok::<JoinResponse, Error>(forced_join_outcome(self.received()))
            } else {
                garbled(self.received(), r)
            },
    {
        let text = self.response()?;
        Ok(
            if contains(text.as_bytes(), "Network joined".as_bytes()) {
                JoinResponse::JoinComplete
            } else {
                JoinResponse::JoinFailed
            },
        )
    }

    /// The answer to the setting of the port: the modem must name it.
    pub fn set_port(&self, port: u8) -> (r: Result<(), Error>)
        ensures
            if valid_utf8(self.received()) {
                frame_checked(
                    self.received(),
                    "+PORT: ".spec_bytes(),
                    encode_utf8(ascii_chars(decimal_digits(port))),
                    r,
                )
            } else {
                garbled(self.received(), r)
            },
    {
        self.check_framed_response("+PORT: ", decimal(port).as_str())
    }

    /// The answer to an uplink of bytes: the downlink that came with it, if
    /// one did. An uplink that asked for confirmation and got no downlink
    /// was not acknowledged.
    pub fn send(&self, confirmed: bool) -> (r: Result<Option<Downlink>, Error>)
        ensures
            if valid_utf8(self.received()) {
                downlink_read(self.received(), confirmed, r)
            } else {
                garbled(self.received(), r)
            },
    {
        let text = self.response()?;
        downlink(text, confirmed)
    }

    /// The answer to an uplink of text: as for an uplink of bytes.
    pub fn send_ascii(&self, confirmed: bool) -> (r: Result<Option<Downlink>, Error>)
        ensures
            if valid_utf8(self.received()) {
                downlink_read(self.received(), confirmed, r)
            } else {
                garbled(self.received(), r)
            },
    {
        let text = self.response()?;
        downlink(text, confirmed)
    }

    /// The answer to a line given by the caller: the response as text.
    pub fn raw(&self) -> (r: Result<String, Error>)
        ensures
            if valid_utf8(self.received()) {
                r matches Ok(text) && encode_utf8(text@) == self.received()
            } else {
                garbled(self.received(), r)
            },
    {
        let text = self.response()?;
        Ok(text.to_owned())
    }

    /// The answer to the question for the identifier of the device.
    pub fn get_dev_eui(&self) -> (r: Result<DevEui, Error>)
        ensures
            if valid_utf8(self.received()) {
                identifier_read(
                    self.received(),
                    "+ID: DevEui, ".spec_bytes(),
                    8,
                    match r {
                        Ok(id) => Ok(id@),
                        Err(e) => Err(e),
                    },
                )
            } else {
                garbled(self.received(), r)
            },
    {
        let rest = self.framed_response("+ID: DevEui, ")?;
        match DevEui::from_str(trim_end(rest)) {
            Ok(id) => Ok(id),
            Err(e) => Err(Error::Parse(e)),
        }
    }

    /// The answer to the question for the identifier of the application.
    pub fn get_app_eui(&self) -> (r: Result<AppEui, Error>)
        ensures
            if valid_utf8(self.received()) {
                identifier_read(
                    self.received(),
                    "+ID: AppEui, ".spec_bytes(),
                    8,
                    match r {
                        Ok(id) => Ok(id@),
                        Err(e) => Err(e),
                    },
                )
            } else {
                garbled(self.received(), r)
            },
    {
        let rest = self.framed_response("+ID: AppEui, ")?;
        match AppEui::from_str(trim_end(rest)) {
            Ok(id) => Ok(id),
            Err(e) => Err(Error::Parse(e)),
        }
    }

    /// The answer to the setting of the identifier of the application: the
    /// modem must send the same bytes back. Where it sends others, the error
    /// carries them in upper-case hex digits.
    pub fn set_app_eui(&self, app_eui: &AppEui) -> (r: Result<(), Error>)
        ensures
            if valid_utf8(self.received()) {
                identifier_set(
                    self.received(),
                    "+ID: AppEui, ".spec_bytes(),
                    8,
                    app_eui@,
                    r,
                    seen_identifier(),
                )
            } else {
                garbled(self.received(), r)
            },
    {
        let rest = self.framed_response("+ID: AppEui, ")?;
        match AppEui::from_str(trim_end(rest)) {
            Err(e) => Err(Error::Parse(e)),
            Ok(sent) => {
                if sent == *app_eui {
                    Ok(())
                } else {
                    proof {
                        crate::text::lemma_ascii_is_utf8(encoded_upper(sent@));
                    }
                    Err(Error::UnexpectedResponse(sent.to_string()))
                }
            },
        }
    }

    /// The answer to the setting of the identifier of the device: the modem
    /// must send the same bytes back. Where it sends others, the error
    /// carries them in upper-case hex digits.
    pub fn set_dev_eui(&self, dev_eui: &DevEui) -> (r: Result<(), Error>)
        ensures
            if valid_utf8(self.received()) {
                identifier_set(
                    self.received(),
                    "+ID: DevEui, ".spec_bytes(),
                    8,
                    dev_eui@,
                    r,
                    seen_identifier(),
                )
            } else {
                garbled(self.received(), r)
            },
    {
        let rest = self.framed_response("+ID: DevEui, ")?;
        match DevEui::from_str(trim_end(rest)) {
            Err(e) => Err(Error::Parse(e)),
            Ok(sent) => {
                if sent == *dev_eui {
                    Ok(())
                } else {
                    proof {
                        crate::text::lemma_ascii_is_utf8(encoded_upper(sent@));
                    }
                    Err(Error::UnexpectedResponse(sent.to_string()))
                }
            },
        }
    }

    /// The answer to the setting of the key: the modem must send the same
    /// bytes back. Where it sends others, the error carries what it sent, as
    /// received.
    pub fn set_app_key(&self, app_key: &AppKey) -> (r: Result<(), Error>)
        ensures
            if valid_utf8(self.received()) {
                identifier_set(
                    self.received(),
                    "+KEY: APPKEY ".spec_bytes(),
                    16,
                    app_key@,
                    r,
                    seen_payload(),
                )
            } else {
                garbled(self.received(), r)
            },
    {
        let rest = self.framed_response("+KEY: APPKEY ")?;
        match AppKey::from_str(trim_end(rest)) {
            Err(e) => Err(Error::Parse(e)),
            Ok(sent) => {
                if sent == *app_key {
                    Ok(())
                } else {
                    Err(Error::UnexpectedResponse(rest.to_owned()))
                }
            },
        }
    }
}

} // verus!
