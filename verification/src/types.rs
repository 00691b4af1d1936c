//! The closed vocabularies of the modem: mode, region, data rate, join outcome.

use crate::error::Error;
use vstd::prelude::*;
use vstd::string::*;
use vstd::utf8::*;

verus! {

/// How the modem takes part in a network.
#[derive(Debug, Clone, Copy, PartialEq, Eq, Structural)]
pub enum Mode {
    Test,
    Otaa,
    Abp,
}

impl Mode {
    /// The name of the mode on the wire.
    pub open spec fn wire(self) -> Seq<char> {
        match self {
            Mode::Test => "TEST"@,
            Mode::Abp => "LWABP"@,
            Mode::Otaa => "LWOTAA"@,
        }
    }

    pub fn as_str(&self) -> (r: &'static str)
        ensures
            r@ == self.wire(),
    {
        match self {
            Mode::Test => "TEST",
            Mode::Abp => "LWABP",
            Mode::Otaa => "LWOTAA",
        }
    }
}

/// The frequency plan.
#[derive(Debug, Clone, Copy, PartialEq, Eq, Structural)]
pub enum Region {
    Eu868,
    Us915,
}

impl Region {
    /// The name of the region on the wire.
    pub open spec fn wire(self) -> Seq<char> {
        match self {
            Region::Eu868 => "EU868"@,
            Region::Us915 => "US915"@,
        }
    }

    pub fn as_str(&self) -> (r: &'static str)
        ensures
            r@ == self.wire(),
    {
        match self {
            Region::Eu868 => "EU868",
            Region::Us915 => "US915",
        }
    }
}

/// A data rate of the US915 plan.
#[derive(Debug, Clone, Copy, PartialEq, Eq, Structural)]
pub enum DR {
    _0,
    _1,
    _2,
    _3,
    _4,
}

impl DR {
    /// The number of the data rate, 0 to 4.
    pub open spec fn index(self) -> int {
        match self {
            DR::_0 => 0,
            DR::_1 => 1,
            DR::_2 => 2,
            DR::_3 => 3,
            DR::_4 => 4,
        }
    }

    /// The data rate on the wire: its number as one decimal digit.
    pub open spec fn wire(self) -> Seq<char> {
        match self {
            DR::_0 => "0"@,
            DR::_1 => "1"@,
            DR::_2 => "2"@,
            DR::_3 => "3"@,
            DR::_4 => "4"@,
        }
    }

    /// The line by which the modem confirms that it has taken the data rate.
    pub open spec fn echo(self) -> Seq<char> {
        match self {
            DR::_0 => "US915 DR0  SF10 BW125K \r\n"@,
            DR::_1 => "US915 DR1  SF9  BW125K \r\n"@,
            DR::_2 => "US915 DR2  SF8  BW125K \r\n"@,
            DR::_3 => "US915 DR3  SF7  BW125K \r\n"@,
            DR::_4 => "US915 DR4  SF8  BW500K \r\n"@,
        }
    }

    /// The data rate with the given number.
    pub open spec fn of_index(i: int) -> DR {
        if i == 0 {
            DR::_0
        } else if i == 1 {
            DR::_1
        } else if i == 2 {
            DR::_2
        } else if i == 3 {
            DR::_3
        } else {
            DR::_4
        }
    }

    /// What `from_str` makes of the bytes of a string: a single digit from
    /// `0` to `4` names a data rate, nothing else does.
    pub open spec fn parse(bytes: Seq<u8>) -> Option<DR> {
        if bytes.len() == 1 && 0x30 <= bytes[0] <= 0x34 {
            Some(DR::of_index(bytes[0] - 0x30))
        } else {
            None
        }
    }

    /// Reads a data rate from its decimal digit.
    pub fn from_str(s: &str) -> (r: Result<DR, Error>)
        ensures
            match r {
                Ok(dr) => DR::parse(s.spec_bytes()) == Some(dr),
                Err(Error::InvalidDatarateStr(t)) => DR::parse(s.spec_bytes()) is None && t@ == s@,
                Err(_) => false,
            },
    {
        let bytes = s.as_bytes();
        if bytes.len() == 1 {
            let b: u8 = bytes[0];
            if b == 0x30 {
                return Ok(DR::_0);
            } else if b == 0x31 {
                return Ok(DR::_1);
            } else if b == 0x32 {
                return Ok(DR::_2);
            } else if b == 0x33 {
                return Ok(DR::_3);
            } else if b == 0x34 {
                return Ok(DR::_4);
            }
        }
        Err(Error::InvalidDatarateStr(s.to_owned()))
    }

    pub fn as_str(&self) -> (r: &'static str)
        ensures
            r@ == self.wire(),
    {
        match self {
            DR::_0 => "0",
            DR::_1 => "1",
            DR::_2 => "2",
            DR::_3 => "3",
            DR::_4 => "4",
        }
    }

    pub fn termination_pattern(&self) -> (r: &'static str)
        ensures
            r@ == self.echo(),
    {
        match self {
            DR::_0 => "US915 DR0  SF10 BW125K \r\n",
            DR::_1 => "US915 DR1  SF9  BW125K \r\n",
            DR::_2 => "US915 DR2  SF8  BW125K \r\n",
            DR::_3 => "US915 DR3  SF7  BW125K \r\n",
            DR::_4 => "US915 DR4  SF8  BW500K \r\n",
        }
    }

    /// The confirmation lines of all data rates, in the order of their numbers.
    pub fn all_patterns() -> (r: [&'static str; 5])
        ensures
            forall|i: int| 0 <= i < 5 ==> (#[trigger] r@[i])@ == DR::of_index(i).echo(),
    {
        [
            DR::_0.termination_pattern(),
            DR::_1.termination_pattern(),
            DR::_2.termination_pattern(),
            DR::_3.termination_pattern(),
            DR::_4.termination_pattern(),
        ]
    }
}

/// The digit that is written for a data rate reads as that data rate.
pub proof fn lemma_data_rate_round_trip(dr: DR)
    ensures
        DR::parse(encode_utf8(dr.wire())) == Some(dr),
        DR::of_index(dr.index()) == dr,
{
    reveal_strlit("0");
    reveal_strlit("1");
    reveal_strlit("2");
    reveal_strlit("3");
    reveal_strlit("4");
    is_ascii_spec_bytes("0");
    is_ascii_spec_bytes("1");
    is_ascii_spec_bytes("2");
    is_ascii_spec_bytes("3");
    is_ascii_spec_bytes("4");
}

impl std::str::FromStr for DR {
    type Err = Error;

    /// Reads a data rate from its decimal digit, as the function of the
    /// same name does that the type has of its own.
    fn from_str(s: &str) -> (r: Result<Self, Error>)
        ensures
            match r {
                Ok(dr) => DR::parse(s.spec_bytes()) == Some(dr),
                Err(Error::InvalidDatarateStr(t)) => DR::parse(s.spec_bytes()) is None && t@ == s@,
                Err(_) => false,
            },
    {
        DR::from_str(s)
    }
}

/// How an attempt to join a network ended.
#[derive(Debug, Clone, Copy, PartialEq, Eq, Structural)]
pub enum JoinResponse {
    /// The modem has joined in this attempt.
    JoinComplete,
    /// The attempt ended and the modem has not joined.
    JoinFailed,
    /// The modem holds a session from an earlier join and kept it.
    AlreadyJoined,
}

} // verus!
