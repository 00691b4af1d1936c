//! The identifiers and the key by which a device joins a network.
//!
//! Each is a fixed number of bytes, written as hex digits. In a string that
//! is read, the digits may be in either case and `:` may stand anywhere among
//! them; a string that is written has upper-case digits only.

use crate::error::{HexError, ParseError};
use crate::hex::{all_hex, decoded, encoded_upper, first_bad_digit, hex_value, is_hex_digit, to_upper,
    upper_digit};
use crate::text::{ascii_chars, same};
use vstd::prelude::*;
use vstd::string::*;

verus! {

/// `text` without the colons in it.
pub open spec fn without_colons(text: Seq<u8>) -> Seq<u8>
    decreases text.len(),
{
    if text.len() == 0 {
        Seq::empty()
    } else if text.last() == 0x3a {
        without_colons(text.drop_last())
    } else {
        without_colons(text.drop_last()).push(text.last())
    }
}

/// What reading an identifier of `size` bytes from `text` gives: `outcome`
/// is the bytes that the hex digits of `text` stand for, or says why there
/// are none. An odd number of digits is reported first, then the first byte
/// that is no digit, then a number of bytes that is not `size`.
pub open spec fn reads_as(text: Seq<u8>, size: int, outcome: Result<Seq<u8>, ParseError>) -> bool {
    let digits = without_colons(text);
    match outcome {
        Ok(bytes) => {
            &&& digits.len() == 2 * size
            &&& all_hex(digits)
            &&& bytes == decoded(digits)
        },
        Err(ParseError::FromHex(HexError::OddLength)) => digits.len() % 2 == 1,
        Err(ParseError::FromHex(HexError::InvalidHexCharacter { c, index })) => {
            &&& digits.len() % 2 == 0
            &&& first_bad_digit(digits, index as int)
            &&& c == digits[index as int] as char
        },
        Err(ParseError::FromHex(HexError::InvalidStringLength)) => false,
        Err(ParseError::VecWrongSize(len)) => {
            &&& digits.len() % 2 == 0
            &&& all_hex(digits)
            &&& len == digits.len() / 2
            &&& len != size
        },
    }
}

/// `text` with its letters in upper case.
pub open spec fn upper_cased(text: Seq<u8>) -> Seq<u8> {
    Seq::new(text.len(), |i: int| to_upper(text[i]))
}

/// Writing the bytes that hex digits stand for gives those digits in upper
/// case: the string of an identifier is the string it was read from, without
/// its colons and in upper case.
pub proof fn lemma_written_is_upper_case(text: Seq<u8>, size: int, bytes: Seq<u8>)
    requires
        reads_as(text, size, Ok(bytes)),
    ensures
        encoded_upper(bytes) == upper_cased(without_colons(text)),
{
    let digits = without_colons(text);
    let written = encoded_upper(bytes);
    assert(written.len() == digits.len());
    assert forall|j: int| 0 <= j < digits.len() implies written[j] == to_upper(digits[j]) by {
        let i = j / 2;
        assert(is_hex_digit(digits[2 * i]));
        assert(is_hex_digit(digits[2 * i + 1]));
        let high = hex_value(digits[2 * i]);
        let low = hex_value(digits[2 * i + 1]);
        assert(bytes[i] == (16 * high + low) as u8);
        assert(bytes[i] / 16 == high && bytes[i] % 16 == low);
    }
    assert(written =~= upper_cased(digits));
}

/// The string that is written for any bytes reads as those bytes again: it
/// holds no colon, and an even number of hex digits that stand for them.
pub proof fn lemma_written_reads_back(bytes: Seq<u8>)
    ensures
        reads_as(encoded_upper(bytes), bytes.len() as int, Ok(bytes)),
        upper_cased(encoded_upper(bytes)) == encoded_upper(bytes),
{
    let written = encoded_upper(bytes);
    assert forall|j: int| 0 <= j < written.len() implies is_hex_digit(#[trigger] written[j])
        && written[j] != 0x3a && to_upper(written[j]) == written[j] by {
        let i = j / 2;
        assert(0 <= bytes[i] / 16 < 16 && 0 <= bytes[i] % 16 < 16);
    }
    lemma_without_colons_keeps(written);
    assert(decoded(written) =~= bytes) by {
        assert forall|i: int| 0 <= i < bytes.len() implies decoded(written)[i] == bytes[i] by {
            let high = (bytes[i] / 16) as int;
            let low = (bytes[i] % 16) as int;
            assert(written[2 * i] == upper_digit(high));
            assert(written[2 * i + 1] == upper_digit(low));
            assert(hex_value(upper_digit(high)) == high);
            assert(hex_value(upper_digit(low)) == low);
        }
    }
    assert(upper_cased(written) =~= written);
}

/// A string that holds no colon loses nothing when colons are taken out.
pub proof fn lemma_without_colons_keeps(text: Seq<u8>)
    requires
        forall|i: int| 0 <= i < text.len() ==> #[trigger] text[i] != 0x3a,
    ensures
        without_colons(text) == text,
    decreases text.len(),
{
    if text.len() > 0 {
        let shorter = text.drop_last();
        assert forall|i: int| 0 <= i < shorter.len() implies #[trigger] shorter[i] != 0x3a by {
            assert(shorter[i] == text[i]);
        }
        lemma_without_colons_keeps(shorter);
        assert(text[text.len() - 1] != 0x3a);
        assert(shorter.push(text.last()) =~= text);
    } else {
        assert(text =~= Seq::<u8>::empty());
    }
}

/// Reading, writing and reading again gives the bytes of the first reading,
/// and the string that was written is written again: the upper-case form is
/// stable.
pub proof fn lemma_round_trip(text: Seq<u8>, size: int, bytes: Seq<u8>)
    requires
        reads_as(text, size, Ok(bytes)),
    ensures
        reads_as(encoded_upper(bytes), size, Ok(bytes)),
        encoded_upper(bytes) == upper_cased(without_colons(text)),
{
    lemma_written_is_upper_case(text, size, bytes);
    lemma_written_reads_back(bytes);
}

/// A string of hex digits that stand for another number of bytes than
/// `size` reads as nothing but the error that names that number.
pub proof fn lemma_wrong_length(text: Seq<u8>, size: int, outcome: Result<Seq<u8>, ParseError>)
    requires
        without_colons(text).len() % 2 == 0,
        all_hex(without_colons(text)),
        without_colons(text).len() / 2 != size,
        reads_as(text, size, outcome),
    ensures
        outcome == Err::<Seq<u8>, ParseError>(
            ParseError::VecWrongSize((without_colons(text).len() / 2) as usize),
        ),
{
}

/// Copies `text` without the colons in it.
fn strip_colons(text: &[u8]) -> (r: Vec<u8>)
    ensures
        r@ == without_colons(text@),
{
    let mut out: Vec<u8> = Vec::new();
    let mut k: usize = 0;
    assert(text@.subrange(0, 0) =~= Seq::<u8>::empty());
    while k < text.len()
        invariant
            k <= text@.len(),
            out@ == without_colons(text@.subrange(0, k as int)),
        decreases text@.len() - k,
    {
        let b: u8 = text[k];
        assert(text@.subrange(0, k + 1).drop_last() =~= text@.subrange(0, k as int));
        if b != 0x3a {
            out.push(b);
        }
        k += 1;
    }
    assert(text@.subrange(0, k as int) =~= text@);
    out
}

/// Reads `SIZE` bytes from hex digits.
fn read_bytes<const SIZE: usize>(s: &str) -> (r: Result<[u8; SIZE], ParseError>)
    ensures
        reads_as(
            s.spec_bytes(),
            SIZE as int,
            match r {
                Ok(bytes) => Ok(bytes@),
                Err(e) => Err(e),
            },
        ),
{
    let digits = strip_colons(s.as_bytes());
    match crate::hex::decode(digits.as_slice()) {
        Err(e) => Err(ParseError::FromHex(e)),
        Ok(bytes) => {
            let len = bytes.len();
            if len != SIZE {
                return Err(ParseError::VecWrongSize(len));
            }
            let mut out = [0u8; SIZE];
            let mut k: usize = 0;
            while k < SIZE
                invariant
                    k <= SIZE,
                    bytes@.len() == SIZE,
                    forall|i: int| 0 <= i < k ==> out@[i] == bytes@[i],
                decreases SIZE - k,
            {
                out[k] = bytes[k];
                k += 1;
            }
            assert(out@ =~= bytes@);
            Ok(out)
        },
    }
}

/// The identifier of a device: 8 bytes.
#[derive(Debug, Clone, Copy)]
pub struct DevEui([u8; 8]);

/// The identifier of an application: 8 bytes.
#[derive(Debug, Clone, Copy)]
pub struct AppEui([u8; 8]);

/// The key of an application: 16 bytes.
#[derive(Debug, Clone, Copy)]
pub struct AppKey([u8; 16]);

impl View for DevEui {
    type V = Seq<u8>;

    closed spec fn view(&self) -> Seq<u8> {
        self.0@
    }
}

impl View for AppEui {
    type V = Seq<u8>;

    closed spec fn view(&self) -> Seq<u8> {
        self.0@
    }
}

impl View for AppKey {
    type V = Seq<u8>;

    closed spec fn view(&self) -> Seq<u8> {
        self.0@
    }
}

impl DevEui {
    /// Reads the identifier from hex digits, with `:` allowed among them.
    pub fn from_str(s: &str) -> (r: Result<DevEui, ParseError>)
        ensures
            reads_as(
                s.spec_bytes(),
                8,
                match r {
                    Ok(id) => Ok(id@),
                    Err(e) => Err(e),
                },
            ),
    {
        match read_bytes::<8>(s) {
            Ok(bytes) => Ok(DevEui(bytes)),
            Err(e) => Err(e),
        }
    }

    /// The identifier in upper-case hex digits.
    pub fn to_string(&self) -> (r: String)
        ensures
            r@ == ascii_chars(encoded_upper(self@)),
    {
        crate::hex::encode_upper(self.0.as_slice())
    }

    /// The bytes of the identifier.
    pub fn as_bytes(&self) -> (r: &[u8])
        ensures
            r@ == self@,
            r@.len() == 8,
    {
        self.0.as_slice()
    }
}

impl AppEui {
    /// Reads the identifier from hex digits, with `:` allowed among them.
    pub fn from_str(s: &str) -> (r: Result<AppEui, ParseError>)
        ensures
            reads_as(
                s.spec_bytes(),
                8,
                match r {
                    Ok(id) => Ok(id@),
                    Err(e) => Err(e),
                },
            ),
    {
        match read_bytes::<8>(s) {
            Ok(bytes) => Ok(AppEui(bytes)),
            Err(e) => Err(e),
        }
    }

    /// The identifier in upper-case hex digits.
    pub fn to_string(&self) -> (r: String)
        ensures
            r@ == ascii_chars(encoded_upper(self@)),
    {
        crate::hex::encode_upper(self.0.as_slice())
    }

    /// The bytes of the identifier.
    pub fn as_bytes(&self) -> (r: &[u8])
        ensures
            r@ == self@,
            r@.len() == 8,
    {
        self.0.as_slice()
    }
}

impl AppKey {
    /// Reads the key from hex digits, with `:` allowed among them.
    pub fn from_str(s: &str) -> (r: Result<AppKey, ParseError>)
        ensures
            reads_as(
                s.spec_bytes(),
                16,
                match r {
                    Ok(key) => Ok(key@),
                    Err(e) => Err(e),
                },
            ),
    {
        match read_bytes::<16>(s) {
            Ok(bytes) => Ok(AppKey(bytes)),
            Err(e) => Err(e),
        }
    }

    /// The key in upper-case hex digits.
    pub fn to_string(&self) -> (r: String)
        ensures
            r@ == ascii_chars(encoded_upper(self@)),
    {
        crate::hex::encode_upper(self.0.as_slice())
    }

    /// The bytes of the key.
    pub fn as_bytes(&self) -> (r: &[u8])
        ensures
            r@ == self@,
            r@.len() == 16,
    {
        self.0.as_slice()
    }
}

impl std::str::FromStr for DevEui {
    type Err = ParseError;

    /// Reads the identifier from hex digits, with `:` allowed among them, as the
    /// function of the same name does that the type has of its own.
    fn from_str(s: &str) -> (r: Result<Self, ParseError>)
        ensures
            reads_as(
                s.spec_bytes(),
                8,
                match r {
                    Ok(id) => Ok(id@),
                    Err(e) => Err(e),
                },
            ),
    {
        DevEui::from_str(s)
    }
}

impl std::str::FromStr for AppEui {
    type Err = ParseError;

    /// Reads the identifier from hex digits, with `:` allowed among them, as the
    /// function of the same name does that the type has of its own.
    fn from_str(s: &str) -> (r: Result<Self, ParseError>)
        ensures
            reads_as(
                s.spec_bytes(),
                8,
                match r {
                    Ok(id) => Ok(id@),
                    Err(e) => Err(e),
                },
            ),
    {
        AppEui::from_str(s)
    }
}

impl std::str::FromStr for AppKey {
    type Err = ParseError;

    /// Reads the key from hex digits, with `:` allowed among them, as the
    /// function of the same name does that the type has of its own.
    fn from_str(s: &str) -> (r: Result<Self, ParseError>)
        ensures
            reads_as(
                s.spec_bytes(),
                16,
                match r {
                    Ok(id) => Ok(id@),
                    Err(e) => Err(e),
                },
            ),
    {
        AppKey::from_str(s)
    }
}

impl PartialEq for DevEui {
    fn eq(&self, other: &Self) -> (r: bool) {
        same(self.0.as_slice(), other.0.as_slice())
    }
}

impl vstd::std_specs::cmp::PartialEqSpecImpl for DevEui {
    open spec fn obeys_eq_spec() -> bool {
        true
    }

    open spec fn eq_spec(&self, other: &Self) -> bool {
        self@ == other@
    }
}

impl Eq for DevEui {

}

impl PartialEq for AppEui {
    fn eq(&self, other: &Self) -> (r: bool) {
        same(self.0.as_slice(), other.0.as_slice())
    }
}

impl vstd::std_specs::cmp::PartialEqSpecImpl for AppEui {
    open spec fn obeys_eq_spec() -> bool {
        true
    }

    open spec fn eq_spec(&self, other: &Self) -> bool {
        self@ == other@
    }
}

impl Eq for AppEui {

}

impl PartialEq for AppKey {
    fn eq(&self, other: &Self) -> (r: bool) {
        same(self.0.as_slice(), other.0.as_slice())
    }
}

impl vstd::std_specs::cmp::PartialEqSpecImpl for AppKey {
    open spec fn obeys_eq_spec() -> bool {
        true
    }

    open spec fn eq_spec(&self, other: &Self) -> bool {
        self@ == other@
    }
}

impl Eq for AppKey {

}

impl From<[u8; 8]> for DevEui {
    fn from(arr: [u8; 8]) -> (r: Self) {
        DevEui(arr)
    }
}

impl vstd::std_specs::convert::FromSpecImpl<[u8; 8]> for DevEui {
    open spec fn obeys_from_spec() -> bool {
        true
    }

    closed spec fn from_spec(arr: [u8; 8]) -> Self {
        DevEui(arr)
    }
}

impl From<[u8; 8]> for AppEui {
    fn from(arr: [u8; 8]) -> (r: Self) {
        AppEui(arr)
    }
}

impl vstd::std_specs::convert::FromSpecImpl<[u8; 8]> for AppEui {
    open spec fn obeys_from_spec() -> bool {
        true
    }

    closed spec fn from_spec(arr: [u8; 8]) -> Self {
        AppEui(arr)
    }
}

impl From<[u8; 16]> for AppKey {
    fn from(arr: [u8; 16]) -> (r: Self) {
        AppKey(arr)
    }
}

impl vstd::std_specs::convert::FromSpecImpl<[u8; 16]> for AppKey {
    open spec fn obeys_from_spec() -> bool {
        true
    }

    closed spec fn from_spec(arr: [u8; 16]) -> Self {
        AppKey(arr)
    }
}

/// An identifier made from bytes holds those bytes.
pub proof fn lemma_dev_eui_from(arr: [u8; 8])
    ensures
        <DevEui as vstd::std_specs::convert::FromSpec<[u8; 8]>>::from_spec(arr)@ == arr@,
{
}

/// An identifier made from bytes holds those bytes.
pub proof fn lemma_app_eui_from(arr: [u8; 8])
    ensures
        <AppEui as vstd::std_specs::convert::FromSpec<[u8; 8]>>::from_spec(arr)@ == arr@,
{
}

/// A key made from bytes holds those bytes.
pub proof fn lemma_app_key_from(arr: [u8; 16])
    ensures
        <AppKey as vstd::std_specs::convert::FromSpec<[u8; 16]>>::from_spec(arr)@ == arr@,
{
}

/// The identifiers and the key that a device joins with.
#[derive(Debug, Clone, Copy, PartialEq, Eq)]
pub struct Credentials {
    pub app_eui: AppEui,
    pub app_key: AppKey,
    pub dev_eui: DevEui,
}

impl Credentials {
    pub fn new(dev_eui: DevEui, app_eui: AppEui, app_key: AppKey) -> (r: Self)
        ensures
            r.dev_eui == dev_eui,
            r.app_eui == app_eui,
            r.app_key == app_key,
    {
        Self { dev_eui, app_eui, app_key }
    }
}

} // verus!
