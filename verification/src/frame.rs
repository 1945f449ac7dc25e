//! Protocol frames and their building blocks.
//!
//! A wire packet is `SOI`, then hex-ASCII fields (version, address, CID1,
//! CID2, length, payload), then a 16-bit checksum over those hex characters,
//! then `EOI`.  This module holds the checksum engine, the version byte, the
//! control identifiers, the self-checksummed length field, and the frame
//! encoder and decoder.

use vstd::prelude::*;
use vstd::slice::slice_to_vec;
use vstd::string::StringExecFns;

use crate::Error;
use crate::util::DecodeError;
use crate::util::u8_encode_hex;
use crate::util::u8_from_hex;
use crate::util::u16_encode_hex;
use crate::util::u16_from_hex;
use crate::util::u8_hex;
use crate::util::u16_hex;
use crate::util::u8_from_hex_spec;
use crate::util::u16_from_hex_spec;
use crate::util::is_hex_digit;
use crate::util::hex_digit_value;
use crate::types::read2;

verus! {

/// The maximum size of the ASCII encoded payload in bytes
pub const MAX_ENCODED_PAYLOAD_LEN: usize = 4095;

/// The maximum size of unencoded payload data in bytes that a message can contain
pub const MAX_UNENCODED_PAYLOAD_LEN: usize = MAX_ENCODED_PAYLOAD_LEN / 2;

/// The Start of Information flag (`~`)
pub const SOI: u8 = 0x7E;

/// The End of Information flag (Carriage Return (CR) `\r`)
pub const EOI: u8 = 0x0D;

/// The unsigned sum of a sequence of bytes.
pub open spec fn byte_sum(s: Seq<u8>) -> int
    decreases s.len(),
{
    if s.len() == 0 {
        0
    } else {
        byte_sum(s.drop_last()) + s.last()
    }
}

/// Law: the byte sum distributes over concatenation.
pub proof fn lemma_byte_sum_concat(a: Seq<u8>, b: Seq<u8>)
    ensures
        byte_sum(a + b) == byte_sum(a) + byte_sum(b),
    decreases b.len(),
{
    if b.len() == 0 {
        assert(a + b =~= a);
    } else {
        lemma_byte_sum_concat(a, b.drop_last());
        assert((a + b).drop_last() =~= a + b.drop_last());
    }
}

/// The finalized 16-bit checksum for an accumulated sum: two's complement of
/// the sum truncated to 16 bits.
pub open spec fn checksum_finalize_spec(acc: int) -> u16 {
    ((0x10000 - acc % 0x10000) % 0x10000) as u16
}

/// The frame checksum over a span of wire bytes.
pub open spec fn checksum_spec(s: Seq<u8>) -> u16 {
    checksum_finalize_spec(byte_sum(s))
}

/// Law: accumulating modulo 2^32 does not change the finalized checksum,
/// because 2^16 divides 2^32.
pub proof fn lemma_checksum_wrap(acc: int)
    ensures
        checksum_finalize_spec(acc % 0x1_0000_0000) == checksum_finalize_spec(acc),
{
    vstd::arithmetic::div_mod::lemma_mod_mod(acc, 0x10000, 0x10000);
}

/// Folding one more summand into an accumulator held modulo `m`.
proof fn lemma_mod_add_step(a: int, b: int, m: int)
    requires
        m > 0,
    ensures
        ((a % m) + b) % m == (a + b) % m,
{
    vstd::arithmetic::div_mod::lemma_mod_twice(a, m);
    vstd::arithmetic::div_mod::lemma_add_mod_noop(a % m, b, m);
    vstd::arithmetic::div_mod::lemma_add_mod_noop(a, b, m);
}

/// Checksum that can be updated multiple times before finalizing
///
/// The accumulator wraps modulo 2^32; [`lemma_checksum_wrap`] shows that the
/// finalized value is nevertheless the checksum of everything fed in.
pub struct Checksum {
    pub acc: u32,
}

impl Checksum {
    /// Create a new [Checksum]
    pub fn new() -> (r: Self)
        ensures
            r.acc == 0,
    {
        Checksum { acc: 0 }
    }

    /// Update the checksum with new data
    pub fn update(&mut self, data: &[u8])
        ensures
            final(self).acc == (old(self).acc + byte_sum(data@)) % 0x1_0000_0000,
    {
        let n = data.len();
        proof {
            assert(data@.take(0) =~= Seq::<u8>::empty());
            vstd::arithmetic::div_mod::lemma_small_mod(old(self).acc as nat, 0x1_0000_0000);
        }
        for i in 0..n
            invariant
                n == data@.len(),
                self.acc == (old(self).acc + byte_sum(data@.take(i as int))) % 0x1_0000_0000,
        {
            let ghost prefix = data@.take(i as int);
            self.acc = self.acc.wrapping_add(data[i] as u32);
            proof {
                assert(data@.take(i + 1).drop_last() =~= prefix);
                lemma_mod_add_step(
                    old(self).acc + byte_sum(prefix),
                    data@[i as int] as int,
                    0x1_0000_0000,
                );
            }
        }
        proof {
            assert(data@.take(n as int) =~= data@);
        }
    }

    /// Finalize the checksum
    ///
    /// Also resets the internal state for reuse.
    pub fn finalize(&mut self) -> (r: u16)
        ensures
            r == checksum_finalize_spec(old(self).acc as int),
            final(self).acc == 0,
    {
        let m: u32 = self.acc % 65536;
        self.acc = 0;
        ((65536 - m) % 65536) as u16
    }
}

/// Encoded protocol version: major in the high nibble, minor in the low one.
#[derive(Debug, Clone, Copy, PartialEq, Eq, Structural)]
pub struct Version(pub u8);

impl Version {
    /// Create a new [Version] from `major` and `minor`
    ///
    /// _Note:_ `major` and `minor` are only stored in 4 bit.
    /// Values greater than `15` will be truncated.
    pub fn new(major: u8, minor: u8) -> (r: Self)
        ensures
            r.0 == (major % 16) * 16 + minor % 16,
    {
        Self((major % 16) * 16 + minor % 16)
    }

    pub fn major(&self) -> (r: u8)
        ensures
            r == self.0 / 16,
    {
        self.0 / 16
    }

    pub fn minor(&self) -> (r: u8)
        ensures
            r == self.0 % 16,
    {
        self.0 % 16
    }

    pub fn encode_hex(&self) -> (r: [u8; 2])
        ensures
            r@ == u8_hex(self.0),
    {
        u8_encode_hex(self.0)
    }

    pub fn decode_hex(ascii: &[u8; 2]) -> (r: Result<Self, DecodeError>)
        ensures
            r == match u8_from_hex_spec(ascii@) {
                Some(v) => Ok::<Version, DecodeError>(Version(v)),
                None => Err::<Version, DecodeError>(DecodeError::Hex),
            },
    {
        match u8_from_hex(ascii) {
            Ok(v) => Ok(Self(v)),
            Err(e) => Err(e),
        }
    }
}

/// The decimal text of one nibble value (0 to 15).
pub open spec fn nibble_text(n: u8) -> Seq<char>
    recommends
        n < 16,
{
    if n == 0 {
        "0"@
    } else if n == 1 {
        "1"@
    } else if n == 2 {
        "2"@
    } else if n == 3 {
        "3"@
    } else if n == 4 {
        "4"@
    } else if n == 5 {
        "5"@
    } else if n == 6 {
        "6"@
    } else if n == 7 {
        "7"@
    } else if n == 8 {
        "8"@
    } else if n == 9 {
        "9"@
    } else if n == 10 {
        "10"@
    } else if n == 11 {
        "11"@
    } else if n == 12 {
        "12"@
    } else if n == 13 {
        "13"@
    } else if n == 14 {
        "14"@
    } else {
        "15"@
    }
}

/// The textual form of a version: a `v`, the major number, a dot, the minor
/// number.
pub open spec fn version_text(v: Version) -> Seq<char> {
    "v"@ + nibble_text(v.0 / 16) + "."@ + nibble_text(v.0 % 16)
}

/// The decimal text of one nibble value.
fn nibble_str(n: u8) -> (r: &'static str)
    requires
        n < 16,
    ensures
        r@ == nibble_text(n),
{
    match n {
        0 => "0",
        1 => "1",
        2 => "2",
        3 => "3",
        4 => "4",
        5 => "5",
        6 => "6",
        7 => "7",
        8 => "8",
        9 => "9",
        10 => "10",
        11 => "11",
        12 => "12",
        13 => "13",
        14 => "14",
        _ => "15",
    }
}

impl Version {
    /// The version rendered as text, for example `v2.8`.
    pub fn to_display_string(&self) -> (r: String)
        ensures
            r@ == version_text(*self),
    {
        let mut s = String::from_str("v");
        s.append(nibble_str(self.major()));
        s.append(".");
        s.append(nibble_str(self.minor()));
        s
    }
}

impl Default for Version {
    /// The RS232 protocol version this library implements, v2.8.
    fn default() -> (r: Self)
        ensures
            r.0 == 0x28,
    {
        Version::new(crate::RS232_PROTOCOL_VERSION_MAJOR, crate::RS232_PROTOCOL_VERSION_MINOR)
    }
}

/// `CID1` control identifier
///
/// RS232 (ver. 2.8) and RS485 (ver. 3.3) protocols
/// only specify one `CID1` which is `BatteryData`.
#[non_exhaustive]
#[derive(Debug, Clone, Copy, PartialEq, Eq, Structural)]
pub enum Cid1 {
    BatteryData,
}

/// The protocol value of a `CID1` identifier.
pub open spec fn cid1_value(c: Cid1) -> u8 {
    match c {
        Cid1::BatteryData => 0x46,
    }
}

impl Cid1 {
    pub fn encode_hex(&self) -> (r: [u8; 2])
        ensures
            r@ == u8_hex(cid1_value(*self)),
    {
        match self {
            Cid1::BatteryData => u8_encode_hex(0x46),
        }
    }

    pub fn decode_hex(ascii: &[u8; 2]) -> (r: Result<Cid1, DecodeError>)
        ensures
            r == match u8_from_hex_spec(ascii@) {
                Some(v) => if v == 0x46 {
                    Ok::<Cid1, DecodeError>(Cid1::BatteryData)
                } else {
                    Err::<Cid1, DecodeError>(DecodeError::UnknownVariant)
                },
                None => Err::<Cid1, DecodeError>(DecodeError::Hex),
            },
    {
        match u8_from_hex(ascii) {
            Ok(value) => if value == 0x46 {
                Ok(Self::BatteryData)
            } else {
                Err(DecodeError::UnknownVariant)
            },
            Err(e) => Err(e),
        }
    }
}

/// `CID2` control identifier
///
/// Either a command code or a response code.
#[derive(Debug, Clone, Copy, PartialEq, Eq, Structural)]
pub enum Cid2 {
    Command(CommandCode),
    Response(ResponseCode),
}

impl From<CommandCode> for Cid2 {
    fn from(value: CommandCode) -> (r: Self) {
        Cid2::Command(value)
    }
}

impl vstd::std_specs::convert::FromSpecImpl<CommandCode> for Cid2 {
    open spec fn obeys_from_spec() -> bool {
        true
    }

    open spec fn from_spec(value: CommandCode) -> Self {
        Cid2::Command(value)
    }
}

impl From<ResponseCode> for Cid2 {
    fn from(value: ResponseCode) -> (r: Self) {
        Cid2::Response(value)
    }
}

impl vstd::std_specs::convert::FromSpecImpl<ResponseCode> for Cid2 {
    open spec fn obeys_from_spec() -> bool {
        true
    }

    open spec fn from_spec(value: ResponseCode) -> Self {
        Cid2::Response(value)
    }
}

/// `CID2` command codes (for both RS232 and RS485 protocol)
///
/// Some of the command codes are only available in the RS232 protocol version.
#[derive(Debug, Clone, Copy, PartialEq, Eq, Structural)]
#[non_exhaustive]
pub enum CommandCode {
    /// Get analog value, fixed point
    GetAnalogValue,
    /// Get alarm info
    GetAlarmInfo,
    /// Get system parameter, fixed point
    GetSystemParameter,
    /// Get protocol version
    GetProtocolVersion,
    /// Get manufacturer info
    GetManufacturerInfo,
    /// Get quantity of pack (RS232, ver. 2.8)
    GetQuantityOfPack,
    /// Set communication (baud) rate (RS232)
    SetCommunicationRate,
    /// Get charge / discharge management info
    GetCharge,
    /// Get Serial Number (SN) of battery
    GetSerialNumber,
    /// Setup charge / discharge management info
    SetChargeInfo,
    /// Turn off (since ver. 2.8)
    TurnOff,
    /// Get firmware info
    GetFirmwareInfo,
    /// Control command (user-defined) (RS232, ver. 2.8)
    ControlCommand,
}

/// The protocol value of a command code.
pub open spec fn command_code_value(c: CommandCode) -> u8 {
    match c {
        CommandCode::GetAnalogValue => 0x42,
        CommandCode::GetAlarmInfo => 0x44,
        CommandCode::GetSystemParameter => 0x47,
        CommandCode::GetProtocolVersion => 0x4f,
        CommandCode::GetManufacturerInfo => 0x51,
        CommandCode::GetQuantityOfPack => 0x90,
        CommandCode::SetCommunicationRate => 0x91,
        CommandCode::GetCharge => 0x92,
        CommandCode::GetSerialNumber => 0x93,
        CommandCode::SetChargeInfo => 0x94,
        CommandCode::TurnOff => 0x95,
        CommandCode::GetFirmwareInfo => 0x96,
        CommandCode::ControlCommand => 0x99,
    }
}

/// The command code with a given protocol value, if any.
pub open spec fn command_code_from_value(value: u8) -> Option<CommandCode> {
    if value == 0x42 {
        Some(CommandCode::GetAnalogValue)
    } else if value == 0x44 {
        Some(CommandCode::GetAlarmInfo)
    } else if value == 0x47 {
        Some(CommandCode::GetSystemParameter)
    } else if value == 0x4f {
        Some(CommandCode::GetProtocolVersion)
    } else if value == 0x51 {
        Some(CommandCode::GetManufacturerInfo)
    } else if value == 0x90 {
        Some(CommandCode::GetQuantityOfPack)
    } else if value == 0x91 {
        Some(CommandCode::SetCommunicationRate)
    } else if value == 0x92 {
        Some(CommandCode::GetCharge)
    } else if value == 0x93 {
        Some(CommandCode::GetSerialNumber)
    } else if value == 0x94 {
        Some(CommandCode::SetChargeInfo)
    } else if value == 0x95 {
        Some(CommandCode::TurnOff)
    } else if value == 0x96 {
        Some(CommandCode::GetFirmwareInfo)
    } else if value == 0x99 {
        Some(CommandCode::ControlCommand)
    } else {
        None
    }
}

impl CommandCode {
    /// The single-byte protocol value of this command code.
    pub fn value(&self) -> (r: u8)
        ensures
            r == command_code_value(*self),
    {
        match self {
            CommandCode::GetAnalogValue => 0x42,
            CommandCode::GetAlarmInfo => 0x44,
            CommandCode::GetSystemParameter => 0x47,
            CommandCode::GetProtocolVersion => 0x4f,
            CommandCode::GetManufacturerInfo => 0x51,
            CommandCode::GetQuantityOfPack => 0x90,
            CommandCode::SetCommunicationRate => 0x91,
            CommandCode::GetCharge => 0x92,
            CommandCode::GetSerialNumber => 0x93,
            CommandCode::SetChargeInfo => 0x94,
            CommandCode::TurnOff => 0x95,
            CommandCode::GetFirmwareInfo => 0x96,
            CommandCode::ControlCommand => 0x99,
        }
    }

    pub fn encode_hex(&self) -> (r: [u8; 2])
        ensures
            r@ == u8_hex(command_code_value(*self)),
    {
        u8_encode_hex(self.value())
    }

    pub fn decode_hex(ascii: &[u8; 2]) -> (r: Result<CommandCode, DecodeError>)
        ensures
            r == match u8_from_hex_spec(ascii@) {
                Some(v) => match command_code_from_value(v) {
                    Some(c) => Ok::<CommandCode, DecodeError>(c),
                    None => Err::<CommandCode, DecodeError>(DecodeError::UnknownVariant),
                },
                None => Err::<CommandCode, DecodeError>(DecodeError::Hex),
            },
    {
        let value = match u8_from_hex(ascii) {
            Ok(v) => v,
            Err(e) => {
                return Err(e);
            },
        };
        let cmd = match value {
            0x42 => CommandCode::GetAnalogValue,
            0x44 => CommandCode::GetAlarmInfo,
            0x47 => CommandCode::GetSystemParameter,
            0x4f => CommandCode::GetProtocolVersion,
            0x51 => CommandCode::GetManufacturerInfo,
            0x90 => CommandCode::GetQuantityOfPack,
            0x91 => CommandCode::SetCommunicationRate,
            0x92 => CommandCode::GetCharge,
            0x93 => CommandCode::GetSerialNumber,
            0x94 => CommandCode::SetChargeInfo,
            0x95 => CommandCode::TurnOff,
            0x96 => CommandCode::GetFirmwareInfo,
            0x99 => CommandCode::ControlCommand,
            _ => {
                return Err(DecodeError::UnknownVariant);
            },
        };
        Ok(cmd)
    }
}

/// `CID2` response codes
#[derive(Debug, Clone, Copy, PartialEq, Eq, Structural)]
#[non_exhaustive]
pub enum ResponseCode {
    /// Success
    Normal,
    /// Version error
    VerError,
    /// Frame checksum error
    ChksumErr,
    /// Length field checksum error
    LChksumErr,
    /// CID2 invalid
    Cid2Err,
    /// Command format is invalid
    CommandFormatErr,
    /// info (payload) data invalid
    InvalidData,
    /// Address error
    AdrErr,
    /// Internal communication error
    ///
    /// Issued when communication between master and slave pack fails.
    CommunicationErr,
}

/// The response code with a given protocol value, if any.
pub open spec fn response_code_from_value(value: u8) -> Option<ResponseCode> {
    if value == 0x00 {
        Some(ResponseCode::Normal)
    } else if value == 0x01 {
        Some(ResponseCode::VerError)
    } else if value == 0x02 {
        Some(ResponseCode::ChksumErr)
    } else if value == 0x03 {
        Some(ResponseCode::LChksumErr)
    } else if value == 0x04 {
        Some(ResponseCode::Cid2Err)
    } else if value == 0x05 {
        Some(ResponseCode::CommandFormatErr)
    } else if value == 0x06 {
        Some(ResponseCode::InvalidData)
    } else if value == 0x90 {
        Some(ResponseCode::AdrErr)
    } else if value == 0x91 {
        Some(ResponseCode::CommunicationErr)
    } else {
        None
    }
}

/// The protocol value of a response code.
pub open spec fn response_code_value(c: ResponseCode) -> u8 {
    match c {
        ResponseCode::Normal => 0x00,
        ResponseCode::VerError => 0x01,
        ResponseCode::ChksumErr => 0x02,
        ResponseCode::LChksumErr => 0x03,
        ResponseCode::Cid2Err => 0x04,
        ResponseCode::CommandFormatErr => 0x05,
        ResponseCode::InvalidData => 0x06,
        ResponseCode::AdrErr => 0x90,
        ResponseCode::CommunicationErr => 0x91,
    }
}

impl ResponseCode {
    /// Whether this response code signals a failure.
    pub fn is_err(&self) -> (r: bool)
        ensures
            r == (*self != ResponseCode::Normal),
    {
        !self.is_ok()
    }

    /// Whether this response code signals success.
    pub fn is_ok(&self) -> (r: bool)
        ensures
            r == (*self == ResponseCode::Normal),
    {
        *self == ResponseCode::Normal
    }

    pub fn decode_hex(ascii: &[u8; 2]) -> (r: Result<ResponseCode, DecodeError>)
        ensures
            r == match u8_from_hex_spec(ascii@) {
                Some(v) => match response_code_from_value(v) {
                    Some(c) => Ok::<ResponseCode, DecodeError>(c),
                    None => Err::<ResponseCode, DecodeError>(DecodeError::UnknownVariant),
                },
                None => Err::<ResponseCode, DecodeError>(DecodeError::Hex),
            },
    {
        let value = match u8_from_hex(ascii) {
            Ok(v) => v,
            Err(e) => {
                return Err(e);
            },
        };
        let cmd = match value {
            0x00 => ResponseCode::Normal,
            0x01 => ResponseCode::VerError,
            0x02 => ResponseCode::ChksumErr,
            0x03 => ResponseCode::LChksumErr,
            0x04 => ResponseCode::Cid2Err,
            0x05 => ResponseCode::CommandFormatErr,
            0x06 => ResponseCode::InvalidData,
            0x90 => ResponseCode::AdrErr,
            0x91 => ResponseCode::CommunicationErr,
            _ => {
                return Err(DecodeError::UnknownVariant);
            },
        };
        Ok(cmd)
    }
}

/// The checksum nibble over the three nibbles of a 12-bit length: the
/// modulo-16 two's complement of their sum.
pub open spec fn length_checksum_nibble(length: u16) -> int
    recommends
        length <= 0xFFF,
{
    (16 - (length as int % 16 + (length as int / 16) % 16 + (length as int / 256) % 16) % 16) % 16
}

/// The packed length field: checksum nibble in the top four bits, the 12-bit
/// length below it.
pub open spec fn info_length_packed(length: u16) -> u16
    recommends
        length <= 0xFFF,
{
    (length_checksum_nibble(length) * 4096 + length) as u16
}

/// Encoded length of the `INFO` field
///
/// This datatype encodes the length of the frame payload (`INFO` field).
/// The encoded value holds the length (referred to as `LENID` in the
/// protocol) and a checksum (referred to as `LCHKSUM`).
#[derive(Debug, Clone, Copy, PartialEq, Eq, Structural)]
pub struct InfoLength(pub u16);

impl InfoLength {
    /// Encode a new `INFO` length of `length` hex characters.
    pub fn new(length: u16) -> (r: Self)
        requires
            length <= 0xFFF,
        ensures
            r.0 == info_length_packed(length),
    {
        let nibble1 = length % 16;
        let nibble2 = (length / 16) % 16;
        let nibble3 = (length / 256) % 16;
        let sum = nibble1 + nibble2 + nibble3;
        let checksum = (16 - sum % 16) % 16;
        Self(checksum * 4096 + length)
    }

    pub fn encode_hex(&self) -> (r: [u8; 4])
        ensures
            r@ == u16_hex(self.0),
    {
        u16_encode_hex(self.0)
    }

    pub fn decode_hex(ascii: &[u8; 4]) -> (r: Result<Self, DecodeError>)
        ensures
            r == match u16_from_hex_spec(ascii@) {
                Some(v) => Ok::<InfoLength, DecodeError>(InfoLength(v)),
                None => Err::<InfoLength, DecodeError>(DecodeError::Hex),
            },
    {
        match u16_from_hex(ascii) {
            Ok(v) => Ok(Self(v)),
            Err(e) => Err(e),
        }
    }

    /// Recompute the checksum nibble and compare: a mismatch means the field
    /// was corrupted or forged.
    pub fn validate(&self) -> (r: bool)
        ensures
            r <==> self.0 == info_length_packed(self.0 % 4096),
    {
        let check = Self::new(self.length());
        self.0 == check.0
    }

    /// The encoded payload length in hex characters.
    pub fn length(&self) -> (r: u16)
        ensures
            r == self.0 % 4096,
    {
        self.0 % 4096
    }
}

/// The hex encoding of a payload: every raw byte becomes two hex characters.
pub open spec fn encoded_info(info: Seq<u8>) -> Seq<u8>
    decreases info.len(),
{
    if info.len() == 0 {
        Seq::empty()
    } else {
        encoded_info(info.drop_last()) + u8_hex(info.last())
    }
}

/// The hex-encoded span of a frame that the checksum covers: version,
/// address, CID1, CID2, length field, payload.
pub open spec fn frame_body_bytes(
    ver: u8,
    adr: u8,
    cid1: u8,
    cid2: u8,
    length: u16,
    info: Seq<u8>,
) -> Seq<u8> {
    u8_hex(ver) + u8_hex(adr) + u8_hex(cid1) + u8_hex(cid2) + u16_hex(length) + encoded_info(info)
}

/// The full wire packet for a frame: SOI, the checksummed body, the
/// hex-encoded checksum, EOI.
pub open spec fn encode_spec(ver: u8, adr: u8, cid2: u8, length: u16, info: Seq<u8>) -> Seq<u8> {
    let body = frame_body_bytes(ver, adr, 0x46, cid2, length, info);
    seq![SOI] + body + u16_hex(checksum_spec(body)) + seq![EOI]
}

/// A protocol frame
#[derive(Debug, PartialEq, Eq)]
pub struct Frame {
    /// Protocol version field
    pub ver: Version,
    /// Battery address
    pub adr: u8,
    /// `CID1`
    ///
    /// Control identifier 1
    pub cid1: Cid1,
    /// `CID2`
    ///
    /// Either a command or a response code.
    pub cid2: Cid2,
    /// `LENGTH`
    ///
    /// Encodes the length of the `INFO` field.
    pub length: InfoLength,
    /// `INFO` in binary form
    ///
    /// The payload of the frame.
    /// Either command data (`COMMAND_INFO`) or
    /// response data (`DATA_INFO`).
    pub info: Vec<u8>,
}

impl Frame {
    /// Construct a new frame
    ///
    /// `info` has to be the unencoded payload.
    pub fn new(ver: Version, adr: u8, cid2: Cid2, info: &[u8]) -> (r: Frame)
        requires
            info@.len() <= MAX_UNENCODED_PAYLOAD_LEN,
        ensures
            r.ver == ver,
            r.adr == adr,
            r.cid1 == Cid1::BatteryData,
            r.cid2 == cid2,
            r.length.0 == info_length_packed((info@.len() * 2) as u16),
            r.info@ == info@,
    {
        let length = InfoLength::new((info.len() as u16) * 2);
        Self { ver, adr, cid1: Cid1::BatteryData, cid2, length, info: slice_to_vec(info) }
    }

    /// Construct a fully assembled ASCII/HEX encoded packet of data
    ///
    /// Returns [Error::InvalidInput] when the payload is too large
    /// (larger than [MAX_UNENCODED_PAYLOAD_LEN]), and [Error::Internal]
    /// when `cid2` does not carry a command code.
    pub fn encode(&self) -> (r: Result<Vec<u8>, Error>)
        ensures
            self.info@.len() > MAX_UNENCODED_PAYLOAD_LEN ==> r == Err::<Vec<u8>, Error>(
                Error::InvalidInput,
            ),
            self.info@.len() <= MAX_UNENCODED_PAYLOAD_LEN && !(self.cid2 is Command) ==> r == Err::<
                Vec<u8>,
                Error,
            >(Error::Internal),
            (self.info@.len() <= MAX_UNENCODED_PAYLOAD_LEN && self.cid2 matches Cid2::Command(cmd))
                ==> r is Ok && r->Ok_0@ == encode_spec(
                self.ver.0,
                self.adr,
                command_code_value(self.cid2->Command_0),
                self.length.0,
                self.info@,
            ),
    {
        if self.info.len() > MAX_UNENCODED_PAYLOAD_LEN {
            return Err(Error::InvalidInput);
        }
        let cmd = match &self.cid2 {
            Cid2::Command(c) => *c,
            Cid2::Response(_) => {
                return Err(Error::Internal);
            },
        };
        let mut chksum = Checksum::new();
        let mut out: Vec<u8> = Vec::new();

        // write SOI
        out.push(SOI);

        // encode version
        let ver = self.ver.encode_hex();
        chksum.update(ver.as_slice());
        out.push(ver[0]);
        out.push(ver[1]);

        // encode address
        let adr = self.encode_adr();
        chksum.update(adr.as_slice());
        out.push(adr[0]);
        out.push(adr[1]);

        // encode CID1
        let cid1 = self.cid1.encode_hex();
        chksum.update(cid1.as_slice());
        out.push(cid1[0]);
        out.push(cid1[1]);

        // encode CID2
        let cid2 = cmd.encode_hex();
        chksum.update(cid2.as_slice());
        out.push(cid2[0]);
        out.push(cid2[1]);

        // encode LENGTH
        let len = self.length.encode_hex();
        chksum.update(len.as_slice());
        out.push(len[0]);
        out.push(len[1]);
        out.push(len[2]);
        out.push(len[3]);

        let ghost header = u8_hex(self.ver.0) + u8_hex(self.adr) + u8_hex(cid1_value(self.cid1))
            + u8_hex(command_code_value(cmd)) + u16_hex(self.length.0);
        proof {
            assert(out@ =~= seq![SOI] + header);
            lemma_checksum_updates(
                self.ver.0,
                self.adr,
                cid1_value(self.cid1),
                command_code_value(cmd),
                self.length.0,
            );
            assert(encoded_info(self.info@.take(0)) =~= Seq::<u8>::empty());
            assert(header + encoded_info(self.info@.take(0)) =~= header);
        }

        // write data
        let n = self.info.len();
        for i in 0..n
            invariant
                n == self.info@.len(),
                out@ == seq![SOI] + header + encoded_info(self.info@.take(i as int)),
                chksum.acc == byte_sum(header + encoded_info(self.info@.take(i as int)))
                    % 0x1_0000_0000,
        {
            let ghost prefix = self.info@.take(i as int);
            let encoded = u8_encode_hex(self.info[i]);
            chksum.update(encoded.as_slice());
            out.push(encoded[0]);
            out.push(encoded[1]);
            proof {
                assert(self.info@.take(i + 1).drop_last() =~= prefix);
                assert(encoded_info(self.info@.take(i + 1)) == encoded_info(prefix) + u8_hex(
                    self.info@[i as int],
                ));
                assert(out@ =~= seq![SOI] + header + encoded_info(self.info@.take(i + 1)));
                lemma_byte_sum_concat(header + encoded_info(prefix), u8_hex(self.info@[i as int]));
                assert((header + encoded_info(prefix)) + u8_hex(self.info@[i as int]) =~= header
                    + encoded_info(self.info@.take(i + 1)));
                lemma_mod_add_step(
                    byte_sum(header + encoded_info(prefix)),
                    byte_sum(u8_hex(self.info@[i as int])),
                    0x1_0000_0000,
                );
            }
        }
        let ghost body = frame_body_bytes(
            self.ver.0,
            self.adr,
            cid1_value(self.cid1),
            command_code_value(cmd),
            self.length.0,
            self.info@,
        );
        proof {
            assert(self.info@.take(n as int) =~= self.info@);
            assert(header + encoded_info(self.info@) =~= body);
            lemma_checksum_wrap(byte_sum(body));
        }

        // write checksum
        let chksum = chksum.finalize();
        let cs = u16_encode_hex(chksum);
        out.push(cs[0]);
        out.push(cs[1]);
        out.push(cs[2]);
        out.push(cs[3]);

        // write EOI
        out.push(EOI);

        proof {
            assert(out@ =~= encode_spec(
                self.ver.0,
                self.adr,
                command_code_value(cmd),
                self.length.0,
                self.info@,
            ));
        }
        Ok(out)
    }

    fn encode_adr(&self) -> (r: [u8; 2])
        ensures
            r@ == u8_hex(self.adr),
    {
        u8_encode_hex(self.adr)
    }

    /// Decode an ASCII encoded packet
    ///
    /// `input` must hold one full packet starting with the `SOI` byte;
    /// bytes after the packet's checksum are left unread, as a stream
    /// reader would leave them in its buffer.
    ///
    /// Returns [Error::InvalidInput] when the `SOI` byte is absent, a field
    /// is truncated, or a hex field holds a non-hex character;
    /// [Error::UnsupportedControlIdentifier] when CID1 or CID2 decodes to an
    /// unknown value; [Error::Cecksum] when the length field's self-checksum
    /// or the frame checksum does not match; and [Error::Response] when the
    /// frame is sound but carries a non-normal response code.
    pub fn decode(input: &[u8]) -> (r: Result<Frame, Error>)
        ensures
            r matches Ok(f) ==> decode_spec(input@) is Ok && (decode_spec(input@) matches Ok(t)
                ==> f.ver.0 == t.0 && f.adr == t.1 && f.cid1 == Cid1::BatteryData && f.cid2
                == Cid2::Response(t.2) && f.info@ == t.3 && f.length.0 == info_length_packed(
                (2 * t.3.len()) as u16,
            )),
            r matches Err(e) ==> decode_spec(input@) == Err::<DecodedFields, Error>(e),
    {
        if input.len() < 1 {
            return Err(Error::InvalidInput);
        }
        if input[0] != SOI {
            return Err(Error::InvalidInput);
        }

        let mut checksum = Checksum::new();
        let ghost m = 0x1_0000_0000int;

        // Decode version
        if input.len() < 3 {
            return Err(Error::InvalidInput);
        }
        let buf = read2(input, 1);
        checksum.update(buf.as_slice());
        let ver = match Version::decode_hex(&buf) {
            Ok(v) => v,
            Err(_) => {
                return Err(Error::InvalidInput);
            },
        };

        // Decode address
        if input.len() < 5 {
            return Err(Error::InvalidInput);
        }
        let buf = read2(input, 3);
        checksum.update(buf.as_slice());
        proof {
            lemma_byte_sum_concat(input@.subrange(1, 3), input@.subrange(3, 5));
            assert(input@.subrange(1, 3) + input@.subrange(3, 5) =~= input@.subrange(1, 5));
            lemma_mod_add_step(
                byte_sum(input@.subrange(1, 3)),
                byte_sum(input@.subrange(3, 5)),
                m,
            );
        }
        let adr = match u8_from_hex(&buf) {
            Ok(v) => v,
            Err(_) => {
                return Err(Error::InvalidInput);
            },
        };

        // Decode CID1
        if input.len() < 7 {
            return Err(Error::InvalidInput);
        }
        let buf = read2(input, 5);
        checksum.update(buf.as_slice());
        proof {
            lemma_byte_sum_concat(input@.subrange(1, 5), input@.subrange(5, 7));
            assert(input@.subrange(1, 5) + input@.subrange(5, 7) =~= input@.subrange(1, 7));
            lemma_mod_add_step(
                byte_sum(input@.subrange(1, 5)),
                byte_sum(input@.subrange(5, 7)),
                m,
            );
        }
        match Cid1::decode_hex(&buf) {
            Ok(_) => {},
            Err(DecodeError::Hex) => {
                return Err(Error::InvalidInput);
            },
            Err(DecodeError::UnknownVariant) => {
                return Err(Error::UnsupportedControlIdentifier);
            },
        }

        // Decode CID2
        if input.len() < 9 {
            return Err(Error::InvalidInput);
        }
        let buf = read2(input, 7);
        checksum.update(buf.as_slice());
        proof {
            lemma_byte_sum_concat(input@.subrange(1, 7), input@.subrange(7, 9));
            assert(input@.subrange(1, 7) + input@.subrange(7, 9) =~= input@.subrange(1, 9));
            lemma_mod_add_step(
                byte_sum(input@.subrange(1, 7)),
                byte_sum(input@.subrange(7, 9)),
                m,
            );
        }
        let cid2 = match ResponseCode::decode_hex(&buf) {
            Ok(v) => v,
            Err(DecodeError::Hex) => {
                return Err(Error::InvalidInput);
            },
            Err(DecodeError::UnknownVariant) => {
                return Err(Error::UnsupportedControlIdentifier);
            },
        };

        // Decode LENGTH
        if input.len() < 13 {
            return Err(Error::InvalidInput);
        }
        let quad = read_quad(input, 9);
        checksum.update(quad.as_slice());
        proof {
            lemma_byte_sum_concat(input@.subrange(1, 9), input@.subrange(9, 13));
            assert(input@.subrange(1, 9) + input@.subrange(9, 13) =~= input@.subrange(1, 13));
            lemma_mod_add_step(
                byte_sum(input@.subrange(1, 9)),
                byte_sum(input@.subrange(9, 13)),
                m,
            );
        }
        let length = match InfoLength::decode_hex(&quad) {
            Ok(v) => v,
            Err(_) => {
                return Err(Error::InvalidInput);
            },
        };
        if !length.validate() {
            return Err(Error::Cecksum);
        }

        // Decode payload, now that the length field is trusted
        let l = length.length();
        let nb = (l / 2) as usize;
        if input.len() < 13 + 2 * nb {
            return Err(Error::InvalidInput);
        }
        let info = match decode_payload(input, nb, &mut checksum) {
            Ok(p) => p,
            Err(e) => {
                return Err(e);
            },
        };

        // Read CHKSUM
        if input.len() < 17 + 2 * nb {
            return Err(Error::InvalidInput);
        }
        let quad = read_quad(input, 13 + 2 * nb);
        let chksum = match u16_from_hex(&quad) {
            Ok(v) => v,
            Err(_) => {
                return Err(Error::InvalidInput);
            },
        };
        let calculated_checksum = checksum.finalize();
        proof {
            lemma_checksum_wrap(byte_sum(input@.subrange(1, 13 + 2 * nb)));
        }
        if chksum != calculated_checksum {
            return Err(Error::Cecksum);
        }

        if cid2.is_err() {
            return Err(Error::Response(cid2));
        }
        let frame = Frame {
            ver,
            adr,
            cid1: Cid1::BatteryData,
            cid2: Cid2::Response(cid2),
            length: InfoLength::new((nb as u16) * 2),
            info,
        };
        proof {
            assert(decode_spec(input@) == Ok::<DecodedFields, Error>((ver.0, adr, cid2, frame.info@)));
        }
        Ok(frame)
    }
}

/// Splitting the byte sum of a frame header at each field boundary.
proof fn lemma_checksum_updates(ver: u8, adr: u8, cid1: u8, cid2: u8, length: u16)
    ensures
        ((((byte_sum(u8_hex(ver)) % 0x1_0000_0000 + byte_sum(u8_hex(adr))) % 0x1_0000_0000
            + byte_sum(u8_hex(cid1))) % 0x1_0000_0000 + byte_sum(u8_hex(cid2))) % 0x1_0000_0000
            + byte_sum(u16_hex(length))) % 0x1_0000_0000 == byte_sum(
            u8_hex(ver) + u8_hex(adr) + u8_hex(cid1) + u8_hex(cid2) + u16_hex(length),
        ) % 0x1_0000_0000,
{
    let m = 0x1_0000_0000;
    lemma_byte_sum_concat(u8_hex(ver), u8_hex(adr));
    lemma_byte_sum_concat(u8_hex(ver) + u8_hex(adr), u8_hex(cid1));
    lemma_byte_sum_concat(u8_hex(ver) + u8_hex(adr) + u8_hex(cid1), u8_hex(cid2));
    lemma_byte_sum_concat(u8_hex(ver) + u8_hex(adr) + u8_hex(cid1) + u8_hex(cid2), u16_hex(length));
    lemma_mod_add_step(byte_sum(u8_hex(ver)), byte_sum(u8_hex(adr)), m);
    lemma_mod_add_step(
        byte_sum(u8_hex(ver) + u8_hex(adr)),
        byte_sum(u8_hex(cid1)),
        m,
    );
    lemma_mod_add_step(
        byte_sum(u8_hex(ver) + u8_hex(adr) + u8_hex(cid1)),
        byte_sum(u8_hex(cid2)),
        m,
    );
    lemma_mod_add_step(
        byte_sum(u8_hex(ver) + u8_hex(adr) + u8_hex(cid1) + u8_hex(cid2)),
        byte_sum(u16_hex(length)),
        m,
    );
}

/// Decoding a run of hex-character pairs into the raw bytes they encode.
/// `None` when any pair holds a character that is not a hex digit.
pub open spec fn decode_pairs(s: Seq<u8>) -> Option<Seq<u8>>
    recommends
        s.len() % 2 == 0,
    decreases s.len(),
{
    if s.len() < 2 {
        Some(Seq::empty())
    } else {
        match (
            decode_pairs(s.subrange(0, s.len() - 2)),
            u8_from_hex_spec(s.subrange(s.len() - 2, s.len() as int)),
        ) {
            (Some(p), Some(b)) => Some(p.push(b)),
            _ => None,
        }
    }
}

/// One invalid pair makes the whole run undecodable.
proof fn lemma_decode_pairs_invalid(s: Seq<u8>, i: int)
    requires
        s.len() % 2 == 0,
        0 <= i,
        2 * i + 2 <= s.len(),
        u8_from_hex_spec(s.subrange(2 * i, 2 * i + 2)) is None,
    ensures
        decode_pairs(s) is None,
    decreases s.len(),
{
    if 2 * i + 2 == s.len() {
    } else {
        let t = s.subrange(0, s.len() - 2);
        assert(t.subrange(2 * i, 2 * i + 2) =~= s.subrange(2 * i, 2 * i + 2));
        lemma_decode_pairs_invalid(t, i);
    }
}

/// The decoded fields of a wire packet: version byte, address, response
/// code, and raw payload.
pub type DecodedFields = (u8, u8, ResponseCode, Seq<u8>);

/// What decoding a wire packet yields, step by step in the order the bytes
/// are read: SOI, version, address, CID1, CID2, length field (validated),
/// payload pairs, checksum, response-code check.
pub open spec fn decode_spec(s: Seq<u8>) -> Result<DecodedFields, Error> {
    if s.len() < 1 || s[0] != SOI {
        Err(Error::InvalidInput)
    } else if s.len() < 3 {
        Err(Error::InvalidInput)
    } else {
        match u8_from_hex_spec(s.subrange(1, 3)) {
            None => Err(Error::InvalidInput),
            Some(ver) => if s.len() < 5 {
                Err(Error::InvalidInput)
            } else {
                match u8_from_hex_spec(s.subrange(3, 5)) {
                    None => Err(Error::InvalidInput),
                    Some(adr) => if s.len() < 7 {
                        Err(Error::InvalidInput)
                    } else {
                        match u8_from_hex_spec(s.subrange(5, 7)) {
                            None => Err(Error::InvalidInput),
                            Some(c1) => if c1 != 0x46 {
                                Err(Error::UnsupportedControlIdentifier)
                            } else if s.len() < 9 {
                                Err(Error::InvalidInput)
                            } else {
                                match u8_from_hex_spec(s.subrange(7, 9)) {
                                    None => Err(Error::InvalidInput),
                                    Some(c2) => match response_code_from_value(c2) {
                                        None => Err(Error::UnsupportedControlIdentifier),
                                        Some(resp) => if s.len() < 13 {
                                            Err(Error::InvalidInput)
                                        } else {
                                            match u16_from_hex_spec(s.subrange(9, 13)) {
                                                None => Err(Error::InvalidInput),
                                                Some(lf) => decode_tail_spec(s, ver, adr, resp, lf),
                                            }
                                        },
                                    },
                                }
                            },
                        }
                    },
                }
            },
        }
    }
}

/// The tail of [`decode_spec`], once the header fields have been read:
/// validate the length field, decode the payload, check the checksum, and
/// surface a non-normal response code as an error.
pub open spec fn decode_tail_spec(s: Seq<u8>, ver: u8, adr: u8, resp: ResponseCode, lf: u16) -> Result<
    DecodedFields,
    Error,
> {
    if lf != info_length_packed(lf % 4096) {
        Err(Error::Cecksum)
    } else {
        let nb = (lf % 4096) as int / 2;
        if s.len() < 13 + 2 * nb {
            Err(Error::InvalidInput)
        } else {
            match decode_pairs(s.subrange(13, 13 + 2 * nb)) {
                None => Err(Error::InvalidInput),
                Some(info) => if s.len() < 17 + 2 * nb {
                    Err(Error::InvalidInput)
                } else {
                    match u16_from_hex_spec(s.subrange(13 + 2 * nb, 17 + 2 * nb)) {
                        None => Err(Error::InvalidInput),
                        Some(chk) => if chk != checksum_spec(s.subrange(1, 13 + 2 * nb)) {
                            Err(Error::Cecksum)
                        } else if resp != ResponseCode::Normal {
                            Err(Error::Response(resp))
                        } else {
                            Ok((ver, adr, resp, info))
                        },
                    }
                },
            }
        }
    }
}

/// Copy four wire bytes at `pos` into a buffer for hex decoding.
fn read_quad(input: &[u8], pos: usize) -> (r: [u8; 4])
    requires
        pos + 4 <= input@.len(),
    ensures
        r@ == input@.subrange(pos as int, pos + 4),
{
    let r = [input[pos], input[pos + 1], input[pos + 2], input[pos + 3]];
    proof {
        assert(r@ =~= input@.subrange(pos as int, pos + 4));
    }
    r
}

/// Read and hex-decode `nb` payload bytes starting at wire position 13,
/// feeding the hex characters into the running checksum.
fn decode_payload(input: &[u8], nb: usize, checksum: &mut Checksum) -> (r: Result<Vec<u8>, Error>)
    requires
        13 + 2 * nb <= input@.len(),
        old(checksum).acc == byte_sum(input@.subrange(1, 13)) % 0x1_0000_0000,
    ensures
        r matches Ok(p) ==> decode_pairs(input@.subrange(13, 13 + 2 * nb)) == Some(p@) && p@.len()
            == nb && final(checksum).acc == byte_sum(input@.subrange(1, 13 + 2 * nb))
            % 0x1_0000_0000,
        r is Err ==> decode_pairs(input@.subrange(13, 13 + 2 * nb)) is None && r == Err::<
            Vec<u8>,
            Error,
        >(Error::InvalidInput),
{
    let total = input.len();
    let mut payload: Vec<u8> = Vec::new();
    proof {
        assert(input@.subrange(13, 13int) =~= Seq::<u8>::empty());
    }
    for i in 0..nb
        invariant
            total == input@.len(),
            13 + 2 * nb <= total,
            payload@.len() == i,
            decode_pairs(input@.subrange(13, 13 + 2 * i)) == Some(payload@),
            checksum.acc == byte_sum(input@.subrange(1, 13 + 2 * i)) % 0x1_0000_0000,
    {
        let pair = read2(input, 13 + 2 * i);
        checksum.update(pair.as_slice());
        proof {
            lemma_byte_sum_concat(input@.subrange(1, 13 + 2 * i), pair@);
            assert(input@.subrange(1, 13 + 2 * i) + pair@ =~= input@.subrange(1, 13 + 2 * (i + 1)));
            lemma_mod_add_step(
                byte_sum(input@.subrange(1, 13 + 2 * i)),
                byte_sum(pair@),
                0x1_0000_0000,
            );
        }
        let b = match u8_from_hex(&pair) {
            Ok(b) => b,
            Err(_) => {
                proof {
                    let region = input@.subrange(13, 13 + 2 * nb);
                    assert(region.subrange(2 * i, 2 * i + 2) =~= pair@);
                    lemma_decode_pairs_invalid(region, i as int);
                }
                return Err(Error::InvalidInput);
            },
        };
        payload.push(b);
        proof {
            let prefix2 = input@.subrange(13, 13 + 2 * (i + 1));
            assert(prefix2.subrange(0, 2 * i) =~= input@.subrange(13, 13 + 2 * i));
            assert(prefix2.subrange(2 * i, 2 * i + 2) =~= pair@);
            assert(decode_pairs(prefix2) == Some(payload@));
        }
    }
    Ok(payload)
}

/// The hex encoding of a payload is twice as long as the payload.
proof fn lemma_encoded_info_len(info: Seq<u8>)
    ensures
        encoded_info(info).len() == 2 * info.len(),
    decreases info.len(),
{
    if info.len() > 0 {
        lemma_encoded_info_len(info.drop_last());
    }
}

/// Hex-encoding a payload byte by byte and decoding the character pairs
/// again gives the payload back.
proof fn lemma_decode_pairs_of_encoded(info: Seq<u8>)
    ensures
        decode_pairs(encoded_info(info)) == Some(info),
    decreases info.len(),
{
    lemma_encoded_info_len(info);
    if info.len() == 0 {
        assert(encoded_info(info) =~= Seq::<u8>::empty());
        assert(decode_pairs(encoded_info(info)) == Some(Seq::<u8>::empty()));
        assert(info =~= Seq::<u8>::empty());
    } else {
        let e = encoded_info(info);
        lemma_decode_pairs_of_encoded(info.drop_last());
        lemma_encoded_info_len(info.drop_last());
        assert(e.subrange(0, e.len() - 2) =~= encoded_info(info.drop_last()));
        assert(e.subrange(e.len() - 2, e.len() as int) =~= u8_hex(info.last()));
        crate::util::lemma_u8_hex_round_trip(info.last());
        assert(info.drop_last().push(info.last()) =~= info);
    }
}

/// Law: a wire packet assembled from frame fields decodes back to exactly
/// those fields.  A normal response code yields the decoded fields; any
/// other response code is surfaced as a response error once the frame
/// itself has checked out.
#[verifier::rlimit(60)]
pub proof fn lemma_encode_decode_round_trip(ver: u8, adr: u8, resp: ResponseCode, info: Seq<u8>)
    requires
        info.len() <= MAX_UNENCODED_PAYLOAD_LEN,
    ensures
        resp == ResponseCode::Normal ==> decode_spec(
            encode_spec(
                ver,
                adr,
                response_code_value(resp),
                info_length_packed((2 * info.len()) as u16),
                info,
            ),
        ) == Ok::<DecodedFields, Error>((ver, adr, resp, info)),
        resp != ResponseCode::Normal ==> decode_spec(
            encode_spec(
                ver,
                adr,
                response_code_value(resp),
                info_length_packed((2 * info.len()) as u16),
                info,
            ),
        ) == Err::<DecodedFields, Error>(Error::Response(resp)),
{
    let c2 = response_code_value(resp);
    let nb = info.len() as int;
    let lf = info_length_packed((2 * nb) as u16);
    let body = frame_body_bytes(ver, adr, 0x46, c2, lf, info);
    let chk = checksum_spec(body);
    let s = encode_spec(ver, adr, c2, lf, info);
    lemma_encoded_info_len(info);
    assert(body.len() == 12 + 2 * nb);
    assert(s.len() == 18 + 2 * nb);
    assert(s[0] == SOI);

    assert(s.subrange(1, 3) =~= u8_hex(ver));
    assert(s.subrange(3, 5) =~= u8_hex(adr));
    assert(s.subrange(5, 7) =~= u8_hex(0x46));
    assert(s.subrange(7, 9) =~= u8_hex(c2));
    assert(s.subrange(9, 13) =~= u16_hex(lf));
    assert(s.subrange(13, 13 + 2 * nb) =~= encoded_info(info));
    assert(s.subrange(1, 13 + 2 * nb) =~= body);
    assert(s.subrange(13 + 2 * nb, 17 + 2 * nb) =~= u16_hex(chk));

    crate::util::lemma_u8_hex_round_trip(ver);
    crate::util::lemma_u8_hex_round_trip(adr);
    crate::util::lemma_u8_hex_round_trip(0x46);
    crate::util::lemma_u8_hex_round_trip(c2);
    crate::util::lemma_u16_hex_round_trip(lf);
    crate::util::lemma_u16_hex_round_trip(chk);
    lemma_decode_pairs_of_encoded(info);
    lemma_info_length_round_trip((2 * nb) as u16);

    assert(u8_from_hex_spec(s.subrange(1, 3)) == Some(ver));
    assert(u8_from_hex_spec(s.subrange(3, 5)) == Some(adr));
    assert(u8_from_hex_spec(s.subrange(5, 7)) == Some(0x46u8));
    assert(u8_from_hex_spec(s.subrange(7, 9)) == Some(c2));
    assert(u16_from_hex_spec(s.subrange(9, 13)) == Some(lf));
    assert(response_code_from_value(c2) == Some(resp));
    assert(lf == info_length_packed(lf % 4096));
    assert((lf % 4096) as int / 2 == nb);
    assert(decode_pairs(s.subrange(13, 13 + 2 * nb)) == Some(info));
    assert(u16_from_hex_spec(s.subrange(13 + 2 * nb, 17 + 2 * nb)) == Some(chk));
    assert(checksum_spec(s.subrange(1, 13 + 2 * nb)) == chk);
    assert(decode_tail_spec(s, ver, adr, resp, lf) == (if resp == ResponseCode::Normal {
        Ok::<DecodedFields, Error>((ver, adr, resp, info))
    } else {
        Err::<DecodedFields, Error>(Error::Response(resp))
    }));
}

/// The wire position of the first checksum character of a packet, as fixed
/// by its length field.
pub open spec fn checksum_field_start(s: Seq<u8>) -> int
    recommends
        decode_spec(s) is Ok,
{
    13 + 2 * ((u16_from_hex_spec(s.subrange(9, 13)).unwrap() % 4096) as int / 2)
}

/// Changing one character of a decodable two-character hex field to a hex
/// digit of a different value changes the decoded byte.
proof fn lemma_hex_pair_digit_change(a: Seq<u8>, k: int, c: u8)
    requires
        a.len() == 2,
        u8_from_hex_spec(a) is Some,
        0 <= k < 2,
        is_hex_digit(c),
        hex_digit_value(c) != hex_digit_value(a[k]),
    ensures
        u8_from_hex_spec(a.update(k, c)) is Some,
        u8_from_hex_spec(a.update(k, c)) != u8_from_hex_spec(a),
{
    let b = a.update(k, c);
    let x = hex_digit_value(a[0]) * 16 + hex_digit_value(a[1]);
    let y = hex_digit_value(b[0]) * 16 + hex_digit_value(b[1]);
    assert(0 <= x < 256 && 0 <= y < 256);
    assert(u8_from_hex_spec(a) == Some(x as u8));
    assert(u8_from_hex_spec(b) == Some(y as u8));
    assert(x != y);
}

/// Changing one character of a decodable four-character hex field to a hex
/// digit of a different value changes the decoded word.
proof fn lemma_hex_quad_digit_change(a: Seq<u8>, k: int, c: u8)
    requires
        a.len() == 4,
        u16_from_hex_spec(a) is Some,
        0 <= k < 4,
        is_hex_digit(c),
        hex_digit_value(c) != hex_digit_value(a[k]),
    ensures
        u16_from_hex_spec(a.update(k, c)) is Some,
        u16_from_hex_spec(a.update(k, c)) != u16_from_hex_spec(a),
{
    let b = a.update(k, c);
    let a01 = a.subrange(0, 2);
    let a23 = a.subrange(2, 4);
    let b01 = b.subrange(0, 2);
    let b23 = b.subrange(2, 4);
    let ha = u8_from_hex_spec(a01).unwrap() as int;
    let la = u8_from_hex_spec(a23).unwrap() as int;
    let hb = u8_from_hex_spec(b01).unwrap() as int;
    let lb = u8_from_hex_spec(b23).unwrap() as int;
    if k < 2 {
        assert(b01 =~= a01.update(k, c));
        assert(b23 =~= a23);
        lemma_hex_pair_digit_change(a01, k, c);
        assert(hb != ha && lb == la);
    } else {
        assert(b01 =~= a01);
        assert(b23 =~= a23.update(k - 2, c));
        lemma_hex_pair_digit_change(a23, k - 2, c);
        assert(hb == ha && lb != la);
    }
    assert(0 <= ha < 256 && 0 <= la < 256 && 0 <= hb < 256 && 0 <= lb < 256);
    assert(ha * 256 + la != hb * 256 + lb);
    assert(u16_from_hex_spec(a) == Some((ha * 256 + la) as u16));
    assert(u16_from_hex_spec(b) == Some((hb * 256 + lb) as u16));
}

/// Law: corrupting one checksum character of a decodable packet to a hex
/// digit with a different value makes decoding fail with a checksum error;
/// it can never succeed with wrong data.
pub proof fn lemma_corrupted_checksum_detected(s: Seq<u8>, j: int, c: u8)
    requires
        decode_spec(s) is Ok,
        checksum_field_start(s) <= j < checksum_field_start(s) + 4,
        is_hex_digit(c),
        hex_digit_value(c) != hex_digit_value(s[j]),
    ensures
        decode_spec(s.update(j, c)) == Err::<DecodedFields, Error>(Error::Cecksum),
{
    let t = s.update(j, c);
    let lf = u16_from_hex_spec(s.subrange(9, 13)).unwrap();
    let nb = (lf % 4096) as int / 2;
    let cs = 13 + 2 * nb;
    assert(s.len() >= 17 + 2 * nb);
    assert(t.len() == s.len());
    assert(t[0] == s[0]);
    assert(t.subrange(1, 3) =~= s.subrange(1, 3));
    assert(t.subrange(3, 5) =~= s.subrange(3, 5));
    assert(t.subrange(5, 7) =~= s.subrange(5, 7));
    assert(t.subrange(7, 9) =~= s.subrange(7, 9));
    assert(t.subrange(9, 13) =~= s.subrange(9, 13));
    assert(t.subrange(13, cs) =~= s.subrange(13, cs));
    assert(t.subrange(1, cs) =~= s.subrange(1, cs));
    let qa = s.subrange(cs, cs + 4);
    let qb = t.subrange(cs, cs + 4);
    assert(qb =~= qa.update(j - cs, c));
    lemma_hex_quad_digit_change(qa, j - cs, c);
}

/// Law: for every valid 12-bit length, the freshly built length field
/// validates, and its packed value decodes back to the same length.
pub proof fn lemma_info_length_round_trip(length: u16)
    requires
        length <= 0xFFF,
    ensures
        info_length_packed(length) % 4096 == length,
        info_length_packed(info_length_packed(length) % 4096) == info_length_packed(length),
        u16_from_hex_spec(u16_hex(info_length_packed(length))) == Some(info_length_packed(length)),
{
    let c = length_checksum_nibble(length);
    assert(0 <= c < 16);
    assert((c * 4096 + length) % 4096 == length) by {
        vstd::arithmetic::div_mod::lemma_mod_multiples_vanish(c, length as int, 4096);
        vstd::arithmetic::div_mod::lemma_small_mod(length as nat, 4096);
    }
    crate::util::lemma_u16_hex_round_trip(info_length_packed(length));
}

} // verus!
