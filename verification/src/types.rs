//! Datatypes and units
//!
//! Measurements travel on the wire as big-endian 16-bit raw values, scaled
//! by a power-of-ten exponent that the protocol fixes per field (voltage,
//! current and charge in milli-units, temperature in deci-Kelvin).  The
//! types here hold the raw integer exactly as transmitted; conversion to
//! floating-point physical units is left to presentation code outside the
//! library.

use vstd::prelude::*;

verus! {

/// The unsigned 16-bit big-endian word starting at `pos`.
pub open spec fn be16(s: Seq<u8>, pos: int) -> u16
    recommends
        0 <= pos,
        pos + 2 <= s.len(),
{
    (s[pos] * 256 + s[pos + 1]) as u16
}

/// The 16-bit word `v` reinterpreted as a signed two's-complement value.
pub open spec fn to_i16(v: u16) -> i16 {
    if v < 0x8000 {
        v as i16
    } else {
        (v - 0x10000) as i16
    }
}

/// Copy the two bytes at `pos` out of a buffer, for reading one big-endian
/// wire word.
pub(crate) fn read2(bytes: &[u8], pos: usize) -> (r: [u8; 2])
    requires
        pos + 2 <= bytes@.len(),
    ensures
        r@ == bytes@.subrange(pos as int, pos + 2),
{
    let r = [bytes[pos], bytes[pos + 1]];
    proof {
        assert(r@ =~= bytes@.subrange(pos as int, pos + 2));
    }
    r
}

/// Voltage
///
/// Holds the raw transmitted voltage value; the protocol default stores it
/// in Millivolt.  The raw value is unsigned: the specification's examples
/// exceed `32_768`, which rules out a signed representation (and with it
/// negative voltages).
#[derive(Debug, Clone, Copy, PartialEq, Eq, Structural)]
pub struct Volt(pub u16);

impl Volt {
    /// Read a voltage from its two big-endian wire bytes.
    pub fn from_be_bytes(bytes: [u8; 2]) -> (r: Self)
        ensures
            r.0 == be16(bytes@, 0),
    {
        Self((bytes[0] as u16) * 256 + (bytes[1] as u16))
    }

    /// Get the raw stored value
    pub fn get_raw(&self) -> (r: u16)
        ensures
            r == self.0,
    {
        self.0
    }
}

/// Current
///
/// Holds the raw transmitted current value, signed; the protocol default
/// stores it in Milliampere.
#[derive(Debug, Clone, Copy, PartialEq, Eq, Structural)]
pub struct Ampere(pub i16);

impl Ampere {
    /// Read a current from its two big-endian wire bytes.
    pub fn from_be_bytes(bytes: [u8; 2]) -> (r: Self)
        ensures
            r.0 == to_i16(be16(bytes@, 0)),
    {
        let v: u16 = (bytes[0] as u16) * 256 + (bytes[1] as u16);
        if v < 0x8000 {
            Self(v as i16)
        } else {
            Self(((v - 0x8000) as i16) - 0x7FFF - 1)
        }
    }

    /// Get the raw stored value
    pub fn get_raw(&self) -> (r: i16)
        ensures
            r == self.0,
    {
        self.0
    }
}

/// Electric charge
///
/// Holds the raw transmitted charge value; the protocol default stores it
/// in Milliampere-hours.
#[derive(Debug, Clone, Copy, PartialEq, Eq, Structural)]
pub struct AmpereHours(pub u16);

impl AmpereHours {
    /// Read a charge from its two big-endian wire bytes.
    pub fn from_be_bytes(bytes: [u8; 2]) -> (r: Self)
        ensures
            r.0 == be16(bytes@, 0),
    {
        Self((bytes[0] as u16) * 256 + (bytes[1] as u16))
    }

    /// Get the raw stored value
    pub fn get_raw(&self) -> (r: u16)
        ensures
            r == self.0,
    {
        self.0
    }
}

/// Temperature
///
/// Holds the raw transmitted temperature value; the protocol stores it in
/// Kelvin, by default with a deci prefix (tenths of a Kelvin).
#[derive(Debug, Clone, Copy, PartialEq, Eq, Structural)]
pub struct Temperature(pub u16);

impl Temperature {
    /// Read a temperature from its two big-endian wire bytes.
    pub fn from_be_bytes(bytes: [u8; 2]) -> (r: Self)
        ensures
            r.0 == be16(bytes@, 0),
    {
        Self((bytes[0] as u16) * 256 + (bytes[1] as u16))
    }

    /// Get the raw stored value
    pub fn get_raw(&self) -> (r: u16)
        ensures
            r == self.0,
    {
        self.0
    }
}

/// Whether the switch-state-change bit (bit 4) of a flag byte is set.
pub open spec fn switch_change_spec(b: u8) -> bool {
    b & 0x10 != 0
}

/// Whether the alarm-change bit (bit 0) of a flag byte is set.
pub open spec fn alarm_change_spec(b: u8) -> bool {
    b & 0x01 != 0
}

/// Flags for switch and alarm change
///
/// Referred to as `DATA_FLAG` in the protocol.
#[derive(Debug, Clone, Copy, PartialEq, Eq, Structural)]
pub struct ChangeFlags(pub u8);

impl ChangeFlags {
    /// Wrap a raw flag byte.
    pub fn new(bits: u8) -> (r: Self)
        ensures
            r.0 == bits,
    {
        Self(bits)
    }

    /// An unread switch-state change is pending.
    pub fn switch_change(&self) -> (r: bool)
        ensures
            r == switch_change_spec(self.0),
    {
        self.0 & 0x10 != 0
    }

    /// An unread alarm change is pending.
    pub fn alarm_change(&self) -> (r: bool)
        ensures
            r == alarm_change_spec(self.0),
    {
        self.0 & 0x01 != 0
    }
}

} // verus!
