//! Decoding of "get analog value" response payloads.
//!
//! The payload is a flag byte, a pack count, and then a back-to-back run of
//! variable-length pack records.  A pack record is a voltage count, that
//! many 16-bit cell voltages, a temperature count, that many 16-bit
//! temperatures, and a fixed tail of current, voltage, remaining charge, a
//! user-defined byte, total capacity, and a cycle count.

use vstd::prelude::*;
use vstd::slice::slice_subrange;
use vstd::slice::slice_to_vec;

use crate::types::Ampere;
use crate::types::AmpereHours;
use crate::types::ChangeFlags;
use crate::types::Temperature;
use crate::types::Volt;
use crate::types::be16;
use crate::types::read2;
use crate::types::to_i16;

verus! {

/// Errors encountered while parsing a [AnalogValueResponse]
#[derive(Debug, Clone, Copy, PartialEq, Eq, Structural)]
pub enum AnalogValueParseError {
    InvalidInput,
}

/// Whether a pack record starts at the beginning of `s`: the buffer holds
/// the voltage count, the temperature count, both arrays, and the fixed
/// tail of thirteen bytes.
pub open spec fn pack_ok(s: Seq<u8>) -> bool {
    &&& s.len() >= 1
    &&& s.len() >= 2 + 2 * (s[0] as int)
    &&& s.len() >= 13 + 2 * (s[0] as int) + 2 * (s[1 + 2 * (s[0] as int)] as int)
}

/// The number of cell voltages of the pack record at the start of `s`.
pub open spec fn pack_volt_count(s: Seq<u8>) -> int
    recommends
        pack_ok(s),
{
    s[0] as int
}

/// The number of temperatures of the pack record at the start of `s`.
pub open spec fn pack_temp_count(s: Seq<u8>) -> int
    recommends
        pack_ok(s),
{
    s[1 + 2 * (s[0] as int)] as int
}

/// The offset of the fixed tail of the pack record at the start of `s`.
pub open spec fn pack_tail_start(s: Seq<u8>) -> int
    recommends
        pack_ok(s),
{
    2 + 2 * pack_volt_count(s) + 2 * pack_temp_count(s)
}

/// The byte length of the pack record at the start of `s`.
pub open spec fn pack_len_spec(s: Seq<u8>) -> int
    recommends
        pack_ok(s),
{
    pack_tail_start(s) + 11
}

/// The raw cell voltages of the pack record at the start of `s`.
pub open spec fn pack_volts(s: Seq<u8>) -> Seq<u16>
    recommends
        pack_ok(s),
{
    Seq::new(pack_volt_count(s) as nat, |i: int| be16(s, 1 + 2 * i))
}

/// The raw temperatures of the pack record at the start of `s`.
pub open spec fn pack_temps(s: Seq<u8>) -> Seq<u16>
    recommends
        pack_ok(s),
{
    Seq::new(pack_temp_count(s) as nat, |i: int| be16(s, 2 + 2 * pack_volt_count(s) + 2 * i))
}

/// Measurement data for a pack returned by a "_get analog value_" command
///
/// This can be obtained from a [AnalogValueResponse::get_pack].
#[derive(Debug, PartialEq, Eq)]
pub struct PackData {
    /// Cell voltages
    pub cell_voltages: Vec<Volt>,
    /// Temperatures reported for this pack
    pub temperatures: Vec<Temperature>,
    /// Current total pack current
    pub pack_current: Ampere,
    /// Current total pack voltage
    pub pack_voltage: Volt,
    /// Current remaining charge
    pub pack_remaining: AmpereHours,
    /// `User-Defined` field
    ///
    /// This is specified to be always `2`. _(?!)_
    pub user_defined: u8,
    /// Total capacity of the pack
    pub total_capacity: AmpereHours,
    /// Cycles of the pack
    pub cell_cycles: u16,
    /// The length in bytes of this PackData
    pub len_bytes: usize,
}

/// Whether `p` holds exactly the fields of the pack record at the start of
/// `s`.
pub open spec fn pack_matches(p: PackData, s: Seq<u8>) -> bool {
    &&& p.cell_voltages@.len() == pack_volt_count(s)
    &&& forall|i: int|
        0 <= i < pack_volt_count(s) ==> (#[trigger] p.cell_voltages@[i]).0 == pack_volts(s)[i]
    &&& p.temperatures@.len() == pack_temp_count(s)
    &&& forall|i: int|
        0 <= i < pack_temp_count(s) ==> (#[trigger] p.temperatures@[i]).0 == pack_temps(s)[i]
    &&& p.pack_current.0 == to_i16(be16(s, pack_tail_start(s)))
    &&& p.pack_voltage.0 == be16(s, pack_tail_start(s) + 2)
    &&& p.pack_remaining.0 == be16(s, pack_tail_start(s) + 4)
    &&& p.user_defined == s[pack_tail_start(s) + 6]
    &&& p.total_capacity.0 == be16(s, pack_tail_start(s) + 7)
    &&& p.cell_cycles == be16(s, pack_tail_start(s) + 9)
    &&& p.len_bytes == pack_len_spec(s)
}

impl PackData {
    /// Parse the pack record at the start of `bytes`; bytes after the
    /// record are ignored.
    pub fn from_bytes(bytes: &[u8]) -> (r: Result<PackData, AnalogValueParseError>)
        ensures
            r is Ok <==> pack_ok(bytes@),
            r matches Ok(p) ==> pack_matches(p, bytes@),
            r is Err ==> r == Err::<PackData, AnalogValueParseError>(
                AnalogValueParseError::InvalidInput,
            ),
    {
        let n = bytes.len();
        if n < 1 {
            return Err(AnalogValueParseError::InvalidInput);
        }

        // Voltages
        let nv = bytes[0] as usize;
        if n < 2 + 2 * nv {
            return Err(AnalogValueParseError::InvalidInput);
        }
        let mut cell_voltages: Vec<Volt> = Vec::new();
        for i in 0..nv
            invariant
                n == bytes@.len(),
                nv == bytes@[0] as int,
                n >= 2 + 2 * nv,
                cell_voltages@.len() == i,
                forall|j: int|
                    0 <= j < i ==> (#[trigger] cell_voltages@[j]).0 == be16(bytes@, 1 + 2 * j),
        {
            let pair = read2(bytes, 1 + 2 * i);
            let v = Volt::from_be_bytes(pair);
            proof {
                assert(be16(pair@, 0) == be16(bytes@, 1 + 2 * i));
            }
            cell_voltages.push(v);
        }

        // Temperatures
        let nt = bytes[1 + 2 * nv] as usize;
        if n < 13 + 2 * nv + 2 * nt {
            return Err(AnalogValueParseError::InvalidInput);
        }
        let mut temperatures: Vec<Temperature> = Vec::new();
        for i in 0..nt
            invariant
                n == bytes@.len(),
                nv == bytes@[0] as int,
                nt == bytes@[1 + 2 * nv] as int,
                n >= 13 + 2 * nv + 2 * nt,
                temperatures@.len() == i,
                forall|j: int|
                    0 <= j < i ==> (#[trigger] temperatures@[j]).0 == be16(
                        bytes@,
                        2 + 2 * nv + 2 * j,
                    ),
        {
            let pair = read2(bytes, 2 + 2 * nv + 2 * i);
            let t = Temperature::from_be_bytes(pair);
            proof {
                assert(be16(pair@, 0) == be16(bytes@, 2 + 2 * nv + 2 * i));
            }
            temperatures.push(t);
        }

        let base = 2 + 2 * nv + 2 * nt;

        // Pack current
        let pair = read2(bytes, base);
        let pack_current = Ampere::from_be_bytes(pair);
        proof {
            assert(be16(pair@, 0) == be16(bytes@, base as int));
        }

        // Pack voltage
        let pair = read2(bytes, base + 2);
        let pack_voltage = Volt::from_be_bytes(pair);
        proof {
            assert(be16(pair@, 0) == be16(bytes@, base + 2));
        }

        // Pack remaining
        let pair = read2(bytes, base + 4);
        let pack_remaining = AmpereHours::from_be_bytes(pair);
        proof {
            assert(be16(pair@, 0) == be16(bytes@, base + 4));
        }

        // User-defined field
        let user_defined = bytes[base + 6];

        // Total capacity
        let pair = read2(bytes, base + 7);
        let total_capacity = AmpereHours::from_be_bytes(pair);
        proof {
            assert(be16(pair@, 0) == be16(bytes@, base + 7));
        }

        // Cell cycles
        let pair = read2(bytes, base + 9);
        let cell_cycles = (pair[0] as u16) * 256 + (pair[1] as u16);
        proof {
            assert(cell_cycles == be16(bytes@, base + 9));
        }

        Ok(
            PackData {
                cell_voltages,
                temperatures,
                pack_current,
                pack_voltage,
                pack_remaining,
                user_defined,
                total_capacity,
                cell_cycles,
                len_bytes: base + 11,
            },
        )
    }

    /// The byte length this record occupied in the response buffer.
    pub fn len(&self) -> (r: usize)
        ensures
            r == self.len_bytes,
    {
        self.len_bytes
    }
}

/// The starting offset of pack `k` in a pack buffer, found by walking the
/// `k` records before it; `None` when one of them does not parse.
pub open spec fn walk_offset(s: Seq<u8>, k: int) -> Option<int>
    decreases k,
{
    if k <= 0 {
        Some(0)
    } else {
        match walk_offset(s, k - 1) {
            None => None,
            Some(off) => if pack_ok(s.skip(off)) {
                Some(off + pack_len_spec(s.skip(off)))
            } else {
                None
            },
        }
    }
}

/// The bytes of pack `k` and everything after it, when packs `0..k` all
/// parse.
pub open spec fn pack_region(s: Seq<u8>, k: int) -> Option<Seq<u8>> {
    match walk_offset(s, k) {
        None => None,
        Some(off) => if pack_ok(s.skip(off)) {
            Some(s.skip(off))
        } else {
            None
        },
    }
}

/// A walk that has failed stays failed for every later pack.
proof fn lemma_walk_offset_none(s: Seq<u8>, i: int, k: int)
    requires
        0 <= i <= k,
        walk_offset(s, i) is None,
    ensures
        walk_offset(s, k) is None,
    decreases k - i,
{
    if k > i {
        lemma_walk_offset_none(s, i, k - 1);
    }
}

/// Response payload of a "_get analog value_" command
///
/// Containing flags and measurement data for one or multiple battery packs.
#[derive(Debug, PartialEq, Eq)]
pub struct AnalogValueResponse {
    /// [PackData] buffer
    pub buf: Vec<u8>,
    pub flags: ChangeFlags,
    /// The total number of packs ([PackData]) reported in this response
    pub pack_count: u8,
}

impl AnalogValueResponse {
    /// Split a payload into the change flags, the pack count, and the pack
    /// buffer.
    pub fn from_bytes(buf: &[u8]) -> (r: Result<AnalogValueResponse, AnalogValueParseError>)
        ensures
            buf@.len() < 2 ==> r == Err::<AnalogValueResponse, AnalogValueParseError>(
                AnalogValueParseError::InvalidInput,
            ),
            buf@.len() >= 2 ==> (r matches Ok(a) && a.flags.0 == buf@[0] && a.pack_count == buf@[1]
                && a.buf@ == buf@.skip(2)),
    {
        if buf.len() < 2 {
            return Err(AnalogValueParseError::InvalidInput);
        }
        let flags = ChangeFlags::new(buf[0]);
        let pack_count = buf[1];
        let rest = slice_subrange(buf, 2, buf.len());
        proof {
            assert(buf@.subrange(2, buf@.len() as int) =~= buf@.skip(2));
        }
        Ok(AnalogValueResponse { buf: slice_to_vec(rest), flags, pack_count })
    }

    /// Get the number of packs reported by this response
    pub fn get_pack_count(&self) -> (r: u8)
        ensures
            r == self.pack_count,
    {
        self.pack_count
    }

    /// Get [PackData] by number
    ///
    /// Indexed starting at `0`.  Pack records are variable-length and the
    /// buffer holds no offset table, so this walks and re-parses the `k`
    /// records in front of the requested one; callers that want every pack
    /// should iterate in increasing order rather than pay that walk `N`
    /// times.
    pub fn get_pack(&self, pack_number: u8) -> (r: Result<PackData, AnalogValueParseError>)
        ensures
            pack_number >= self.pack_count ==> r == Err::<PackData, AnalogValueParseError>(
                AnalogValueParseError::InvalidInput,
            ),
            pack_number < self.pack_count ==> match pack_region(self.buf@, pack_number as int) {
                Some(region) => r matches Ok(p) && pack_matches(p, region),
                None => r == Err::<PackData, AnalogValueParseError>(
                    AnalogValueParseError::InvalidInput,
                ),
            },
    {
        if pack_number >= self.pack_count {
            return Err(AnalogValueParseError::InvalidInput);
        }
        let n = self.buf.len();
        let pk = pack_number as usize;
        let mut off: usize = 0;
        for i in 0..pk
            invariant
                n == self.buf@.len(),
                pk == pack_number as int,
                off <= n,
                walk_offset(self.buf@, i as int) == Some(off as int),
        {
            let rest = slice_subrange(self.buf.as_slice(), off, n);
            proof {
                assert(rest@ =~= self.buf@.skip(off as int));
            }
            let pack = match PackData::from_bytes(rest) {
                Ok(p) => p,
                Err(e) => {
                    proof {
                        lemma_walk_offset_none(self.buf@, i + 1, pack_number as int);
                    }
                    return Err(e);
                },
            };
            off = off + pack.len();
        }
        let rest = slice_subrange(self.buf.as_slice(), off, n);
        proof {
            assert(rest@ =~= self.buf@.skip(off as int));
        }
        PackData::from_bytes(rest)
    }
}

} // verus!
