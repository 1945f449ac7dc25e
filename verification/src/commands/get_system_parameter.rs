//! Decoding of "get system parameter" response payloads.
//!
//! The payload is a fixed-size block of twelve 16-bit big-endian
//! fixed-point fields: voltage, temperature and current thresholds.

use vstd::prelude::*;

use crate::Error;
use crate::types::Ampere;
use crate::types::Temperature;
use crate::types::Volt;
use crate::types::be16;
use crate::types::read2;
use crate::types::to_i16;

verus! {

/// The fixed byte length of a system-parameter block.
pub const SYSTEM_PARAMETER_LEN: usize = 24;

/// System parameters reported by the battery: protection and limit
/// thresholds, all as raw fixed-point values.
#[derive(Debug, Clone, Copy, PartialEq, Eq, Structural)]
pub struct SystemParameter {
    pub unit_cell_voltage: Volt,
    pub unit_cell_low_voltage_threshold: Volt,
    /// Under voltage protection threshold
    pub unit_cell_under_voltage_threshold: Volt,
    pub charge_upper_limit_temp: Temperature,
    pub charge_lower_limit_temp: Temperature,
    pub charge_lower_limit_current: Ampere,
    pub upper_limit_total_voltage: Volt,
    pub lower_limit_total_voltage: Volt,
    pub under_voltage_of_total_voltage: Volt,
    pub discharge_upper_limit_temp: Temperature,
    pub discharge_lower_limit_temp: Temperature,
    pub discharge_lower_limit_current: Ampere,
}

impl SystemParameter {
    /// Overlay the first 24 bytes of `bytes` as a system-parameter block.
    /// Fails only when the buffer is shorter than that.
    pub fn from_bytes(bytes: &[u8]) -> (r: Result<SystemParameter, Error>)
        ensures
            bytes@.len() < SYSTEM_PARAMETER_LEN ==> r == Err::<SystemParameter, Error>(
                Error::InvalidInput,
            ),
            bytes@.len() >= SYSTEM_PARAMETER_LEN ==> (r matches Ok(p) && p.unit_cell_voltage.0
                == be16(bytes@, 0) && p.unit_cell_low_voltage_threshold.0 == be16(bytes@, 2)
                && p.unit_cell_under_voltage_threshold.0 == be16(bytes@, 4)
                && p.charge_upper_limit_temp.0 == be16(bytes@, 6) && p.charge_lower_limit_temp.0
                == be16(bytes@, 8) && p.charge_lower_limit_current.0 == to_i16(be16(bytes@, 10))
                && p.upper_limit_total_voltage.0 == be16(bytes@, 12)
                && p.lower_limit_total_voltage.0 == be16(bytes@, 14)
                && p.under_voltage_of_total_voltage.0 == be16(bytes@, 16)
                && p.discharge_upper_limit_temp.0 == be16(bytes@, 18)
                && p.discharge_lower_limit_temp.0 == be16(bytes@, 20)
                && p.discharge_lower_limit_current.0 == to_i16(be16(bytes@, 22))),
    {
        if bytes.len() < SYSTEM_PARAMETER_LEN {
            return Err(Error::InvalidInput);
        }
        let r = SystemParameter {
            unit_cell_voltage: Volt::from_be_bytes(read2(bytes, 0)),
            unit_cell_low_voltage_threshold: Volt::from_be_bytes(read2(bytes, 2)),
            unit_cell_under_voltage_threshold: Volt::from_be_bytes(read2(bytes, 4)),
            charge_upper_limit_temp: Temperature::from_be_bytes(read2(bytes, 6)),
            charge_lower_limit_temp: Temperature::from_be_bytes(read2(bytes, 8)),
            charge_lower_limit_current: Ampere::from_be_bytes(read2(bytes, 10)),
            upper_limit_total_voltage: Volt::from_be_bytes(read2(bytes, 12)),
            lower_limit_total_voltage: Volt::from_be_bytes(read2(bytes, 14)),
            under_voltage_of_total_voltage: Volt::from_be_bytes(read2(bytes, 16)),
            discharge_upper_limit_temp: Temperature::from_be_bytes(read2(bytes, 18)),
            discharge_lower_limit_temp: Temperature::from_be_bytes(read2(bytes, 20)),
            discharge_lower_limit_current: Ampere::from_be_bytes(read2(bytes, 22)),
        };
        Ok(r)
    }
}

} // verus!
