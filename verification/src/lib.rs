//! Codec for the Pylontech RS232 battery-management protocol.
//!
//! The library turns an in-memory command into a framed, checksummed,
//! hex-ASCII wire packet and turns a received wire packet back into typed,
//! validated measurement data.  Transport I/O (serial ports, timeouts) is
//! left to the caller, who writes the encoded bytes out and hands the
//! received bytes back in.

use vstd::prelude::*;

pub mod commands;
pub mod frame;
pub mod types;
pub mod util;

pub use frame::Cid1;
pub use frame::Cid2;
pub use frame::CommandCode;
pub use frame::Frame;
pub use frame::InfoLength;
pub use frame::ResponseCode;
pub use frame::Version;
pub use frame::MAX_ENCODED_PAYLOAD_LEN;
pub use frame::MAX_UNENCODED_PAYLOAD_LEN;

verus! {

/// Major version of the RS232 protocol this library implements
pub const RS232_PROTOCOL_VERSION_MAJOR: u8 = 2;

/// Minor version of the RS232 protocol this library implements
pub const RS232_PROTOCOL_VERSION_MINOR: u8 = 8;

/// Errors surfaced while encoding or decoding frames.
#[derive(Debug, Clone, Copy, PartialEq, Eq, Structural)]
#[non_exhaustive]
pub enum Error {
    /// Error signaled by the battery management system
    Response(ResponseCode),
    /// Invalid frame received
    InvalidInput,
    /// Bad checksum for received frame
    Cecksum,
    /// Internal error
    ///
    /// Encountered an error while processing data.
    Internal,
    /// Unknown control identifier received
    ///
    /// `CID1` or `CID2` doesn't match a known identifier.
    /// This might be due to protocol version mismatch or
    /// misbehaving BMS.
    UnsupportedControlIdentifier,
}

} // verus!
