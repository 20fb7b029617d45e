use vstd::prelude::*;

verus! {

/// Why a probe, or one step of it, did not succeed.
#[derive(Clone, Copy, Debug, PartialEq, Eq, Structural)]
pub enum ProtocolError {
    /// The connection was not established within the connect timeout.
    ConnectTimeout,
    /// The connection was refused, or a read or write failed.
    Io,
    /// The exchange did not finish within the overall timeout.
    Timeout,
    /// Five bytes were read and every one of them asked for another.
    MalformedVarInt,
    /// A frame arrived whose packet id is not the one the exchange expects.
    UnexpectedPacket,
    /// The bytes ended before the field that was being read was complete.
    ConnectionClosed,
}

} // verus!
