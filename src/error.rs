//! The failures of the transport core.

use vstd::prelude::*;

verus! {

/// Why a transport operation failed. Every one of them is final for the
/// connection: the stream position can no longer be trusted.
#[derive(Debug, Clone, Copy, PartialEq, Eq, Structural)]
pub enum TransportError {
    /// The decode buffer is full and holds no complete frame.
    FrameTooLarge,
    /// A length prefix does not end within the bytes that hold it.
    MalformedLengthPrefix,
    /// An inflate error, or an inflated payload whose size differs from the
    /// size its frame declared.
    DecompressionFailure,
    /// The deflate stream could not be produced.
    CompressionFailure,
    /// A length does not fit the protocol's signed 32-bit varint.
    LengthOverflow,
    /// The shared secret does not have the cipher's key size.
    InvalidSecretLength,
    /// The verify token sent back does not match the one handed out.
    VerifyTokenMismatch,
    /// No bytes arrived in time while a frame was awaited.
    TransportTimeout,
    /// The byte source ended with nothing pending.
    TransportClosed,
    /// A packet's bytes do not decode into the expected value.
    MalformedPacket,
}

} // verus!
