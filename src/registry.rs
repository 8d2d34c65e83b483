//! The seam between the transport core and a packet schema: a handle on a
//! packet's bytes that a handler decodes, passes on or drops, and the entry
//! point through which a registry dispatches a frame to its handler.

use vstd::prelude::*;
use crate::error::TransportError;
use crate::protocol_version::{MCProtocol, MapDecodable};

verus! {

/// A packet's bytes, after its id, not yet decoded.
pub trait LazyHandle<T: MapDecodable>: Sized {
    /// The bytes the handle holds.
    spec fn held(&self) -> Seq<u8>;

    /// Decodes the bytes as a `T`.
    fn decode_type(self) -> Result<T, TransportError>;

    /// Hands the bytes on undecoded.
    fn pass_bytes(self, writer: &mut Vec<u8>) -> (r: Result<(), TransportError>)
        ensures
            r is Ok,
            final(writer)@ == old(writer)@ + self.held(),
    ;

    /// Drops the bytes.
    fn consume_bytes(self) -> (r: Result<(), TransportError>)
        ensures
            r is Ok,
    ;
}

/// A handle on bytes held in memory, to be decoded at a given protocol version.
pub struct SimpleLazyHandle {
    bytes: Vec<u8>,
    protocol: MCProtocol,
}

impl SimpleLazyHandle {
    pub closed spec fn bytes(&self) -> Seq<u8> {
        self.bytes@
    }

    pub closed spec fn protocol(&self) -> MCProtocol {
        self.protocol
    }

    pub fn new(bytes: Vec<u8>, protocol: MCProtocol) -> (r: Self)
        ensures
            r.bytes() == bytes@,
            r.protocol() == protocol,
    {
        SimpleLazyHandle { bytes, protocol }
    }
}

impl<T: MapDecodable> LazyHandle<T> for SimpleLazyHandle {
    open spec fn held(&self) -> Seq<u8> {
        self.bytes()
    }

    fn decode_type(self) -> Result<T, TransportError> {
        T::decode_mapped(self.protocol, self.bytes.as_slice())
    }

    fn pass_bytes(self, writer: &mut Vec<u8>) -> (r: Result<(), TransportError>) {
        writer.extend_from_slice(self.bytes.as_slice());
        Ok(())
    }

    fn consume_bytes(self) -> (r: Result<(), TransportError>) {
        Ok(())
    }
}

/// A registry: dispatches one frame (packet id and body) to the handler
/// method that its id names at `target_protocol`.
pub trait RegistryBase<H> {
    fn handle_packet(handler: &mut H, packet: Vec<u8>, target_protocol: MCProtocol) -> Result<
        (),
        TransportError,
    >;
}

} // verus!
