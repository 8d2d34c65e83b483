//! Protocol versions, and the traits through which a packet schema encodes
//! and decodes values at a given version.

use vstd::prelude::*;
use crate::error::TransportError;

verus! {

/// A protocol version, by the number that the handshake carries.
#[derive(Clone, Copy, Debug, PartialEq, Eq, Structural)]
pub enum MCProtocol {
    Undefined,
    V1_17_1,
    V1_18,
    /// A number that names no version this library knows.
    Illegal(i32),
}

/// The number of each known version.
pub open spec fn protocol_number(p: MCProtocol) -> i32 {
    match p {
        MCProtocol::Undefined => 0,
        MCProtocol::V1_17_1 => 756,
        MCProtocol::V1_18 => 757,
        MCProtocol::Illegal(n) => n,
    }
}

/// The version a number names.
pub open spec fn protocol_of(n: i32) -> MCProtocol {
    if n == 0 {
        MCProtocol::Undefined
    } else if n == 756 {
        MCProtocol::V1_17_1
    } else if n == 757 {
        MCProtocol::V1_18
    } else {
        MCProtocol::Illegal(n)
    }
}

/// The release name of each known version.
pub open spec fn protocol_name(p: MCProtocol) -> Seq<char> {
    match p {
        MCProtocol::Undefined => "Undefined"@,
        MCProtocol::V1_17_1 => "1.17.1"@,
        MCProtocol::V1_18 => "1.18"@,
        MCProtocol::Illegal(_) => "Unknown"@,
    }
}

impl MCProtocol {
    pub fn as_i32(self) -> (r: i32)
        ensures
            r == protocol_number(self),
    {
        match self {
            MCProtocol::Undefined => 0,
            MCProtocol::V1_17_1 => 756,
            MCProtocol::V1_18 => 757,
            MCProtocol::Illegal(n) => n,
        }
    }

    /// The version's release name, or "Unknown".
    pub fn to_string(&self) -> (r: String)
        ensures
            r@ == protocol_name(*self),
    {
        match self {
            MCProtocol::Undefined => "Undefined".to_owned(),
            MCProtocol::V1_17_1 => "1.17.1".to_owned(),
            MCProtocol::V1_18 => "1.18".to_owned(),
            MCProtocol::Illegal(_) => "Unknown".to_owned(),
        }
    }
}

impl From<i32> for MCProtocol {
    fn from(protocol_number: i32) -> (r: MCProtocol)
        ensures
            r == protocol_of(protocol_number),
    {
        if protocol_number == 0 {
            MCProtocol::Undefined
        } else if protocol_number == 756 {
            MCProtocol::V1_17_1
        } else if protocol_number == 757 {
            MCProtocol::V1_18
        } else {
            MCProtocol::Illegal(protocol_number)
        }
    }
}

impl vstd::std_specs::convert::FromSpecImpl<i32> for MCProtocol {
    open spec fn obeys_from_spec() -> bool {
        true
    }

    open spec fn from_spec(v: i32) -> MCProtocol {
        protocol_of(v)
    }
}

/// Reading a known version's number gives the version back, and a number
/// read as a version gives the number back.
pub proof fn lemma_protocol_number_round_trip(p: MCProtocol, n: i32)
    ensures
        !(p is Illegal) ==> protocol_of(protocol_number(p)) == p,
        protocol_number(protocol_of(n)) == n,
{
}

/// A value that a packet schema decodes at a given protocol version.
pub trait MapDecodable: Sized {
    fn decode_mapped(protocol: MCProtocol, bytes: &[u8]) -> Result<Self, TransportError>;
}

/// A value that a packet schema encodes at a given protocol version.
pub trait MapEncodable {
    /// Appends the value's fields to `writer`.
    fn encode_mapped(&self, protocol: MCProtocol, writer: &mut Vec<u8>) -> Result<
        (),
        TransportError,
    >;

    /// The number of bytes `encode_mapped` appends.
    fn size_mapped(&self, protocol: MCProtocol) -> Result<i32, TransportError>;
}

} // verus!
