//! Transport core for a length-prefixed, optionally compressed and encrypted
//! game-network protocol: varint framing, CFB8 stream encryption, streaming
//! frame reassembly and outbound frame construction.

pub mod compression;
pub mod encryption;
pub mod error;
pub mod buffer;
pub mod laws;
pub mod packet;
pub mod protocol_version;
pub mod registry;
pub mod varint;
