//! Outbound frames: the compression decision and the byte-exact wire form.

use vstd::prelude::*;
use crate::buffer::{
    frame_body, frame_ready, frame_rest, transfer_size, unpacked, BufferState,
    MinecraftPacketBuffer, BUFFER_CAPACITY,
};
use crate::compression::{zlib_compress, zlib_deflated};
use crate::encryption::{cfb8_ciphertext, feedback, Codec};
use crate::error::TransportError;
use crate::protocol_version::{MCProtocol, MapEncodable};
use crate::varint::{read_varint, varint_bytes, varint_decode, varint_size, write_varint};
use vstd::slice::{slice_subrange, slice_to_vec};

verus! {

/// The largest length a frame can state: the protocol's varints are signed
/// 32-bit numbers.
pub const MAX_LENGTH: u32 = 0x7fff_ffff;

/// The varint that carries a packet id (as the bits of a signed 32-bit number).
pub open spec fn id_bytes(id: i32) -> Seq<u8> {
    varint_bytes((#[verifier::truncate] (id as u32)) as nat)
}

/// The id and the body of an uncompressed frame body `frame`.
pub open spec fn packet_parts(frame: Seq<u8>) -> Option<(i32, Seq<u8>)> {
    match varint_decode(frame) {
        Some((v, n)) => Some((#[verifier::truncate] (v as i32), frame.skip(n as int))),
        None => None,
    }
}

/// A value of a packet schema that knows its own packet id.
pub trait WritablePacket: MapEncodable {
    fn to_resolved_packet(&self, protocol: MCProtocol) -> Result<ResolvedPacket, TransportError>;
}

/// An outbound packet: its id, its body, and once `compress` ran, the
/// compression envelope's `(wireLength, dataLength)`.
pub struct ResolvedPacket {
    compression_data: Option<(u32, u32)>,
    packet_id: i32,
    uncompressed_length: u32,
    packet: Vec<u8>,
}

/// What `compress` makes of `before`, and whether it succeeded.
pub open spec fn compressed(
    before: ResolvedPacket,
    after: ResolvedPacket,
    threshold: i32,
    outcome: Result<(), TransportError>,
) -> bool {
    let ul = before.uncompressed_length();
    let plain = id_bytes(before.packet_id()) + before.body();
    let deflated = zlib_deflated(plain);
    let wire_len = deflated.len() + varint_bytes(ul as nat).len();
    if ul > threshold {
        &&& outcome is Ok ==> {
            &&& wire_len <= MAX_LENGTH
            &&& after.wf()
            &&& after.packet_id() == before.packet_id()
            &&& after.uncompressed_length() == ul
            &&& after.body() == deflated
            &&& after.compression() == Some((wire_len as u32, ul))
        }
        &&& outcome matches Err(e) ==> (e == TransportError::CompressionFailure || (e
            == TransportError::LengthOverflow && wire_len > MAX_LENGTH))
    } else {
        &&& outcome is Ok <==> ul < MAX_LENGTH
        &&& outcome is Ok ==> {
            &&& after.wf()
            &&& after.packet_id() == before.packet_id()
            &&& after.uncompressed_length() == ul
            &&& after.body() == plain
            &&& after.compression() == Some(((ul + 1) as u32, 0u32))
        }
        &&& outcome is Err ==> outcome == Err::<(), _>(TransportError::LengthOverflow)
    }
}

impl ResolvedPacket {
    pub closed spec fn packet_id(&self) -> i32 {
        self.packet_id
    }

    /// The size of the id's varint and of the body before compression.
    pub closed spec fn uncompressed_length(&self) -> u32 {
        self.uncompressed_length
    }

    /// The body: before `compress`, the bytes after the id; after it, the id's
    /// varint and the body, deflated or not.
    pub closed spec fn body(&self) -> Seq<u8> {
        self.packet@
    }

    pub closed spec fn compression(&self) -> Option<(u32, u32)> {
        self.compression_data
    }

    /// The compression envelope's data length, zero where none was set.
    pub open spec fn data_length(&self) -> u32 {
        match self.compression() {
            Some((_, d)) => d,
            None => 0,
        }
    }

    pub open spec fn wf(&self) -> bool {
        &&& self.uncompressed_length() <= MAX_LENGTH
        &&& self.body().len() <= MAX_LENGTH
        &&& match self.compression() {
            None => self.uncompressed_length() == id_bytes(self.packet_id()).len()
                + self.body().len(),
            Some((w, d)) => {
                &&& w <= MAX_LENGTH
                &&& d == 0 ==> w == self.uncompressed_length() + 1 && self.body().len()
                    == self.uncompressed_length()
                &&& d != 0 ==> d == self.uncompressed_length() && w == self.body().len()
                    + varint_bytes(d as nat).len()
            },
        }
    }

    /// The frame as it goes on the wire: `wireLength, dataLength, body` once
    /// compressed, `uncompressedLength, packetId, body` before.
    pub open spec fn wire_bytes(&self) -> Seq<u8> {
        match self.compression() {
            Some((w, d)) => varint_bytes(w as nat) + varint_bytes(d as nat) + self.body(),
            None => varint_bytes(self.uncompressed_length() as nat) + id_bytes(self.packet_id())
                + self.body(),
        }
    }

    /// A packet of id `packet_id` and body `packet`, not yet compressed. Fails
    /// where its length does not fit a varint.
    pub fn new(packet_id: i32, packet: Vec<u8>) -> (r: Result<Self, TransportError>)
        ensures
            r is Ok <==> id_bytes(packet_id).len() + packet@.len() <= MAX_LENGTH,
            r is Err ==> r == Err::<Self, _>(TransportError::LengthOverflow),
            r matches Ok(p) ==> {
                &&& p.wf()
                &&& p.packet_id() == packet_id
                &&& p.body() == packet@
                &&& p.compression() is None
                &&& p.uncompressed_length() == id_bytes(packet_id).len() + packet@.len()
            },
    {
        let id_size = varint_size(#[verifier::truncate] (packet_id as u32));
        if packet.len() > (MAX_LENGTH as usize) - id_size {
            return Err(TransportError::LengthOverflow);
        }
        Ok(ResolvedPacket {
            compression_data: None,
            packet_id,
            uncompressed_length: (id_size + packet.len()) as u32,
            packet,
        })
    }

    /// The packet whose uncompressed frame body (id and body, the length
    /// prefix left out) is `frame`.
    pub fn from_cursor(frame: Vec<u8>) -> (r: Result<Self, TransportError>)
        ensures
            packet_parts(frame@) is None ==> r == Err::<Self, _>(
                TransportError::MalformedLengthPrefix,
            ),
            packet_parts(frame@) matches Some((id, body)) ==> {
                &&& r is Ok <==> id_bytes(id).len() + body.len() <= MAX_LENGTH
                &&& r is Err ==> r == Err::<Self, _>(TransportError::LengthOverflow)
                &&& r matches Ok(p) ==> p.wf() && p.packet_id() == id && p.body() == body
                    && p.compression() is None
            },
    {
        match read_varint(frame.as_slice()) {
            None => Err(TransportError::MalformedLengthPrefix),
            Some((id, n)) => {
                let body = slice_to_vec(slice_subrange(frame.as_slice(), n, frame.len()));
                assert(body@ =~= frame@.skip(n as int));
                ResolvedPacket::new(#[verifier::truncate] (id as i32), body)
            },
        }
    }

    /// The packet of id `packet_id` whose body is what `encodable` encodes to
    /// at `protocol`.
    pub fn from_mapped_encodable<T: MapEncodable>(
        packet_id: i32,
        protocol: MCProtocol,
        encodable: &T,
    ) -> (r: Result<Self, TransportError>)
        ensures
            r matches Ok(p) ==> p.wf() && p.packet_id() == packet_id && p.compression() is None,
    {
        let sized = encodable.size_mapped(protocol)?;
        let capacity: usize = if sized < 0 {
            0
        } else {
            sized as usize
        };
        let mut packet: Vec<u8> = Vec::with_capacity(capacity);
        encodable.encode_mapped(protocol, &mut packet)?;
        ResolvedPacket::new(packet_id, packet)
    }

    /// Sets the compression envelope of a packet whose id and body deflated
    /// to `deflated`. Fails where the frame's length does not fit a varint.
    pub fn install_compressed(&mut self, deflated: Vec<u8>) -> (r: Result<(), TransportError>)
        requires
            old(self).wf(),
            old(self).compression() is None,
        ensures
            ({
                let ul = old(self).uncompressed_length();
                let wire_len = deflated@.len() + varint_bytes(ul as nat).len();
                &&& r is Ok <==> wire_len <= MAX_LENGTH
                &&& r is Err ==> r == Err::<(), _>(TransportError::LengthOverflow) && *final(self)
                    == *old(self)
                &&& r is Ok ==> {
                    &&& final(self).wf()
                    &&& final(self).packet_id() == old(self).packet_id()
                    &&& final(self).uncompressed_length() == ul
                    &&& final(self).body() == deflated@
                    &&& final(self).compression() == Some((wire_len as u32, ul))
                }
            }),
    {
        let size = varint_size(self.uncompressed_length);
        if deflated.len() > (MAX_LENGTH as usize) - size {
            return Err(TransportError::LengthOverflow);
        }
        self.compression_data = Some(((deflated.len() + size) as u32, self.uncompressed_length));
        self.packet = deflated;
        Ok(())
    }

    /// Builds the compression envelope: above `compression_threshold` the id
    /// and body are deflated, at or below it they are kept as they are behind
    /// a zero data length. To be called once per packet.
    pub fn compress(&mut self, compression_threshold: i32) -> (r: Result<(), TransportError>)
        requires
            old(self).wf(),
            old(self).compression() is None,
        ensures
            compressed(*old(self), *final(self), compression_threshold, r),
            r is Err ==> *final(self) == *old(self),
            r is Ok ==> (final(self).data_length() != 0 <==> old(self).uncompressed_length()
                > compression_threshold),
    {
        let mut plain: Vec<u8> = Vec::new();
        write_varint(#[verifier::truncate] (self.packet_id as u32), &mut plain);
        plain.extend_from_slice(self.packet.as_slice());
        assert(plain@ =~= id_bytes(self.packet_id) + self.packet@);
        if (self.uncompressed_length as i64) > (compression_threshold as i64) {
            let deflated = match zlib_compress(plain.as_slice()) {
                Ok(v) => v,
                Err(_) => {
                    return Err(TransportError::CompressionFailure);
                },
            };
            self.install_compressed(deflated)
        } else {
            if self.uncompressed_length == MAX_LENGTH {
                return Err(TransportError::LengthOverflow);
            }
            self.compression_data = Some((self.uncompressed_length + 1, 0));
            self.packet = plain;
            Ok(())
        }
    }

    /// The packet id.
    pub fn id(&self) -> (r: i32)
        ensures
            r == self.packet_id(),
    {
        self.packet_id
    }

    /// Whether `compress` has built the compression envelope.
    pub fn is_compressed(&self) -> (r: bool)
        ensures
            r == self.compression() is Some,
    {
        self.compression_data.is_some()
    }

    /// The body, as `body` describes it.
    pub fn bytes(&self) -> (r: &[u8])
        ensures
            r@ == self.body(),
    {
        self.packet.as_slice()
    }

    /// Appends the frame's wire form to `writer`.
    pub fn write(&self, writer: &mut Vec<u8>)
        requires
            self.wf(),
        ensures
            final(writer)@ == old(writer)@ + self.wire_bytes(),
    {
        match self.compression_data {
            Some((packet_length, data_length)) => {
                write_varint(packet_length, writer);
                write_varint(data_length, writer);
            },
            None => {
                write_varint(self.uncompressed_length, writer);
                write_varint(#[verifier::truncate] (self.packet_id as u32), writer);
            },
        }
        writer.extend_from_slice(self.packet.as_slice());
        assert(final(writer)@ =~= old(writer)@ + self.wire_bytes());
    }

    /// The number of bytes `write` appends, the leading length included.
    pub fn size(&self) -> (r: usize)
        requires
            self.wf(),
        ensures
            r == self.wire_bytes().len(),
    {
        match self.compression_data {
            Some((packet_length, data_length)) => varint_size(packet_length) + varint_size(
                data_length,
            ) + self.packet.len(),
            None => varint_size(self.uncompressed_length) + varint_size(#[verifier::truncate] (self.packet_id as u32))
                + self.packet.len(),
        }
    }
}

/// Whether `outcome` is the success or the failure of `r`.
pub open spec fn outcome_of<T>(r: Result<T, TransportError>) -> Result<(), TransportError> {
    match r {
        Ok(_) => Ok(()),
        Err(e) => Err(e),
    }
}

/// The outbound half of a connection: a byte sink, and the compression and
/// encryption that every frame goes through before it reaches the sink.
pub struct PacketWriter<T> {
    internal_writer: T,
    codec: Option<Codec>,
    compression_threshold: Option<i32>,
}

impl<T> PacketWriter<T> {
    pub closed spec fn codec(&self) -> Option<Codec> {
        self.codec
    }

    pub closed spec fn compression_threshold(&self) -> Option<i32> {
        self.compression_threshold
    }

    pub closed spec fn writer(&self) -> T {
        self.internal_writer
    }

    pub open spec fn wf(&self) -> bool {
        self.codec() matches Some(c) ==> c.wf()
    }

    /// A writer to `internal_writer`, with neither compression nor encryption.
    pub fn new(internal_writer: T) -> (r: Self)
        ensures
            r.wf(),
            r.writer() == internal_writer,
            r.codec() is None,
            r.compression_threshold() is None,
    {
        PacketWriter { internal_writer, codec: None, compression_threshold: None }
    }

    /// Encrypts every byte written from now on.
    pub fn enable_encryption(&mut self, codec: Codec)
        requires
            codec.wf(),
        ensures
            final(self).wf(),
            final(self).codec() == Some(codec),
            final(self).compression_threshold() == old(self).compression_threshold(),
            final(self).writer() == old(self).writer(),
    {
        self.codec = Some(codec);
    }

    /// Compresses every packet written from now on above `compression_threshold`.
    pub fn enable_compression(&mut self, compression_threshold: i32)
        requires
            old(self).wf(),
        ensures
            final(self).wf(),
            final(self).compression_threshold() == Some(compression_threshold),
            final(self).codec() == old(self).codec(),
            final(self).writer() == old(self).writer(),
    {
        self.compression_threshold = Some(compression_threshold);
    }

    /// The byte sink.
    pub fn sink(&mut self) -> (r: &mut T)
        ensures
            *r == old(self).writer(),
            final(self).writer() == *final(r),
            final(self).codec() == old(self).codec(),
            final(self).compression_threshold() == old(self).compression_threshold(),
    {
        &mut self.internal_writer
    }

    /// The bytes that sending `packet` puts on the wire, in the fixed order:
    /// compress where compression is on, serialise, then encrypt the whole
    /// frame where encryption is on. `packet` must not have been compressed.
    pub fn encode_resolved_packet(&mut self, packet: &mut ResolvedPacket) -> (r: Result<
        Vec<u8>,
        TransportError,
    >)
        requires
            old(self).wf(),
            old(packet).wf(),
            old(packet).compression() is None,
        ensures
            final(self).wf(),
            final(self).writer() == old(self).writer(),
            final(self).compression_threshold() == old(self).compression_threshold(),
            match old(self).compression_threshold() {
                None => *final(packet) == *old(packet),
                Some(t) => compressed(*old(packet), *final(packet), t, outcome_of(r)),
            },
            r is Err ==> final(self).codec() == old(self).codec() && *final(packet) == *old(packet),
            r matches Ok(buf) ==> match old(self).codec() {
                None => final(self).codec() is None && buf@ == final(packet).wire_bytes(),
                Some(c) => match final(self).codec() {
                    Some(c2) => {
                        &&& c2.key() == c.key()
                        &&& cfb8_ciphertext(c.key(), c.register(), final(packet).wire_bytes(), buf@)
                        &&& c2.register() == feedback(c.register(), buf@, buf@.len() as int)
                    },
                    None => false,
                },
            },
    {
        match self.compression_threshold {
            Some(threshold) => {
                packet.compress(threshold)?;
            },
            None => {},
        }
        let mut buf: Vec<u8> = Vec::with_capacity(packet.size());
        packet.write(&mut buf);
        assert(buf@ =~= packet.wire_bytes());
        match &mut self.codec {
            Some(codec) => {
                codec.encrypt(buf.as_mut_slice());
            },
            None => {},
        }
        Ok(buf)
    }
}

/// What a reader does next to produce a frame.
pub enum ReadStep {
    /// A frame was taken: here are its bytes.
    Frame(Vec<u8>),
    /// No complete frame yet: more bytes must come from the source.
    NeedBytes,
}

/// The inbound half of a connection: a byte source and the reassembly buffer
/// its bytes go to.
pub struct PacketReader<T> {
    internal_reader: T,
    buffer: MinecraftPacketBuffer,
}

impl<T> PacketReader<T> {
    pub closed spec fn buffer(&self) -> MinecraftPacketBuffer {
        self.buffer
    }

    pub closed spec fn reader(&self) -> T {
        self.internal_reader
    }

    pub open spec fn wf(&self) -> bool {
        self.buffer().wf()
    }

    /// A reader of `internal_reader` with an empty buffer.
    pub fn new(internal_reader: T) -> (r: Self)
        ensures
            r.wf(),
            r.reader() == internal_reader,
            r.buffer().ingress() == Seq::<u8>::empty(),
            r.buffer().decoded() == Seq::<u8>::empty(),
            r.buffer().decryption() is None,
            !r.buffer().decompressing(),
    {
        PacketReader { internal_reader, buffer: MinecraftPacketBuffer::new() }
    }

    /// Decrypts every byte read from now on.
    pub fn enable_decryption(&mut self, codec: Codec)
        requires
            old(self).wf(),
            codec.wf(),
        ensures
            final(self).wf(),
            final(self).buffer().decryption() == Some(codec),
            final(self).buffer().ingress() == old(self).buffer().ingress(),
            final(self).buffer().decoded() == old(self).buffer().decoded(),
            final(self).buffer().decompressing() == old(self).buffer().decompressing(),
            final(self).reader() == old(self).reader(),
    {
        self.buffer.enable_decryption(codec);
    }

    /// Unpacks the compression envelope of every frame read from now on.
    pub fn enable_decompression(&mut self)
        requires
            old(self).wf(),
        ensures
            final(self).wf(),
            final(self).buffer().decompressing(),
            final(self).buffer().ingress() == old(self).buffer().ingress(),
            final(self).buffer().decoded() == old(self).buffer().decoded(),
            final(self).buffer().decryption() == old(self).buffer().decryption(),
            final(self).reader() == old(self).reader(),
    {
        self.buffer.enable_decompression();
    }

    /// The byte source.
    pub fn source(&mut self) -> (r: &mut T)
        ensures
            *r == old(self).reader(),
            final(self).reader() == *final(r),
            final(self).buffer() == old(self).buffer(),
    {
        &mut self.internal_reader
    }

    /// The lengths of the buffer's ingress and decoded queues.
    pub fn buffer_len(&self) -> (r: (usize, usize))
        ensures
            r.0 == self.buffer().ingress().len(),
            r.1 == self.buffer().decoded().len(),
    {
        self.buffer.len()
    }

    /// Polls the buffer.
    pub fn poll(&mut self) -> (r: BufferState)
        requires
            old(self).wf(),
        ensures
            final(self).wf(),
            final(self).reader() == old(self).reader(),
            frame_ready(final(self).buffer().decoded()) ==> r is PacketReady,
            !frame_ready(final(self).buffer().decoded()) && final(self).buffer().decoded().len()
                == BUFFER_CAPACITY ==> r is Error,
            !frame_ready(final(self).buffer().decoded()) && final(self).buffer().decoded().len()
                < BUFFER_CAPACITY ==> r is Waiting,
    {
        self.buffer.poll()
    }

    /// One round of waiting for a frame: poll, then take the frame if one is
    /// complete, ask for more bytes if there is room, or fail with
    /// `FrameTooLarge` if the buffer is full.
    pub fn next_frame_step(&mut self) -> (r: Result<ReadStep, TransportError>)
        requires
            old(self).wf(),
        ensures
            final(self).wf(),
            final(self).reader() == old(self).reader(),
            final(self).buffer().ingress() == old(self).buffer().ingress().skip(
                transfer_size(
                    old(self).buffer().ingress().len(),
                    old(self).buffer().decoded().len(),
                ) as int,
            ),
            final(self).buffer().decompressing() == old(self).buffer().decompressing(),
            ({
                let d = old(self).buffer().decoded_after_poll();
                let dec = old(self).buffer().decompressing();
                &&& frame_ready(d) ==> final(self).buffer().decoded() == frame_rest(d) && match r {
                    Ok(ReadStep::Frame(v)) => unpacked(frame_body(d), dec) == Ok::<Seq<u8>, TransportError>(v@),
                    Ok(ReadStep::NeedBytes) => false,
                    Err(e) => unpacked(frame_body(d), dec) == Err::<Seq<u8>, _>(e),
                }
                &&& !frame_ready(d) && d.len() == BUFFER_CAPACITY ==> r == Err::<ReadStep, _>(
                    TransportError::FrameTooLarge,
                ) && final(self).buffer().decoded() == d
                &&& !frame_ready(d) && d.len() < BUFFER_CAPACITY ==> (r matches Ok(
                    ReadStep::NeedBytes,
                )) && final(self).buffer().decoded() == d
            }),
    {
        match self.buffer.poll() {
            BufferState::PacketReady => match self.buffer.packet_reader() {
                Ok(frame) => Ok(ReadStep::Frame(frame)),
                Err(e) => Err(e),
            },
            BufferState::Waiting => Ok(ReadStep::NeedBytes),
            BufferState::Error(_) => Err(TransportError::FrameTooLarge),
        }
    }

    /// Takes what one read of the source gave: `None` where it timed out. A
    /// timeout fails, and so does an empty read while nothing is pending.
    pub fn accept_read(&mut self, received: Option<&[u8]>) -> (r: Result<(), TransportError>)
        requires
            old(self).wf(),
        ensures
            final(self).wf(),
            final(self).reader() == old(self).reader(),
            final(self).buffer().decoded() == old(self).buffer().decoded(),
            final(self).buffer().decryption() == old(self).buffer().decryption(),
            final(self).buffer().decompressing() == old(self).buffer().decompressing(),
            match received {
                None => r == Err::<(), _>(TransportError::TransportTimeout) && final(self).buffer().ingress() == old(self).buffer().ingress(),
                Some(data) => if old(self).buffer().ingress().len() + data@.len() > isize::MAX {
                    r == Err::<(), _>(TransportError::FrameTooLarge) && final(self).buffer().ingress() == old(self).buffer().ingress()
                } else {
                    &&& final(self).buffer().ingress() == old(self).buffer().ingress() + data@
                    &&& r is Err <==> final(self).buffer().ingress().len() == 0 && final(self).buffer().decoded().len() == 0
                    &&& r is Err ==> r == Err::<(), _>(TransportError::TransportClosed)
                },
            },
    {
        match received {
            None => Err(TransportError::TransportTimeout),
            Some(data) => {
                let (ingress_len, _) = self.buffer.len();
                if data.len() > isize::MAX as usize || ingress_len > (isize::MAX as usize) - data.len() {
                    return Err(TransportError::FrameTooLarge);
                }
                self.buffer.append(data);
                let (ingress_len, decoded_len) = self.buffer.len();
                if ingress_len == 0 && decoded_len == 0 {
                    Err(TransportError::TransportClosed)
                } else {
                    Ok(())
                }
            },
        }
    }
}

} // verus!
