//! Streaming frame reassembly: raw bytes come in at the ingress queue, are
//! decrypted in wire order into the decoded queue, and leave it one complete
//! frame at a time.

use vstd::prelude::*;
use bytes::BytesMut;
use crate::compression::{zlib_decompress, zlib_inflated};
use crate::encryption::{cfb8_plaintext, feedback, pad_byte, Codec};
use crate::error::TransportError;
use crate::varint::{read_varint, varint_decode};
use vstd::slice::{slice_subrange, slice_to_vec};

verus! {

/// The most bytes the decoded queue holds: the largest frame the protocol
/// allows (a 21-bit length) with its three-byte length prefix.
pub const BUFFER_CAPACITY: usize = 2097151 + 3;

#[verifier::external_type_specification]
#[verifier::external_body]
pub struct ExBytesMut(BytesMut);

/// The bytes a `BytesMut` holds, front first.
pub uninterp spec fn bytes_held(b: BytesMut) -> Seq<u8>;

/// Relies on `BytesMut::with_capacity`: an empty buffer.
#[verifier::external_body]
fn buf_with_capacity(capacity: usize) -> (r: BytesMut)
    requires
        capacity <= isize::MAX,
    ensures
        bytes_held(r) == Seq::<u8>::empty(),
{
    BytesMut::with_capacity(capacity)
}

/// Relies on `BytesMut::len`: the number of bytes held.
#[verifier::external_body]
fn buf_len(b: &BytesMut) -> (r: usize)
    ensures
        r == bytes_held(*b).len(),
{
    b.len()
}

/// Relies on `BytesMut`'s `Deref` to `[u8]`: the bytes held.
#[verifier::external_body]
fn buf_slice(b: &BytesMut) -> (r: &[u8])
    ensures
        r@ == bytes_held(*b),
{
    &b[..]
}

/// Relies on `BytesMut::extend_from_slice`: the bytes are appended at the
/// back (it panics only where the length overflows).
#[verifier::external_body]
fn buf_extend(b: &mut BytesMut, data: &[u8])
    requires
        bytes_held(*old(b)).len() + data@.len() <= isize::MAX,
    ensures
        bytes_held(*final(b)) == bytes_held(*old(b)) + data@,
{
    b.extend_from_slice(data)
}

/// Relies on `BytesMut::split_to`: the first `at` bytes leave the buffer and
/// are handed back (it panics only where `at` passes the end).
#[verifier::external_body]
fn buf_split_front(b: &mut BytesMut, at: usize) -> (r: Vec<u8>)
    requires
        at <= bytes_held(*old(b)).len(),
    ensures
        r@ == bytes_held(*old(b)).take(at as int),
        bytes_held(*final(b)) == bytes_held(*old(b)).skip(at as int),
{
    b.split_to(at).to_vec()
}

/// What a poll found at the head of the decoded queue.
pub enum BufferState {
    /// No complete frame yet, and room for more bytes.
    Waiting,
    /// A complete frame is at the head.
    PacketReady,
    /// The queue is full and holds no complete frame.
    Error(String),
}

/// The decoded bytes `d` begin with a complete frame: a length prefix that
/// decodes, followed by at least that many bytes.
pub open spec fn frame_ready(d: Seq<u8>) -> bool {
    match varint_decode(d) {
        Some((len, n)) => len + n <= d.len(),
        None => false,
    }
}

/// The bytes of the frame at the head of `d`, its length prefix left out.
pub open spec fn frame_body(d: Seq<u8>) -> Seq<u8> {
    let (len, n) = varint_decode(d).unwrap();
    d.subrange(n as int, n + len)
}

/// What stays of `d` once the frame at its head is taken.
pub open spec fn frame_rest(d: Seq<u8>) -> Seq<u8> {
    let (len, n) = varint_decode(d).unwrap();
    d.subrange(n + len, d.len() as int)
}

/// How many bytes a poll moves from the ingress queue to the decoded one.
pub open spec fn transfer_size(ingress_len: nat, decoded_len: nat) -> nat {
    if ingress_len <= BUFFER_CAPACITY - decoded_len {
        ingress_len
    } else {
        (BUFFER_CAPACITY - decoded_len) as nat
    }
}

/// `plain` is what the bytes `cipher` become on their way into the decoded
/// queue, and `after` the codec once they went through `before`.
pub open spec fn decrypted_transfer(
    before: Option<Codec>,
    after: Option<Codec>,
    cipher: Seq<u8>,
    plain: Seq<u8>,
) -> bool {
    match before {
        None => after is None && plain == cipher,
        Some(c) => match after {
            Some(c2) => {
                &&& c2.wf()
                &&& c2.key() == c.key()
                &&& c2.register() == feedback(c.register(), cipher, cipher.len() as int)
                &&& cfb8_plaintext(c.key(), c.register(), cipher, plain)
            },
            None => false,
        },
    }
}

/// What the bytes `cipher` decrypt to through `codec`, if there is one.
pub open spec fn incoming_plain(codec: Option<Codec>, cipher: Seq<u8>) -> Seq<u8> {
    match codec {
        None => cipher,
        Some(c) => Seq::new(
            cipher.len(),
            |i: int| cipher[i] ^ pad_byte(c.key(), c.register(), cipher, i),
        ),
    }
}

/// What flate2 inflated, checked against the size the frame declared.
pub open spec fn inflate_checked(inflated: Option<Seq<u8>>, data_length: u32) -> Result<
    Seq<u8>,
    TransportError,
> {
    match inflated {
        Some(v) => if v.len() == data_length {
            Ok(v)
        } else {
            Err(TransportError::DecompressionFailure)
        },
        None => Err(TransportError::DecompressionFailure),
    }
}

/// What taking the frame `frame` hands out: the frame itself, or where
/// decompression is on, the payload of its compression envelope.
pub open spec fn unpacked(frame: Seq<u8>, decompressing: bool) -> Result<Seq<u8>, TransportError> {
    if !decompressing {
        Ok(frame)
    } else {
        match varint_decode(frame) {
            None => Err(TransportError::MalformedLengthPrefix),
            Some((data_length, n)) => {
                let payload = frame.subrange(n as int, frame.len() as int);
                if data_length == 0 {
                    Ok(payload)
                } else {
                    inflate_checked(zlib_inflated(payload), data_length)
                }
            },
        }
    }
}

pub open spec fn bytes_result(r: Result<Vec<u8>, TransportError>) -> Result<Seq<u8>, TransportError> {
    match r {
        Ok(v) => Ok(v@),
        Err(e) => Err(e),
    }
}

/// Checks an inflated payload against the size its frame declared.
pub fn check_inflated(inflated: Option<Vec<u8>>, data_length: u32) -> (r: Result<
    Vec<u8>,
    TransportError,
>)
    ensures
        bytes_result(r) == inflate_checked(
            match inflated {
                Some(v) => Some(v@),
                None => None,
            },
            data_length,
        ),
{
    match inflated {
        Some(v) => {
            if v.len() as u64 == data_length as u64 {
                Ok(v)
            } else {
                Err(TransportError::DecompressionFailure)
            }
        },
        None => Err(TransportError::DecompressionFailure),
    }
}

/// The reassembly engine of one connection.
pub struct MinecraftPacketBuffer {
    bytes: BytesMut,
    decoded: BytesMut,
    decryption: Option<Codec>,
    decompressing: bool,
}

impl MinecraftPacketBuffer {
    /// Raw bytes received and not yet moved on.
    pub closed spec fn ingress(&self) -> Seq<u8> {
        bytes_held(self.bytes)
    }

    /// Decrypted bytes in wire order: whole frames and at most one partial one.
    pub closed spec fn decoded(&self) -> Seq<u8> {
        bytes_held(self.decoded)
    }

    pub closed spec fn decryption(&self) -> Option<Codec> {
        self.decryption
    }

    pub closed spec fn decompressing(&self) -> bool {
        self.decompressing
    }

    /// The decoded queue once a poll has moved what fits.
    pub open spec fn decoded_after_poll(&self) -> Seq<u8> {
        self.decoded() + incoming_plain(
            self.decryption(),
            self.ingress().take(transfer_size(self.ingress().len(), self.decoded().len()) as int),
        )
    }

    pub open spec fn wf(&self) -> bool {
        &&& self.decoded().len() <= BUFFER_CAPACITY
        &&& self.decryption() matches Some(c) ==> c.wf()
    }

    /// An empty buffer, with neither decryption nor decompression.
    pub fn new() -> (r: Self)
        ensures
            r.wf(),
            r.ingress() == Seq::<u8>::empty(),
            r.decoded() == Seq::<u8>::empty(),
            r.decryption() is None,
            !r.decompressing(),
    {
        MinecraftPacketBuffer {
            bytes: buf_with_capacity(BUFFER_CAPACITY),
            decoded: buf_with_capacity(BUFFER_CAPACITY),
            decryption: None,
            decompressing: false,
        }
    }

    /// The lengths of the ingress and of the decoded queue.
    pub fn len(&self) -> (r: (usize, usize))
        ensures
            r.0 == self.ingress().len(),
            r.1 == self.decoded().len(),
    {
        (buf_len(&self.bytes), buf_len(&self.decoded))
    }

    /// Decrypts every byte that reaches the decoded queue from now on.
    pub fn enable_decryption(&mut self, codec: Codec)
        requires
            old(self).wf(),
            codec.wf(),
        ensures
            final(self).wf(),
            final(self).decryption() == Some(codec),
            final(self).ingress() == old(self).ingress(),
            final(self).decoded() == old(self).decoded(),
            final(self).decompressing() == old(self).decompressing(),
    {
        self.decryption = Some(codec);
    }

    /// Reads every frame taken from now on as a compression envelope.
    pub fn enable_decompression(&mut self)
        requires
            old(self).wf(),
        ensures
            final(self).wf(),
            final(self).decompressing(),
            final(self).ingress() == old(self).ingress(),
            final(self).decoded() == old(self).decoded(),
            final(self).decryption() == old(self).decryption(),
    {
        self.decompressing = true;
    }

    /// The ingress queue, for a byte source to fill.
    pub fn inner_buf(&mut self) -> (r: &mut BytesMut)
        ensures
            bytes_held(*r) == old(self).ingress(),
            final(self).ingress() == bytes_held(*final(r)),
            final(self).decoded() == old(self).decoded(),
            final(self).decryption() == old(self).decryption(),
            final(self).decompressing() == old(self).decompressing(),
    {
        &mut self.bytes
    }

    /// Appends raw bytes received from the byte source.
    pub fn append(&mut self, data: &[u8])
        requires
            old(self).wf(),
            old(self).ingress().len() + data@.len() <= isize::MAX,
        ensures
            final(self).wf(),
            final(self).ingress() == old(self).ingress() + data@,
            final(self).decoded() == old(self).decoded(),
            final(self).decryption() == old(self).decryption(),
            final(self).decompressing() == old(self).decompressing(),
    {
        buf_extend(&mut self.bytes, data);
    }

    fn is_packet_available(&self) -> (r: bool)
        ensures
            r == frame_ready(self.decoded()),
    {
        let d = buf_slice(&self.decoded);
        match read_varint(d) {
            Some((len, n)) => {
                assert(varint_decode(d@) == Some((len, n as nat)));
                (len as u64) + (n as u64) <= d.len() as u64
            },
            None => false,
        }
    }

    /// Moves as many raw bytes as the decoded queue has room for, decrypting
    /// them if a codec is installed, then reports what the decoded queue's
    /// head holds.
    pub fn poll(&mut self) -> (r: BufferState)
        requires
            old(self).wf(),
        ensures
            final(self).wf(),
            final(self).decompressing() == old(self).decompressing(),
            ({
                let n = transfer_size(old(self).ingress().len(), old(self).decoded().len());
                let d0 = old(self).decoded();
                let d1 = final(self).decoded();
                &&& final(self).ingress() == old(self).ingress().skip(n as int)
                &&& d1.len() == d0.len() + n
                &&& d1.take(d0.len() as int) == d0
                &&& decrypted_transfer(
                    old(self).decryption(),
                    final(self).decryption(),
                    old(self).ingress().take(n as int),
                    d1.skip(d0.len() as int),
                )
            }),
            final(self).decoded() == old(self).decoded_after_poll(),
            frame_ready(final(self).decoded()) ==> r is PacketReady,
            !frame_ready(final(self).decoded()) && final(self).decoded().len() == BUFFER_CAPACITY
                ==> r is Error,
            !frame_ready(final(self).decoded()) && final(self).decoded().len() < BUFFER_CAPACITY
                ==> r is Waiting,
    {
        let ingress_len = buf_len(&self.bytes);
        let room = BUFFER_CAPACITY - buf_len(&self.decoded);
        let size_read = if ingress_len <= room {
            ingress_len
        } else {
            room
        };
        let ghost d0 = self.decoded();
        let ghost c0 = self.decryption;
        let mut chunk = buf_split_front(&mut self.bytes, size_read);
        let ghost cipher = chunk@;
        match &mut self.decryption {
            Some(codec) => {
                codec.decrypt(chunk.as_mut_slice());
            },
            None => {},
        }
        buf_extend(&mut self.decoded, chunk.as_slice());
        proof {
            let d1 = self.decoded();
            assert(d1.take(d0.len() as int) =~= d0);
            assert(d1.skip(d0.len() as int) =~= chunk@);
            assert(chunk@ =~= incoming_plain(c0, cipher));
            assert(d1 =~= d0 + chunk@);
        }
        if self.is_packet_available() {
            BufferState::PacketReady
        } else if buf_len(&self.decoded) == BUFFER_CAPACITY {
            BufferState::Error("Next packet was too big to decode, something went wrong.".to_owned())
        } else {
            BufferState::Waiting
        }
    }

    /// Takes the frame at the head of the decoded queue, its length prefix
    /// left out; where decompression is on, unpacks its compression envelope.
    /// The whole frame leaves the queue, whatever the outcome.
    pub fn packet_reader(&mut self) -> (r: Result<Vec<u8>, TransportError>)
        requires
            old(self).wf(),
            frame_ready(old(self).decoded()),
        ensures
            final(self).wf(),
            final(self).decoded() == frame_rest(old(self).decoded()),
            final(self).ingress() == old(self).ingress(),
            final(self).decryption() == old(self).decryption(),
            final(self).decompressing() == old(self).decompressing(),
            bytes_result(r) == unpacked(frame_body(old(self).decoded()), old(self).decompressing()),
    {
        let ghost d0 = self.decoded();
        let (length, length_size) = match read_varint(buf_slice(&self.decoded)) {
            Some(h) => h,
            None => {
                return Err(TransportError::MalformedLengthPrefix);
            },
        };
        proof {
            lemma_frame_fits(d0);
        }
        let _ = buf_split_front(&mut self.decoded, length_size);
        let frame = buf_split_front(&mut self.decoded, length as usize);
        proof {
            assert(frame@ =~= frame_body(d0));
            assert(self.decoded() =~= frame_rest(d0));
        }
        if !self.decompressing {
            return Ok(frame);
        }
        unpack_frame(frame)
    }
}

impl Default for MinecraftPacketBuffer {
    fn default() -> (r: Self)
        ensures
            r.wf(),
            r.ingress() == Seq::<u8>::empty(),
            r.decoded() == Seq::<u8>::empty(),
            r.decryption() is None,
            !r.decompressing(),
    {
        MinecraftPacketBuffer::new()
    }
}

proof fn lemma_frame_fits(d: Seq<u8>)
    requires
        frame_ready(d),
    ensures
        ({
            let (len, n) = varint_decode(d).unwrap();
            n + len <= d.len()
        }),
{
}

/// Unpacks the compression envelope `dataLength:varint + payload` of a
/// frame: a zero `dataLength` marks a payload left as it is, any other the
/// size that the zlib stream in the payload inflates to.
pub fn unpack_frame(frame: Vec<u8>) -> (r: Result<Vec<u8>, TransportError>)
    ensures
        bytes_result(r) == unpacked(frame@, true),
{
    match read_varint(frame.as_slice()) {
        None => Err(TransportError::MalformedLengthPrefix),
        Some((data_length, n)) => {
            let payload = slice_subrange(frame.as_slice(), n, frame.len());
            assert(varint_decode(frame@) == Some((data_length, n as nat)));
            if data_length == 0 {
                Ok(slice_to_vec(payload))
            } else {
                // A declared size is the peer's word: reserve no more than a
                // frame can hold.
                let capacity: usize = if data_length as u64 <= BUFFER_CAPACITY as u64 {
                    data_length as usize
                } else {
                    BUFFER_CAPACITY
                };
                let inflated = match zlib_decompress(payload, capacity) {
                    Ok(v) => Some(v),
                    Err(_) => None,
                };
                assert(zlib_inflated(payload@) == match inflated {
                    Some(v) => Some(v@),
                    None => None::<Seq<u8>>,
                });
                check_inflated(inflated, data_length)
            }
        },
    }
}

} // verus!
