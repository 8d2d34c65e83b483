//! What holds of the framing as a whole: frames written are read back, a
//! frame fed one byte at a time completes exactly once, and a full buffer
//! reports an error rather than dropping bytes.

use vstd::prelude::*;
use crate::buffer::{
    frame_body, frame_ready, frame_rest, incoming_plain, inflate_checked, transfer_size, unpacked,
    MinecraftPacketBuffer, BUFFER_CAPACITY,
};
use crate::compression::{zlib_deflated, zlib_inflated};
use crate::encryption::{cfb8_ciphertext, lemma_decrypt_inverts_encrypt, pad_byte};
use crate::error::TransportError;
use crate::packet::{compressed, id_bytes, packet_parts, ResolvedPacket};
use crate::varint::{
    lemma_decode_round_trip, lemma_decode_size, lemma_scan_prefix, varint_bytes, varint_decode,
};

verus! {

/// An uncompressed frame body reads back as its packet id and body.
pub proof fn lemma_packet_parts(id: i32, body: Seq<u8>)
    ensures
        packet_parts(id_bytes(id) + body) == Some((id, body)),
{
    let v = #[verifier::truncate] (id as u32);
    lemma_decode_round_trip(v, body);
    let s = id_bytes(id) + body;
    assert(s.skip(varint_bytes(v as nat).len() as int) =~= body);
    assert((#[verifier::truncate] (v as i32)) == id) by (bit_vector)
        requires
            v == #[verifier::truncate] (id as u32),
    ;
}

/// The frame whose length prefix `len` is followed by exactly `len` bytes
/// `rest` is complete, and taking it leaves nothing behind.
pub proof fn lemma_single_frame(rest: Seq<u8>)
    requires
        rest.len() < 0x1_0000_0000,
    ensures
        ({
            let d = varint_bytes(rest.len()) + rest;
            &&& frame_ready(d)
            &&& frame_body(d) == rest
            &&& frame_rest(d) == Seq::<u8>::empty()
        }),
{
    let d = varint_bytes(rest.len()) + rest;
    lemma_decode_round_trip(rest.len() as u32, rest);
    let n = varint_bytes(rest.len()).len();
    assert(d.subrange(n as int, n + rest.len() as int) =~= rest);
    assert(d.subrange(n + rest.len() as int, d.len() as int) =~= Seq::<u8>::empty());
}

/// Round trip without compression: the wire form of a packet, appended to a
/// buffer that is empty and decrypts nothing, is moved whole by one poll and
/// reads back as the packet's id and body.
pub proof fn lemma_round_trip(p: ResolvedPacket, b: MinecraftPacketBuffer)
    requires
        p.wf(),
        p.compression() is None,
        p.wire_bytes().len() <= BUFFER_CAPACITY,
        b.wf(),
        b.ingress() == p.wire_bytes(),
        b.decoded() == Seq::<u8>::empty(),
        b.decryption() is None,
        !b.decompressing(),
    ensures
        b.decoded_after_poll() == p.wire_bytes(),
        frame_ready(b.decoded_after_poll()),
        frame_rest(b.decoded_after_poll()) == Seq::<u8>::empty(),
        unpacked(frame_body(b.decoded_after_poll()), b.decompressing()) == Ok::<
            Seq<u8>,
            TransportError,
        >(id_bytes(p.packet_id()) + p.body()),
        packet_parts(frame_body(b.decoded_after_poll())) == Some((p.packet_id(), p.body())),
{
    let w = p.wire_bytes();
    assert(b.ingress().take(w.len() as int) =~= w);
    assert(b.decoded_after_poll() =~= w);
    let rest = id_bytes(p.packet_id()) + p.body();
    assert(w =~= varint_bytes(rest.len()) + rest);
    lemma_single_frame(rest);
    lemma_packet_parts(p.packet_id(), p.body());
}

/// Round trip with compression on both sides: the wire form of a packet that
/// `compress` built reads back, through a decompressing buffer, as the
/// packet's id and body where it was left uncompressed, and as what flate2
/// inflates its deflated id and body to where it was compressed.
pub proof fn lemma_round_trip_compressed(
    before: ResolvedPacket,
    after: ResolvedPacket,
    threshold: i32,
    b: MinecraftPacketBuffer,
)
    requires
        before.wf(),
        before.compression() is None,
        compressed(before, after, threshold, Ok(())),
        after.wire_bytes().len() <= BUFFER_CAPACITY,
        b.wf(),
        b.ingress() == after.wire_bytes(),
        b.decoded() == Seq::<u8>::empty(),
        b.decryption() is None,
        b.decompressing(),
    ensures
        ({
            let d = b.decoded_after_poll();
            let plain = id_bytes(before.packet_id()) + before.body();
            let ul = before.uncompressed_length();
            &&& d == after.wire_bytes()
            &&& frame_ready(d)
            &&& frame_rest(d) == Seq::<u8>::empty()
            &&& ul <= threshold ==> unpacked(frame_body(d), true) == Ok::<
                Seq<u8>,
                TransportError,
            >(plain)
            &&& ul > threshold ==> unpacked(frame_body(d), true) == inflate_checked(
                zlib_inflated(zlib_deflated(plain)),
                ul,
            )
            &&& packet_parts(plain) == Some((before.packet_id(), before.body()))
        }),
{
    let w = after.wire_bytes();
    assert(b.ingress().take(w.len() as int) =~= w);
    assert(b.decoded_after_poll() =~= w);
    let (wl, dl) = after.compression().unwrap();
    let rest = varint_bytes(dl as nat) + after.body();
    assert(w =~= varint_bytes(rest.len()) + rest);
    lemma_single_frame(rest);
    lemma_decode_round_trip(dl, after.body());
    let n = varint_bytes(dl as nat).len();
    assert(rest.subrange(n as int, rest.len() as int) =~= after.body());
    lemma_packet_parts(before.packet_id(), before.body());
}

/// Encrypted transport: bytes that a write codec encrypted, polled into an
/// empty buffer whose read codec has the same key and register, arrive in the
/// decoded queue as they were before encryption.
pub proof fn lemma_encrypted_transfer(plain: Seq<u8>, cipher: Seq<u8>, b: MinecraftPacketBuffer)
    requires
        b.wf(),
        b.decoded() == Seq::<u8>::empty(),
        b.ingress() == cipher,
        cipher.len() <= BUFFER_CAPACITY,
        b.decryption() matches Some(c) && cfb8_ciphertext(c.key(), c.register(), plain, cipher),
    ensures
        b.decoded_after_poll() == plain,
{
    let c = b.decryption().unwrap();
    assert(b.ingress().take(cipher.len() as int) =~= cipher);
    let d = incoming_plain(b.decryption(), cipher);
    assert forall|i: int| 0 <= i < d.len() implies #[trigger] d[i] == cipher[i] ^ pad_byte(
        c.key(),
        c.register(),
        cipher,
        i,
    ) by {}
    lemma_decrypt_inverts_encrypt(c.key(), c.register(), plain, cipher, d);
    assert(b.decoded_after_poll() =~= d);
}

/// Streaming reassembly: fed one byte at a time, a buffer holding a prefix of
/// a single frame moves exactly that byte on each poll, and sees the frame
/// complete only once the last byte is in.
pub proof fn lemma_byte_at_a_time(wire: Seq<u8>)
    requires
        frame_ready(wire),
        frame_rest(wire) == Seq::<u8>::empty(),
        wire.len() <= BUFFER_CAPACITY,
    ensures
        forall|k: int|
            0 <= k < wire.len() ==> {
                &&& !frame_ready(#[trigger] wire.take(k))
                &&& transfer_size(1, k as nat) == 1
                &&& wire.take(k + 1) == wire.take(k).push(wire[k])
            },
        wire.take(wire.len() as int) == wire,
{
    let (len, n) = varint_decode(wire).unwrap();
    lemma_decode_size(wire);
    assert(wire.subrange(n + len, wire.len() as int).len() == 0);
    assert forall|k: int| 0 <= k < wire.len() implies {
        &&& !frame_ready(#[trigger] wire.take(k))
        &&& transfer_size(1, k as nat) == 1
        &&& wire.take(k + 1) == wire.take(k).push(wire[k])
    } by {
        if frame_ready(wire.take(k)) {
            lemma_scan_prefix(wire, k, 5);
        }
        assert(wire.take(k + 1) =~= wire.take(k).push(wire[k]));
    }
    assert(wire.take(wire.len() as int) =~= wire);
}

/// Capacity bound: where the pending bytes fill the decoded queue, a poll
/// fills it to the capacity exactly, so that it reports a ready frame or an
/// error and never waits; the bytes it leaves stay queued in order.
pub proof fn lemma_capacity_bound(b: MinecraftPacketBuffer)
    requires
        b.wf(),
        b.decoded().len() + b.ingress().len() >= BUFFER_CAPACITY,
    ensures
        ({
            let n = transfer_size(b.ingress().len(), b.decoded().len());
            &&& b.decoded_after_poll().len() == BUFFER_CAPACITY
            &&& b.ingress().take(n as int) + b.ingress().skip(n as int) == b.ingress()
            &&& b.decryption() is None ==> b.decoded_after_poll() == b.decoded() + b.ingress().take(
                n as int,
            )
        }),
{
    let n = transfer_size(b.ingress().len(), b.decoded().len());
    assert(b.ingress().take(n as int) + b.ingress().skip(n as int) =~= b.ingress());
}

} // verus!
