use mc_transport::buffer::{unpack_frame, check_inflated, BufferState, MinecraftPacketBuffer, BUFFER_CAPACITY};
use mc_transport::error::TransportError;
use mc_transport::packet::ResolvedPacket;
use mc_transport::varint::{read_varint, varint_size, write_varint};

fn wire_of(packet: &ResolvedPacket) -> Vec<u8> {
    let mut out = Vec::new();
    packet.write(&mut out);
    out
}

fn read_back(wire: &[u8], decompress: bool) -> Result<Vec<u8>, TransportError> {
    let mut buffer = MinecraftPacketBuffer::new();
    if decompress {
        buffer.enable_decompression();
    }
    buffer.append(wire);
    assert!(matches!(buffer.poll(), BufferState::PacketReady));
    buffer.packet_reader()
}

fn handshake_body() -> Vec<u8> {
    let mut body = Vec::new();
    write_varint(756, &mut body);
    write_varint(9, &mut body);
    body.extend_from_slice(b"localhost");
    body.extend_from_slice(&25565u16.to_be_bytes());
    write_varint(2, &mut body);
    body
}

#[test]
fn varint_known_encodings() {
    let cases: Vec<(u32, Vec<u8>)> = vec![
        (0, vec![0x00]),
        (1, vec![0x01]),
        (127, vec![0x7f]),
        (128, vec![0x80, 0x01]),
        (300, vec![0xac, 0x02]),
        (756, vec![0xf4, 0x05]),
        (25565, vec![0xdd, 0xc7, 0x01]),
        (2097151, vec![0xff, 0xff, 0x7f]),
        (0xffff_ffff, vec![0xff, 0xff, 0xff, 0xff, 0x0f]),
    ];
    for (v, bytes) in cases {
        let mut out = Vec::new();
        write_varint(v, &mut out);
        assert_eq!(out, bytes);
        assert_eq!(varint_size(v), bytes.len());
        assert_eq!(read_varint(&bytes), Some((v, bytes.len())));
    }
}

#[test]
fn varint_reads_only_its_own_bytes() {
    assert_eq!(read_varint(&[0xac, 0x02, 0x55, 0x80]), Some((300, 2)));
}

#[test]
fn varint_truncated_or_too_long_is_rejected() {
    assert_eq!(read_varint(&[]), None);
    assert_eq!(read_varint(&[0x80]), None);
    assert_eq!(read_varint(&[0xff, 0xff, 0xff, 0xff]), None);
    assert_eq!(read_varint(&[0xff, 0xff, 0xff, 0xff, 0xff, 0x01]), None);
}

#[test]
fn varint_fifth_byte_high_bits_are_dropped() {
    assert_eq!(read_varint(&[0xff, 0xff, 0xff, 0xff, 0x7f]), Some((0xffff_ffff, 5)));
}

#[test]
fn handshake_scenario_round_trip() {
    let body = handshake_body();
    let packet = ResolvedPacket::new(0x00, body.clone()).unwrap();
    let wire = wire_of(&packet);
    assert_eq!(wire.len(), packet.size());
    assert_eq!(wire[0] as usize, 1 + body.len());
    let frame = read_back(&wire, false).unwrap();
    assert_eq!(frame[0], 0x00);
    assert_eq!(&frame[1..], &body[..]);
    let decoded = ResolvedPacket::from_cursor(frame).unwrap();
    assert_eq!(decoded.id(), 0);
    assert_eq!(decoded.bytes(), &body[..]);
}

#[test]
fn round_trip_various_packets() {
    let bodies: Vec<Vec<u8>> = vec![vec![], vec![7], (0..=255u8).collect(), vec![0xaa; 5000]];
    for id in [0i32, 1, 0x1a, 300, 0x7fff_ffff, -1] {
        for body in &bodies {
            let packet = ResolvedPacket::new(id, body.clone()).unwrap();
            let wire = wire_of(&packet);
            assert_eq!(wire.len(), packet.size());
            let frame = read_back(&wire, false).unwrap();
            let decoded = ResolvedPacket::from_cursor(frame).unwrap();
            assert_eq!(decoded.id(), id);
            assert_eq!(decoded.bytes(), &body[..]);
        }
    }
}

#[test]
fn no_op_compression_keeps_bytes_and_zero_data_length() {
    let body = vec![1u8, 2, 3, 4];
    let mut packet = ResolvedPacket::new(5, body.clone()).unwrap();
    packet.compress(64).unwrap();
    assert_eq!(packet.bytes(), &[5u8, 1, 2, 3, 4][..]);
    let wire = wire_of(&packet);
    assert_eq!(wire, vec![6, 0, 5, 1, 2, 3, 4]);
    assert_eq!(packet.size(), wire.len());
}

#[test]
fn compression_threshold_boundary() {
    let threshold: i32 = 100;
    // The uncompressed length is one byte of id plus the body.
    for (body_len, expect_compressed) in [(98usize, false), (99, false), (100, true)] {
        let body = vec![0x41u8; body_len];
        let mut packet = ResolvedPacket::new(1, body.clone()).unwrap();
        packet.compress(threshold).unwrap();
        let wire = wire_of(&packet);
        let (_, n) = read_varint(&wire).unwrap();
        let (data_length, _) = read_varint(&wire[n..]).unwrap();
        assert_eq!(data_length != 0, expect_compressed, "uncompressed length {}", body_len + 1);
        if expect_compressed {
            assert_eq!(data_length as usize, body_len + 1);
        }
        let frame = read_back(&wire, true).unwrap();
        assert_eq!(frame[0], 1);
        assert_eq!(&frame[1..], &body[..]);
    }
}

#[test]
fn compressed_round_trip_deflates_the_body() {
    let body: Vec<u8> = (0..4000u32).map(|i| (i % 7) as u8).collect();
    let mut packet = ResolvedPacket::new(0x22, body.clone()).unwrap();
    packet.compress(256).unwrap();
    assert!(packet.bytes().len() < body.len());
    assert_ne!(&packet.bytes()[1..], &body[..packet.bytes().len() - 1]);
    let wire = wire_of(&packet);
    assert_eq!(wire.len(), packet.size());
    let frame = read_back(&wire, true).unwrap();
    let decoded = ResolvedPacket::from_cursor(frame).unwrap();
    assert_eq!(decoded.id(), 0x22);
    assert_eq!(decoded.bytes(), &body[..]);
}

#[test]
fn negative_threshold_compresses_everything() {
    let mut packet = ResolvedPacket::new(3, vec![]).unwrap();
    packet.compress(-1).unwrap();
    let wire = wire_of(&packet);
    let frame = read_back(&wire, true).unwrap();
    assert_eq!(frame, vec![3]);
}

#[test]
fn byte_at_a_time_reassembly() {
    let body = handshake_body();
    let packet = ResolvedPacket::new(0, body.clone()).unwrap();
    let wire = wire_of(&packet);
    let mut buffer = MinecraftPacketBuffer::new();
    let mut ready = 0;
    for (i, byte) in wire.iter().enumerate() {
        buffer.append(&[*byte]);
        match buffer.poll() {
            BufferState::PacketReady => {
                ready += 1;
                assert_eq!(i, wire.len() - 1);
            }
            BufferState::Waiting => {}
            BufferState::Error(_) => panic!("unexpected error"),
        }
    }
    assert_eq!(ready, 1);
    let frame = buffer.packet_reader().unwrap();
    assert_eq!(frame[0], 0);
    assert_eq!(&frame[1..], &body[..]);
    assert_eq!(buffer.len(), (0, 0));
}

#[test]
fn two_frames_in_one_append_come_out_in_order() {
    let a = ResolvedPacket::new(1, vec![10, 11]).unwrap();
    let b = ResolvedPacket::new(2, vec![20]).unwrap();
    let mut wire = wire_of(&a);
    wire.extend(wire_of(&b));
    let mut buffer = MinecraftPacketBuffer::new();
    buffer.append(&wire);
    assert!(matches!(buffer.poll(), BufferState::PacketReady));
    assert_eq!(buffer.packet_reader().unwrap(), vec![1, 10, 11]);
    assert!(matches!(buffer.poll(), BufferState::PacketReady));
    assert_eq!(buffer.packet_reader().unwrap(), vec![2, 20]);
    assert!(matches!(buffer.poll(), BufferState::Waiting));
}

#[test]
fn partial_frame_waits() {
    let mut buffer = MinecraftPacketBuffer::new();
    buffer.append(&[5, 1, 2]);
    assert!(matches!(buffer.poll(), BufferState::Waiting));
    assert_eq!(buffer.len(), (0, 3));
    buffer.append(&[3, 4, 5]);
    assert!(matches!(buffer.poll(), BufferState::PacketReady));
    assert_eq!(buffer.packet_reader().unwrap(), vec![1, 2, 3, 4, 5]);
}

#[test]
fn overfull_buffer_without_frame_reports_error() {
    let mut buffer = MinecraftPacketBuffer::new();
    let data = vec![0xffu8; BUFFER_CAPACITY + 10];
    buffer.append(&data);
    assert!(matches!(buffer.poll(), BufferState::Error(_)));
    // Nothing was dropped: what did not fit is still queued.
    assert_eq!(buffer.len(), (10, BUFFER_CAPACITY));
    assert!(matches!(buffer.poll(), BufferState::Error(_)));
}

#[test]
fn oversized_declared_length_reports_error_once_full() {
    let mut buffer = MinecraftPacketBuffer::new();
    let mut data = vec![0xff, 0xff, 0xff, 0xff, 0x07];
    data.extend(vec![0u8; BUFFER_CAPACITY]);
    buffer.append(&data[..BUFFER_CAPACITY - 1]);
    assert!(matches!(buffer.poll(), BufferState::Waiting));
    buffer.append(&data[BUFFER_CAPACITY - 1..]);
    assert!(matches!(buffer.poll(), BufferState::Error(_)));
}

#[test]
fn largest_frame_fits_capacity() {
    let body = vec![0x5au8; 2097151 - 1];
    let packet = ResolvedPacket::new(0, body).unwrap();
    let wire = wire_of(&packet);
    assert_eq!(wire.len(), BUFFER_CAPACITY);
    let frame = read_back(&wire, false).unwrap();
    assert_eq!(frame.len(), 2097151);
}

#[test]
fn unpack_zero_data_length_passes_payload() {
    assert_eq!(unpack_frame(vec![0, 9, 8, 7]), Ok(vec![9, 8, 7]));
}

#[test]
fn unpack_truncated_data_length_is_malformed() {
    assert_eq!(unpack_frame(vec![0x80]), Err(TransportError::MalformedLengthPrefix));
}

#[test]
fn unpack_bad_zlib_is_decompression_failure() {
    assert_eq!(unpack_frame(vec![4, 1, 2, 3, 4]), Err(TransportError::DecompressionFailure));
}

#[test]
fn unpack_size_mismatch_is_decompression_failure() {
    let mut packet = ResolvedPacket::new(1, vec![0x41; 50]).unwrap();
    packet.compress(0).unwrap();
    let mut frame = Vec::new();
    write_varint(50, &mut frame);
    frame.extend_from_slice(packet.bytes());
    assert_eq!(unpack_frame(frame), Err(TransportError::DecompressionFailure));
}

#[test]
fn check_inflated_compares_sizes() {
    assert_eq!(check_inflated(Some(vec![1, 2, 3]), 3), Ok(vec![1, 2, 3]));
    assert_eq!(check_inflated(Some(vec![1, 2, 3]), 4), Err(TransportError::DecompressionFailure));
    assert_eq!(check_inflated(None, 4), Err(TransportError::DecompressionFailure));
}

#[test]
fn decompressing_buffer_rejects_corrupt_payload() {
    let mut buffer = MinecraftPacketBuffer::new();
    buffer.enable_decompression();
    buffer.append(&[4, 3, 0xde, 0xad, 0xbe]);
    assert!(matches!(buffer.poll(), BufferState::PacketReady));
    assert_eq!(buffer.packet_reader(), Err(TransportError::DecompressionFailure));
    assert_eq!(buffer.len(), (0, 0));
}

#[test]
fn from_cursor_rejects_truncated_id() {
    assert!(matches!(
        ResolvedPacket::from_cursor(vec![0x80]),
        Err(TransportError::MalformedLengthPrefix)
    ));
}

#[test]
fn default_buffer_is_empty() {
    let buffer = MinecraftPacketBuffer::default();
    assert_eq!(buffer.len(), (0, 0));
}

#[test]
fn inner_buf_feeds_ingress() {
    let mut buffer = MinecraftPacketBuffer::new();
    buffer.inner_buf().extend_from_slice(&[2, 7, 8]);
    assert_eq!(buffer.len(), (3, 0));
    assert!(matches!(buffer.poll(), BufferState::PacketReady));
    assert_eq!(buffer.packet_reader().unwrap(), vec![7, 8]);
}
