use mc_transport::buffer::{BufferState, MinecraftPacketBuffer};
use mc_transport::encryption::{bytes_equal, Codec};
use mc_transport::error::TransportError;
use mc_transport::packet::{PacketReader, PacketWriter, ReadStep, ResolvedPacket};
use mc_transport::protocol_version::MCProtocol;
use mc_transport::registry::{LazyHandle, SimpleLazyHandle};

const SECRET: [u8; 16] = *b"0123456789abcdef";

#[test]
fn encrypt_then_decrypt_restores_bytes() {
    let (_, mut write) = Codec::new(&SECRET).unwrap();
    let (mut read, _) = Codec::new(&SECRET).unwrap();
    let original: Vec<u8> = (0..200u32).map(|i| (i * 37 % 256) as u8).collect();
    let mut data = original.clone();
    write.encrypt(&mut data);
    assert_ne!(data, original);
    read.decrypt(&mut data);
    assert_eq!(data, original);
}

#[test]
fn cipher_streams_across_chunks() {
    let (mut read, mut write) = Codec::new(&SECRET).unwrap();
    let original: Vec<u8> = (0..100u8).collect();
    let mut whole = original.clone();
    let (_, mut other) = Codec::new(&SECRET).unwrap();
    other.encrypt(&mut whole);
    let mut chunked = original.clone();
    for chunk in chunked.chunks_mut(7) {
        write.encrypt(chunk);
    }
    assert_eq!(chunked, whole);
    for chunk in chunked.chunks_mut(3) {
        read.decrypt(chunk);
    }
    assert_eq!(chunked, original);
}

#[test]
fn decrypting_with_another_secret_does_not_restore() {
    let (_, mut write) = Codec::new(&SECRET).unwrap();
    let (mut wrong, _) = Codec::new(b"fedcba9876543210").unwrap();
    let original = b"a frame that must stay private".to_vec();
    let mut data = original.clone();
    write.encrypt(&mut data);
    wrong.decrypt(&mut data);
    assert_ne!(data, original);
}

#[test]
fn codec_rejects_wrong_secret_length() {
    assert!(matches!(Codec::new(&SECRET[..15]), Err(TransportError::InvalidSecretLength)));
    assert!(matches!(Codec::new(&[0u8; 17]), Err(TransportError::InvalidSecretLength)));
}

#[test]
fn from_response_checks_verify_token() {
    assert!(matches!(
        Codec::from_response(&[1, 2, 3, 4], &SECRET, &[1, 2, 3, 5]),
        Err(TransportError::VerifyTokenMismatch)
    ));
    assert!(Codec::from_response(&[1, 2, 3, 4], &SECRET, &[1, 2, 3, 4]).is_ok());
}

#[test]
fn bytes_equal_compares_contents() {
    assert!(bytes_equal(&[1, 2], &[1, 2]));
    assert!(!bytes_equal(&[1, 2], &[1, 3]));
    assert!(!bytes_equal(&[1, 2], &[1, 2, 3]));
}

#[test]
fn encrypted_buffer_reads_encrypted_frames() {
    let (_, write) = Codec::new(&SECRET).unwrap();
    let mut writer = PacketWriter::new(Vec::<u8>::new());
    writer.enable_encryption(write);
    let mut buffer = MinecraftPacketBuffer::new();
    let (read, _) = Codec::new(&SECRET).unwrap();
    buffer.enable_decryption(read);
    for (id, body) in [(1i32, vec![1u8, 2, 3]), (2, vec![]), (3, vec![9; 300])] {
        let mut packet = ResolvedPacket::new(id, body.clone()).unwrap();
        let bytes = writer.encode_resolved_packet(&mut packet).unwrap();
        let mut plain = Vec::new();
        packet.write(&mut plain);
        assert_ne!(bytes, plain);
        buffer.append(&bytes);
        assert!(matches!(buffer.poll(), BufferState::PacketReady));
        let frame = buffer.packet_reader().unwrap();
        let decoded = ResolvedPacket::from_cursor(frame).unwrap();
        assert_eq!(decoded.id(), id);
        assert_eq!(decoded.bytes(), &body[..]);
    }
}

#[test]
fn writer_compresses_then_encrypts() {
    let (_, write) = Codec::new(&SECRET).unwrap();
    let (read, _) = Codec::new(&SECRET).unwrap();
    let mut writer = PacketWriter::new(());
    writer.enable_compression(64);
    writer.enable_encryption(write);
    let mut reader = PacketReader::new(());
    reader.enable_decryption(read);
    reader.enable_decompression();
    let body: Vec<u8> = (0..1000u32).map(|i| (i % 13) as u8).collect();
    let mut packet = ResolvedPacket::new(0x10, body.clone()).unwrap();
    let bytes = writer.encode_resolved_packet(&mut packet).unwrap();
    assert!(bytes.len() < body.len());
    assert!(matches!(reader.next_frame_step(), Ok(ReadStep::NeedBytes)));
    reader.accept_read(Some(&bytes)).unwrap();
    match reader.next_frame_step() {
        Ok(ReadStep::Frame(frame)) => {
            assert_eq!(frame[0], 0x10);
            assert_eq!(&frame[1..], &body[..]);
        }
        _ => panic!("expected a frame"),
    }
}

#[test]
fn plain_writer_emits_wire_form() {
    let mut writer = PacketWriter::new(());
    let mut packet = ResolvedPacket::new(2, vec![7, 7]).unwrap();
    assert_eq!(writer.encode_resolved_packet(&mut packet).unwrap(), vec![3, 2, 7, 7]);
}

#[test]
fn reader_timeout_and_close() {
    let mut reader = PacketReader::new(());
    assert_eq!(reader.accept_read(None), Err(TransportError::TransportTimeout));
    assert_eq!(reader.accept_read(Some(&[])), Err(TransportError::TransportClosed));
    assert_eq!(reader.accept_read(Some(&[3])), Ok(()));
    assert_eq!(reader.accept_read(Some(&[])), Ok(()));
    assert_eq!(reader.buffer_len(), (1, 0));
}

#[test]
fn reader_step_reports_frame_too_large() {
    let mut reader = PacketReader::new(());
    let data = vec![0x80u8; mc_transport::buffer::BUFFER_CAPACITY];
    reader.accept_read(Some(&data)).unwrap();
    assert!(matches!(reader.next_frame_step(), Err(TransportError::FrameTooLarge)));
}

#[test]
fn reader_source_is_reachable() {
    let mut reader = PacketReader::new(vec![1u8]);
    reader.source().push(2);
    assert_eq!(reader.source(), &vec![1u8, 2]);
    let mut writer = PacketWriter::new(5u32);
    *writer.sink() += 1;
    assert_eq!(*writer.sink(), 6);
}

#[test]
fn protocol_numbers_and_names() {
    assert_eq!(MCProtocol::V1_17_1.as_i32(), 756);
    assert_eq!(MCProtocol::V1_18.as_i32(), 757);
    assert_eq!(MCProtocol::Undefined.as_i32(), 0);
    assert_eq!(MCProtocol::Illegal(5).as_i32(), 5);
    assert_eq!(MCProtocol::from(756), MCProtocol::V1_17_1);
    assert_eq!(MCProtocol::from(757), MCProtocol::V1_18);
    assert_eq!(MCProtocol::from(0), MCProtocol::Undefined);
    assert_eq!(MCProtocol::from(42), MCProtocol::Illegal(42));
    assert_eq!(MCProtocol::V1_17_1.to_string(), "1.17.1");
    assert_eq!(MCProtocol::V1_18.to_string(), "1.18");
    assert_eq!(MCProtocol::Illegal(42).to_string(), "Unknown");
}

#[test]
fn lazy_handle_passes_bytes() {
    struct Unit;
    impl mc_transport::protocol_version::MapDecodable for Unit {
        fn decode_mapped(_: MCProtocol, bytes: &[u8]) -> Result<Self, TransportError> {
            if bytes.is_empty() {
                Ok(Unit)
            } else {
                Err(TransportError::MalformedPacket)
            }
        }
    }
    let handle = SimpleLazyHandle::new(vec![4, 5], MCProtocol::V1_18);
    let mut out = vec![1];
    LazyHandle::<Unit>::pass_bytes(handle, &mut out).unwrap();
    assert_eq!(out, vec![1, 4, 5]);
    let handle = SimpleLazyHandle::new(vec![], MCProtocol::V1_18);
    assert!(LazyHandle::<Unit>::decode_type(handle).is_ok());
    let handle = SimpleLazyHandle::new(vec![1], MCProtocol::V1_18);
    assert!(matches!(LazyHandle::<Unit>::decode_type(handle), Err(TransportError::MalformedPacket)));
    let handle = SimpleLazyHandle::new(vec![1], MCProtocol::V1_18);
    assert!(LazyHandle::<Unit>::consume_bytes(handle).is_ok());
}
