use lobby::bytes::{read_u16_le, read_u32_le, read_u64_le};
use lobby::ipc::{ClientLobbyIpcType, IPCHeader, IPCServiceAccount, IPCServiceIDInfo};
use lobby::packets::{
    encode, parse, CompressionType, FrameBuffer, FrameError, PacketHeader, PacketRaw,
    PacketSegmentHeader, SegmentType,
};

fn sample_header() -> PacketHeader {
    PacketHeader {
        unknown_0: 0x1122334455667788,
        unknown_8: 0x99aabbccddeeff00,
        timestamp: 1_700_000_000_123,
        size: 0,
        connection_type: 2,
        count: 0,
        unknown_20: 1,
        is_compressed: 0,
        unknown_24: 0xbeef,
        uncompressed_size: 77,
    }
}

fn sample_segment(payload: &[u8]) -> PacketRaw {
    PacketRaw {
        segment_header: PacketSegmentHeader::new(7, payload.len() as u32, 0x01020304, 0x0a0b0c0d),
        data: payload.to_vec(),
    }
}

#[test]
fn segment_header_new_adds_header_length() {
    let h = PacketSegmentHeader::new(3, 0x290, 5, 6);
    assert_eq!(h.size, 0x2a0);
    assert_eq!(h.source_actor, 5);
    assert_eq!(h.target_actor, 6);
    assert_eq!(h.segment_type, 3);
    assert_eq!(h.padding, 0);
    assert_eq!(PacketSegmentHeader::new(1, 0, 0, 0).size, 16);
}

#[test]
fn segment_and_compression_codes() {
    assert_eq!(SegmentType::try_from_primitive(1), Some(SegmentType::SessionInit));
    assert_eq!(SegmentType::try_from_primitive(3), Some(SegmentType::Ipc));
    assert_eq!(SegmentType::try_from_primitive(7), Some(SegmentType::KeepAlive));
    assert_eq!(SegmentType::try_from_primitive(9), Some(SegmentType::EncryptionInit));
    assert_eq!(SegmentType::try_from_primitive(8), None);
    assert_eq!(SegmentType::try_from_primitive(0), None);
    assert_eq!(SegmentType::KeepAlive.code(), 7);
    assert_eq!(SegmentType::EncryptionInit.code(), 9);
    assert_eq!(CompressionType::try_from_primitive(0), Some(CompressionType::Uncompressed));
    assert_eq!(CompressionType::try_from_primitive(1), Some(CompressionType::Zlib));
    assert_eq!(CompressionType::try_from_primitive(2), Some(CompressionType::Oodle));
    assert_eq!(CompressionType::try_from_primitive(3), None);
    assert_eq!(ClientLobbyIpcType::try_from_primitive(5), Some(ClientLobbyIpcType::ClientVersionInfo));
    assert_eq!(ClientLobbyIpcType::try_from_primitive(3), Some(ClientLobbyIpcType::ReqCharList));
    assert_eq!(ClientLobbyIpcType::try_from_primitive(4), Some(ClientLobbyIpcType::ReqEnterWorld));
    assert_eq!(ClientLobbyIpcType::try_from_primitive(10), Some(ClientLobbyIpcType::ReqCharDelete));
    assert_eq!(ClientLobbyIpcType::try_from_primitive(11), Some(ClientLobbyIpcType::ReqCharCreate));
    assert_eq!(ClientLobbyIpcType::try_from_primitive(12), None);
}

#[test]
fn encode_exact_bytes() {
    let bytes = encode(&sample_header(), &sample_segment(&[0xaa, 0xbb]));
    assert_eq!(bytes.len(), 58);
    assert_eq!(&bytes[0..8], &[0x88, 0x77, 0x66, 0x55, 0x44, 0x33, 0x22, 0x11]);
    assert_eq!(read_u64_le(&bytes, 8), 0x99aabbccddeeff00);
    assert_eq!(read_u64_le(&bytes, 16), 1_700_000_000_123);
    assert_eq!(&bytes[24..28], &[58, 0, 0, 0]);
    assert_eq!(&bytes[28..30], &[2, 0]);
    assert_eq!(&bytes[30..32], &[1, 0]);
    assert_eq!(bytes[32], 1);
    assert_eq!(bytes[33], 0);
    assert_eq!(&bytes[34..36], &[0xef, 0xbe]);
    assert_eq!(&bytes[36..40], &[77, 0, 0, 0]);
    assert_eq!(&bytes[40..44], &[18, 0, 0, 0]);
    assert_eq!(&bytes[44..48], &[4, 3, 2, 1]);
    assert_eq!(&bytes[48..52], &[0x0d, 0x0c, 0x0b, 0x0a]);
    assert_eq!(&bytes[52..54], &[7, 0]);
    assert_eq!(&bytes[54..56], &[0, 0]);
    assert_eq!(&bytes[56..], &[0xaa, 0xbb]);
    assert_eq!(read_u32_le(&bytes, 24), 58);
    assert_eq!(read_u16_le(&bytes, 34), 0xbeef);
}

#[test]
fn parse_undoes_encode() {
    for len in [0usize, 1, 8, 200] {
        let payload: Vec<u8> = (0..len).map(|k| (k * 7 + 3) as u8).collect();
        let segment = sample_segment(&payload);
        let bytes = encode(&sample_header(), &segment);
        let (header, segments) = parse(&bytes).unwrap();
        let mut expected = sample_header();
        expected.size = 56 + len as u32;
        expected.count = 1;
        assert_eq!(header, expected);
        assert_eq!(segments, vec![segment]);
    }
}

#[test]
fn parse_reads_several_segments() {
    let mut bytes = encode(&sample_header(), &sample_segment(&[1, 2, 3]));
    let second = encode(&sample_header(), &sample_segment(&[9; 5]));
    bytes.extend_from_slice(&second[40..]);
    bytes[24] = bytes.len() as u8;
    bytes[30] = 2;
    let (header, segments) = parse(&bytes).unwrap();
    assert_eq!(header.count, 2);
    assert_eq!(header.size, 80);
    assert_eq!(segments.len(), 2);
    assert_eq!(segments[0].data, vec![1, 2, 3]);
    assert_eq!(segments[1].data, vec![9; 5]);
    assert_eq!(segments[1].segment_header.size, 21);
}

#[test]
fn parse_errors() {
    let good = encode(&sample_header(), &sample_segment(&[1, 2, 3, 4]));
    assert_eq!(parse(&[]), Err(FrameError::Truncated));
    assert_eq!(parse(&good[..39]), Err(FrameError::Truncated));
    assert_eq!(parse(&good[..59]), Err(FrameError::Truncated));
    let mut small = good.clone();
    small[24] = 39;
    assert_eq!(parse(&small), Err(FrameError::Malformed));
    let mut large = good.clone();
    large[24..28].copy_from_slice(&0x10001u32.to_le_bytes());
    assert_eq!(parse(&large), Err(FrameError::TooLarge));
    let mut tiny_segment = good.clone();
    tiny_segment[40] = 15;
    assert_eq!(parse(&tiny_segment), Err(FrameError::Malformed));
    let mut long_segment = good.clone();
    long_segment[40] = 21;
    assert_eq!(parse(&long_segment), Err(FrameError::Truncated));
    let mut no_segment = good.clone();
    no_segment[30] = 0;
    assert_eq!(parse(&no_segment), Err(FrameError::Malformed));
    let mut two_counted = good.clone();
    two_counted[30] = 2;
    assert_eq!(parse(&two_counted), Err(FrameError::Truncated));
    let mut short_segment = good.clone();
    short_segment[40] = 19;
    assert_eq!(parse(&short_segment), Err(FrameError::Malformed));
    let mut trailing = good.clone();
    trailing.extend_from_slice(&[0xff; 9]);
    assert!(parse(&trailing).is_ok());
}

#[test]
fn largest_accepted_packet() {
    let payload = vec![5u8; 0x10000 - 56];
    let bytes = encode(&sample_header(), &sample_segment(&payload));
    assert_eq!(bytes.len(), 0x10000);
    assert!(parse(&bytes).is_ok());
    let payload = vec![5u8; 0x10000 - 55];
    let bytes = encode(&sample_header(), &sample_segment(&payload));
    assert_eq!(parse(&bytes), Err(FrameError::TooLarge));
}

#[test]
fn split_delivery_at_every_boundary() {
    let packet = encode(&sample_header(), &sample_segment(&[10, 20, 30, 40, 50, 60, 70, 80]));
    let whole = parse(&packet).unwrap();
    for split in 0..packet.len() {
        let mut buffer = FrameBuffer::new();
        buffer.push(&packet[..split]);
        assert_eq!(buffer.next_packet(), Ok(None));
        assert_eq!(buffer.pending, &packet[..split]);
        buffer.push(&packet[split..]);
        assert_eq!(buffer.next_packet(), Ok(Some(whole.clone())));
        assert!(buffer.pending.is_empty());
        assert_eq!(buffer.next_packet(), Ok(None));
    }
    let mut buffer = FrameBuffer::new();
    buffer.push(&packet);
    assert_eq!(buffer.next_packet(), Ok(Some(whole)));
}

#[test]
fn buffer_keeps_what_follows_a_packet() {
    let first = encode(&sample_header(), &sample_segment(&[1]));
    let second = encode(&sample_header(), &sample_segment(&[2, 2]));
    let mut buffer = FrameBuffer::new();
    buffer.push(&first);
    buffer.push(&second[..10]);
    assert_eq!(buffer.next_packet().unwrap().unwrap().1[0].data, vec![1]);
    assert_eq!(buffer.pending, &second[..10]);
    assert_eq!(buffer.next_packet(), Ok(None));
    buffer.push(&second[10..]);
    assert_eq!(buffer.next_packet().unwrap().unwrap().1[0].data, vec![2, 2]);
}

#[test]
fn buffer_rejects_without_waiting() {
    let mut packet = encode(&sample_header(), &sample_segment(&[1, 2, 3]));
    packet[24..28].copy_from_slice(&0x7fff_ffffu32.to_le_bytes());
    let mut buffer = FrameBuffer::new();
    buffer.push(&packet[..40]);
    assert_eq!(buffer.next_packet(), Err(FrameError::TooLarge));
    assert_eq!(buffer.pending.len(), 40);
    let mut packet = encode(&sample_header(), &sample_segment(&[1, 2, 3]));
    packet[24..28].copy_from_slice(&3u32.to_le_bytes());
    let mut buffer = FrameBuffer::new();
    buffer.push(&packet);
    assert_eq!(buffer.next_packet(), Err(FrameError::Malformed));
}

#[test]
fn ipc_header_bytes() {
    let h = IPCHeader::new(0x0102, 12, 0x0a0b0c0d);
    assert_eq!(h.reserved, 0);
    assert_eq!(h.ipc_type, 12);
    assert_eq!(h.server_id, 0x0102);
    assert_eq!(h.timestamp, 0x0a0b0c0d);
    let mut out = vec![0xff];
    h.write_to(&mut out);
    assert_eq!(out, vec![0xff, 0, 0, 12, 0, 0, 0, 2, 1, 0x0d, 0x0c, 0x0b, 0x0a, 0, 0, 0, 0]);
}

#[test]
fn service_account_list() {
    let mut info = IPCServiceIDInfo::default();
    assert_eq!(info.seq, 1);
    assert_eq!(info.service_accounts_len, 0);
    assert_eq!(info.u1, 3);
    assert_eq!(info.u2, 0x99);
    assert_eq!(info.service_accounts[7], IPCServiceAccount::default());
    let mut name = [0u8; 68];
    name[0] = b'A';
    info.add_service_account(IPCServiceAccount { id: 7, unknown: 8, index: 99, name });
    info.add_service_account(IPCServiceAccount { id: 9, unknown: 0, index: 99, name });
    assert_eq!(info.service_accounts_len, 2);
    assert_eq!(info.service_accounts[0], IPCServiceAccount { id: 7, unknown: 8, index: 0, name });
    assert_eq!(info.service_accounts[1], IPCServiceAccount { id: 9, unknown: 0, index: 1, name });
    assert_eq!(info.service_accounts[2], IPCServiceAccount::default());
    let mut out = Vec::new();
    info.write_to(&mut out);
    assert_eq!(out.len(), 653);
    assert_eq!(&out[0..13], &[1, 0, 0, 0, 0, 0, 0, 0, 0, 2, 3, 0x99, 0]);
    assert_eq!(&out[13..26], &[7, 0, 0, 0, 8, 0, 0, 0, 0, 0, 0, 0, b'A']);
    assert_eq!(&out[93..106], &[9, 0, 0, 0, 0, 0, 0, 0, 1, 0, 0, 0, b'A']);
    assert!(out[173..].iter().all(|b| *b == 0));
}
