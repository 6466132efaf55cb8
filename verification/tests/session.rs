use lobby::brokefish::Brokefish;
use lobby::client::{
    decrypt_payload, encrypt_payload, product_name, service_account_payload, Client, Outcome,
    SessionError,
};
use lobby::packets::{encode, parse, FrameBuffer, FrameError, PacketHeader, PacketRaw, PacketSegmentHeader};

const NOW_MS: u64 = 1_700_000_000_123;
const NOW_SECS: u32 = 1_700_000_000;
const KEY: [u8; 16] = [36, 14, 221, 24, 112, 159, 105, 97, 225, 45, 203, 122, 173, 122, 83, 254];

fn segment(segment_type: u16, payload: &[u8]) -> PacketRaw {
    PacketRaw {
        segment_header: PacketSegmentHeader::new(segment_type, payload.len() as u32, 0, 0),
        data: payload.to_vec(),
    }
}

fn inbound(segment_type: u16, payload: &[u8]) -> Vec<u8> {
    let header = PacketHeader {
        unknown_0: 0,
        unknown_8: 0,
        timestamp: 5,
        size: 0,
        connection_type: 0,
        count: 1,
        unknown_20: 0,
        is_compressed: 0,
        unknown_24: 0,
        uncompressed_size: 0,
    };
    encode(&header, &segment(segment_type, payload))
}

fn handshake_payload() -> Vec<u8> {
    let mut payload = vec![0x55u8; 0x268];
    for k in 0..32 {
        payload[36 + k] = k as u8;
    }
    payload[100..104].copy_from_slice(&[1, 2, 3, 4]);
    payload
}

fn reply_of(outcome: Result<Outcome, SessionError>) -> (PacketHeader, PacketRaw) {
    match outcome {
        Ok(Outcome::Reply(bytes)) => {
            let (header, mut segments) = parse(&bytes).unwrap();
            assert_eq!(segments.len(), 1);
            assert_eq!(header.size as usize, bytes.len());
            (header, segments.remove(0))
        }
        other => panic!("no reply: {:?}", other),
    }
}

fn version_info_payload() -> Vec<u8> {
    let mut payload = vec![0u8; 40];
    payload[2] = 5;
    for k in 16..40 {
        payload[k] = k as u8;
    }
    payload
}

#[test]
fn keep_alive_is_echoed() {
    let mut client = Client::new();
    let payload = [0x01, 0x02, 0x03, 0x04, 0xaa, 0xbb, 0xcc, 0xdd];
    let (header, reply) = reply_of(client.handle_packet(&segment(7, &payload), NOW_MS, NOW_SECS));
    assert_eq!(reply.segment_header, PacketSegmentHeader::new(0x08, 8, 0, 0));
    assert_eq!(reply.data, payload);
    assert_eq!(header.timestamp, NOW_MS);
    assert_eq!(header.count, 1);
    assert_eq!(header.size, 64);
    assert_eq!(header.unknown_20, 1);
    assert_eq!(header.is_compressed, 0);
    assert_eq!(header.connection_type, 0);
    assert!(client.encryption_key.is_none());
}

#[test]
fn keep_alive_echoes_first_eight_bytes_only() {
    let mut client = Client::new();
    let (_, reply) = reply_of(client.handle_packet(&segment(7, &[1, 2, 3, 4, 5, 6, 7, 8, 9, 10]), NOW_MS, NOW_SECS));
    assert_eq!(reply.data, vec![1, 2, 3, 4, 5, 6, 7, 8]);
    assert_eq!(
        client.handle_packet(&segment(7, &[1, 2, 3, 4, 5, 6, 7]), NOW_MS, NOW_SECS),
        Err(SessionError::Framing(FrameError::Truncated))
    );
}

#[test]
fn keep_alive_is_not_encrypted_when_keyed() {
    let mut client = Client::new();
    assert_eq!(client.install_key(&KEY), Ok(()));
    let payload = [0x01, 0x02, 0x03, 0x04, 0xaa, 0xbb, 0xcc, 0xdd];
    let (_, reply) = reply_of(client.handle_packet(&segment(7, &payload), NOW_MS, NOW_SECS));
    assert_eq!(reply.data, payload);
}

#[test]
fn session_init_is_silent() {
    let mut client = Client::new();
    assert_eq!(client.handle_packet(&segment(1, &[1, 2, 3]), NOW_MS, NOW_SECS), Ok(Outcome::Silent));
    assert!(client.encryption_key.is_none());
}

#[test]
fn unknown_segment_type_then_keep_alive() {
    let mut client = Client::new();
    assert_eq!(
        client.handle_packet(&segment(0x1234, &[9; 4]), NOW_MS, NOW_SECS),
        Ok(Outcome::UnknownSegmentType(0x1234))
    );
    let payload = [0x01, 0x02, 0x03, 0x04, 0xaa, 0xbb, 0xcc, 0xdd];
    let (_, reply) = reply_of(client.handle_packet(&segment(7, &payload), NOW_MS, NOW_SECS));
    assert_eq!(reply.segment_header.segment_type, 0x08);
    assert_eq!(reply.data, payload);
}

#[test]
fn unknown_segment_inside_a_packet_does_not_end_the_run() {
    let mut bytes = inbound(0x77, &[1, 2, 3]);
    let second = inbound(7, &[0x01, 0x02, 0x03, 0x04, 0xaa, 0xbb, 0xcc, 0xdd]);
    bytes.extend_from_slice(&second[40..]);
    bytes[24] = bytes.len() as u8;
    bytes[30] = 2;
    let mut client = Client::new();
    let run = client.handle_packets(&bytes, NOW_MS, NOW_SECS);
    assert_eq!(run.error, None);
    assert_eq!(run.outcomes.len(), 2);
    assert_eq!(run.outcomes[0], Outcome::UnknownSegmentType(0x77));
    let (_, reply) = reply_of(Ok(run.outcomes[1].clone()));
    assert_eq!(reply.data, vec![0x01, 0x02, 0x03, 0x04, 0xaa, 0xbb, 0xcc, 0xdd]);
}

#[test]
fn handshake_then_version_info() {
    let mut client = Client::new();
    let (_, ack) = reply_of(client.handle_packet(&segment(9, &handshake_payload()), NOW_MS, NOW_SECS));
    assert_eq!(ack.segment_header, PacketSegmentHeader::new(0x0a, 0x290, 0, 0));
    assert_eq!(ack.data.len(), 0x290);
    assert_eq!(&ack.data[..4], &[0x2a, 0x3c, 0x00, 0xe0]);
    assert!(ack.data[4..].iter().all(|b| *b == 0));
    assert_eq!(client.encryption_key, Some(KEY.to_vec()));

    let bf = Brokefish::new(&KEY);
    let request = encrypt_payload(&bf, &version_info_payload());
    assert_ne!(request, version_info_payload());
    let (header, reply) = reply_of(client.handle_packet(&segment(3, &request), NOW_MS, NOW_SECS));
    assert_eq!(header.timestamp, NOW_MS);
    assert_eq!(reply.segment_header.segment_type, 3);
    assert_eq!(reply.segment_header.source_actor, 0xe001c898);
    assert_eq!(reply.segment_header.target_actor, 0xe001c898);
    assert_eq!(reply.data.len(), 16 + 653);
    let plain = decrypt_payload(&bf, &reply.data);
    assert_ne!(plain, reply.data);
    assert_eq!(&plain[0..8], &[0, 0, 12, 0, 0, 0, 0, 0]);
    assert_eq!(&plain[8..12], &NOW_SECS.to_le_bytes());
    assert_eq!(&plain[12..16], &[0, 0, 0, 0]);
    assert_eq!(&plain[16..], &service_account_payload()[..]);
    assert_eq!(&plain[41..58], b"FINAL FANTASY XIV");
    assert_eq!(&plain[plain.len() - 8..], &reply.data[reply.data.len() - 8..]);
}

#[test]
fn service_account_payload_bytes() {
    let payload = service_account_payload();
    assert_eq!(payload.len(), 653);
    assert_eq!(&payload[..13], &[1, 0, 0, 0, 0, 0, 0, 0, 0, 1, 3, 0x99, 0]);
    assert!(payload[13..25].iter().all(|b| *b == 0));
    assert_eq!(&payload[25..42], b"FINAL FANTASY XIV");
    assert!(payload[42..].iter().all(|b| *b == 0));
    assert_eq!(&product_name()[..17], b"FINAL FANTASY XIV");
    assert!(product_name()[17..].iter().all(|b| *b == 0));
}

#[test]
fn version_info_without_key_is_read_raw() {
    let mut client = Client::new();
    let (_, reply) = reply_of(client.handle_packet(&segment(3, &version_info_payload()), NOW_MS, NOW_SECS));
    assert_eq!(reply.segment_header.segment_type, 3);
    assert_eq!(&reply.data[16..], &service_account_payload()[..]);
    assert_eq!(&reply.data[2..4], &[12, 0]);
}

#[test]
fn second_handshake_replaces_the_key() {
    let mut client = Client::new();
    reply_of(client.handle_packet(&segment(9, &handshake_payload()), NOW_MS, NOW_SECS));
    let mut other = handshake_payload();
    other[100] = 0;
    other[101] = 0;
    other[102] = 0;
    other[103] = 0;
    for k in 0..32 {
        other[36 + k] = 0;
    }
    reply_of(client.handle_packet(&segment(9, &other), NOW_MS, NOW_SECS));
    assert_eq!(
        client.encryption_key,
        Some(vec![46, 11, 136, 101, 73, 159, 137, 136, 225, 242, 33, 189, 20, 13, 41, 141])
    );
}

#[test]
fn short_handshake_is_a_framing_error() {
    let mut client = Client::new();
    assert_eq!(
        client.handle_packet(&segment(9, &handshake_payload()[..103]), NOW_MS, NOW_SECS),
        Err(SessionError::Framing(FrameError::Truncated))
    );
    assert!(client.encryption_key.is_none());
}

#[test]
fn other_message_types_are_reported() {
    let mut client = Client::new();
    let mut payload = version_info_payload();
    payload[2] = 0x0b;
    assert_eq!(
        client.handle_packet(&segment(3, &payload), NOW_MS, NOW_SECS),
        Ok(Outcome::UnknownMessageType(0x0b))
    );
    payload[2] = 0x34;
    payload[3] = 0x12;
    assert_eq!(
        client.handle_packet(&segment(3, &payload), NOW_MS, NOW_SECS),
        Ok(Outcome::UnknownMessageType(0x1234))
    );
    let (_, reply) = reply_of(client.handle_packet(&segment(7, &[1, 2, 3, 4, 5, 6, 7, 8]), NOW_MS, NOW_SECS));
    assert_eq!(reply.data, vec![1, 2, 3, 4, 5, 6, 7, 8]);
    assert_eq!(
        client.handle_packet(&segment(3, &[0, 0, 5]), NOW_MS, NOW_SECS),
        Err(SessionError::Framing(FrameError::Truncated))
    );
}

#[test]
fn key_of_wrong_length_is_a_crypto_error() {
    let mut client = Client::new();
    assert_eq!(client.install_key(&[1, 2, 3]), Err(SessionError::Crypto));
    assert!(client.encryption_key.is_none());
    assert_eq!(client.install_key(&[]), Err(SessionError::Crypto));
    let mut client = Client { encryption_key: Some(vec![1, 2, 3]) };
    assert_eq!(
        client.handle_packet(&segment(3, &version_info_payload()), NOW_MS, NOW_SECS),
        Err(SessionError::Crypto)
    );
    assert_eq!(
        client.send_packet(PacketSegmentHeader::new(3, 16, 0, 0), &[0; 16], NOW_MS),
        Err(SessionError::Crypto)
    );
    assert!(client.send_packet(PacketSegmentHeader::new(8, 16, 0, 0), &[0; 16], NOW_MS).is_ok());
}

#[test]
fn send_packet_encrypts_ipc_only_when_keyed() {
    let data: Vec<u8> = (0u8..32).collect();
    let plain_client = Client::new();
    let bytes = plain_client.send_packet(PacketSegmentHeader::new(3, 32, 1, 2), &data, NOW_MS).unwrap();
    assert_eq!(&bytes[56..], &data[..]);
    let mut keyed = Client::new();
    keyed.install_key(&KEY).unwrap();
    let bytes = keyed.send_packet(PacketSegmentHeader::new(3, 32, 1, 2), &data, NOW_MS).unwrap();
    let bf = Brokefish::new(&KEY);
    assert_eq!(&bytes[56..80], &bf.encrypt(&data[..24])[..]);
    assert_eq!(&bytes[80..], &data[24..]);
    assert_eq!(bytes.len(), 88);
    let ipc = keyed.send_ipc_packet(12, &[7; 8], NOW_MS, NOW_SECS).unwrap();
    let (_, mut segments) = parse(&ipc).unwrap();
    let plain = decrypt_payload(&bf, &segments.remove(0).data);
    assert_eq!(&plain[16..], &[7; 8]);
    assert_eq!(&plain[2..4], &[12, 0]);
}

#[test]
fn handle_packets_reports_framing_errors() {
    let mut client = Client::new();
    let run = client.handle_packets(&[1, 2, 3], NOW_MS, NOW_SECS);
    assert_eq!(run.error, Some(SessionError::Framing(FrameError::Truncated)));
    assert!(run.outcomes.is_empty());
    let mut bytes = inbound(7, &[1, 2, 3, 4, 5, 6, 7, 8]);
    bytes[40] = 3;
    let run = client.handle_packets(&bytes, NOW_MS, NOW_SECS);
    assert_eq!(run.error, Some(SessionError::Framing(FrameError::Malformed)));
}

#[test]
fn handle_packets_keeps_outcomes_before_an_error() {
    let mut bytes = inbound(7, &[1, 2, 3, 4, 5, 6, 7, 8]);
    let second = inbound(7, &[1, 2, 3]);
    bytes.extend_from_slice(&second[40..]);
    bytes[24] = bytes.len() as u8;
    bytes[30] = 2;
    let mut client = Client::new();
    let run = client.handle_packets(&bytes, NOW_MS, NOW_SECS);
    assert_eq!(run.outcomes.len(), 1);
    assert_eq!(run.error, Some(SessionError::Framing(FrameError::Truncated)));
}

#[test]
fn handle_accumulates_partial_reads() {
    let packet = inbound(7, &[0x01, 0x02, 0x03, 0x04, 0xaa, 0xbb, 0xcc, 0xdd]);
    let mut whole_client = Client::new();
    let mut whole_buffer = FrameBuffer::new();
    let whole = whole_client.handle(&mut whole_buffer, &packet, NOW_MS, NOW_SECS);
    assert_eq!(whole.outcomes.len(), 1);
    assert_eq!(whole.error, None);
    for split in 0..packet.len() {
        let mut client = Client::new();
        let mut buffer = FrameBuffer::new();
        let first = client.handle(&mut buffer, &packet[..split], NOW_MS, NOW_SECS);
        assert!(first.outcomes.is_empty());
        assert_eq!(first.error, None);
        let second = client.handle(&mut buffer, &packet[split..], NOW_MS, NOW_SECS);
        assert_eq!(second.outcomes, whole.outcomes);
        assert_eq!(second.error, None);
        assert!(buffer.pending.is_empty());
    }
}

#[test]
fn handle_takes_every_complete_packet_of_a_read() {
    let mut bytes = inbound(9, &handshake_payload());
    let bf = Brokefish::new(&KEY);
    bytes.extend_from_slice(&inbound(3, &encrypt_payload(&bf, &version_info_payload())));
    bytes.extend_from_slice(&inbound(0x55, &[]));
    bytes.extend_from_slice(&inbound(7, &[1, 2, 3, 4, 5, 6, 7, 8])[..50]);
    let mut client = Client::new();
    let mut buffer = FrameBuffer::new();
    let run = client.handle(&mut buffer, &bytes, NOW_MS, NOW_SECS);
    assert_eq!(run.error, None);
    assert_eq!(run.outcomes.len(), 3);
    assert_eq!(run.outcomes[2], Outcome::UnknownSegmentType(0x55));
    assert_eq!(buffer.pending.len(), 50);
    let (_, reply) = reply_of(Ok(run.outcomes[1].clone()));
    assert_eq!(&decrypt_payload(&bf, &reply.data)[41..58], b"FINAL FANTASY XIV");
    let run = client.handle(&mut buffer, &[0u8; 3], NOW_MS, NOW_SECS);
    assert_eq!(run.error, None);
    assert!(run.outcomes.is_empty());
    assert_eq!(buffer.pending.len(), 53);
}

#[test]
fn handle_stops_at_a_rejected_packet() {
    let mut bytes = inbound(7, &[1, 2, 3, 4, 5, 6, 7, 8]);
    let mut bad = inbound(7, &[1, 2, 3, 4, 5, 6, 7, 8]);
    bad[24] = 20;
    bytes.extend_from_slice(&bad);
    let mut client = Client::new();
    let mut buffer = FrameBuffer::new();
    let run = client.handle(&mut buffer, &bytes, NOW_MS, NOW_SECS);
    assert_eq!(run.outcomes.len(), 1);
    assert_eq!(run.error, Some(SessionError::Framing(FrameError::Malformed)));
    assert_eq!(buffer.pending, bad);
}
