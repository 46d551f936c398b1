use tinyvpn::protocol::{
    encode_encrypted_data, Frame, FrameType, HandshakeError, HandshakeMessage, ProtocolError,
    UdpMessage, HANDSHAKE_RANDOM_SIZE, HANDSHAKE_TAG_SIZE, HANDSHAKE_VERSION, HEADER_SIZE, MAGIC,
    MAX_FRAME_SIZE, MAX_PAYLOAD_SIZE, MSG_TYPE_HANDSHAKE_CONFIRM, MSG_TYPE_HANDSHAKE_INIT,
    MSG_TYPE_HANDSHAKE_RESPONSE, VERSION,
};


/// A small, realistic-looking IPv4 header (20 bytes, no options, no
/// payload beyond the header). Not meant to be a valid, routable
/// packet -- just plausible bytes to prove framing doesn't touch
/// packet contents.
fn sample_ipv4_packet() -> Vec<u8> {
    vec![
        0x45, 0x00, 0x00, 0x14, 0x00, 0x00, 0x40, 0x00, 0x40, 0x01, 0x00, 0x00, 0x0a, 0x0d,
        0x0d, 0x01, 0x0a, 0x0d, 0x0d, 0x02,
    ]
}

#[test]
fn protocol_round_trip() {
    let original = Frame::data(vec![1, 2, 3, 4, 5]).unwrap();
    let encoded = original.encode();
    let decoded = Frame::decode(&encoded).unwrap();
    assert_eq!(original, decoded);
}

#[test]
fn empty_payload_is_accepted() {
    // An empty DATA payload is well-formed at the framing layer: the
    // format places no lower bound on payload length. Whether an
    // empty IP packet is meaningful is a question for a higher layer,
    // not for the frame decoder.
    let frame = Frame::data(vec![]).unwrap();
    let encoded = frame.encode();
    assert_eq!(encoded.len(), HEADER_SIZE);
    let decoded = Frame::decode(&encoded).unwrap();
    assert_eq!(decoded.payload, Vec::<u8>::new());
}

#[test]
fn invalid_magic_is_rejected() {
    let mut bytes = Frame::data(vec![1, 2, 3]).unwrap().encode();
    bytes[0] = 0x00;
    match Frame::decode(&bytes) {
        Err(ProtocolError::InvalidMagic { .. }) => {}
        other => panic!("expected InvalidMagic, got {other:?}"),
    }
}

#[test]
fn unsupported_version_is_rejected() {
    let mut bytes = Frame::data(vec![1, 2, 3]).unwrap().encode();
    bytes[2] = 0x02;
    match Frame::decode(&bytes) {
        Err(ProtocolError::UnsupportedVersion { found: 0x02 }) => {}
        other => panic!("expected UnsupportedVersion, got {other:?}"),
    }
}

#[test]
fn unsupported_frame_type_is_rejected() {
    let mut bytes = Frame::data(vec![1, 2, 3]).unwrap().encode();
    bytes[3] = 0xff;
    match Frame::decode(&bytes) {
        Err(ProtocolError::UnsupportedFrameType { found: 0xff }) => {}
        other => panic!("expected UnsupportedFrameType, got {other:?}"),
    }
}

#[test]
fn truncated_header_is_rejected() {
    let full = Frame::data(vec![1, 2, 3]).unwrap().encode();
    let bytes = &full[..HEADER_SIZE - 1];
    match Frame::decode(bytes) {
        Err(ProtocolError::TruncatedFrame { .. }) => {}
        other => panic!("expected TruncatedFrame, got {other:?}"),
    }
}

#[test]
fn truncated_payload_is_rejected() {
    // Header declares an 84-byte payload; only supply 40 of them.
    let full = Frame::data(vec![0xAB; 84]).unwrap().encode();
    let truncated = &full[..HEADER_SIZE + 40];
    match Frame::decode(truncated) {
        Err(ProtocolError::TruncatedFrame { .. }) => {}
        other => panic!("expected TruncatedFrame, got {other:?}"),
    }
}

#[test]
fn extra_bytes_are_rejected() {
    let mut bytes = Frame::data(vec![1, 2, 3]).unwrap().encode();
    bytes.push(0xFF); // one byte more than the declared payload length
    match Frame::decode(&bytes) {
        Err(ProtocolError::ExtraBytes { .. }) => {}
        other => panic!("expected ExtraBytes, got {other:?}"),
    }
}

#[test]
fn maximum_payload_round_trips() {
    let payload = vec![0x42; MAX_PAYLOAD_SIZE];
    let frame = Frame::data(payload.clone()).unwrap();
    assert_eq!(frame.encoded_len(), MAX_FRAME_SIZE);
    let encoded = frame.encode();
    assert_eq!(encoded.len(), MAX_FRAME_SIZE);
    let decoded = Frame::decode(&encoded).unwrap();
    assert_eq!(decoded.payload, payload);
}

#[test]
fn over_maximum_payload_is_rejected_when_building() {
    let payload = vec![0u8; MAX_PAYLOAD_SIZE + 1];
    match Frame::data(payload) {
        Err(ProtocolError::PayloadTooLarge { .. }) => {}
        other => panic!("expected PayloadTooLarge, got {other:?}"),
    }
}

#[test]
fn real_ipv4_packet_round_trips_unchanged() {
    let packet = sample_ipv4_packet();
    let frame = Frame::data(packet.clone()).unwrap();
    let encoded = frame.encode();

    // The wire layout, by hand.
    assert_eq!(&encoded[0..2], &MAGIC);
    assert_eq!(encoded[2], VERSION);
    assert_eq!(encoded[3], FrameType::Data.to_byte());
    assert_eq!(
        u16::from_be_bytes([encoded[4], encoded[5]]),
        packet.len() as u16
    );
    assert_eq!(encoded.len(), HEADER_SIZE + packet.len());

    let decoded = Frame::decode(&encoded).unwrap();
    assert_eq!(decoded.payload, packet);
}

fn sample_random(byte: u8) -> [u8; HANDSHAKE_RANDOM_SIZE] {
    [byte; HANDSHAKE_RANDOM_SIZE]
}

fn sample_tag(byte: u8) -> [u8; HANDSHAKE_TAG_SIZE] {
    [byte; HANDSHAKE_TAG_SIZE]
}

#[test]
fn handshake_init_round_trips() {
    let message = HandshakeMessage::Init {
        version: HANDSHAKE_VERSION,
        client_random: sample_random(0xAA),
    };
    let encoded = message.encode();
    assert_eq!(encoded[0], MSG_TYPE_HANDSHAKE_INIT);
    assert_eq!(encoded.len(), 1 + 1 + HANDSHAKE_RANDOM_SIZE);
    assert_eq!(HandshakeMessage::decode(&encoded).unwrap(), message);
}

#[test]
fn handshake_response_round_trips() {
    let message = HandshakeMessage::Response {
        version: HANDSHAKE_VERSION,
        server_random: sample_random(0xBB),
        tag: sample_tag(0xCC),
    };
    let encoded = message.encode();
    assert_eq!(encoded[0], MSG_TYPE_HANDSHAKE_RESPONSE);
    assert_eq!(
        encoded.len(),
        1 + 1 + HANDSHAKE_RANDOM_SIZE + HANDSHAKE_TAG_SIZE
    );
    assert_eq!(HandshakeMessage::decode(&encoded).unwrap(), message);
}

#[test]
fn handshake_confirm_round_trips() {
    let message = HandshakeMessage::Confirm {
        tag: sample_tag(0xDD),
    };
    let encoded = message.encode();
    assert_eq!(encoded[0], MSG_TYPE_HANDSHAKE_CONFIRM);
    assert_eq!(encoded.len(), 1 + HANDSHAKE_TAG_SIZE);
    assert_eq!(HandshakeMessage::decode(&encoded).unwrap(), message);
}

#[test]
fn handshake_empty_input_is_rejected() {
    assert!(matches!(
        HandshakeMessage::decode(&[]),
        Err(HandshakeError::TooShort { .. })
    ));
}

#[test]
fn handshake_unknown_message_type_is_rejected() {
    assert!(matches!(
        HandshakeMessage::decode(&[0xFF]),
        Err(HandshakeError::UnknownMessageType { found: 0xFF })
    ));
}

#[test]
fn handshake_truncated_init_is_rejected() {
    let full = HandshakeMessage::Init {
        version: HANDSHAKE_VERSION,
        client_random: sample_random(0x11),
    }
    .encode();
    let truncated = &full[..full.len() - 1];
    assert!(matches!(
        HandshakeMessage::decode(truncated),
        Err(HandshakeError::WrongLength { .. })
    ));
}

#[test]
fn handshake_extra_bytes_on_confirm_are_rejected() {
    let mut bytes = HandshakeMessage::Confirm {
        tag: sample_tag(0x22),
    }
    .encode();
    bytes.push(0x00);
    assert!(matches!(
        HandshakeMessage::decode(&bytes),
        Err(HandshakeError::WrongLength { .. })
    ));
}

#[test]
fn udp_message_dispatches_encrypted_data() {
    let envelope = vec![1, 2, 3, 4, 5];
    let datagram = encode_encrypted_data(&envelope);
    match UdpMessage::decode(&datagram) {
        Ok(UdpMessage::EncryptedData(body)) => assert_eq!(body, envelope.as_slice()),
        other => panic!("expected EncryptedData, got {other:?}"),
    }
}

#[test]
fn udp_message_dispatches_handshake() {
    let message = HandshakeMessage::Init {
        version: HANDSHAKE_VERSION,
        client_random: sample_random(0x33),
    };
    let datagram = message.encode();
    match UdpMessage::decode(&datagram) {
        Ok(UdpMessage::Handshake(decoded)) => assert_eq!(decoded, message),
        other => panic!("expected Handshake, got {other:?}"),
    }
}

#[test]
fn udp_message_empty_input_is_rejected() {
    assert!(matches!(
        UdpMessage::decode(&[]),
        Err(HandshakeError::TooShort { .. })
    ));
}
