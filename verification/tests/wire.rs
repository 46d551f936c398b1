//! Exact bytes and texts of the wire formats.
use tinyvpn::protocol::{
    encode_encrypted_data, Frame, FrameType, HandshakeError, HandshakeMessage, ProtocolError,
    UdpMessage,
};

#[test]
fn frame_bytes_are_exact() {
    let frame = Frame::data(vec![0xAB; 300]).unwrap();
    let bytes = frame.encode();
    assert_eq!(&bytes[..6], &[0x54, 0x56, 1, 1, 0x01, 0x2C]);
    assert_eq!(bytes.len(), 306);
    assert_eq!(frame.encoded_len(), 306);
    assert!(bytes[6..].iter().all(|b| *b == 0xAB));
}

#[test]
fn frame_type_bytes() {
    assert_eq!(FrameType::from_byte(1), Some(FrameType::Data));
    assert_eq!(FrameType::from_byte(0), None);
    assert_eq!(FrameType::from_byte(2), None);
    assert_eq!(FrameType::Data.to_byte(), 1);
}

#[test]
fn frame_with_oversized_payload_wraps_its_length_field() {
    let frame = Frame { version: 9, frame_type: FrameType::Data, payload: vec![0; 65537] };
    let bytes = frame.encode();
    assert_eq!(&bytes[..6], &[0x54, 0x56, 9, 1, 0, 1]);
    assert_eq!(bytes.len(), 65543);
}

#[test]
fn every_frame_error_has_an_input() {
    let good = Frame::data(vec![1, 2, 3]).unwrap().encode();
    assert_eq!(
        Frame::decode(&good[..5]),
        Err(ProtocolError::TruncatedFrame { have: 5, need: 6 })
    );
    let mut bad = good.clone();
    bad[1] = 0x57;
    assert_eq!(
        Frame::decode(&bad),
        Err(ProtocolError::InvalidMagic { found: [0x54, 0x57] })
    );
    let mut bad = good.clone();
    bad[2] = 7;
    assert_eq!(Frame::decode(&bad), Err(ProtocolError::UnsupportedVersion { found: 7 }));
    let mut bad = good.clone();
    bad[3] = 8;
    assert_eq!(Frame::decode(&bad), Err(ProtocolError::UnsupportedFrameType { found: 8 }));
    let mut bad = good.clone();
    bad[4] = 5;
    bad[5] = 0xDD;
    assert_eq!(
        Frame::decode(&bad),
        Err(ProtocolError::InvalidPayloadLength { declared: 1501, max: 1500 })
    );
    assert_eq!(
        Frame::decode(&good[..8]),
        Err(ProtocolError::TruncatedFrame { have: 8, need: 9 })
    );
    let mut bad = good.clone();
    bad.push(0);
    assert_eq!(Frame::decode(&bad), Err(ProtocolError::ExtraBytes { have: 10, expected: 9 }));
    assert_eq!(
        Frame::data(vec![0; 1501]),
        Err(ProtocolError::PayloadTooLarge { len: 1501, max: 1500 })
    );
}

#[test]
fn header_faults_are_reported_front_to_back() {
    // Everything is wrong: the magic comes first.
    assert_eq!(
        Frame::decode(&[0, 0, 9, 9, 0xFF, 0xFF]),
        Err(ProtocolError::InvalidMagic { found: [0, 0] })
    );
    assert_eq!(
        Frame::decode(&[0x54, 0x56, 9, 9, 0xFF, 0xFF]),
        Err(ProtocolError::UnsupportedVersion { found: 9 })
    );
    assert_eq!(
        Frame::decode(&[0x54, 0x56, 1, 9, 0xFF, 0xFF]),
        Err(ProtocolError::UnsupportedFrameType { found: 9 })
    );
    assert_eq!(
        Frame::decode(&[0x54, 0x56, 1, 1, 0xFF, 0xFF]),
        Err(ProtocolError::InvalidPayloadLength { declared: 65535, max: 1500 })
    );
}

#[test]
fn decoded_frames_encode_back() {
    let bytes = [0x54, 0x56, 1, 1, 0, 2, 0xDE, 0xAD];
    let frame = Frame::decode(&bytes).unwrap();
    assert_eq!(frame.payload, vec![0xDE, 0xAD]);
    assert_eq!(frame.encode(), bytes.to_vec());
}

#[test]
fn protocol_error_texts() {
    assert_eq!(
        ProtocolError::InvalidMagic { found: [0x00, 0x5a] }.message(),
        "invalid magic bytes: [00, 5a]"
    );
    assert_eq!(
        ProtocolError::UnsupportedVersion { found: 2 }.message(),
        "unsupported protocol version: 2"
    );
    assert_eq!(
        ProtocolError::UnsupportedFrameType { found: 255 }.message(),
        "unsupported frame type: 255"
    );
    assert_eq!(
        ProtocolError::TruncatedFrame { have: 5, need: 6 }.message(),
        "truncated frame: have 5 bytes, need at least 6"
    );
    assert_eq!(
        ProtocolError::InvalidPayloadLength { declared: 1501, max: 1500 }.message(),
        "invalid payload length 1501 (max 1500)"
    );
    assert_eq!(
        ProtocolError::ExtraBytes { have: 10, expected: 9 }.message(),
        "extra bytes after frame: have 10, expected exactly 9"
    );
    assert_eq!(
        ProtocolError::PayloadTooLarge { len: 2000, max: 1500 }.message(),
        "payload too large: 2000 bytes (max 1500)"
    );
}

#[test]
fn handshake_bytes_are_exact() {
    let init = HandshakeMessage::Init { version: 7, client_random: [3; 32] };
    let mut expected = vec![1, 7];
    expected.extend_from_slice(&[3; 32]);
    assert_eq!(init.encode(), expected);
    assert_eq!(init.message_type(), 1);

    let response = HandshakeMessage::Response { version: 1, server_random: [4; 32], tag: [5; 32] };
    let mut expected = vec![2, 1];
    expected.extend_from_slice(&[4; 32]);
    expected.extend_from_slice(&[5; 32]);
    assert_eq!(response.encode(), expected);
    assert_eq!(response.message_type(), 2);

    let confirm = HandshakeMessage::Confirm { tag: [6; 32] };
    let mut expected = vec![3];
    expected.extend_from_slice(&[6; 32]);
    assert_eq!(confirm.encode(), expected);
    assert_eq!(confirm.message_type(), 3);
}

#[test]
fn every_handshake_error_has_an_input() {
    assert_eq!(
        HandshakeMessage::decode(&[]),
        Err(HandshakeError::TooShort { have: 0, need: 1 })
    );
    assert_eq!(
        HandshakeMessage::decode(&[4, 1, 2]),
        Err(HandshakeError::UnknownMessageType { found: 4 })
    );
    assert_eq!(
        HandshakeMessage::decode(&[1; 33]),
        Err(HandshakeError::WrongLength { message_type: 1, have: 32, need: 33 })
    );
    assert_eq!(
        HandshakeMessage::decode(&[2; 34]),
        Err(HandshakeError::WrongLength { message_type: 2, have: 33, need: 65 })
    );
    assert_eq!(
        HandshakeMessage::decode(&[3; 34]),
        Err(HandshakeError::WrongLength { message_type: 3, have: 33, need: 32 })
    );
}

#[test]
fn handshake_error_texts() {
    assert_eq!(
        HandshakeError::TooShort { have: 0, need: 1 }.message(),
        "handshake message too short: have 0 bytes, need at least 1"
    );
    assert_eq!(
        HandshakeError::UnknownMessageType { found: 200 }.message(),
        "unknown message type: 200"
    );
    assert_eq!(
        HandshakeError::WrongLength { message_type: 3, have: 33, need: 32 }.message(),
        "wrong length for message type 3: have 33 bytes, need exactly 32"
    );
}

#[test]
fn encrypted_data_may_be_empty() {
    assert_eq!(encode_encrypted_data(&[]), vec![4]);
    assert_eq!(UdpMessage::decode(&[4]), Ok(UdpMessage::EncryptedData(&[])));
    assert_eq!(
        UdpMessage::decode(&[9]),
        Err(HandshakeError::UnknownMessageType { found: 9 })
    );
}
