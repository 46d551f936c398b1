//! Wire formats.
//!
//! A frame wraps one raw IP packet:
//!
//! ```text
//! +------------+---------+------------+--------------+-------------+
//! | Magic      | Version | Type       | Payload Len  | Payload     |
//! | 2 bytes    | 1 byte  | 1 byte     | 2 bytes (BE) | N bytes     |
//! +------------+---------+------------+--------------+-------------+
//! ```
//!
//! Every UDP datagram starts with a message-type byte. Three types carry the
//! handshake, the fourth carries an encrypted frame:
//!
//! ```text
//! 1 = HandshakeInit      (client to server)  version, client random
//! 2 = HandshakeResponse  (server to client)  version, server random, tag
//! 3 = HandshakeConfirm   (client to server)  tag
//! 4 = EncryptedData      (both directions)   envelope
//! ```
//!
//! The payload of a frame and the body of an encrypted message are opaque here.
use vstd::prelude::*;

use crate::{bytes, text};

verus! {

/// "TV": the first two bytes of every frame.
pub const MAGIC: [u8; 2] = [0x54, 0x56];

/// The only frame version.
pub const VERSION: u8 = 1;

/// Size of the frame header: magic, version, type and payload length.
pub const HEADER_SIZE: usize = 6;

/// Largest payload of a frame. Larger packets are refused, never split.
pub const MAX_PAYLOAD_SIZE: usize = 1500;

/// Largest encoded frame.
pub const MAX_FRAME_SIZE: usize = HEADER_SIZE + MAX_PAYLOAD_SIZE;

/// Size of the random value that each side puts into a handshake.
pub const HANDSHAKE_RANDOM_SIZE: usize = 32;

/// Size of the authentication tag of a response or a confirmation.
pub const HANDSHAKE_TAG_SIZE: usize = 32;

/// The only handshake version.
pub const HANDSHAKE_VERSION: u8 = 1;

pub const MSG_TYPE_HANDSHAKE_INIT: u8 = 1;

pub const MSG_TYPE_HANDSHAKE_RESPONSE: u8 = 2;

pub const MSG_TYPE_HANDSHAKE_CONFIRM: u8 = 3;

pub const MSG_TYPE_ENCRYPTED_DATA: u8 = 4;

/// The kind of a frame.
#[derive(Debug, Clone, Copy, PartialEq, Eq, Structural)]
pub enum FrameType {
    Data,
}

impl FrameType {
    /// The byte that stands for this kind on the wire.
    pub open spec fn byte(self) -> u8 {
        match self {
            FrameType::Data => 1,
        }
    }

    /// The kind that a byte stands for, if any.
    pub fn from_byte(byte: u8) -> (r: Option<Self>)
        ensures
            r == (if byte == 1 {
                Some(FrameType::Data)
            } else {
                None
            }),
    {
        match byte {
            1 => Some(FrameType::Data),
            _ => None,
        }
    }

    /// The wire byte of this kind.
    pub fn to_byte(self) -> (b: u8)
        ensures
            b == self.byte(),
    {
        match self {
            FrameType::Data => 1,
        }
    }
}

/// A frame: its payload is opaque bytes.
#[derive(Debug, Clone, PartialEq, Eq)]
pub struct Frame {
    pub version: u8,
    pub frame_type: FrameType,
    pub payload: Vec<u8>,
}

/// A frame as a mathematical value.
pub struct FrameView {
    pub version: u8,
    pub frame_type: FrameType,
    pub payload: Seq<u8>,
}

impl View for Frame {
    type V = FrameView;

    open spec fn view(&self) -> FrameView {
        FrameView { version: self.version, frame_type: self.frame_type, payload: self.payload@ }
    }
}

impl FrameView {
    /// The bytes of the frame on the wire. The length field holds the payload
    /// length modulo 2^16.
    pub open spec fn encoding(self) -> Seq<u8> {
        MAGIC@ + seq![self.version, self.frame_type.byte()] + bytes::be16(
            self.payload.len(),
        ) + self.payload
    }

    /// A frame that this protocol can carry.
    pub open spec fn carried(self) -> bool {
        &&& self.version == VERSION
        &&& self.payload.len() <= MAX_PAYLOAD_SIZE
    }
}

/// What `bytes` decode to: exactly one frame, or the first thing wrong with
/// them. The checks run over the header from front to back, then the length.
pub open spec fn decoded_frame(bytes: Seq<u8>) -> Result<FrameView, ProtocolError> {
    if bytes.len() < HEADER_SIZE {
        Err(ProtocolError::TruncatedFrame { have: bytes.len() as usize, need: HEADER_SIZE })
    } else if bytes.subrange(0, 2) != MAGIC@ {
        Err(ProtocolError::InvalidMagic { found: [bytes[0], bytes[1]] })
    } else if bytes[2] != VERSION {
        Err(ProtocolError::UnsupportedVersion { found: bytes[2] })
    } else if bytes[3] != FrameType::Data.byte() {
        Err(ProtocolError::UnsupportedFrameType { found: bytes[3] })
    } else {
        let declared = bytes::be16_value(bytes[4], bytes[5]);
        let total = HEADER_SIZE + declared;
        if declared > MAX_PAYLOAD_SIZE {
            Err(
                ProtocolError::InvalidPayloadLength {
                    declared: declared as usize,
                    max: MAX_PAYLOAD_SIZE,
                },
            )
        } else if bytes.len() < total {
            Err(ProtocolError::TruncatedFrame { have: bytes.len() as usize, need: total as usize })
        } else if bytes.len() > total {
            Err(ProtocolError::ExtraBytes { have: bytes.len() as usize, expected: total as usize })
        } else {
            Ok(
                FrameView {
                    version: VERSION,
                    frame_type: FrameType::Data,
                    payload: bytes.subrange(HEADER_SIZE as int, total),
                },
            )
        }
    }
}

impl Frame {
    /// Wraps `payload` in a data frame. Fails on a payload over
    /// `MAX_PAYLOAD_SIZE`: nothing is split.
    pub fn data(payload: Vec<u8>) -> (r: Result<Self, ProtocolError>)
        ensures
            match r {
                Ok(frame) => {
                    &&& payload@.len() <= MAX_PAYLOAD_SIZE
                    &&& frame.version == VERSION
                    &&& frame.frame_type == FrameType::Data
                    &&& frame.payload@ == payload@
                    &&& frame@.carried()
                },
                Err(e) => {
                    &&& payload@.len() > MAX_PAYLOAD_SIZE
                    &&& e == (ProtocolError::PayloadTooLarge {
                        len: payload@.len() as usize,
                        max: MAX_PAYLOAD_SIZE,
                    })
                },
            },
    {
        if payload.len() > MAX_PAYLOAD_SIZE {
            return Err(
                ProtocolError::PayloadTooLarge { len: payload.len(), max: MAX_PAYLOAD_SIZE },
            );
        }
        Ok(Frame { version: VERSION, frame_type: FrameType::Data, payload })
    }

    /// The number of bytes of the encoded frame.
    pub fn encoded_len(&self) -> (n: usize)
        requires
            self.payload@.len() + HEADER_SIZE <= usize::MAX,
        ensures
            n == HEADER_SIZE + self.payload@.len(),
            n == self@.encoding().len(),
    {
        HEADER_SIZE + self.payload.len()
    }

    /// The bytes of the frame: magic, version, type, length, payload.
    pub fn encode(&self) -> (buf: Vec<u8>)
        ensures
            buf@ == self@.encoding(),
    {
        let mut buf: Vec<u8> = Vec::new();
        let len: usize = self.payload.len();
        bytes::append(&mut buf, MAGIC.as_slice());
        buf.push(self.version);
        buf.push(self.frame_type.to_byte());
        bytes::append_be16(&mut buf, len as u64);
        bytes::append(&mut buf, self.payload.as_slice());
        assert(buf@ =~= self@.encoding());
        buf
    }

    /// Parses exactly one frame: anything missing or left over is an error.
    pub fn decode(bytes: &[u8]) -> (r: Result<Self, ProtocolError>)
        ensures
            match r {
                Ok(frame) => decoded_frame(bytes@) == Ok::<FrameView, ProtocolError>(frame@),
                Err(e) => decoded_frame(bytes@) == Err::<FrameView, ProtocolError>(e),
            },
    {
        if bytes.len() < HEADER_SIZE {
            return Err(ProtocolError::TruncatedFrame { have: bytes.len(), need: HEADER_SIZE });
        }
        if bytes[0] != MAGIC[0] || bytes[1] != MAGIC[1] {
            proof {
                assert(bytes@.subrange(0, 2)[0] == bytes@[0]);
                assert(bytes@.subrange(0, 2)[1] == bytes@[1]);
            }
            return Err(ProtocolError::InvalidMagic { found: [bytes[0], bytes[1]] });
        }
        assert(bytes@.subrange(0, 2) =~= MAGIC@);
        let version: u8 = bytes[2];
        if version != VERSION {
            return Err(ProtocolError::UnsupportedVersion { found: version });
        }
        let frame_type = match FrameType::from_byte(bytes[3]) {
            Some(frame_type) => frame_type,
            None => return Err(ProtocolError::UnsupportedFrameType { found: bytes[3] }),
        };
        let payload_len: usize = bytes[4] as usize * 256 + bytes[5] as usize;
        if payload_len > MAX_PAYLOAD_SIZE {
            return Err(
                ProtocolError::InvalidPayloadLength {
                    declared: payload_len,
                    max: MAX_PAYLOAD_SIZE,
                },
            );
        }
        let expected_total: usize = HEADER_SIZE + payload_len;
        if bytes.len() < expected_total {
            return Err(ProtocolError::TruncatedFrame { have: bytes.len(), need: expected_total });
        }
        if bytes.len() > expected_total {
            return Err(
                ProtocolError::ExtraBytes { have: bytes.len(), expected: expected_total },
            );
        }
        let payload = vstd::slice::slice_to_vec(&bytes[HEADER_SIZE..expected_total]);
        Ok(Frame { version, frame_type, payload })
    }
}

/// Why bytes are no frame, or why a frame cannot be built.
#[allow(inconsistent_fields)]
#[derive(Debug, Clone, PartialEq, Eq)]
pub enum ProtocolError {
    /// The first two bytes are not `MAGIC`.
    InvalidMagic { found: [u8; 2] },
    /// The version byte is not `VERSION`.
    UnsupportedVersion { found: u8 },
    /// The type byte stands for no `FrameType`.
    UnsupportedFrameType { found: u8 },
    /// There are fewer bytes than the header, or the header and its payload, need.
    TruncatedFrame { have: usize, need: usize },
    /// The declared payload length is over `MAX_PAYLOAD_SIZE`.
    InvalidPayloadLength { declared: usize, max: usize },
    /// There are more bytes than one frame has.
    ExtraBytes { have: usize, expected: usize },
    /// A payload given to `Frame::data` is over `MAX_PAYLOAD_SIZE`.
    PayloadTooLarge { len: usize, max: usize },
}

impl ProtocolError {
    /// The text of the error.
    pub open spec fn message_chars(self) -> Seq<char> {
        match self {
            ProtocolError::InvalidMagic { found } => "invalid magic bytes: ["@ + text::hex_byte_chars(
                found[0],
            ) + ", "@ + text::hex_byte_chars(found[1]) + "]"@,
            ProtocolError::UnsupportedVersion { found } => "unsupported protocol version: "@
                + text::decimal_chars(found as nat),
            ProtocolError::UnsupportedFrameType { found } => "unsupported frame type: "@
                + text::decimal_chars(found as nat),
            ProtocolError::TruncatedFrame { have, need } => "truncated frame: have "@
                + text::decimal_chars(have as nat) + " bytes, need at least "@ + text::decimal_chars(
                need as nat,
            ),
            ProtocolError::InvalidPayloadLength { declared, max } => "invalid payload length "@
                + text::decimal_chars(declared as nat) + " (max "@ + text::decimal_chars(max as nat) + ")"@,
            ProtocolError::ExtraBytes { have, expected } => "extra bytes after frame: have "@
                + text::decimal_chars(have as nat) + ", expected exactly "@ + text::decimal_chars(
                expected as nat,
            ),
            ProtocolError::PayloadTooLarge { len, max } => "payload too large: "@ + text::decimal_chars(
                len as nat,
            ) + " bytes (max "@ + text::decimal_chars(max as nat) + ")"@,
        }
    }

    /// Describes the error.
    pub fn message(&self) -> (m: String)
        ensures
            m@ == self.message_chars(),
    {
        match self {
            ProtocolError::InvalidMagic { found } => {
                let mut m = "invalid magic bytes: [".to_owned();
                m.append(text::hex_byte(found[0]).as_str());
                m.append(", ");
                m.append(text::hex_byte(found[1]).as_str());
                m.append("]");
                m
            },
            ProtocolError::UnsupportedVersion { found } => {
                let mut m = "unsupported protocol version: ".to_owned();
                m.append(text::decimal(*found as u64).as_str());
                m
            },
            ProtocolError::UnsupportedFrameType { found } => {
                let mut m = "unsupported frame type: ".to_owned();
                m.append(text::decimal(*found as u64).as_str());
                m
            },
            ProtocolError::TruncatedFrame { have, need } => {
                let mut m = "truncated frame: have ".to_owned();
                m.append(text::decimal(*have as u64).as_str());
                m.append(" bytes, need at least ");
                m.append(text::decimal(*need as u64).as_str());
                m
            },
            ProtocolError::InvalidPayloadLength { declared, max } => {
                let mut m = "invalid payload length ".to_owned();
                m.append(text::decimal(*declared as u64).as_str());
                m.append(" (max ");
                m.append(text::decimal(*max as u64).as_str());
                m.append(")");
                m
            },
            ProtocolError::ExtraBytes { have, expected } => {
                let mut m = "extra bytes after frame: have ".to_owned();
                m.append(text::decimal(*have as u64).as_str());
                m.append(", expected exactly ");
                m.append(text::decimal(*expected as u64).as_str());
                m
            },
            ProtocolError::PayloadTooLarge { len, max } => {
                let mut m = "payload too large: ".to_owned();
                m.append(text::decimal(*len as u64).as_str());
                m.append(" bytes (max ");
                m.append(text::decimal(*max as u64).as_str());
                m.append(")");
                m
            },
        }
    }
}

/// A handshake message.
#[derive(Debug, Clone, PartialEq, Eq)]
pub enum HandshakeMessage {
    /// Client to server: opens a handshake with the client's randomness.
    Init { version: u8, client_random: [u8; HANDSHAKE_RANDOM_SIZE] },
    /// Server to client: the server's randomness, and a tag that proves that it
    /// knows the pre-shared key.
    Response {
        version: u8,
        server_random: [u8; HANDSHAKE_RANDOM_SIZE],
        tag: [u8; HANDSHAKE_TAG_SIZE],
    },
    /// Client to server: the tag that proves the same of the client.
    Confirm { tag: [u8; HANDSHAKE_TAG_SIZE] },
}

/// A handshake message as a mathematical value.
pub enum HandshakeView {
    Init { version: u8, client_random: Seq<u8> },
    Response { version: u8, server_random: Seq<u8>, tag: Seq<u8> },
    Confirm { tag: Seq<u8> },
}

impl View for HandshakeMessage {
    type V = HandshakeView;

    open spec fn view(&self) -> HandshakeView {
        match *self {
            HandshakeMessage::Init { version, client_random } => HandshakeView::Init {
                version,
                client_random: client_random@,
            },
            HandshakeMessage::Response { version, server_random, tag } => HandshakeView::Response {
                version,
                server_random: server_random@,
                tag: tag@,
            },
            HandshakeMessage::Confirm { tag } => HandshakeView::Confirm { tag: tag@ },
        }
    }
}

impl HandshakeView {
    /// The leading wire byte.
    pub open spec fn message_type(self) -> u8 {
        match self {
            HandshakeView::Init { .. } => MSG_TYPE_HANDSHAKE_INIT,
            HandshakeView::Response { .. } => MSG_TYPE_HANDSHAKE_RESPONSE,
            HandshakeView::Confirm { .. } => MSG_TYPE_HANDSHAKE_CONFIRM,
        }
    }

    /// The bytes of the message on the wire.
    pub open spec fn encoding(self) -> Seq<u8> {
        seq![self.message_type()] + match self {
            HandshakeView::Init { version, client_random } => seq![version] + client_random,
            HandshakeView::Response { version, server_random, tag } => seq![version]
                + server_random + tag,
            HandshakeView::Confirm { tag } => tag,
        }
    }

    /// The random values and tags have their fixed sizes.
    pub open spec fn well_formed(self) -> bool {
        match self {
            HandshakeView::Init { client_random, .. } => client_random.len()
                == HANDSHAKE_RANDOM_SIZE,
            HandshakeView::Response { server_random, tag, .. } => server_random.len()
                == HANDSHAKE_RANDOM_SIZE && tag.len() == HANDSHAKE_TAG_SIZE,
            HandshakeView::Confirm { tag } => tag.len() == HANDSHAKE_TAG_SIZE,
        }
    }
}

/// The number of bytes that follow the type byte of a handshake message.
pub open spec fn handshake_body_len(message_type: u8) -> Option<usize> {
    if message_type == MSG_TYPE_HANDSHAKE_INIT {
        Some((1 + HANDSHAKE_RANDOM_SIZE) as usize)
    } else if message_type == MSG_TYPE_HANDSHAKE_RESPONSE {
        Some((1 + HANDSHAKE_RANDOM_SIZE + HANDSHAKE_TAG_SIZE) as usize)
    } else if message_type == MSG_TYPE_HANDSHAKE_CONFIRM {
        Some(HANDSHAKE_TAG_SIZE)
    } else {
        None
    }
}

/// What `bytes` decode to: exactly one handshake message, or what is wrong.
pub open spec fn decoded_handshake(bytes: Seq<u8>) -> Result<HandshakeView, HandshakeError> {
    if bytes.len() == 0 {
        Err(HandshakeError::TooShort { have: 0, need: 1 })
    } else {
        match handshake_body_len(bytes[0]) {
            None => Err(HandshakeError::UnknownMessageType { found: bytes[0] }),
            Some(need) => if bytes.len() - 1 != need {
                Err(
                    HandshakeError::WrongLength {
                        message_type: bytes[0],
                        have: (bytes.len() - 1) as usize,
                        need,
                    },
                )
            } else if bytes[0] == MSG_TYPE_HANDSHAKE_INIT {
                Ok(HandshakeView::Init { version: bytes[1], client_random: bytes.subrange(2, 34) })
            } else if bytes[0] == MSG_TYPE_HANDSHAKE_RESPONSE {
                Ok(
                    HandshakeView::Response {
                        version: bytes[1],
                        server_random: bytes.subrange(2, 34),
                        tag: bytes.subrange(34, 66),
                    },
                )
            } else {
                Ok(HandshakeView::Confirm { tag: bytes.subrange(1, 33) })
            },
        }
    }
}

impl HandshakeMessage {
    /// The leading wire byte.
    pub fn message_type(&self) -> (b: u8)
        ensures
            b == self@.message_type(),
    {
        match self {
            HandshakeMessage::Init { .. } => MSG_TYPE_HANDSHAKE_INIT,
            HandshakeMessage::Response { .. } => MSG_TYPE_HANDSHAKE_RESPONSE,
            HandshakeMessage::Confirm { .. } => MSG_TYPE_HANDSHAKE_CONFIRM,
        }
    }

    /// The bytes of the message, the type byte first.
    pub fn encode(&self) -> (buf: Vec<u8>)
        ensures
            buf@ == self@.encoding(),
    {
        let mut buf: Vec<u8> = Vec::new();
        buf.push(self.message_type());
        match self {
            HandshakeMessage::Init { version, client_random } => {
                buf.push(*version);
                bytes::append(&mut buf, client_random.as_slice());
            },
            HandshakeMessage::Response { version, server_random, tag } => {
                buf.push(*version);
                bytes::append(&mut buf, server_random.as_slice());
                bytes::append(&mut buf, tag.as_slice());
            },
            HandshakeMessage::Confirm { tag } => {
                bytes::append(&mut buf, tag.as_slice());
            },
        }
        assert(buf@ =~= self@.encoding());
        buf
    }

    /// Parses exactly one handshake message. Every field has a fixed size, so
    /// any other length is an error.
    pub fn decode(bytes: &[u8]) -> (r: Result<Self, HandshakeError>)
        ensures
            match r {
                Ok(m) => decoded_handshake(bytes@) == Ok::<HandshakeView, HandshakeError>(m@),
                Err(e) => decoded_handshake(bytes@) == Err::<HandshakeView, HandshakeError>(e),
            },
    {
        if bytes.len() == 0 {
            return Err(HandshakeError::TooShort { have: 0, need: 1 });
        }
        let message_type: u8 = bytes[0];
        let have: usize = bytes.len() - 1;
        if message_type == MSG_TYPE_HANDSHAKE_INIT {
            let need: usize = 1 + HANDSHAKE_RANDOM_SIZE;
            if have != need {
                return Err(HandshakeError::WrongLength { message_type, have, need });
            }
            Ok(HandshakeMessage::Init { version: bytes[1], client_random: bytes::array32(bytes, 2) })
        } else if message_type == MSG_TYPE_HANDSHAKE_RESPONSE {
            let need: usize = 1 + HANDSHAKE_RANDOM_SIZE + HANDSHAKE_TAG_SIZE;
            if have != need {
                return Err(HandshakeError::WrongLength { message_type, have, need });
            }
            Ok(
                HandshakeMessage::Response {
                    version: bytes[1],
                    server_random: bytes::array32(bytes, 2),
                    tag: bytes::array32(bytes, 2 + HANDSHAKE_RANDOM_SIZE),
                },
            )
        } else if message_type == MSG_TYPE_HANDSHAKE_CONFIRM {
            let need: usize = HANDSHAKE_TAG_SIZE;
            if have != need {
                return Err(HandshakeError::WrongLength { message_type, have, need });
            }
            Ok(HandshakeMessage::Confirm { tag: bytes::array32(bytes, 1) })
        } else {
            Err(HandshakeError::UnknownMessageType { found: message_type })
        }
    }
}

/// A datagram: handshake traffic, or the body of an encrypted message.
#[derive(Debug, Clone, PartialEq, Eq)]
pub enum UdpMessage<'a> {
    Handshake(HandshakeMessage),
    EncryptedData(&'a [u8]),
}

/// A datagram as a mathematical value.
pub enum UdpView {
    Handshake(HandshakeView),
    EncryptedData(Seq<u8>),
}

impl<'a> View for UdpMessage<'a> {
    type V = UdpView;

    open spec fn view(&self) -> UdpView {
        match *self {
            UdpMessage::Handshake(m) => UdpView::Handshake(m@),
            UdpMessage::EncryptedData(body) => UdpView::EncryptedData(body@),
        }
    }
}

/// What a datagram decodes to. Every body of an encrypted message is accepted.
pub open spec fn decoded_udp(bytes: Seq<u8>) -> Result<UdpView, HandshakeError> {
    if bytes.len() > 0 && bytes[0] == MSG_TYPE_ENCRYPTED_DATA {
        Ok(UdpView::EncryptedData(bytes.skip(1)))
    } else {
        match decoded_handshake(bytes) {
            Ok(m) => Ok(UdpView::Handshake(m)),
            Err(e) => Err(e),
        }
    }
}

impl<'a> UdpMessage<'a> {
    /// Tells handshake traffic from encrypted data by the leading byte. The
    /// encrypted body is borrowed from `bytes` and not looked into.
    pub fn decode(bytes: &'a [u8]) -> (r: Result<Self, HandshakeError>)
        ensures
            match r {
                Ok(m) => decoded_udp(bytes@) == Ok::<UdpView, HandshakeError>(m@),
                Err(e) => decoded_udp(bytes@) == Err::<UdpView, HandshakeError>(e),
            },
    {
        if bytes.len() == 0 {
            return Err(HandshakeError::TooShort { have: 0, need: 1 });
        }
        if bytes[0] == MSG_TYPE_ENCRYPTED_DATA {
            let body = &bytes[1..bytes.len()];
            assert(body@ =~= bytes@.skip(1));
            Ok(UdpMessage::EncryptedData(body))
        } else {
            match HandshakeMessage::decode(bytes) {
                Ok(m) => Ok(UdpMessage::Handshake(m)),
                Err(e) => Err(e),
            }
        }
    }
}

/// The datagram that carries an encrypted envelope.
pub open spec fn encrypted_datagram(envelope: Seq<u8>) -> Seq<u8> {
    seq![MSG_TYPE_ENCRYPTED_DATA] + envelope
}

/// Puts the encrypted-data type byte in front of an envelope.
pub fn encode_encrypted_data(envelope: &[u8]) -> (buf: Vec<u8>)
    ensures
        buf@ == encrypted_datagram(envelope@),
{
    let mut buf: Vec<u8> = Vec::new();
    buf.push(MSG_TYPE_ENCRYPTED_DATA);
    bytes::append(&mut buf, envelope);
    assert(buf@ =~= encrypted_datagram(envelope@));
    buf
}

/// Why bytes are no handshake message, or no datagram.
#[derive(Debug, Clone, Copy, PartialEq, Eq, Structural)]
pub enum HandshakeError {
    /// There is not even a type byte.
    TooShort { have: usize, need: usize },
    /// The leading byte is no known message type.
    UnknownMessageType { found: u8 },
    /// The body has not the length that its type requires.
    WrongLength { message_type: u8, have: usize, need: usize },
}

impl HandshakeError {
    /// The text of the error.
    pub open spec fn message_chars(self) -> Seq<char> {
        match self {
            HandshakeError::TooShort { have, need } => "handshake message too short: have "@
                + text::decimal_chars(have as nat) + " bytes, need at least "@ + text::decimal_chars(
                need as nat,
            ),
            HandshakeError::UnknownMessageType { found } => "unknown message type: "@
                + text::decimal_chars(found as nat),
            HandshakeError::WrongLength { message_type, have, need } =>
            "wrong length for message type "@ + text::decimal_chars(message_type as nat) + ": have "@
                + text::decimal_chars(have as nat) + " bytes, need exactly "@ + text::decimal_chars(
                need as nat,
            ),
        }
    }

    /// Describes the error.
    pub fn message(&self) -> (m: String)
        ensures
            m@ == self.message_chars(),
    {
        match self {
            HandshakeError::TooShort { have, need } => {
                let mut m = "handshake message too short: have ".to_owned();
                m.append(text::decimal(*have as u64).as_str());
                m.append(" bytes, need at least ");
                m.append(text::decimal(*need as u64).as_str());
                m
            },
            HandshakeError::UnknownMessageType { found } => {
                let mut m = "unknown message type: ".to_owned();
                m.append(text::decimal(*found as u64).as_str());
                m
            },
            HandshakeError::WrongLength { message_type, have, need } => {
                let mut m = "wrong length for message type ".to_owned();
                m.append(text::decimal(*message_type as u64).as_str());
                m.append(": have ");
                m.append(text::decimal(*have as u64).as_str());
                m.append(" bytes, need exactly ");
                m.append(text::decimal(*need as u64).as_str());
                m
            },
        }
    }
}

/// Decoding an encoded frame gives the frame back, for every frame that the
/// protocol carries.
pub proof fn law_frame_round_trip(frame: FrameView)
    requires
        frame.carried(),
    ensures
        decoded_frame(frame.encoding()) == Ok::<FrameView, ProtocolError>(frame),
        frame.encoding().len() <= MAX_FRAME_SIZE,
{
    let bytes = frame.encoding();
    assert(bytes.subrange(0, 2) =~= MAGIC@);
    assert(bytes.subrange(HEADER_SIZE as int, bytes.len() as int) =~= frame.payload);
}

/// Encoding a decoded frame gives exactly the bytes that were decoded, so two
/// different byte strings never stand for one frame.
pub proof fn law_decoded_frame_encodes_back(bytes: Seq<u8>)
    requires
        decoded_frame(bytes) is Ok,
    ensures
        decoded_frame(bytes)->Ok_0.encoding() == bytes,
        decoded_frame(bytes)->Ok_0.carried(),
{
    let frame = decoded_frame(bytes)->Ok_0;
    assert(bytes.subrange(0, 2)[0] == bytes[0]);
    assert(bytes.subrange(0, 2)[1] == bytes[1]);
    assert(frame.encoding() =~= bytes);
}

/// Decoding an encoded handshake message gives the message back.
pub proof fn law_handshake_round_trip(m: HandshakeView)
    requires
        m.well_formed(),
    ensures
        decoded_handshake(m.encoding()) == Ok::<HandshakeView, HandshakeError>(m),
        decoded_udp(m.encoding()) == Ok::<UdpView, HandshakeError>(UdpView::Handshake(m)),
{
    let bytes = m.encoding();
    match m {
        HandshakeView::Init { version, client_random } => {
            assert(bytes.subrange(2, 34) =~= client_random);
        },
        HandshakeView::Response { version, server_random, tag } => {
            assert(bytes.subrange(2, 34) =~= server_random);
            assert(bytes.subrange(34, 66) =~= tag);
        },
        HandshakeView::Confirm { tag } => {
            assert(bytes.subrange(1, 33) =~= tag);
        },
    }
}

/// Encoding a decoded handshake message gives exactly the bytes that were
/// decoded.
pub proof fn law_decoded_handshake_encodes_back(bytes: Seq<u8>)
    requires
        decoded_handshake(bytes) is Ok,
    ensures
        decoded_handshake(bytes)->Ok_0.encoding() == bytes,
        decoded_handshake(bytes)->Ok_0.well_formed(),
{
    assert(decoded_handshake(bytes)->Ok_0.encoding() =~= bytes);
}

/// A datagram made from an envelope decodes to that envelope.
pub proof fn law_encrypted_data_round_trip(envelope: Seq<u8>)
    ensures
        decoded_udp(encrypted_datagram(envelope)) == Ok::<UdpView, HandshakeError>(
            UdpView::EncryptedData(envelope),
        ),
{
    assert(encrypted_datagram(envelope).skip(1) =~= envelope);
}

/// No byte string is both a handshake message and encrypted data.
pub proof fn law_datagram_kinds_are_disjoint(m: HandshakeView, envelope: Seq<u8>)
    ensures
        m.encoding() != encrypted_datagram(envelope),
{
    assert(m.encoding()[0] == m.message_type());
    assert(encrypted_datagram(envelope)[0] == MSG_TYPE_ENCRYPTED_DATA);
}

/// What stands where in a frame: "TV", the version, the kind, the payload's length with
/// the high byte first, and the payload as it is.
pub proof fn law_frame_layout(frame: FrameView)
    requires
        frame.carried(),
    ensures
        ({
            let bytes = frame.encoding();
            &&& bytes.len() == 6 + frame.payload.len()
            &&& bytes[0] == 0x54 && bytes[1] == 0x56
            &&& bytes[2] == frame.version
            &&& bytes[3] == 1
            &&& bytes[4] * 256 + bytes[5] == frame.payload.len()
            &&& bytes.skip(6) == frame.payload
        }),
{
    assert(frame.encoding().skip(6) =~= frame.payload);
}

/// Bytes are a frame exactly if the header is right and its length is that of what
/// follows; the payload is what follows.
pub proof fn law_what_is_a_frame(bytes: Seq<u8>)
    ensures
        ({
            let declared = bytes[4] * 256 + bytes[5];
            let right = bytes.len() >= 6 && bytes[0] == 0x54 && bytes[1] == 0x56 && bytes[2] == 1
                && bytes[3] == 1 && declared <= 1500 && bytes.len() == 6 + declared;
            &&& decoded_frame(bytes) is Ok <==> right
            &&& decoded_frame(bytes) matches Ok(frame) ==> frame.payload == bytes.skip(6)
                && frame.version == 1 && frame.frame_type == FrameType::Data
        }),
{
    if bytes.len() >= 6 {
        assert(bytes.subrange(0, 2)[0] == bytes[0] && bytes.subrange(0, 2)[1] == bytes[1]);
        if bytes[0] == 0x54 && bytes[1] == 0x56 {
            assert(bytes.subrange(0, 2) =~= MAGIC@);
        }
    }
    if decoded_frame(bytes) is Ok {
        assert(bytes.subrange(6, bytes.len() as int) =~= bytes.skip(6));
    }
}

/// The first thing that is wrong with a frame, from front to back, is what is reported.
pub proof fn law_what_is_wrong_with_a_frame(bytes: Seq<u8>)
    ensures
        ({
            let declared = bytes[4] * 256 + bytes[5];
            &&& bytes.len() < 6 ==> decoded_frame(bytes) == Err::<FrameView, ProtocolError>(
                ProtocolError::TruncatedFrame { have: bytes.len() as usize, need: 6 },
            )
            &&& bytes.len() >= 6 && (bytes[0] != 0x54 || bytes[1] != 0x56) ==> decoded_frame(bytes)
                == Err::<FrameView, ProtocolError>(
                ProtocolError::InvalidMagic { found: [bytes[0], bytes[1]] },
            )
            &&& bytes.len() >= 6 && bytes[0] == 0x54 && bytes[1] == 0x56 ==> {
                &&& bytes[2] != 1 ==> decoded_frame(bytes) == Err::<FrameView, ProtocolError>(
                    ProtocolError::UnsupportedVersion { found: bytes[2] },
                )
                &&& bytes[2] == 1 && bytes[3] != 1 ==> decoded_frame(bytes) == Err::<
                    FrameView,
                    ProtocolError,
                >(ProtocolError::UnsupportedFrameType { found: bytes[3] })
                &&& bytes[2] == 1 && bytes[3] == 1 ==> {
                    &&& declared > 1500 ==> decoded_frame(bytes) == Err::<FrameView, ProtocolError>(
                        ProtocolError::InvalidPayloadLength {
                            declared: declared as usize,
                            max: 1500,
                        },
                    )
                    &&& declared <= 1500 && bytes.len() < 6 + declared ==> decoded_frame(bytes)
                        == Err::<FrameView, ProtocolError>(
                        ProtocolError::TruncatedFrame {
                            have: bytes.len() as usize,
                            need: (6 + declared) as usize,
                        },
                    )
                    &&& declared <= 1500 && bytes.len() > 6 + declared ==> decoded_frame(bytes)
                        == Err::<FrameView, ProtocolError>(
                        ProtocolError::ExtraBytes {
                            have: bytes.len() as usize,
                            expected: (6 + declared) as usize,
                        },
                    )
                }
            }
        }),
{
    if bytes.len() >= 6 {
        assert(bytes.subrange(0, 2)[0] == bytes[0] && bytes.subrange(0, 2)[1] == bytes[1]);
        if bytes[0] == 0x54 && bytes[1] == 0x56 {
            assert(bytes.subrange(0, 2) =~= MAGIC@);
        }
    }
}

/// What stands where in a handshake message: its type, its version except in a
/// confirmation, then its random value and its tag as they are.
pub proof fn law_handshake_layout(m: HandshakeView)
    requires
        m.well_formed(),
    ensures
        match m {
            HandshakeView::Init { version, client_random } => {
                &&& m.encoding().len() == 34
                &&& m.encoding()[0] == 1
                &&& m.encoding()[1] == version
                &&& m.encoding().skip(2) == client_random
            },
            HandshakeView::Response { version, server_random, tag } => {
                &&& m.encoding().len() == 66
                &&& m.encoding()[0] == 2
                &&& m.encoding()[1] == version
                &&& m.encoding().subrange(2, 34) == server_random
                &&& m.encoding().skip(34) == tag
            },
            HandshakeView::Confirm { tag } => {
                &&& m.encoding().len() == 33
                &&& m.encoding()[0] == 3
                &&& m.encoding().skip(1) == tag
            },
        },
{
    match m {
        HandshakeView::Init { version, client_random } => {
            assert(m.encoding().skip(2) =~= client_random);
        },
        HandshakeView::Response { version, server_random, tag } => {
            assert(m.encoding().subrange(2, 34) =~= server_random);
            assert(m.encoding().skip(34) =~= tag);
        },
        HandshakeView::Confirm { tag } => {
            assert(m.encoding().skip(1) =~= tag);
        },
    }
}

/// A datagram is told by its first byte: an init, a response and a confirmation by 1, 2
/// and 3 and their length, encrypted data by 4 whatever follows. Everything else is no
/// message, and the report says why.
pub proof fn law_what_is_a_datagram(bytes: Seq<u8>)
    ensures
        bytes.len() == 0 ==> decoded_udp(bytes) == Err::<UdpView, HandshakeError>(
            HandshakeError::TooShort { have: 0, need: 1 },
        ),
        bytes.len() > 0 ==> {
            let body = (bytes.len() - 1) as usize;
            let wrong = |need: usize|
                Err::<UdpView, HandshakeError>(
                    HandshakeError::WrongLength { message_type: bytes[0], have: body, need },
                );
            &&& bytes[0] == 4 ==> decoded_udp(bytes) == Ok::<UdpView, HandshakeError>(
                UdpView::EncryptedData(bytes.skip(1)),
            )
            &&& bytes[0] == 0 || bytes[0] > 4 ==> decoded_udp(bytes) == Err::<
                UdpView,
                HandshakeError,
            >(HandshakeError::UnknownMessageType { found: bytes[0] })
            &&& bytes[0] == 1 && bytes.len() == 34 ==> decoded_udp(bytes) == Ok::<
                UdpView,
                HandshakeError,
            >(
                UdpView::Handshake(
                    HandshakeView::Init { version: bytes[1], client_random: bytes.skip(2) },
                ),
            )
            &&& bytes[0] == 2 && bytes.len() == 66 ==> decoded_udp(bytes) == Ok::<
                UdpView,
                HandshakeError,
            >(
                UdpView::Handshake(
                    HandshakeView::Response {
                        version: bytes[1],
                        server_random: bytes.subrange(2, 34),
                        tag: bytes.skip(34),
                    },
                ),
            )
            &&& bytes[0] == 3 && bytes.len() == 33 ==> decoded_udp(bytes) == Ok::<
                UdpView,
                HandshakeError,
            >(UdpView::Handshake(HandshakeView::Confirm { tag: bytes.skip(1) }))
            &&& bytes[0] == 1 && bytes.len() != 34 ==> decoded_udp(bytes) == wrong(33)
            &&& bytes[0] == 2 && bytes.len() != 66 ==> decoded_udp(bytes) == wrong(65)
            &&& bytes[0] == 3 && bytes.len() != 33 ==> decoded_udp(bytes) == wrong(32)
        },
{
    if bytes.len() == 34 {
        assert(bytes.subrange(2, 34) =~= bytes.skip(2));
    }
    if bytes.len() == 66 {
        assert(bytes.subrange(34, 66) =~= bytes.skip(34));
    }
    if bytes.len() == 33 {
        assert(bytes.subrange(1, 33) =~= bytes.skip(1));
    }
}

/// An encrypted datagram is the byte 4 and the envelope as it is.
pub proof fn law_encrypted_datagram_layout(envelope: Seq<u8>)
    ensures
        encrypted_datagram(envelope).len() == 1 + envelope.len(),
        encrypted_datagram(envelope)[0] == 4,
        encrypted_datagram(envelope).skip(1) == envelope,
{
    assert(encrypted_datagram(envelope).skip(1) =~= envelope);
}

/// Each error of a message tells the numbers that it is about.
pub proof fn law_message_errors_tell_their_numbers(message_type: u8, have: usize, need: usize)
    ensures
        ({
            let h = text::decimal_chars(have as nat);
            let n = text::decimal_chars(need as nat);
            let t = text::decimal_chars(message_type as nat);
            &&& HandshakeError::TooShort { have, need }.message_chars()
                == "handshake message too short: have "@ + h + " bytes, need at least "@ + n
            &&& HandshakeError::UnknownMessageType { found: message_type }.message_chars()
                == "unknown message type: "@ + t
            &&& HandshakeError::WrongLength { message_type, have, need }.message_chars()
                == "wrong length for message type "@ + t + ": have "@ + h + " bytes, need exactly "@
                + n
        }),
{
}

/// Each error of a frame tells the bytes or numbers that it is about.
pub proof fn law_frame_errors_tell_their_numbers(
    first: u8,
    second: u8,
    have: usize,
    need: usize,
)
    ensures
        ({
            let h = text::decimal_chars(have as nat);
            let n = text::decimal_chars(need as nat);
            let f = text::decimal_chars(first as nat);
            &&& ProtocolError::InvalidMagic { found: [first, second] }.message_chars()
                == "invalid magic bytes: ["@ + text::hex_byte_chars(first) + ", "@
                + text::hex_byte_chars(second) + "]"@
            &&& ProtocolError::UnsupportedVersion { found: first }.message_chars()
                == "unsupported protocol version: "@ + f
            &&& ProtocolError::UnsupportedFrameType { found: first }.message_chars()
                == "unsupported frame type: "@ + f
            &&& ProtocolError::TruncatedFrame { have, need }.message_chars()
                == "truncated frame: have "@ + h + " bytes, need at least "@ + n
            &&& ProtocolError::InvalidPayloadLength { declared: have, max: need }.message_chars()
                == "invalid payload length "@ + h + " (max "@ + n + ")"@
            &&& ProtocolError::ExtraBytes { have, expected: need }.message_chars()
                == "extra bytes after frame: have "@ + h + ", expected exactly "@ + n
            &&& ProtocolError::PayloadTooLarge { len: have, max: need }.message_chars()
                == "payload too large: "@ + h + " bytes (max "@ + n + ")"@
        }),
{
}

} // verus!
