//! The data path of an established session.
//!
//! ```text
//! packet read -> frame -> encrypt -> wrap as EncryptedData -> datagram
//! datagram -> unwrap EncryptedData -> decrypt -> unframe -> packet written
//! ```
//!
//! One packet becomes one datagram. The functions here are the steps of the
//! relays: each takes what was read and says what is to be done with it.
use vstd::prelude::*;

use crate::crypto::{Cipher, CryptoError, Direction};
use crate::net::SocketAddress;
use crate::protocol::{Frame, FrameType, HandshakeError, ProtocolError, UdpMessage};
use crate::{crypto, primitives, protocol};

verus! {

/// Size of the buffer for one packet read from the tunnel device.
pub const TUN_READ_BUFFER_SIZE: usize = protocol::MAX_PAYLOAD_SIZE;

/// Size of the buffer for one datagram: the type byte, the counter, the largest
/// frame and the authentication tag.
pub const UDP_RECV_BUFFER_SIZE: usize = 1 + crypto::COUNTER_SIZE + protocol::MAX_FRAME_SIZE
    + crypto::TAG_SIZE;

/// The peer of the server's session with the cipher for sending to it, once there
/// is one.
pub type EstablishedPeer = Option<(SocketAddress, Cipher)>;

/// Why a datagram or its body is dropped.
#[allow(inconsistent_fields)]
#[derive(Debug, Clone, PartialEq, Eq)]
pub enum DropReason {
    /// The datagram is no message.
    Malformed(HandshakeError),
    /// A handshake message came after the handshake.
    UnexpectedHandshake,
    /// The body does not decrypt.
    Undecryptable(CryptoError),
    /// The plaintext is no frame.
    BadFrame(ProtocolError),
}

/// What to do with a packet read from the tunnel device.
#[derive(Debug, PartialEq, Eq)]
pub enum Outbound {
    /// Nothing was read.
    Skip,
    /// There is no session to send the packet in.
    NoSession,
    /// The packet is too large to be framed.
    Oversized(ProtocolError),
    /// Send this datagram to the connected peer.
    Send(Vec<u8>),
    /// Send this datagram to the given peer.
    SendTo(SocketAddress, Vec<u8>),
}

/// What to do with a datagram that was received.
#[derive(Debug, PartialEq, Eq)]
pub enum Inbound {
    /// The datagram is empty.
    Skip,
    Drop(DropReason),
    /// Write this packet to the tunnel device.
    Deliver(Vec<u8>),
}

/// The datagram of a packet: framed, sealed as packet number `counter`, wrapped.
pub open spec fn sent_datagram(
    key: Seq<u8>,
    direction: Direction,
    counter: u64,
    packet: Seq<u8>,
) -> Seq<u8> {
    let frame = protocol::FrameView {
        version: protocol::VERSION,
        frame_type: FrameType::Data,
        payload: packet,
    };
    protocol::encrypted_datagram(
        crypto::sealed_envelope(key, direction, counter, frame.encoding()),
    )
}

/// The packet in a decrypted body.
pub open spec fn unframed(plaintext: Result<Seq<u8>, CryptoError>) -> Result<Seq<u8>, DropReason> {
    match plaintext {
        Err(e) => Err(DropReason::Undecryptable(e)),
        Ok(p) => match protocol::decoded_frame(p) {
            Err(e) => Err(DropReason::BadFrame(e)),
            Ok(frame) => Ok(frame.payload),
        },
    }
}

/// The packet in the body of an encrypted message.
pub open spec fn opened_packet(
    key: Seq<u8>,
    direction: Direction,
    body: Seq<u8>,
) -> Result<Seq<u8>, DropReason> {
    unframed(crypto::opened_envelope(key, direction, body))
}

/// The packet in a datagram.
pub open spec fn received_packet(
    key: Seq<u8>,
    direction: Direction,
    datagram: Seq<u8>,
) -> Result<Seq<u8>, DropReason> {
    match protocol::decoded_udp(datagram) {
        Err(e) => Err(DropReason::Malformed(e)),
        Ok(protocol::UdpView::Handshake(_)) => Err(DropReason::UnexpectedHandshake),
        Ok(protocol::UdpView::EncryptedData(body)) => opened_packet(key, direction, body),
    }
}

/// Takes the packet out of the outcome of a decryption.
pub fn unframe(plaintext: Result<Vec<u8>, CryptoError>) -> (r: Result<Vec<u8>, DropReason>)
    ensures
        match r {
            Ok(packet) => plaintext is Ok && unframed(Ok(plaintext->Ok_0@)) == Ok::<
                Seq<u8>,
                DropReason,
            >(packet@),
            Err(e) => unframed(
                match plaintext {
                    Ok(p) => Ok(p@),
                    Err(c) => Err(c),
                },
            ) == Err::<Seq<u8>, DropReason>(e),
        },
{
    match plaintext {
        Err(e) => Err(DropReason::Undecryptable(e)),
        Ok(p) => match Frame::decode(p.as_slice()) {
            Err(e) => Err(DropReason::BadFrame(e)),
            Ok(frame) => Ok(frame.payload),
        },
    }
}

/// Decrypts the body of an encrypted message and takes the packet out of it.
pub fn open_packet(cipher: &Cipher, direction: Direction, body: &[u8]) -> (r: Result<
    Vec<u8>,
    DropReason,
>)
    ensures
        match r {
            Ok(packet) => opened_packet(cipher.key(), direction, body@) == Ok::<
                Seq<u8>,
                DropReason,
            >(packet@),
            Err(e) => opened_packet(cipher.key(), direction, body@) == Err::<Seq<u8>, DropReason>(
                e,
            ),
        },
{
    unframe(cipher.decrypt(direction, body))
}

/// Frames, encrypts and wraps a packet. Nothing is sent and the counter stays
/// where it is if the packet is too large. Otherwise the datagram fits the
/// receive buffer, and the peer gets the packet back from it.
pub fn seal_packet(cipher: &mut Cipher, direction: Direction, packet: &[u8]) -> (r: Result<
    Vec<u8>,
    ProtocolError,
>)
    ensures
        match r {
            Ok(datagram) => {
                &&& packet@.len() <= protocol::MAX_PAYLOAD_SIZE
                &&& datagram@ == sent_datagram(
                    old(cipher).key(),
                    direction,
                    old(cipher).counter(),
                    packet@,
                )
                &&& datagram@.len() <= UDP_RECV_BUFFER_SIZE
                &&& received_packet(old(cipher).key(), direction, datagram@) == Ok::<
                    Seq<u8>,
                    DropReason,
                >(packet@)
                &&& final(cipher).key() == old(cipher).key()
                &&& final(cipher).counter() == old(cipher).counter().wrapping_add(1)
            },
            Err(e) => {
                &&& packet@.len() > protocol::MAX_PAYLOAD_SIZE
                &&& e == (ProtocolError::PayloadTooLarge {
                    len: packet@.len() as usize,
                    max: protocol::MAX_PAYLOAD_SIZE,
                })
                &&& *final(cipher) == *old(cipher)
            },
        },
{
    let frame = match Frame::data(vstd::slice::slice_to_vec(packet)) {
        Ok(frame) => frame,
        Err(e) => return Err(e),
    };
    let encoded = frame.encode();
    proof {
        protocol::law_frame_round_trip(frame@);
    }
    let envelope = cipher.encrypt(direction, encoded.as_slice());
    let datagram = protocol::encode_encrypted_data(envelope.as_slice());
    proof {
        protocol::law_encrypted_data_round_trip(envelope@);
    }
    Ok(datagram)
}

/// The client's step for a packet read from its tunnel device.
pub fn relay_tun_to_udp_session(cipher: &mut Cipher, direction: Direction, packet: &[u8]) -> (step:
    Outbound)
    ensures
        match step {
            Outbound::Skip => packet@.len() == 0 && *final(cipher) == *old(cipher),
            Outbound::Oversized(e) => {
                &&& packet@.len() > protocol::MAX_PAYLOAD_SIZE
                &&& e == (ProtocolError::PayloadTooLarge {
                    len: packet@.len() as usize,
                    max: protocol::MAX_PAYLOAD_SIZE,
                })
                &&& *final(cipher) == *old(cipher)
            },
            Outbound::Send(datagram) => {
                &&& 0 < packet@.len() <= protocol::MAX_PAYLOAD_SIZE
                &&& datagram@ == sent_datagram(
                    old(cipher).key(),
                    direction,
                    old(cipher).counter(),
                    packet@,
                )
                &&& datagram@.len() <= UDP_RECV_BUFFER_SIZE
                &&& received_packet(old(cipher).key(), direction, datagram@) == Ok::<
                    Seq<u8>,
                    DropReason,
                >(packet@)
                &&& final(cipher).key() == old(cipher).key()
                &&& final(cipher).counter() == old(cipher).counter().wrapping_add(1)
            },
            _ => false,
        },
{
    if packet.len() == 0 {
        return Outbound::Skip;
    }
    match seal_packet(cipher, direction, packet) {
        Ok(datagram) => Outbound::Send(datagram),
        Err(e) => Outbound::Oversized(e),
    }
}

/// The server's step for a packet read from its tunnel device: without a session
/// the packet is dropped before it is framed.
pub fn relay_tun_to_udp_established(
    established: &mut EstablishedPeer,
    direction: Direction,
    packet: &[u8],
) -> (step: Outbound)
    ensures
        match step {
            Outbound::Skip => packet@.len() == 0 && *final(established) == *old(established),
            Outbound::NoSession => {
                &&& packet@.len() > 0
                &&& *old(established) is None
                &&& *final(established) is None
            },
            Outbound::Oversized(e) => {
                &&& packet@.len() > protocol::MAX_PAYLOAD_SIZE
                &&& *old(established) is Some
                &&& e == (ProtocolError::PayloadTooLarge {
                    len: packet@.len() as usize,
                    max: protocol::MAX_PAYLOAD_SIZE,
                })
                &&& *final(established) == *old(established)
            },
            Outbound::SendTo(peer, datagram) => {
                &&& 0 < packet@.len() <= protocol::MAX_PAYLOAD_SIZE
                &&& *old(established) matches Some(before)
                &&& *final(established) matches Some(after)
                &&& peer == before.0
                &&& after.0 == before.0
                &&& datagram@ == sent_datagram(
                    before.1.key(),
                    direction,
                    before.1.counter(),
                    packet@,
                )
                &&& datagram@.len() <= UDP_RECV_BUFFER_SIZE
                &&& received_packet(before.1.key(), direction, datagram@) == Ok::<
                    Seq<u8>,
                    DropReason,
                >(packet@)
                &&& after.1.key() == before.1.key()
                &&& after.1.counter() == before.1.counter().wrapping_add(1)
            },
            _ => false,
        },
{
    if packet.len() == 0 {
        return Outbound::Skip;
    }
    match established {
        None => Outbound::NoSession,
        Some(current) => {
            let peer = current.0;
            match seal_packet(&mut current.1, direction, packet) {
                Ok(datagram) => Outbound::SendTo(peer, datagram),
                Err(e) => Outbound::Oversized(e),
            }
        },
    }
}

/// The client's step for a datagram: the session is established, so a handshake
/// message is dropped like anything that does not decrypt to a frame.
pub fn relay_udp_to_tun_session(cipher: &Cipher, direction: Direction, datagram: &[u8]) -> (step:
    Inbound)
    ensures
        match step {
            Inbound::Skip => datagram@.len() == 0,
            Inbound::Drop(reason) => datagram@.len() > 0 && received_packet(
                cipher.key(),
                direction,
                datagram@,
            ) == Err::<Seq<u8>, DropReason>(reason),
            Inbound::Deliver(packet) => datagram@.len() > 0 && received_packet(
                cipher.key(),
                direction,
                datagram@,
            ) == Ok::<Seq<u8>, DropReason>(packet@),
        },
{
    if datagram.len() == 0 {
        return Inbound::Skip;
    }
    let body = match UdpMessage::decode(datagram) {
        Err(e) => return Inbound::Drop(DropReason::Malformed(e)),
        Ok(UdpMessage::Handshake(_)) => return Inbound::Drop(DropReason::UnexpectedHandshake),
        Ok(UdpMessage::EncryptedData(body)) => body,
    };
    match open_packet(cipher, direction, body) {
        Ok(packet) => Inbound::Deliver(packet),
        Err(reason) => Inbound::Drop(reason),
    }
}

/// What stands where in the datagram of a packet: the byte 4, the counter, and then,
/// sealed with the key under the nonce of the direction and the counter, the frame whose
/// payload is the packet.
pub proof fn law_sent_datagram_layout(
    key: Seq<u8>,
    direction: Direction,
    counter: u64,
    packet: Seq<u8>,
)
    requires
        packet.len() <= 1500,
    ensures
        ({
            let datagram = sent_datagram(key, direction, counter, packet);
            &&& datagram[0] == 4
            &&& crate::bytes::be64_value(datagram.subrange(1, 9)) == counter
            &&& exists|frame: Seq<u8>|
                #![trigger primitives::aead_sealed(
                    key,
                    crypto::nonce(direction, counter),
                    datagram.subrange(1, 9),
                    frame,
                )]
                {
                    &&& frame.len() == 6 + packet.len()
                    &&& frame[0] == 0x54 && frame[1] == 0x56 && frame[2] == 1 && frame[3] == 1
                    &&& frame[4] * 256 + frame[5] == packet.len()
                    &&& frame.skip(6) == packet
                    &&& datagram.skip(9) == primitives::aead_sealed(
                        key,
                        crypto::nonce(direction, counter),
                        datagram.subrange(1, 9),
                        frame,
                    )
                }
        }),
{
    let view = protocol::FrameView {
        version: protocol::VERSION,
        frame_type: FrameType::Data,
        payload: packet,
    };
    let frame = view.encoding();
    let datagram = sent_datagram(key, direction, counter, packet);
    protocol::law_frame_layout(view);
    crate::bytes::lemma_be64_round_trip(counter);
    assert(datagram.subrange(1, 9) =~= crate::bytes::be64(counter));
    assert(datagram.skip(9) =~= primitives::aead_sealed(
        key,
        crypto::nonce(direction, counter),
        crate::bytes::be64(counter),
        frame,
    ));
}

/// A packet is received exactly from encrypted data whose envelope opens, with the key
/// and in the direction, to the frame of the packet.
pub proof fn law_received_packet_is_the_framed_one(
    key: Seq<u8>,
    direction: Direction,
    datagram: Seq<u8>,
    packet: Seq<u8>,
)
    ensures
        received_packet(key, direction, datagram) == Ok::<Seq<u8>, DropReason>(packet) <==> {
            &&& datagram.len() > 0
            &&& datagram[0] == 4
            &&& packet.len() <= 1500
            &&& crypto::opened_envelope(key, direction, datagram.skip(1)) == Ok::<
                Seq<u8>,
                CryptoError,
            >(
                (protocol::FrameView {
                    version: 1,
                    frame_type: FrameType::Data,
                    payload: packet,
                }).encoding(),
            )
        },
{
    let view = protocol::FrameView { version: 1, frame_type: FrameType::Data, payload: packet };
    protocol::law_what_is_a_datagram(datagram);
    if packet.len() <= 1500 {
        protocol::law_frame_round_trip(view);
    }
    if received_packet(key, direction, datagram) is Ok {
        let plaintext = crypto::opened_envelope(key, direction, datagram.skip(1))->Ok_0;
        protocol::law_decoded_frame_encodes_back(plaintext);
        protocol::law_what_is_a_frame(plaintext);
    }
}

/// Why a datagram is dropped: it is no message, it is a handshake message, it does not
/// decrypt, or what it decrypts to is no frame.
pub proof fn law_why_a_datagram_is_dropped(key: Seq<u8>, direction: Direction, datagram: Seq<u8>)
    ensures
        match protocol::decoded_udp(datagram) {
            Err(e) => received_packet(key, direction, datagram) == Err::<Seq<u8>, DropReason>(
                DropReason::Malformed(e),
            ),
            Ok(protocol::UdpView::Handshake(_)) => received_packet(key, direction, datagram)
                == Err::<Seq<u8>, DropReason>(DropReason::UnexpectedHandshake),
            Ok(protocol::UdpView::EncryptedData(body)) => match crypto::opened_envelope(
                key,
                direction,
                body,
            ) {
                Err(e) => received_packet(key, direction, datagram) == Err::<Seq<u8>, DropReason>(
                    DropReason::Undecryptable(e),
                ),
                Ok(plaintext) => protocol::decoded_frame(plaintext) matches Err(e)
                    ==> received_packet(key, direction, datagram) == Err::<Seq<u8>, DropReason>(
                    DropReason::BadFrame(e),
                ),
            },
        },
{
}

} // verus!
