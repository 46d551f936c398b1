//! The server's session: handshake responder, authentication, and the rule for
//! which encrypted data is accepted.
//!
//! There is one session at a time. A client must complete the handshake
//! (init, response, confirm) before any of its data is accepted, and while a
//! session is established no other handshake is answered.
use vstd::prelude::*;

use crate::config::RoutingSettings;
use crate::crypto::{Cipher, Direction, SessionCiphers, HANDSHAKE_TAG_SIZE, KEY_SIZE, RANDOM_SIZE};
use crate::error::{Error, ErrorKind};
use crate::net::SocketAddress;
use crate::protocol::{HandshakeMessage, UdpMessage};
use crate::psk::{PskError, PskErrorView};
use crate::routing::RoutingConfig;
use crate::tun::TunnelAddressPlan;
use crate::{config, crypto, protocol, psk, routing, transport, tun};

verus! {

/// The state of the server's only session.
pub enum ServerSession {
    /// No handshake is under way.
    NoSession,
    /// `peer` sent an init and was sent a response; its confirmation is awaited.
    HandshakeInProgress {
        peer: SocketAddress,
        client_random: [u8; RANDOM_SIZE],
        server_random: [u8; RANDOM_SIZE],
    },
    /// The handshake is complete. Only `peer` may send data.
    Established { peer: SocketAddress, client_to_server: Cipher },
}

/// A session as a mathematical value.
pub enum SessionView {
    NoSession,
    HandshakeInProgress {
        peer: SocketAddress,
        client_random: Seq<u8>,
        server_random: Seq<u8>,
    },
    Established {
        peer: SocketAddress,
        client_to_server_key: Seq<u8>,
        /// The send counter of the stored cipher.
        client_to_server_counter: u64,
    },
}

impl View for ServerSession {
    type V = SessionView;

    open spec fn view(&self) -> SessionView {
        match *self {
            ServerSession::NoSession => SessionView::NoSession,
            ServerSession::HandshakeInProgress { peer, client_random, server_random } =>
            SessionView::HandshakeInProgress {
                peer,
                client_random: client_random@,
                server_random: server_random@,
            },
            ServerSession::Established { peer, client_to_server } => SessionView::Established {
                peer,
                client_to_server_key: client_to_server.key(),
                client_to_server_counter: client_to_server.counter(),
            },
        }
    }
}

/// What is to be done about one datagram.
pub enum ServerAction {
    /// Send these bytes to the address.
    Reply(SocketAddress, Vec<u8>),
    /// A session was established: data for the peer goes out with this cipher.
    EstablishSession(SocketAddress, Cipher),
    /// Write this packet to the tunnel device.
    WriteToTun(Vec<u8>),
    /// Nothing.
    Drop,
}

/// An action as a mathematical value.
pub enum ActionView {
    Reply(SocketAddress, Seq<u8>),
    EstablishSession { peer: SocketAddress, server_to_client_key: Seq<u8>, counter: u64 },
    WriteToTun(Seq<u8>),
    Drop,
}

impl View for ServerAction {
    type V = ActionView;

    open spec fn view(&self) -> ActionView {
        match *self {
            ServerAction::Reply(peer, bytes) => ActionView::Reply(peer, bytes@),
            ServerAction::EstablishSession(peer, cipher) => ActionView::EstablishSession {
                peer,
                server_to_client_key: cipher.key(),
                counter: cipher.counter(),
            },
            ServerAction::WriteToTun(packet) => ActionView::WriteToTun(packet@),
            ServerAction::Drop => ActionView::Drop,
        }
    }
}

impl SessionView {
    /// The peer of the handshake or the session.
    pub open spec fn peer(self) -> Option<SocketAddress> {
        match self {
            SessionView::NoSession => None,
            SessionView::HandshakeInProgress { peer, .. } => Some(peer),
            SessionView::Established { peer, .. } => Some(peer),
        }
    }

    /// Whether an init with this version is answered.
    pub open spec fn answers_init(self, version: u8) -> bool {
        version == protocol::HANDSHAKE_VERSION && !(self is Established)
    }

    /// Whether the session awaits a confirmation from `sender`.
    pub open spec fn awaits(self, sender: SocketAddress) -> bool {
        self is HandshakeInProgress && self.peer() == Some(sender)
    }
}

/// The response to an init.
pub open spec fn response_bytes(server_random: Seq<u8>, tag: Seq<u8>) -> Seq<u8> {
    protocol::HandshakeView::Response {
        version: protocol::HANDSHAKE_VERSION,
        server_random,
        tag,
    }.encoding()
}

/// The state after an init, and the action that it calls for. `tag` is the tag of
/// the response.
pub open spec fn after_init(
    session: SessionView,
    sender: SocketAddress,
    version: u8,
    client_random: Seq<u8>,
    server_random: Seq<u8>,
    tag: Seq<u8>,
) -> (SessionView, ActionView) {
    if session.answers_init(version) {
        (
            SessionView::HandshakeInProgress { peer: sender, client_random, server_random },
            ActionView::Reply(sender, response_bytes(server_random, tag)),
        )
    } else {
        (session, ActionView::Drop)
    }
}

/// The state after a confirmation with the tag `received`, and the action. A
/// wrong tag ends the handshake.
pub open spec fn after_confirm(
    session: SessionView,
    sender: SocketAddress,
    received: Seq<u8>,
    psk: Seq<u8>,
) -> (SessionView, ActionView) {
    match session {
        SessionView::HandshakeInProgress { peer, client_random, server_random } => if peer
            != sender {
            (session, ActionView::Drop)
        } else if received != crypto::tag_for(
            protocol::MSG_TYPE_HANDSHAKE_CONFIRM,
            protocol::HANDSHAKE_VERSION,
            psk,
            client_random,
            server_random,
        ) {
            (SessionView::NoSession, ActionView::Drop)
        } else {
            (
                SessionView::Established {
                    peer,
                    client_to_server_key: crypto::session_key(
                        crypto::CLIENT_TO_SERVER_LABEL@,
                        psk,
                        client_random,
                        server_random,
                    ),
                    client_to_server_counter: 0,
                },
                ActionView::EstablishSession {
                    peer,
                    server_to_client_key: crypto::session_key(
                        crypto::SERVER_TO_CLIENT_LABEL@,
                        psk,
                        client_random,
                        server_random,
                    ),
                    counter: 0,
                },
            )
        },
        _ => (session, ActionView::Drop),
    }
}

/// The action for the body of an encrypted message.
pub open spec fn data_action(session: SessionView, sender: SocketAddress, body: Seq<u8>) -> ActionView {
    match session {
        SessionView::Established { peer, client_to_server_key, .. } => if peer == sender {
            match transport::opened_packet(client_to_server_key, Direction::ClientToServer, body) {
                Ok(packet) => ActionView::WriteToTun(packet),
                Err(_) => ActionView::Drop,
            }
        } else {
            ActionView::Drop
        },
        _ => ActionView::Drop,
    }
}

/// The server's transition: the state after a datagram, and the action that it
/// calls for. `server_random` is what the server puts into a response.
pub open spec fn server_step(
    session: SessionView,
    sender: SocketAddress,
    datagram: Seq<u8>,
    psk: Seq<u8>,
    server_random: Seq<u8>,
) -> (SessionView, ActionView) {
    match protocol::decoded_udp(datagram) {
        Err(_) => (session, ActionView::Drop),
        Ok(protocol::UdpView::Handshake(
            protocol::HandshakeView::Init { version, client_random },
        )) => after_init(
            session,
            sender,
            version,
            client_random,
            server_random,
            crypto::tag_for(
                protocol::MSG_TYPE_HANDSHAKE_RESPONSE,
                protocol::HANDSHAKE_VERSION,
                psk,
                client_random,
                server_random,
            ),
        ),
        Ok(protocol::UdpView::Handshake(protocol::HandshakeView::Confirm { tag })) => after_confirm(
            session,
            sender,
            tag,
            psk,
        ),
        Ok(protocol::UdpView::Handshake(protocol::HandshakeView::Response { .. })) => (
            session,
            ActionView::Drop,
        ),
        Ok(protocol::UdpView::EncryptedData(body)) => (
            session,
            data_action(session, sender, body),
        ),
    }
}

/// Answers an init: remembers the handshake and returns the response, unless the
/// version is not supported or a session is established.
pub fn answer_init(
    session: &mut ServerSession,
    sender: SocketAddress,
    version: u8,
    client_random: [u8; RANDOM_SIZE],
    server_random: [u8; RANDOM_SIZE],
    response_tag: [u8; HANDSHAKE_TAG_SIZE],
) -> (action: ServerAction)
    ensures
        (final(session)@, action@) == after_init(
            old(session)@,
            sender,
            version,
            client_random@,
            server_random@,
            response_tag@,
        ),
        !old(session)@.answers_init(version) ==> *final(session) == *old(session),
{
    if !answers_init(session, version) {
        return ServerAction::Drop;
    }
    let response = HandshakeMessage::Response {
        version: protocol::HANDSHAKE_VERSION,
        server_random,
        tag: response_tag,
    };
    *session = ServerSession::HandshakeInProgress { peer: sender, client_random, server_random };
    ServerAction::Reply(sender, response.encode())
}

/// Whether an init with this version is answered.
pub fn answers_init(session: &ServerSession, version: u8) -> (b: bool)
    ensures
        b == session@.answers_init(version),
{
    if version != protocol::HANDSHAKE_VERSION {
        return false;
    }
    match session {
        ServerSession::Established { .. } => false,
        _ => true,
    }
}

/// Holds a received confirmation tag against the expected one. A mismatch ends
/// the handshake that awaits this sender; a sender that is not awaited changes
/// nothing.
pub fn check_confirm(
    session: &mut ServerSession,
    sender: SocketAddress,
    received: &[u8; HANDSHAKE_TAG_SIZE],
    expected: &[u8; HANDSHAKE_TAG_SIZE],
) -> (valid: bool)
    ensures
        valid == (old(session)@.awaits(sender) && received@ == expected@),
        *final(session) == (if old(session)@.awaits(sender) && received@ != expected@ {
            ServerSession::NoSession
        } else {
            *old(session)
        }),
{
    match session {
        ServerSession::HandshakeInProgress { peer, .. } => {
            if *peer != sender {
                return false;
            }
        },
        _ => {
            return false;
        },
    }
    if crypto::verify_tag(expected, received) {
        true
    } else {
        *session = ServerSession::NoSession;
        false
    }
}

/// Establishes a session with `peer`: the client-to-server cipher stays with the
/// session, the other goes to the sending side.
pub fn establish(session: &mut ServerSession, peer: SocketAddress, ciphers: SessionCiphers) -> (action:
    ServerAction)
    ensures
        *final(session) == (ServerSession::Established {
            peer,
            client_to_server: ciphers.client_to_server,
        }),
        action == ServerAction::EstablishSession(peer, ciphers.server_to_client),
{
    *session = ServerSession::Established { peer, client_to_server: ciphers.client_to_server };
    ServerAction::EstablishSession(peer, ciphers.server_to_client)
}

/// Decides what to do with a datagram, given the random value for a response.
pub fn handle_datagram_with_random(
    session: &mut ServerSession,
    sender: SocketAddress,
    datagram: &[u8],
    psk: &[u8; KEY_SIZE],
    server_random: [u8; RANDOM_SIZE],
) -> (action: ServerAction)
    ensures
        (final(session)@, action@) == server_step(
            old(session)@,
            sender,
            datagram@,
            psk@,
            server_random@,
        ),
        !moves_session(old(session)@, sender, datagram@) ==> *final(session) == *old(session),
{
    match UdpMessage::decode(datagram) {
        Err(_) => ServerAction::Drop,
        Ok(UdpMessage::Handshake(HandshakeMessage::Init { version, client_random })) => {
            if !answers_init(session, version) {
                return ServerAction::Drop;
            }
            let tag = crypto::handshake_tag(
                protocol::MSG_TYPE_HANDSHAKE_RESPONSE,
                protocol::HANDSHAKE_VERSION,
                psk,
                &client_random,
                &server_random,
            );
            answer_init(session, sender, version, client_random, server_random, tag)
        },
        Ok(UdpMessage::Handshake(HandshakeMessage::Confirm { tag })) => {
            confirm_handshake(session, sender, &tag, psk)
        },
        Ok(UdpMessage::Handshake(HandshakeMessage::Response { .. })) => ServerAction::Drop,
        Ok(UdpMessage::EncryptedData(body)) => accept_data(session, sender, body),
    }
}

/// Decides what to do with a confirmation.
pub fn confirm_handshake(
    session: &mut ServerSession,
    sender: SocketAddress,
    received: &[u8; HANDSHAKE_TAG_SIZE],
    psk: &[u8; KEY_SIZE],
) -> (action: ServerAction)
    ensures
        (final(session)@, action@) == after_confirm(old(session)@, sender, received@, psk@),
        !old(session)@.awaits(sender) ==> *final(session) == *old(session),
{
    let (client_random, server_random) = match session {
        ServerSession::HandshakeInProgress { client_random, server_random, .. } => (
            *client_random,
            *server_random,
        ),
        _ => return ServerAction::Drop,
    };
    let expected = crypto::handshake_tag(
        protocol::MSG_TYPE_HANDSHAKE_CONFIRM,
        protocol::HANDSHAKE_VERSION,
        psk,
        &client_random,
        &server_random,
    );
    if !check_confirm(session, sender, received, &expected) {
        return ServerAction::Drop;
    }
    let ciphers = crypto::derive_session_ciphers(psk, &client_random, &server_random);
    establish(session, sender, ciphers)
}

/// Decides what to do with the body of an encrypted message: only the peer of the
/// established session is heard.
pub fn accept_data(session: &ServerSession, sender: SocketAddress, body: &[u8]) -> (action:
    ServerAction)
    ensures
        action@ == data_action(session@, sender, body@),
{
    match session {
        ServerSession::Established { peer, client_to_server } => {
            if *peer != sender {
                return ServerAction::Drop;
            }
            match transport::open_packet(client_to_server, Direction::ClientToServer, body) {
                Ok(packet) => ServerAction::WriteToTun(packet),
                Err(_) => ServerAction::Drop,
            }
        },
        _ => ServerAction::Drop,
    }
}

/// Whether `datagram` is an init that this session answers.
pub open spec fn calls_for_response(session: SessionView, datagram: Seq<u8>) -> bool {
    protocol::decoded_udp(datagram) matches Ok(
        protocol::UdpView::Handshake(protocol::HandshakeView::Init { version, .. }),
    ) && session.answers_init(version)
}

/// Whether `datagram` moves the session on, or back: an init that is answered, or a
/// confirmation from the awaited sender.
pub open spec fn moves_session(
    session: SessionView,
    sender: SocketAddress,
    datagram: Seq<u8>,
) -> bool {
    match protocol::decoded_udp(datagram) {
        Ok(protocol::UdpView::Handshake(protocol::HandshakeView::Init { version, .. })) =>
        session.answers_init(version),
        Ok(protocol::UdpView::Handshake(protocol::HandshakeView::Confirm { .. })) => session.awaits(
            sender,
        ),
        _ => false,
    }
}

/// Whether `datagram` is an init that is to be answered.
pub fn needs_response(session: &ServerSession, datagram: &[u8]) -> (b: bool)
    ensures
        b == calls_for_response(session@, datagram@),
{
    match UdpMessage::decode(datagram) {
        Ok(UdpMessage::Handshake(HandshakeMessage::Init { version, .. })) => answers_init(
            session,
            version,
        ),
        _ => false,
    }
}

/// Decides what to do with a datagram. A random value is drawn for a response
/// only; nothing else depends on it.
pub fn handle_incoming_datagram(
    session: &mut ServerSession,
    sender: SocketAddress,
    datagram: &[u8],
    psk: &[u8; KEY_SIZE],
) -> (action: ServerAction)
    ensures
        exists|server_random: Seq<u8>|
            server_random.len() == RANDOM_SIZE && (final(session)@, action@)
                == #[trigger] server_step(
                old(session)@,
                sender,
                datagram@,
                psk@,
                server_random,
            ),
        !calls_for_response(old(session)@, datagram@) ==> forall|server_random: Seq<u8>|
            (final(session)@, action@) == #[trigger] server_step(
                old(session)@,
                sender,
                datagram@,
                psk@,
                server_random,
            ),
        !moves_session(old(session)@, sender, datagram@) ==> *final(session) == *old(session),
{
    let server_random = if needs_response(session, datagram) {
        crypto::generate_random()
    } else {
        [0u8; RANDOM_SIZE]
    };
    handle_datagram_with_random(session, sender, datagram, psk, server_random)
}

/// Loads the pre-shared key of a server's file.
pub fn load_psk(contents: &str) -> (r: Result<[u8; KEY_SIZE], PskError>)
    ensures
        match r {
            Ok(key) => psk::configured_psk(contents@) == Ok::<Seq<u8>, PskErrorView>(key@),
            Err(e) => psk::configured_psk(contents@) == Err::<Seq<u8>, PskErrorView>(e@),
        },
        r matches Ok(key) ==> psk::spells_key(contents@, key@),
{
    psk::load_psk(contents)
}

/// What a failed receive means for the server's loop.
#[derive(Debug, Clone, Copy, PartialEq, Eq, Structural)]
pub enum ReceiveFailure {
    /// The process was asked to stop: leave the loop and clean up.
    Stop,
    /// The wait was interrupted for another reason: receive again.
    Retry,
    /// Leave the loop with the failure.
    Fail,
}

/// Tells what a failed receive means.
pub fn receive_failure(failure: &Error, shutdown_requested: bool) -> (r: ReceiveFailure)
    ensures
        r == (if failure.kind != ErrorKind::Interrupted {
            ReceiveFailure::Fail
        } else if shutdown_requested {
            ReceiveFailure::Stop
        } else {
            ReceiveFailure::Retry
        }),
{
    if failure.kind != ErrorKind::Interrupted {
        ReceiveFailure::Fail
    } else if shutdown_requested {
        ReceiveFailure::Stop
    } else {
        ReceiveFailure::Retry
    }
}

/// The gateway to set up once a session is established and its tunnel device
/// exists; none if the settings turn it off.
pub fn gateway_config(settings: &RoutingSettings, plan: &TunnelAddressPlan) -> (r: Option<
    RoutingConfig,
>)
    ensures
        match r {
            None => !settings.nat_enabled,
            Some(gateway) => {
                &&& settings.nat_enabled
                &&& gateway.vpn_subnet@ == routing::cidr_chars(
                    plan.server_address,
                    tun::VPN_TUN_NETMASK,
                )
                &&& gateway.tun_interface@ == tun::SERVER_TUN_NAME@
                &&& config::optional(gateway.outbound_interface) == config::optional(
                    settings.outbound_interface,
                )
                &&& gateway.address_plan == *plan
            },
        },
{
    if !settings.nat_enabled {
        return None;
    }
    Some(
        RoutingConfig {
            vpn_subnet: routing::cidr_from_address_and_netmask(
                plan.server_address,
                tun::VPN_TUN_NETMASK,
            ),
            tun_interface: tun::SERVER_TUN_NAME.to_owned(),
            outbound_interface: match &settings.outbound_interface {
                Some(interface) => Some(interface.clone()),
                None => None,
            },
            address_plan: *plan,
        },
    )
}

/// A packet reaches the tunnel device only from the peer of an established
/// session, out of a body that decrypts under the session's key.
pub proof fn law_only_established_peer_writes(
    session: SessionView,
    sender: SocketAddress,
    datagram: Seq<u8>,
    psk: Seq<u8>,
    server_random: Seq<u8>,
)
    requires
        server_step(session, sender, datagram, psk, server_random).1 is WriteToTun,
    ensures
        session matches SessionView::Established { peer, client_to_server_key, .. } && peer == sender
            && transport::received_packet(
            client_to_server_key,
            Direction::ClientToServer,
            datagram,
        ) == Ok::<Seq<u8>, transport::DropReason>(
            server_step(session, sender, datagram, psk, server_random).1->WriteToTun_0,
        ),
{
}

/// Whatever arrives, an established session stays as it is: it is not replaced by
/// another handshake, and nothing is sent in reply.
pub proof fn law_established_session_is_kept(
    session: SessionView,
    sender: SocketAddress,
    datagram: Seq<u8>,
    psk: Seq<u8>,
    server_random: Seq<u8>,
)
    requires
        session is Established,
    ensures
        server_step(session, sender, datagram, psk, server_random).0 == session,
        server_step(session, sender, datagram, psk, server_random).1 is WriteToTun || server_step(
            session,
            sender,
            datagram,
            psk,
            server_random,
        ).1 is Drop,
{
}

/// A session is established only by the confirmation that the handshake awaits,
/// from the address that began it, with the tag that only the pre-shared key and
/// the random values of this handshake give.
pub proof fn law_session_needs_confirmation(
    session: SessionView,
    sender: SocketAddress,
    datagram: Seq<u8>,
    psk: Seq<u8>,
    server_random: Seq<u8>,
)
    requires
        !(session is Established),
        server_step(session, sender, datagram, psk, server_random).0 is Established,
    ensures
        session matches SessionView::HandshakeInProgress {
            peer,
            client_random,
            server_random: sent_random,
        } && peer == sender && datagram == (protocol::HandshakeView::Confirm {
            tag: crypto::tag_for(
                protocol::MSG_TYPE_HANDSHAKE_CONFIRM,
                protocol::HANDSHAKE_VERSION,
                psk,
                client_random,
                sent_random,
            ),
        }).encoding(),
        server_step(session, sender, datagram, psk, server_random).1 is EstablishSession,
{
    protocol::law_decoded_handshake_encodes_back(datagram);
}

/// The session becomes established exactly when the action says so.
pub proof fn law_establish_action_is_the_transition(
    session: SessionView,
    sender: SocketAddress,
    datagram: Seq<u8>,
    psk: Seq<u8>,
    server_random: Seq<u8>,
)
    ensures
        server_step(session, sender, datagram, psk, server_random).1 is EstablishSession <==> {
            &&& !(session is Established)
            &&& server_step(session, sender, datagram, psk, server_random).0 is Established
        },
{
}

/// Whatever is sent goes back to the sender of the datagram, and a session is made
/// with no one else.
pub proof fn law_replies_go_to_the_sender(
    session: SessionView,
    sender: SocketAddress,
    datagram: Seq<u8>,
    psk: Seq<u8>,
    server_random: Seq<u8>,
)
    ensures
        match server_step(session, sender, datagram, psk, server_random).1 {
            ActionView::Reply(to, _) => to == sender,
            ActionView::EstablishSession { peer, .. } => peer == sender,
            _ => true,
        },
{
}

/// A confirmation with a wrong tag, from the awaited address, is dropped and ends
/// the handshake.
pub proof fn law_wrong_confirmation_resets(
    session: SessionView,
    sender: SocketAddress,
    tag: Seq<u8>,
    psk: Seq<u8>,
    server_random: Seq<u8>,
)
    requires
        tag.len() == HANDSHAKE_TAG_SIZE,
        session.awaits(sender),
        tag != crypto::tag_for(
            protocol::MSG_TYPE_HANDSHAKE_CONFIRM,
            protocol::HANDSHAKE_VERSION,
            psk,
            session->client_random,
            session->server_random,
        ),
    ensures
        server_step(
            session,
            sender,
            protocol::HandshakeView::Confirm { tag }.encoding(),
            psk,
            server_random,
        ) == (SessionView::NoSession, ActionView::Drop),
{
    protocol::law_handshake_round_trip(protocol::HandshakeView::Confirm { tag });
}

/// Malformed datagrams, responses, inits of another version, and confirmations
/// from an address that is not awaited change nothing and are not answered.
pub proof fn law_unacceptable_messages_change_nothing(
    session: SessionView,
    sender: SocketAddress,
    datagram: Seq<u8>,
    psk: Seq<u8>,
    server_random: Seq<u8>,
)
    requires
        match protocol::decoded_udp(datagram) {
            Err(_) => true,
            Ok(protocol::UdpView::Handshake(protocol::HandshakeView::Response { .. })) => true,
            Ok(protocol::UdpView::Handshake(protocol::HandshakeView::Init { version, .. })) => version
                != protocol::HANDSHAKE_VERSION,
            Ok(protocol::UdpView::Handshake(protocol::HandshakeView::Confirm { .. })) =>
            !session.awaits(sender),
            Ok(protocol::UdpView::EncryptedData(_)) => !(session is Established) || session.peer()
                != Some(sender),
        },
    ensures
        server_step(session, sender, datagram, psk, server_random) == (session, ActionView::Drop),
{
}

/// A packet that the client seals in the session reaches the tunnel device
/// unchanged.
pub proof fn law_client_packet_is_delivered(
    session: SessionView,
    sender: SocketAddress,
    datagram: Seq<u8>,
    packet: Seq<u8>,
    psk: Seq<u8>,
    server_random: Seq<u8>,
)
    requires
        session is Established,
        session.peer() == Some(sender),
        transport::received_packet(
            session->client_to_server_key,
            Direction::ClientToServer,
            datagram,
        ) == Ok::<Seq<u8>, transport::DropReason>(packet),
    ensures
        server_step(session, sender, datagram, psk, server_random) == (
            session,
            ActionView::WriteToTun(packet),
        ),
{
}

/// A datagram as it reaches the server, with the random value that the server
/// would answer with.
pub struct Arrival {
    pub sender: SocketAddress,
    pub datagram: Seq<u8>,
    pub server_random: Seq<u8>,
}

/// The state after a run of arrivals.
pub open spec fn state_after(start: SessionView, run: Seq<Arrival>, psk: Seq<u8>) -> SessionView
    decreases run.len(),
{
    if run.len() == 0 {
        start
    } else {
        let a = run.last();
        server_step(
            state_after(start, run.drop_last(), psk),
            a.sender,
            a.datagram,
            psk,
            a.server_random,
        ).0
    }
}

/// The action for arrival number `i` of a run.
pub open spec fn action_at(start: SessionView, run: Seq<Arrival>, psk: Seq<u8>, i: int) -> ActionView {
    server_step(
        state_after(start, run.take(i), psk),
        run[i].sender,
        run[i].datagram,
        psk,
        run[i].server_random,
    ).1
}

proof fn lemma_established_by(run: Seq<Arrival>, psk: Seq<u8>)
    requires
        state_after(SessionView::NoSession, run, psk) is Established,
    ensures
        exists|j: int|
            0 <= j < run.len() && #[trigger] action_at(
                SessionView::NoSession,
                run,
                psk,
                j,
            ) is EstablishSession,
    decreases run.len(),
{
    let start = SessionView::NoSession;
    if run.len() > 0 {
        let front = run.drop_last();
        let last = run.len() - 1;
        assert(run.take(last) =~= front);
        if state_after(start, front, psk) is Established {
            lemma_established_by(front, psk);
            let j = choose|j: int|
                0 <= j < front.len() && #[trigger] action_at(start, front, psk, j) is EstablishSession;
            assert(run.take(j) =~= front.take(j));
            assert(action_at(start, run, psk, j) is EstablishSession);
        } else {
            assert(action_at(start, run, psk, last) is EstablishSession);
        }
    }
}

/// In every run of a fresh server, a packet is written to the tunnel device only
/// after the session was established.
pub proof fn law_establishment_precedes_data(run: Seq<Arrival>, psk: Seq<u8>, i: int)
    requires
        0 <= i < run.len(),
        action_at(SessionView::NoSession, run, psk, i) is WriteToTun,
    ensures
        exists|j: int|
            0 <= j < i && #[trigger] action_at(
                SessionView::NoSession,
                run,
                psk,
                j,
            ) is EstablishSession,
{
    let start = SessionView::NoSession;
    lemma_established_by(run.take(i), psk);
    let j = choose|j: int|
        0 <= j < i && #[trigger] action_at(start, run.take(i), psk, j) is EstablishSession;
    assert(run.take(i).take(j) =~= run.take(j));
    assert(action_at(start, run, psk, j) is EstablishSession);
}

proof fn lemma_stays_established(run: Seq<Arrival>, psk: Seq<u8>, i: int, j: int)
    requires
        0 <= i <= j <= run.len(),
        state_after(SessionView::NoSession, run.take(i), psk) is Established,
    ensures
        state_after(SessionView::NoSession, run.take(j), psk) == state_after(
            SessionView::NoSession,
            run.take(i),
            psk,
        ),
    decreases j,
{
    if i < j {
        lemma_stays_established(run, psk, i, j - 1);
        assert(run.take(j).drop_last() =~= run.take(j - 1));
    }
}

/// In every run of a fresh server at most one session is established.
pub proof fn law_one_session(run: Seq<Arrival>, psk: Seq<u8>, i: int, j: int)
    requires
        0 <= i < run.len(),
        0 <= j < run.len(),
        action_at(SessionView::NoSession, run, psk, i) is EstablishSession,
        action_at(SessionView::NoSession, run, psk, j) is EstablishSession,
    ensures
        i == j,
{
    let start = SessionView::NoSession;
    assert(run.take(i + 1).drop_last() =~= run.take(i));
    assert(run.take(j + 1).drop_last() =~= run.take(j));
    if i < j {
        lemma_stays_established(run, psk, i + 1, j);
    }
    if j < i {
        lemma_stays_established(run, psk, j + 1, i);
    }
}

/// A datagram calls for a response exactly if it is answered, whatever random value the
/// answer then holds; and only a datagram that moves the session changes it.
pub proof fn law_what_calls_for_a_response(
    session: SessionView,
    sender: SocketAddress,
    datagram: Seq<u8>,
    psk: Seq<u8>,
    server_random: Seq<u8>,
)
    ensures
        calls_for_response(session, datagram) <==> server_step(
            session,
            sender,
            datagram,
            psk,
            server_random,
        ).1 is Reply,
        !moves_session(session, sender, datagram) ==> server_step(
            session,
            sender,
            datagram,
            psk,
            server_random,
        ).0 == session,
        !calls_for_response(session, datagram) ==> forall|other: Seq<u8>|
            #[trigger] server_step(session, sender, datagram, psk, other) == server_step(
                session,
                sender,
                datagram,
                psk,
                server_random,
            ),
{
}

/// An init of this version is answered unless a session is established: the server
/// remembers who asked and both random values, and answers with its own random value and
/// the tag over both.
pub proof fn law_init_is_answered(
    session: SessionView,
    sender: SocketAddress,
    client_random: Seq<u8>,
    psk: Seq<u8>,
    server_random: Seq<u8>,
)
    requires
        !(session is Established),
        client_random.len() == 32,
    ensures
        server_step(
            session,
            sender,
            seq![1u8, 1u8] + client_random,
            psk,
            server_random,
        ) == (
            SessionView::HandshakeInProgress { peer: sender, client_random, server_random },
            ActionView::Reply(
                sender,
                seq![2u8, 1u8] + server_random + crypto::tag_for(
                    2,
                    1,
                    psk,
                    client_random,
                    server_random,
                ),
            ),
        ),
{
    let m = protocol::HandshakeView::Init { version: 1, client_random };
    protocol::law_handshake_round_trip(m);
    assert(m.encoding() =~= seq![1u8, 1u8] + client_random);
    let tag = crypto::tag_for(2, 1, psk, client_random, server_random);
    assert(response_bytes(server_random, tag) =~= seq![2u8, 1u8] + server_random + tag);
}

/// The confirmation that is awaited establishes the session: its sender is the peer, and
/// each direction has the key that both random values give it, with nothing sent yet.
pub proof fn law_confirmation_establishes_the_session(
    sender: SocketAddress,
    client_random: Seq<u8>,
    server_random: Seq<u8>,
    psk: Seq<u8>,
    other_random: Seq<u8>,
)
    ensures
        ({
            let awaited = SessionView::HandshakeInProgress {
                peer: sender,
                client_random,
                server_random,
            };
            let confirm = seq![3u8] + crypto::tag_for(3, 1, psk, client_random, server_random);
            server_step(awaited, sender, confirm, psk, other_random) == (
                SessionView::Established {
                    peer: sender,
                    client_to_server_key: crypto::session_key(
                        crypto::CLIENT_TO_SERVER_LABEL@,
                        psk,
                        client_random,
                        server_random,
                    ),
                    client_to_server_counter: 0,
                },
                ActionView::EstablishSession {
                    peer: sender,
                    server_to_client_key: crypto::session_key(
                        crypto::SERVER_TO_CLIENT_LABEL@,
                        psk,
                        client_random,
                        server_random,
                    ),
                    counter: 0,
                },
            )
        }),
{
    let m = protocol::HandshakeView::Confirm {
        tag: crypto::tag_for(3, 1, psk, client_random, server_random),
    };
    protocol::law_handshake_round_trip(m);
}

/// A stranger changes nothing and hears nothing: while a session is established whatever it
/// sends, and while a handshake is under way whatever it sends but an init of its own.
pub proof fn law_strangers_are_ignored(
    peer: SocketAddress,
    stranger: SocketAddress,
    datagram: Seq<u8>,
    psk: Seq<u8>,
    key: Seq<u8>,
    counter: u64,
    client_random: Seq<u8>,
    sent_random: Seq<u8>,
    server_random: Seq<u8>,
)
    requires
        stranger != peer,
    ensures
        ({
            let established = SessionView::Established {
                peer,
                client_to_server_key: key,
                client_to_server_counter: counter,
            };
            server_step(established, stranger, datagram, psk, server_random) == (
                established,
                ActionView::Drop,
            )
        }),
        datagram.len() == 0 || datagram[0] != 1 ==> ({
            let awaited = SessionView::HandshakeInProgress {
                peer,
                client_random,
                server_random: sent_random,
            };
            server_step(awaited, stranger, datagram, psk, server_random) == (
                awaited,
                ActionView::Drop,
            )
        }),
        datagram.len() == 0 || datagram[0] != 1 ==> server_step(
            SessionView::NoSession,
            stranger,
            datagram,
            psk,
            server_random,
        ) == (SessionView::NoSession, ActionView::Drop),
{
    protocol::law_what_is_a_datagram(datagram);
}

/// The awaited sender ends the handshake with a confirmation whose tag is not the one over
/// both random values, and with nothing else but a new init.
pub proof fn law_only_a_wrong_tag_ends_a_handshake(
    peer: SocketAddress,
    datagram: Seq<u8>,
    psk: Seq<u8>,
    client_random: Seq<u8>,
    sent_random: Seq<u8>,
    server_random: Seq<u8>,
)
    ensures
        ({
            let awaited = SessionView::HandshakeInProgress {
                peer,
                client_random,
                server_random: sent_random,
            };
            let step = server_step(awaited, peer, datagram, psk, server_random);
            let confirms = datagram.len() == 33 && datagram[0] == 3;
            let right = datagram.skip(1) == crypto::tag_for(3, 1, psk, client_random, sent_random);
            &&& confirms && !right ==> step == (SessionView::NoSession, ActionView::Drop)
            &&& confirms && right ==> step.0 is Established
            &&& !confirms && (datagram.len() == 0 || datagram[0] != 1) ==> step == (
                awaited,
                ActionView::Drop,
            )
        }),
{
    protocol::law_what_is_a_datagram(datagram);
}

/// The peer of an established session is heard, and only its encrypted data: a packet that
/// opens with the session's key in the client's direction is written, as it is.
pub proof fn law_the_peer_is_heard(
    peer: SocketAddress,
    datagram: Seq<u8>,
    psk: Seq<u8>,
    key: Seq<u8>,
    counter: u64,
    server_random: Seq<u8>,
)
    ensures
        ({
            let established = SessionView::Established {
                peer,
                client_to_server_key: key,
                client_to_server_counter: counter,
            };
            let step = server_step(established, peer, datagram, psk, server_random);
            let received = transport::received_packet(key, Direction::ClientToServer, datagram);
            &&& step.0 == established
            &&& received matches Ok(packet) ==> step.1 == ActionView::WriteToTun(packet)
            &&& received is Err ==> step.1 is Drop
        }),
{
    protocol::law_what_is_a_datagram(datagram);
}

} // verus!
