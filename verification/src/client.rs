//! The client's side of the handshake and of routing.
//!
//! ```text
//! client -> server: init     { version, client random }
//! server -> client: response { version, server random, tag }
//! client -> server: confirm  { tag }
//! ```
//!
//! The client checks the server's tag, derives the session keys and proves with a
//! tag of its own that it knows the pre-shared key too.
use vstd::prelude::*;

use crate::config::{ClientRoutingSettings, RoutingMode};
use crate::crypto::{SessionCiphers, HANDSHAKE_TAG_SIZE, KEY_SIZE, RANDOM_SIZE};
use crate::error::{Error, ErrorKind, ErrorView};
use crate::net::{IpAddress, SocketAddress};
use crate::protocol::{HandshakeError, HandshakeMessage, UdpMessage};
use crate::psk::{PskError, PskErrorView};
use crate::routing::{ClientRoutingMode, ClientRoutingPlan, RouteVia};
use crate::{config, crypto, net, protocol, psk, routing, server, text, tun};

verus! {

/// How long the client waits for the response, in seconds. There is one wait and no
/// retry.
pub const HANDSHAKE_TIMEOUT_SECS: u64 = 5;

/// Loads the pre-shared key of a client's file.
pub fn load_psk(contents: &str) -> (r: Result<[u8; KEY_SIZE], PskError>)
    ensures
        match r {
            Ok(key) => psk::configured_psk(contents@) == Ok::<Seq<u8>, PskErrorView>(key@),
            Err(e) => psk::configured_psk(contents@) == Err::<Seq<u8>, PskErrorView>(e@),
        },
        r matches Ok(key) ==> psk::spells_key(contents@, key@),
{
    psk::load_psk(contents)
}

/// Why a handshake failed.
#[derive(Debug, Clone, Copy, PartialEq, Eq, Structural)]
pub enum HandshakeFailure {
    /// No response came in time.
    TimedOut,
    /// The response is no message.
    Malformed(HandshakeError),
    /// The message is no response.
    NotAResponse,
    /// The response has a version that is not supported.
    UnsupportedVersion(u8),
    /// The server does not know the pre-shared key.
    AuthenticationFailed,
}

impl HandshakeFailure {
    /// The failure as kind and text.
    pub open spec fn described(self) -> ErrorView {
        match self {
            HandshakeFailure::TimedOut => ErrorView {
                kind: ErrorKind::TimedOut,
                message: "timed out waiting for handshake response"@,
            },
            HandshakeFailure::Malformed(e) => ErrorView {
                kind: ErrorKind::InvalidData,
                message: "malformed handshake response: "@ + e.message_chars(),
            },
            HandshakeFailure::NotAResponse => ErrorView {
                kind: ErrorKind::InvalidData,
                message: "expected a HandshakeResponse"@,
            },
            HandshakeFailure::UnsupportedVersion(version) => ErrorView {
                kind: ErrorKind::InvalidData,
                message: "unsupported handshake version "@ + text::decimal_chars(version as nat),
            },
            HandshakeFailure::AuthenticationFailed => ErrorView {
                kind: ErrorKind::PermissionDenied,
                message: "handshake authentication failed"@,
            },
        }
    }

    /// Describes the failure.
    pub fn describe(&self) -> (e: Error)
        ensures
            e@ == self.described(),
    {
        match self {
            HandshakeFailure::TimedOut => Error::new(
                ErrorKind::TimedOut,
                "timed out waiting for handshake response",
            ),
            HandshakeFailure::Malformed(e) => {
                let mut m = "malformed handshake response: ".to_owned();
                m.append(e.message().as_str());
                Error { kind: ErrorKind::InvalidData, message: m }
            },
            HandshakeFailure::NotAResponse => Error::new(
                ErrorKind::InvalidData,
                "expected a HandshakeResponse",
            ),
            HandshakeFailure::UnsupportedVersion(version) => {
                let mut m = "unsupported handshake version ".to_owned();
                m.append(text::decimal(*version as u64).as_str());
                Error { kind: ErrorKind::InvalidData, message: m }
            },
            HandshakeFailure::AuthenticationFailed => Error::new(
                ErrorKind::PermissionDenied,
                "handshake authentication failed",
            ),
        }
    }
}

/// The failure to receive a response: a wait that ran out, however the host words
/// it, or something else.
pub fn receive_failure(e: Error) -> (r: Error)
    ensures
        r@ == (if e.kind == ErrorKind::WouldBlock || e.kind == ErrorKind::TimedOut {
            HandshakeFailure::TimedOut.described()
        } else {
            e@
        }),
{
    if e.kind == ErrorKind::WouldBlock || e.kind == ErrorKind::TimedOut {
        HandshakeFailure::TimedOut.describe()
    } else {
        e
    }
}

/// The init of a handshake.
pub open spec fn init_bytes(client_random: Seq<u8>) -> Seq<u8> {
    protocol::HandshakeView::Init { version: protocol::HANDSHAKE_VERSION, client_random }.encoding()
}

/// The init that opens a handshake with the given random value.
pub fn start_handshake(client_random: [u8; RANDOM_SIZE]) -> (datagram: Vec<u8>)
    ensures
        datagram@ == init_bytes(client_random@),
{
    HandshakeMessage::Init { version: protocol::HANDSHAKE_VERSION, client_random }.encode()
}

/// Opens a handshake: draws the client's random value and makes the init that
/// carries it.
pub fn begin_handshake() -> (r: ([u8; RANDOM_SIZE], Vec<u8>))
    ensures
        r.1@ == init_bytes(r.0@),
{
    let client_random = crypto::generate_random();
    (client_random, start_handshake(client_random))
}

/// The random value and the tag of a response.
pub open spec fn response_in(datagram: Seq<u8>) -> Result<(Seq<u8>, Seq<u8>), HandshakeFailure> {
    match protocol::decoded_udp(datagram) {
        Err(e) => Err(HandshakeFailure::Malformed(e)),
        Ok(protocol::UdpView::Handshake(
            protocol::HandshakeView::Response { version, server_random, tag },
        )) => if version != protocol::HANDSHAKE_VERSION {
            Err(HandshakeFailure::UnsupportedVersion(version))
        } else {
            Ok((server_random, tag))
        },
        Ok(_) => Err(HandshakeFailure::NotAResponse),
    }
}

/// Reads a response.
pub fn read_response(datagram: &[u8]) -> (r: Result<
    ([u8; RANDOM_SIZE], [u8; HANDSHAKE_TAG_SIZE]),
    HandshakeFailure,
>)
    ensures
        match r {
            Ok((server_random, tag)) => response_in(datagram@) == Ok::<
                (Seq<u8>, Seq<u8>),
                HandshakeFailure,
            >((server_random@, tag@)),
            Err(e) => response_in(datagram@) == Err::<(Seq<u8>, Seq<u8>), HandshakeFailure>(e),
        },
{
    match UdpMessage::decode(datagram) {
        Err(e) => Err(HandshakeFailure::Malformed(e)),
        Ok(UdpMessage::Handshake(HandshakeMessage::Response { version, server_random, tag })) => {
            if version != protocol::HANDSHAKE_VERSION {
                Err(HandshakeFailure::UnsupportedVersion(version))
            } else {
                Ok((server_random, tag))
            }
        },
        Ok(_) => Err(HandshakeFailure::NotAResponse),
    }
}

/// What the client sends to conclude a handshake, and the ciphers of the session.
pub struct Handshaken {
    pub confirm: Vec<u8>,
    pub session_ciphers: SessionCiphers,
}

/// The confirmation with the given tag.
pub open spec fn confirm_bytes(tag: Seq<u8>) -> Seq<u8> {
    protocol::HandshakeView::Confirm { tag }.encoding()
}

/// Concludes a handshake once both tags and the session keys are computed: the
/// received tag has to be the expected one.
pub fn conclude(
    received: &[u8; HANDSHAKE_TAG_SIZE],
    expected: &[u8; HANDSHAKE_TAG_SIZE],
    confirm_tag: [u8; HANDSHAKE_TAG_SIZE],
    session_ciphers: SessionCiphers,
) -> (r: Result<Handshaken, HandshakeFailure>)
    ensures
        match r {
            Ok(done) => {
                &&& received@ == expected@
                &&& done.confirm@ == confirm_bytes(confirm_tag@)
                &&& done.session_ciphers == session_ciphers
            },
            Err(e) => received@ != expected@ && e == HandshakeFailure::AuthenticationFailed,
        },
{
    if !crypto::verify_tag(expected, received) {
        return Err(HandshakeFailure::AuthenticationFailed);
    }
    let confirm = HandshakeMessage::Confirm { tag: confirm_tag }.encode();
    Ok(Handshaken { confirm, session_ciphers })
}

/// The confirmation that answers a response, and the server's random value; or why
/// the handshake fails.
pub open spec fn answered_response(
    datagram: Seq<u8>,
    psk: Seq<u8>,
    client_random: Seq<u8>,
) -> Result<(Seq<u8>, Seq<u8>), HandshakeFailure> {
    match response_in(datagram) {
        Err(e) => Err(e),
        Ok((server_random, tag)) => if tag != crypto::tag_for(
            protocol::MSG_TYPE_HANDSHAKE_RESPONSE,
            protocol::HANDSHAKE_VERSION,
            psk,
            client_random,
            server_random,
        ) {
            Err(HandshakeFailure::AuthenticationFailed)
        } else {
            Ok(
                (
                    confirm_bytes(
                        crypto::tag_for(
                            protocol::MSG_TYPE_HANDSHAKE_CONFIRM,
                            protocol::HANDSHAKE_VERSION,
                            psk,
                            client_random,
                            server_random,
                        ),
                    ),
                    server_random,
                ),
            )
        },
    }
}

/// Handles the response to the init that carried `client_random`: checks that the
/// server knows the pre-shared key, derives the session keys and makes the
/// confirmation.
pub fn handle_response(
    datagram: &[u8],
    psk: &[u8; KEY_SIZE],
    client_random: &[u8; RANDOM_SIZE],
) -> (r: Result<Handshaken, HandshakeFailure>)
    ensures
        match r {
            Ok(done) => answered_response(datagram@, psk@, client_random@) matches Ok(
                (confirm, server_random),
            ) && done.confirm@ == confirm && done.session_ciphers.derived(
                psk@,
                client_random@,
                server_random,
            ),
            Err(e) => answered_response(datagram@, psk@, client_random@) == Err::<
                (Seq<u8>, Seq<u8>),
                HandshakeFailure,
            >(e),
        },
{
    let (server_random, tag) = match read_response(datagram) {
        Ok(response) => response,
        Err(e) => return Err(e),
    };
    let expected = crypto::handshake_tag(
        protocol::MSG_TYPE_HANDSHAKE_RESPONSE,
        protocol::HANDSHAKE_VERSION,
        psk,
        client_random,
        &server_random,
    );
    let confirm_tag = crypto::handshake_tag(
        protocol::MSG_TYPE_HANDSHAKE_CONFIRM,
        protocol::HANDSHAKE_VERSION,
        psk,
        client_random,
        &server_random,
    );
    let session_ciphers = crypto::derive_session_ciphers(psk, client_random, &server_random);
    conclude(&tag, &expected, confirm_tag, session_ciphers)
}

/// A client whose handshake is complete.
pub struct AuthenticatedClient {
    /// The server's address, as the host resolved it.
    pub server: SocketAddress,
    pub session_ciphers: SessionCiphers,
}

impl AuthenticatedClient {
    /// The server's IP address.
    pub fn server_ip(&self) -> (ip: IpAddress)
        ensures
            ip == (match self.server {
                SocketAddress::V4 { ip, .. } => IpAddress::V4(ip),
                SocketAddress::V6 { ip, .. } => IpAddress::V6(ip),
            }),
    {
        self.server.ip()
    }
}

/// How a relay ended.
#[derive(Debug, Clone, Copy, PartialEq, Eq, Structural)]
pub enum RelayEnd {
    /// The process was asked to stop: the sending side is left to the end of the
    /// process.
    Shutdown,
    /// The relay failed: the sending side is waited for.
    Failure,
}

/// Tells a relay that was interrupted because the process is to stop from one that
/// failed.
pub fn relay_end(failure: &Error, shutdown_requested: bool) -> (end: RelayEnd)
    ensures
        end == (if failure.kind == ErrorKind::Interrupted && shutdown_requested {
            RelayEnd::Shutdown
        } else {
            RelayEnd::Failure
        }),
{
    if failure.kind == ErrorKind::Interrupted && shutdown_requested {
        RelayEnd::Shutdown
    } else {
        RelayEnd::Failure
    }
}

/// The error of routing to a server that is not reached by IPv4.
pub open spec fn ipv6_server() -> ErrorView {
    ErrorView {
        kind: ErrorKind::Unsupported,
        message: "client routing (split/full) only supports an IPv4 VPN server endpoint in this version; the resolved server address is IPv6"@,
    }
}

/// The address whose route has to be known, or why nothing can be routed.
pub open spec fn endpoint_to_route(mode: RoutingMode, server_ip: IpAddress) -> Result<
    Option<Seq<char>>,
    ErrorView,
> {
    if mode == RoutingMode::Disabled {
        Ok(None)
    } else {
        match server_ip {
            IpAddress::V4(ip) => Ok(Some(net::ipv4_chars(ip))),
            IpAddress::V6(_) => Err(ipv6_server()),
        }
    }
}

/// The address whose route has to be known before routes are planned: none if
/// nothing is routed. A server that is reached by IPv6 is an error, not passed
/// over.
pub fn routed_endpoint(settings: &ClientRoutingSettings, server_ip: IpAddress) -> (r: Result<
    Option<String>,
    Error,
>)
    ensures
        match r {
            Ok(None) => settings.mode == RoutingMode::Disabled,
            Ok(Some(endpoint)) => settings.mode != RoutingMode::Disabled && server_ip is V4
                && endpoint@ == net::ipv4_chars(server_ip->V4_0),
            Err(e) => settings.mode != RoutingMode::Disabled && server_ip is V6 && e@
                == ipv6_server(),
        },
        match r {
            Ok(endpoint) => Ok(config::optional(endpoint)),
            Err(e) => Err(e@),
        } == endpoint_to_route(settings.mode, server_ip),
{
    if settings.mode == RoutingMode::Disabled {
        return Ok(None);
    }
    match server_ip {
        IpAddress::V4(ip) => Ok(Some(net::format_ipv4(ip))),
        IpAddress::V6(_) => Err(
            Error::new(
                ErrorKind::Unsupported,
                "client routing (split/full) only supports an IPv4 VPN server endpoint in this version; the resolved server address is IPv6",
            ),
        ),
    }
}

/// The routing mode that settings ask for.
pub open spec fn requested_mode(settings: config::ClientRoutingSettingsView) -> routing::ClientRoutingModeView {
    match settings.mode {
        RoutingMode::Disabled => routing::ClientRoutingModeView::Disabled,
        RoutingMode::Split => routing::ClientRoutingModeView::Split(settings.routes),
        RoutingMode::Full => routing::ClientRoutingModeView::Full,
    }
}

/// The routes that settings ask for; `server_route` is how the host reaches the
/// server before any of them is added.
pub open spec fn requested_routes(
    settings: config::ClientRoutingSettingsView,
    endpoint: Seq<char>,
    server_route: routing::RouteViaView,
) -> Result<Seq<routing::ClientRouteView>, ErrorView> {
    match routing::planned_routes(
        requested_mode(settings),
        tun::CLIENT_TUN_NAME@,
        endpoint,
        server_route,
    ) {
        Ok(routes) => Ok(routes),
        Err(cidr) => Err(
            ErrorView {
                kind: ErrorKind::InvalidInput,
                message: routing::invalid_cidr_chars(text::debug_chars(cidr)),
            },
        ),
    }
}

/// Plans the routes that settings ask for.
pub fn configure_client_routing(
    settings: &ClientRoutingSettings,
    endpoint: &str,
    server_route: &RouteVia,
) -> (r: Result<ClientRoutingPlan, Error>)
    ensures
        match r {
            Ok(plan) => requested_routes(settings@, endpoint@, server_route@) == Ok::<
                Seq<routing::ClientRouteView>,
                ErrorView,
            >(plan@),
            Err(e) => requested_routes(settings@, endpoint@, server_route@) == Err::<
                Seq<routing::ClientRouteView>,
                ErrorView,
            >(e@),
        },
{
    let mode = match settings.mode {
        RoutingMode::Disabled => ClientRoutingMode::Disabled,
        RoutingMode::Split => ClientRoutingMode::Split(
            routing::transaction::copy_strings(&settings.routes),
        ),
        RoutingMode::Full => ClientRoutingMode::Full,
    };
    match routing::build_client_routing_plan(&mode, tun::CLIENT_TUN_NAME, endpoint, server_route) {
        Ok(plan) => Ok(plan),
        Err(e) => Err(Error { kind: ErrorKind::InvalidInput, message: e.message() }),
    }
}

/// A handshake between a client and a server that know the same pre-shared key
/// completes: the server's response satisfies the client, the client's
/// confirmation satisfies the server, and both then hold the same two keys.
pub proof fn law_handshake_completes(
    session: server::SessionView,
    peer: SocketAddress,
    psk: Seq<u8>,
    client_random: Seq<u8>,
    server_random: Seq<u8>,
    other_random: Seq<u8>,
)
    requires
        !(session is Established),
        client_random.len() == RANDOM_SIZE,
        server_random.len() == RANDOM_SIZE,
    ensures
        ({
            let first = server::server_step(
                session,
                peer,
                init_bytes(client_random),
                psk,
                server_random,
            );
            let response = first.1->Reply_1;
            let answer = answered_response(response, psk, client_random);
            let second = server::server_step(
                first.0,
                peer,
                answer->Ok_0.0,
                psk,
                other_random,
            );
            &&& first.1 is Reply
            &&& first.1->Reply_0 == peer
            &&& answer is Ok
            &&& answer->Ok_0.1 == server_random
            &&& second.0 == (server::SessionView::Established {
                peer,
                client_to_server_key: crypto::session_key(
                    crypto::CLIENT_TO_SERVER_LABEL@,
                    psk,
                    client_random,
                    server_random,
                ),
                client_to_server_counter: 0,
            })
            &&& second.1 == (server::ActionView::EstablishSession {
                peer,
                server_to_client_key: crypto::session_key(
                    crypto::SERVER_TO_CLIENT_LABEL@,
                    psk,
                    client_random,
                    server_random,
                ),
                counter: 0,
            })
        }),
{
    let init = protocol::HandshakeView::Init {
        version: protocol::HANDSHAKE_VERSION,
        client_random,
    };
    protocol::law_handshake_round_trip(init);
    let tag = crypto::tag_for(
        protocol::MSG_TYPE_HANDSHAKE_RESPONSE,
        protocol::HANDSHAKE_VERSION,
        psk,
        client_random,
        server_random,
    );
    let response = protocol::HandshakeView::Response {
        version: protocol::HANDSHAKE_VERSION,
        server_random,
        tag,
    };
    protocol::law_handshake_round_trip(response);
    let confirm = protocol::HandshakeView::Confirm {
        tag: crypto::tag_for(
            protocol::MSG_TYPE_HANDSHAKE_CONFIRM,
            protocol::HANDSHAKE_VERSION,
            psk,
            client_random,
            server_random,
        ),
    };
    protocol::law_handshake_round_trip(confirm);
}

/// A client rejects the response of a server that made its tag with another
/// pre-shared key, unless the two keys give the same tag.
pub proof fn law_wrong_server_is_rejected(
    client_psk: Seq<u8>,
    server_psk: Seq<u8>,
    client_random: Seq<u8>,
    server_random: Seq<u8>,
)
    requires
        server_random.len() == RANDOM_SIZE,
        crypto::tag_for(
            protocol::MSG_TYPE_HANDSHAKE_RESPONSE,
            protocol::HANDSHAKE_VERSION,
            server_psk,
            client_random,
            server_random,
        ) != crypto::tag_for(
            protocol::MSG_TYPE_HANDSHAKE_RESPONSE,
            protocol::HANDSHAKE_VERSION,
            client_psk,
            client_random,
            server_random,
        ),
    ensures
        answered_response(
            server::response_bytes(
                server_random,
                crypto::tag_for(
                    protocol::MSG_TYPE_HANDSHAKE_RESPONSE,
                    protocol::HANDSHAKE_VERSION,
                    server_psk,
                    client_random,
                    server_random,
                ),
            ),
            client_psk,
            client_random,
        ) == Err::<(Seq<u8>, Seq<u8>), HandshakeFailure>(HandshakeFailure::AuthenticationFailed),
{
    protocol::law_handshake_round_trip(
        protocol::HandshakeView::Response {
            version: protocol::HANDSHAKE_VERSION,
            server_random,
            tag: crypto::tag_for(
                protocol::MSG_TYPE_HANDSHAKE_RESPONSE,
                protocol::HANDSHAKE_VERSION,
                server_psk,
                client_random,
                server_random,
            ),
        },
    );
}

/// The routes that a client's settings ask for go through the client's own tunnel device:
/// all of them in split mode, where they lead to the configured networks, and all but
/// the first in full mode, which keeps the server's endpoint on the way it had. When
/// routing is disabled there are none.
pub proof fn law_requested_routes_use_the_client_device(
    settings: config::ClientRoutingSettingsView,
    endpoint: Seq<char>,
    server_route: routing::RouteViaView,
)
    ensures
        ({
            let requested = requested_routes(settings, endpoint, server_route);
            let tunnel = routing::RouteViaView::Device(tun::CLIENT_TUN_NAME@);
            &&& settings.mode == RoutingMode::Disabled ==> requested == Ok::<
                Seq<routing::ClientRouteView>,
                ErrorView,
            >(Seq::empty())
            &&& settings.mode == RoutingMode::Full ==> requested is Ok && requested->Ok_0.len() == 3
                && requested->Ok_0[0].destination == endpoint + "/32"@ && requested->Ok_0[0].via
                == server_route && requested->Ok_0[1].via == tunnel && requested->Ok_0[2].via
                == tunnel
            &&& settings.mode == RoutingMode::Split ==> (requested matches Ok(routes) ==> {
                &&& forall|i: int|
                    0 <= i < routes.len() ==> (#[trigger] routes[i]).via == tunnel
                        && settings.routes.contains(routes[i].destination)
                &&& forall|network: Seq<char>| #[trigger]
                    settings.routes.contains(network) ==> exists|i: int|
                        0 <= i < routes.len() && (#[trigger] routes[i]).destination == network
                &&& forall|i: int, j: int|
                    0 <= i < j < routes.len() ==> (#[trigger] routes[i]).destination != (
                    #[trigger] routes[j]).destination
            })
            &&& settings.mode == RoutingMode::Split ==> (requested is Ok <==> forall|i: int|
                0 <= i < settings.routes.len() ==> routing::parsed_cidr(
                    #[trigger] settings.routes[i],
                ) is Some)
        }),
{
    let tunnel = tun::CLIENT_TUN_NAME@;
    routing::law_full_plan_pins_the_endpoint(tunnel, endpoint, server_route);
    routing::law_split_plan_order(settings.routes, tunnel, endpoint, server_route, 0);
    if settings.mode == RoutingMode::Split && requested_routes(
        settings,
        endpoint,
        server_route,
    ) is Ok {
        routing::law_split_plan(settings.routes, tunnel, endpoint, server_route);
    }
}

/// In full mode every IPv4 address but the server's goes through the client's tunnel
/// device, and the server's goes the way it went before.
pub proof fn law_full_mode_routes_all_but_the_server(
    settings: config::ClientRoutingSettingsView,
    server: u32,
    server_route: routing::RouteViaView,
    ip: u32,
)
    requires
        settings.mode == RoutingMode::Full,
    ensures
        ({
            let routes = requested_routes(settings, net::ipv4_chars(server), server_route)->Ok_0;
            let chosen = routing::chosen_route(routes, ip);
            &&& chosen is Some
            &&& 0 <= chosen->Some_0 < routes.len()
            &&& routes[chosen->Some_0].via == (if ip == server {
                server_route
            } else {
                routing::RouteViaView::Device(tun::CLIENT_TUN_NAME@)
            })
        }),
{
    routing::law_full_plan_pins_the_endpoint(
        tun::CLIENT_TUN_NAME@,
        net::ipv4_chars(server),
        server_route,
    );
    routing::law_full_plan_routes_all_but_the_server(
        tun::CLIENT_TUN_NAME@,
        server,
        server_route,
        ip,
    );
}

/// A network that is none is reported, quoted, as an invalid input; the first one is.
pub proof fn law_invalid_network_is_reported(
    settings: config::ClientRoutingSettingsView,
    endpoint: Seq<char>,
    server_route: routing::RouteViaView,
    i: int,
)
    requires
        settings.mode == RoutingMode::Split,
        0 <= i < settings.routes.len(),
        routing::parsed_cidr(settings.routes[i]) is None,
        forall|j: int|
            0 <= j < i ==> routing::parsed_cidr(#[trigger] settings.routes[j]) is Some,
    ensures
        requested_routes(settings, endpoint, server_route) == Err::<
            Seq<routing::ClientRouteView>,
            ErrorView,
        >(
            ErrorView {
                kind: ErrorKind::InvalidInput,
                message: "invalid IPv4 CIDR: "@ + text::debug_chars(settings.routes[i]),
            },
        ),
{
    routing::law_split_plan_order(
        settings.routes,
        tun::CLIENT_TUN_NAME@,
        endpoint,
        server_route,
        0,
    );
}

/// A response is answered only if it is, byte for byte, the response of a server that
/// knows the pre-shared key and answers this client's random value; the answer is then
/// the confirmation for the two random values.
pub proof fn law_only_the_right_response_is_answered(
    datagram: Seq<u8>,
    psk: Seq<u8>,
    client_random: Seq<u8>,
)
    ensures
        answered_response(datagram, psk, client_random) matches Ok((confirm, server_random))
            ==> datagram == (protocol::HandshakeView::Response {
            version: protocol::HANDSHAKE_VERSION,
            server_random,
            tag: crypto::tag_for(
                protocol::MSG_TYPE_HANDSHAKE_RESPONSE,
                protocol::HANDSHAKE_VERSION,
                psk,
                client_random,
                server_random,
            ),
        }).encoding() && server_random.len() == RANDOM_SIZE && confirm
            == (protocol::HandshakeView::Confirm {
            tag: crypto::tag_for(
                protocol::MSG_TYPE_HANDSHAKE_CONFIRM,
                protocol::HANDSHAKE_VERSION,
                psk,
                client_random,
                server_random,
            ),
        }).encoding(),
{
    if answered_response(datagram, psk, client_random) is Ok {
        protocol::law_decoded_handshake_encodes_back(datagram);
    }
}

/// What a response fails for: it is no message, it is another message, its version is
/// not supported, or its tag is wrong; the first of these that holds is reported.
pub proof fn law_failed_responses_are_told_apart(
    datagram: Seq<u8>,
    psk: Seq<u8>,
    client_random: Seq<u8>,
)
    ensures
        match protocol::decoded_udp(datagram) {
            Err(e) => answered_response(datagram, psk, client_random) == Err::<
                (Seq<u8>, Seq<u8>),
                HandshakeFailure,
            >(HandshakeFailure::Malformed(e)),
            Ok(protocol::UdpView::Handshake(
                protocol::HandshakeView::Response { version, server_random, tag },
            )) => if version != protocol::HANDSHAKE_VERSION {
                answered_response(datagram, psk, client_random) == Err::<
                    (Seq<u8>, Seq<u8>),
                    HandshakeFailure,
                >(HandshakeFailure::UnsupportedVersion(version))
            } else {
                answered_response(datagram, psk, client_random) is Ok <==> tag == crypto::tag_for(
                    protocol::MSG_TYPE_HANDSHAKE_RESPONSE,
                    protocol::HANDSHAKE_VERSION,
                    psk,
                    client_random,
                    server_random,
                )
            },
            Ok(_) => answered_response(datagram, psk, client_random) == Err::<
                (Seq<u8>, Seq<u8>),
                HandshakeFailure,
            >(HandshakeFailure::NotAResponse),
        },
{
}

/// How each failure of a handshake is told: a wait that ran out, a response that is none
/// or not for this version, and a server that does not know the key are four kinds.
pub proof fn law_failures_are_described(version: u8, e: HandshakeError)
    ensures
        HandshakeFailure::TimedOut.described() == (ErrorView {
            kind: ErrorKind::TimedOut,
            message: "timed out waiting for handshake response"@,
        }),
        HandshakeFailure::Malformed(e).described() == (ErrorView {
            kind: ErrorKind::InvalidData,
            message: "malformed handshake response: "@ + e.message_chars(),
        }),
        HandshakeFailure::NotAResponse.described() == (ErrorView {
            kind: ErrorKind::InvalidData,
            message: "expected a HandshakeResponse"@,
        }),
        HandshakeFailure::UnsupportedVersion(version).described() == (ErrorView {
            kind: ErrorKind::InvalidData,
            message: "unsupported handshake version "@ + text::decimal_chars(version as nat),
        }),
        HandshakeFailure::AuthenticationFailed.described() == (ErrorView {
            kind: ErrorKind::PermissionDenied,
            message: "handshake authentication failed"@,
        }),
{
}

/// Client and server hold the same keys after a handshake: what the client derives from a
/// response is what the server's session and its sending side have once the client's
/// confirmation has arrived.
pub proof fn law_both_sides_hold_the_same_keys(
    ciphers: SessionCiphers,
    peer: SocketAddress,
    psk: Seq<u8>,
    client_random: Seq<u8>,
    server_random: Seq<u8>,
    other_random: Seq<u8>,
)
    requires
        ciphers.derived(psk, client_random, server_random),
    ensures
        ({
            let awaited = server::SessionView::HandshakeInProgress {
                peer,
                client_random,
                server_random,
            };
            let confirm = seq![3u8] + crypto::tag_for(3, 1, psk, client_random, server_random);
            let (session, action) = server::server_step(awaited, peer, confirm, psk, other_random);
            &&& session is Established
            &&& session->client_to_server_key == ciphers.client_to_server.key()
            &&& session->client_to_server_counter == ciphers.client_to_server.counter()
            &&& action is EstablishSession
            &&& action->server_to_client_key == ciphers.server_to_client.key()
            &&& action->counter == ciphers.server_to_client.counter()
        }),
{
    server::law_confirmation_establishes_the_session(
        peer,
        client_random,
        server_random,
        psk,
        other_random,
    );
    crypto::law_derived_ciphers_hold_their_keys(ciphers, psk, client_random, server_random);
}

/// A client opens a handshake with its version and its random value as it is.
pub proof fn law_init_carries_the_random_value(client_random: Seq<u8>)
    ensures
        init_bytes(client_random) == seq![1u8, 1u8] + client_random,
{
    assert(init_bytes(client_random) =~= seq![1u8, 1u8] + client_random);
}

/// In split and in full mode the way to the server is asked for, by its IPv4 address;
/// routing to a server that is not reached by IPv4 is not supported, and said to be so.
/// When routing is disabled nothing is asked for, whatever the server's address.
pub proof fn law_routing_needs_ipv4(mode: RoutingMode, ip: u32, other: u128)
    ensures
        mode == RoutingMode::Split || mode == RoutingMode::Full ==> {
            &&& endpoint_to_route(mode, IpAddress::V4(ip)) matches Ok(Some(endpoint))
            &&& net::parsed_ipv4(endpoint) == Some(ip)
        },
        mode == RoutingMode::Split || mode == RoutingMode::Full ==> endpoint_to_route(
            mode,
            IpAddress::V6(other),
        ) == Err::<Option<Seq<char>>, ErrorView>(ipv6_server()),
        mode == RoutingMode::Disabled ==> endpoint_to_route(mode, IpAddress::V4(ip)) == Ok::<
            Option<Seq<char>>,
            ErrorView,
        >(None) && endpoint_to_route(mode, IpAddress::V6(other)) == Ok::<
            Option<Seq<char>>,
            ErrorView,
        >(None),
        ipv6_server().kind == ErrorKind::Unsupported,
        ipv6_server().message
            == "client routing (split/full) only supports an IPv4 VPN server endpoint in this version; the resolved server address is IPv6"@,
{
    net::law_ipv4_text_round_trip(ip);
}

} // verus!
