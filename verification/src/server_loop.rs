//! The server's receive loop as a sequence of decisions.
//!
//! The program carries out one action at a time and reports what came of it. The
//! tunnel device, the gateway and the sending side come into being only once a
//! session is established, in this order: the peer is published, the device is
//! created, the gateway is set up if it is wanted, the sending side is started.
//! Any failure ends the loop.
use vstd::prelude::*;

use crate::config::{RoutingSettings, RoutingSettingsView};
use crate::crypto::{Cipher, KEY_SIZE, RANDOM_SIZE};
use crate::error::{Error, ErrorKind, ErrorView};
use crate::net::SocketAddress;
use crate::routing::RoutingConfig;
use crate::server::{ActionView, ReceiveFailure, ServerAction, ServerSession, SessionView};
use crate::tun::TunnelAddressPlan;
use crate::{config, routing, server, tun};

verus! {

/// What the loop waits for.
#[derive(Debug, Clone, Copy, PartialEq, Eq, Structural)]
pub enum LoopStage {
    /// A datagram.
    Receiving,
    /// The reply being sent.
    Sending,
    /// The peer being published to the sending side.
    Publishing,
    /// The tunnel device being created.
    CreatingDevice,
    /// The gateway being set up.
    SettingUpGateway,
    /// The sending side being started.
    StartingUpload,
    /// A packet being written to the device.
    Writing,
    /// Nothing: the loop is over.
    Ended,
}

/// What is to be done next.
pub enum LoopAction {
    /// Wait for a datagram.
    Receive,
    /// Send these bytes to the address.
    Send(SocketAddress, Vec<u8>),
    /// Let the sending side use this peer and cipher.
    Publish(SocketAddress, Cipher),
    /// Create the tunnel device with this address.
    CreateDevice((u8, u8, u8, u8)),
    /// Set up this gateway.
    SetUpGateway(RoutingConfig),
    /// Start the sending side.
    StartUpload,
    /// Write this packet to the tunnel device.
    Write(Vec<u8>),
    /// Leave the loop: take the gateway back if there is one, and wait for the
    /// sending side first where `joins_upload` says so.
    End { failure: Option<Error>, joins_upload: bool, has_gateway: bool },
}

/// An action as a mathematical value.
pub enum LoopActionView {
    Receive,
    Send(SocketAddress, Seq<u8>),
    Publish { peer: SocketAddress, key: Seq<u8>, counter: u64 },
    CreateDevice((u8, u8, u8, u8)),
    SetUpGateway {
        vpn_subnet: Seq<char>,
        tun_interface: Seq<char>,
        outbound_interface: Option<Seq<char>>,
        address_plan: TunnelAddressPlan,
    },
    StartUpload,
    Write(Seq<u8>),
    End { failure: Option<ErrorView>, joins_upload: bool, has_gateway: bool },
}

impl View for LoopAction {
    type V = LoopActionView;

    open spec fn view(&self) -> LoopActionView {
        match *self {
            LoopAction::Receive => LoopActionView::Receive,
            LoopAction::Send(peer, bytes) => LoopActionView::Send(peer, bytes@),
            LoopAction::Publish(peer, cipher) => LoopActionView::Publish {
                peer,
                key: cipher.key(),
                counter: cipher.counter(),
            },
            LoopAction::CreateDevice(address) => LoopActionView::CreateDevice(address),
            LoopAction::SetUpGateway(gateway) => LoopActionView::SetUpGateway {
                vpn_subnet: gateway.vpn_subnet@,
                tun_interface: gateway.tun_interface@,
                outbound_interface: config::optional(gateway.outbound_interface),
                address_plan: gateway.address_plan,
            },
            LoopAction::StartUpload => LoopActionView::StartUpload,
            LoopAction::Write(packet) => LoopActionView::Write(packet@),
            LoopAction::End { failure, joins_upload, has_gateway } => LoopActionView::End {
                failure: match failure {
                    Some(e) => Some(e@),
                    None => None,
                },
                joins_upload,
                has_gateway,
            },
        }
    }
}

/// The loop as a mathematical value.
pub struct LoopView {
    pub session: SessionView,
    pub stage: LoopStage,
    /// Whether the tunnel device can be written to.
    pub device_up: bool,
    /// Whether the gateway is set up.
    pub gateway_up: bool,
    /// Whether the sending side runs.
    pub uploading: bool,
    pub settings: RoutingSettingsView,
    pub plan: TunnelAddressPlan,
}

impl LoopView {
    /// The loop before anything was received.
    pub open spec fn begun(settings: RoutingSettingsView, plan: TunnelAddressPlan) -> LoopView {
        LoopView {
            session: SessionView::NoSession,
            stage: LoopStage::Receiving,
            device_up: false,
            gateway_up: false,
            uploading: false,
            settings,
            plan,
        }
    }

    /// Device and sending side exist exactly while a session is established, once
    /// it has been set up; and a gateway only where one is wanted.
    pub open spec fn well_formed(self) -> bool {
        &&& match self.stage {
            LoopStage::Receiving | LoopStage::Sending | LoopStage::Writing => self.device_up == (
            self.session is Established) && self.uploading == self.device_up && self.gateway_up
                == (self.device_up && self.settings.nat_enabled),
            LoopStage::Publishing | LoopStage::CreatingDevice => self.session is Established
                && !self.device_up && !self.uploading && !self.gateway_up,
            LoopStage::SettingUpGateway => self.session is Established && !self.device_up
                && !self.uploading && !self.gateway_up && self.settings.nat_enabled,
            LoopStage::StartingUpload => self.session is Established && !self.device_up
                && !self.uploading && self.gateway_up == self.settings.nat_enabled,
            LoopStage::Ended => true,
        }
        &&& self.gateway_up ==> self.settings.nat_enabled
    }

    /// A well-formed loop that waits for a datagram.
    pub open spec fn receiving(self) -> bool {
        self.well_formed() && self.stage == LoopStage::Receiving
    }

    /// The same loop at another stage.
    pub open spec fn at(self, stage: LoopStage) -> LoopView {
        LoopView { stage, ..self }
    }

    /// The end of the loop. After a clean end the sending side is left to the end
    /// of the process: it may be waiting for a packet that never comes.
    pub open spec fn ending(self, failure: Option<ErrorView>) -> (LoopView, LoopActionView) {
        (
            self.at(LoopStage::Ended),
            LoopActionView::End {
                failure,
                joins_upload: self.uploading && failure is Some,
                has_gateway: self.gateway_up,
            },
        )
    }

    /// What a decision of the session calls for.
    pub open spec fn performing(self, session: SessionView, action: ActionView) -> (
        LoopView,
        LoopActionView,
    ) {
        let next = LoopView { session, ..self };
        match action {
            ActionView::Reply(peer, bytes) => (
                next.at(LoopStage::Sending),
                LoopActionView::Send(peer, bytes),
            ),
            ActionView::EstablishSession { peer, server_to_client_key, counter } => (
                next.at(LoopStage::Publishing),
                LoopActionView::Publish { peer, key: server_to_client_key, counter },
            ),
            ActionView::WriteToTun(packet) => (
                next.at(LoopStage::Writing),
                LoopActionView::Write(packet),
            ),
            ActionView::Drop => (next, LoopActionView::Receive),
        }
    }

    /// What a received datagram calls for.
    pub open spec fn after_datagram(
        self,
        sender: SocketAddress,
        datagram: Seq<u8>,
        psk: Seq<u8>,
        server_random: Seq<u8>,
    ) -> (LoopView, LoopActionView) {
        let step = server::server_step(self.session, sender, datagram, psk, server_random);
        self.performing(step.0, step.1)
    }

    /// What a failed receive calls for.
    pub open spec fn after_receive_failure(self, e: ErrorView, shutdown_requested: bool) -> (
        LoopView,
        LoopActionView,
    ) {
        if e.kind != ErrorKind::Interrupted {
            self.ending(Some(e))
        } else if shutdown_requested {
            self.ending(None)
        } else {
            (self, LoopActionView::Receive)
        }
    }

    /// What follows the action that was carried out.
    pub open spec fn after_success(self) -> (LoopView, LoopActionView) {
        match self.stage {
            LoopStage::Publishing => (
                self.at(LoopStage::CreatingDevice),
                LoopActionView::CreateDevice(self.plan.server_address),
            ),
            LoopStage::CreatingDevice => if self.settings.nat_enabled {
                (
                    self.at(LoopStage::SettingUpGateway),
                    LoopActionView::SetUpGateway {
                        vpn_subnet: routing::cidr_chars(
                            self.plan.server_address,
                            tun::VPN_TUN_NETMASK,
                        ),
                        tun_interface: tun::SERVER_TUN_NAME@,
                        outbound_interface: self.settings.outbound_interface,
                        address_plan: self.plan,
                    },
                )
            } else {
                (self.at(LoopStage::StartingUpload), LoopActionView::StartUpload)
            },
            LoopStage::SettingUpGateway => (
                LoopView { gateway_up: true, stage: LoopStage::StartingUpload, ..self },
                LoopActionView::StartUpload,
            ),
            LoopStage::StartingUpload => (
                LoopView {
                    device_up: true,
                    uploading: true,
                    stage: LoopStage::Receiving,
                    ..self
                },
                LoopActionView::Receive,
            ),
            LoopStage::Ended => self.ending(None),
            _ => (self.at(LoopStage::Receiving), LoopActionView::Receive),
        }
    }
}

/// The server's receive loop.
pub struct ServerLoop {
    session: ServerSession,
    stage: LoopStage,
    device_up: bool,
    gateway_up: bool,
    uploading: bool,
    settings: RoutingSettings,
    plan: TunnelAddressPlan,
}

impl View for ServerLoop {
    type V = LoopView;

    closed spec fn view(&self) -> LoopView {
        LoopView {
            session: self.session@,
            stage: self.stage,
            device_up: self.device_up,
            gateway_up: self.gateway_up,
            uploading: self.uploading,
            settings: self.settings@,
            plan: self.plan,
        }
    }
}

impl ServerLoop {
    /// A loop that has received nothing.
    pub fn new(settings: RoutingSettings, plan: TunnelAddressPlan) -> (l: Self)
        ensures
            l@ == LoopView::begun(settings@, plan),
            l@.well_formed(),
    {
        ServerLoop {
            session: ServerSession::NoSession,
            stage: LoopStage::Receiving,
            device_up: false,
            gateway_up: false,
            uploading: false,
            settings,
            plan,
        }
    }

    fn end(&mut self, failure: Option<Error>) -> (action: LoopAction)
        ensures
            (final(self)@, action@) == old(self)@.ending(
                match failure {
                    Some(e) => Some(e@),
                    None => None,
                },
            ),
    {
        self.stage = LoopStage::Ended;
        let joins_upload: bool = self.uploading && failure.is_some();
        LoopAction::End { failure, joins_upload, has_gateway: self.gateway_up }
    }

    /// Takes a decision of the session over into the loop.
    fn perform(&mut self, action: ServerAction) -> (next: LoopAction)
        ensures
            (final(self)@, next@) == old(self)@.performing(old(self)@.session, action@),
    {
        match action {
            ServerAction::Reply(peer, bytes) => {
                self.stage = LoopStage::Sending;
                LoopAction::Send(peer, bytes)
            },
            ServerAction::EstablishSession(peer, cipher) => {
                self.stage = LoopStage::Publishing;
                LoopAction::Publish(peer, cipher)
            },
            ServerAction::WriteToTun(packet) => {
                self.stage = LoopStage::Writing;
                LoopAction::Write(packet)
            },
            ServerAction::Drop => LoopAction::Receive,
        }
    }

    /// Decides about a datagram, given the random value for a response.
    pub fn received_with_random(
        &mut self,
        sender: SocketAddress,
        datagram: &[u8],
        psk: &[u8; KEY_SIZE],
        server_random: [u8; RANDOM_SIZE],
    ) -> (action: LoopAction)
        ensures
            (final(self)@, action@) == old(self)@.after_datagram(
                sender,
                datagram@,
                psk@,
                server_random@,
            ),
            old(self)@.receiving() ==> final(self)@.well_formed(),
    {
        let decision = server::handle_datagram_with_random(
            &mut self.session,
            sender,
            datagram,
            psk,
            server_random,
        );
        self.perform(decision)
    }

    /// Decides about a datagram. A random value is drawn for a response only.
    pub fn received(&mut self, sender: SocketAddress, datagram: &[u8], psk: &[u8; KEY_SIZE]) -> (action:
        LoopAction)
        ensures
            exists|server_random: Seq<u8>|
                server_random.len() == RANDOM_SIZE && (final(self)@, action@)
                    == #[trigger] old(self)@.after_datagram(sender, datagram@, psk@, server_random),
            !server::calls_for_response(old(self)@.session, datagram@) ==> forall|
                server_random: Seq<u8>,
            |
                (final(self)@, action@) == #[trigger] old(self)@.after_datagram(
                    sender,
                    datagram@,
                    psk@,
                    server_random,
                ),
            old(self)@.receiving() ==> final(self)@.well_formed(),
    {
        let ghost before = self@;
        let decision = server::handle_incoming_datagram(&mut self.session, sender, datagram, psk);
        let action = self.perform(decision);
        proof {
            let server_random = choose|server_random: Seq<u8>|
                server_random.len() == RANDOM_SIZE && (self.session@, decision@)
                    == #[trigger] server::server_step(
                    before.session,
                    sender,
                    datagram@,
                    psk@,
                    server_random,
                );
            assert((self@, action@) == before.after_datagram(
                sender,
                datagram@,
                psk@,
                server_random,
            ));
        }
        action
    }

    /// Decides about a failed receive.
    pub fn receive_failed(&mut self, e: Error, shutdown_requested: bool) -> (action: LoopAction)
        ensures
            (final(self)@, action@) == old(self)@.after_receive_failure(e@, shutdown_requested),
            old(self)@.receiving() ==> final(self)@.well_formed(),
    {
        match server::receive_failure(&e, shutdown_requested) {
            ReceiveFailure::Stop => self.end(None),
            ReceiveFailure::Retry => LoopAction::Receive,
            ReceiveFailure::Fail => self.end(Some(e)),
        }
    }

    /// Goes on after an action that was carried out.
    pub fn succeeded(&mut self) -> (action: LoopAction)
        ensures
            (final(self)@, action@) == old(self)@.after_success(),
            old(self)@.well_formed() ==> final(self)@.well_formed(),
    {
        match self.stage {
            LoopStage::Publishing => {
                self.stage = LoopStage::CreatingDevice;
                LoopAction::CreateDevice(self.plan.server_address)
            },
            LoopStage::CreatingDevice => match server::gateway_config(&self.settings, &self.plan) {
                Some(gateway) => {
                    self.stage = LoopStage::SettingUpGateway;
                    LoopAction::SetUpGateway(gateway)
                },
                None => {
                    self.stage = LoopStage::StartingUpload;
                    LoopAction::StartUpload
                },
            },
            LoopStage::SettingUpGateway => {
                self.gateway_up = true;
                self.stage = LoopStage::StartingUpload;
                LoopAction::StartUpload
            },
            LoopStage::StartingUpload => {
                self.device_up = true;
                self.uploading = true;
                self.stage = LoopStage::Receiving;
                LoopAction::Receive
            },
            LoopStage::Ended => self.end(None),
            _ => {
                self.stage = LoopStage::Receiving;
                LoopAction::Receive
            },
        }
    }

    /// Ends the loop after an action that failed.
    pub fn failed(&mut self, e: Error) -> (action: LoopAction)
        ensures
            (final(self)@, action@) == old(self)@.ending(Some(e@)),
            old(self)@.well_formed() ==> final(self)@.well_formed(),
    {
        self.end(Some(e))
    }
}

/// A packet is written only to a device that is up: no packet arrives between the
/// establishment of a session and the end of its setup, and none before.
pub proof fn law_packets_find_the_device(
    l: LoopView,
    sender: SocketAddress,
    datagram: Seq<u8>,
    psk: Seq<u8>,
    server_random: Seq<u8>,
)
    requires
        l.receiving(),
    ensures
        l.after_datagram(sender, datagram, psk, server_random).1 is Write ==> l.device_up,
        l.after_datagram(sender, datagram, psk, server_random).0.well_formed(),
{
}

/// A device is created, a gateway set up and the sending side started only after a
/// session was established, and a gateway only if the settings ask for one.
pub proof fn law_setup_needs_a_session(l: LoopView)
    requires
        l.well_formed(),
    ensures
        l.after_success().1 is CreateDevice ==> l.session is Established,
        l.after_success().1 is SetUpGateway ==> l.session is Established && l.settings.nat_enabled,
        l.after_success().1 is StartUpload ==> l.session is Established && (l.settings.nat_enabled
            ==> l.after_success().0.gateway_up),
        l.after_success().0.well_formed(),
{
}

/// The setup of an established session takes the same steps whenever they succeed,
/// and ends with a device that is up, a sending side that runs and, if it is
/// wanted, a gateway.
pub proof fn law_setup_completes(l: LoopView)
    requires
        l.well_formed(),
        l.stage == LoopStage::Publishing,
    ensures
        ({
            let device = l.after_success();
            let second = device.0.after_success();
            let third = second.0.after_success();
            let fourth = third.0.after_success();
            let last = if l.settings.nat_enabled {
                fourth
            } else {
                third
            };
            &&& device.1 is CreateDevice
            &&& l.settings.nat_enabled ==> second.1 is SetUpGateway && third.1 is StartUpload
            &&& !l.settings.nat_enabled ==> second.1 is StartUpload
            &&& last.1 is Receive
            &&& last.0 == (LoopView {
                stage: LoopStage::Receiving,
                device_up: true,
                uploading: true,
                gateway_up: l.settings.nat_enabled,
                ..l
            })
        }),
{
}

/// The loop carries out what the session decides about a datagram, with the same peer,
/// bytes and keys, and nothing else of it changes.
pub proof fn law_loop_carries_out_decisions(
    l: LoopView,
    sender: SocketAddress,
    datagram: Seq<u8>,
    psk: Seq<u8>,
    server_random: Seq<u8>,
)
    ensures
        ({
            let decided = server::server_step(l.session, sender, datagram, psk, server_random);
            let next = l.after_datagram(sender, datagram, psk, server_random);
            &&& next.0.session == decided.0
            &&& next.0.device_up == l.device_up
            &&& next.0.gateway_up == l.gateway_up
            &&& next.0.uploading == l.uploading
            &&& next.0.settings == l.settings
            &&& next.0.plan == l.plan
            &&& match decided.1 {
                ActionView::Reply(peer, bytes) => next.1 == LoopActionView::Send(peer, bytes)
                    && next.0.stage == LoopStage::Sending,
                ActionView::EstablishSession { peer, server_to_client_key, counter } => next.1
                    == (LoopActionView::Publish { peer, key: server_to_client_key, counter })
                    && next.0.stage == LoopStage::Publishing,
                ActionView::WriteToTun(packet) => next.1 == LoopActionView::Write(packet)
                    && next.0.stage == LoopStage::Writing,
                ActionView::Drop => next.1 is Receive && next.0.stage == l.stage,
            }
        }),
{
}

/// What a session is set up with: a device with the server's address of the plan and,
/// where the settings ask for it, a gateway that translates the network of that address,
/// from the server's tunnel device, through the interface that the settings name.
pub proof fn law_session_is_set_up_as_configured(l: LoopView)
    ensures
        l.stage == LoopStage::Publishing ==> l.after_success().1 == LoopActionView::CreateDevice(
            l.plan.server_address,
        ),
        l.stage == LoopStage::CreatingDevice && l.settings.nat_enabled ==> {
            &&& l.after_success().1 matches LoopActionView::SetUpGateway {
                vpn_subnet,
                tun_interface,
                outbound_interface,
                address_plan,
            }
            &&& routing::parsed_cidr(vpn_subnet) == Some(
                (routing::network_of(l.plan.server_address, (255u8, 255u8, 255u8, 0u8)), 24nat),
            )
            &&& tun_interface == tun::SERVER_TUN_NAME@
            &&& outbound_interface == l.settings.outbound_interface
            &&& address_plan == l.plan
        },
        l.stage == LoopStage::CreatingDevice && !l.settings.nat_enabled ==> l.after_success().1 is StartUpload,
{
    routing::law_computed_network_is_valid(l.plan.server_address, tun::VPN_TUN_NETMASK);
    routing::law_bits_are_counted(255);
    routing::law_bits_are_counted(0);
    assert(routing::prefix_of((255u8, 255u8, 255u8, 0u8)) == 24);
}

/// Carrying out an action changes neither the session nor what was configured.
pub proof fn law_actions_keep_session_and_settings(
    l: LoopView,
    failure: ErrorView,
    shutdown_requested: bool,
)
    ensures
        l.after_success().0.session == l.session,
        l.after_success().0.settings == l.settings,
        l.after_success().0.plan == l.plan,
        l.after_receive_failure(failure, shutdown_requested).0 == (LoopView {
            stage: l.after_receive_failure(failure, shutdown_requested).0.stage,
            ..l
        }),
        l.ending(Some(failure)).0 == l.at(LoopStage::Ended),
        l.ending(None).0 == l.at(LoopStage::Ended),
{
}

/// How the loop ends: a receive that was interrupted ends it, without a failure, exactly
/// if the process is to stop; every other failed receive ends it with its failure. A
/// gateway that was set up is taken back in every case, and the sending side is waited
/// for only after a failure.
pub proof fn law_how_the_loop_ends(l: LoopView, e: ErrorView, shutdown_requested: bool)
    ensures
        ({
            let next = l.after_receive_failure(e, shutdown_requested);
            let interrupted = e.kind == ErrorKind::Interrupted;
            &&& interrupted && !shutdown_requested ==> next.1 is Receive && next.0 == l
            &&& interrupted && shutdown_requested ==> next.1 == (LoopActionView::End {
                failure: None,
                joins_upload: false,
                has_gateway: l.gateway_up,
            })
            &&& !interrupted ==> next.1 == (LoopActionView::End {
                failure: Some(e),
                joins_upload: l.uploading,
                has_gateway: l.gateway_up,
            })
        }),
        l.ending(Some(e)).1 == (LoopActionView::End {
            failure: Some(e),
            joins_upload: l.uploading,
            has_gateway: l.gateway_up,
        }),
{
}

/// A loop begins with what is configured, and with nothing received or set up.
pub proof fn law_loop_begins(settings: RoutingSettingsView, plan: TunnelAddressPlan)
    ensures
        ({
            let l = LoopView::begun(settings, plan);
            &&& l.settings == settings
            &&& l.plan == plan
            &&& l.session is NoSession
            &&& l.stage == LoopStage::Receiving
            &&& !l.device_up && !l.gateway_up && !l.uploading
        }),
{
}

/// After a reply was sent or a packet written the loop waits for the next datagram, as it
/// was; once it is over it stays so.
pub proof fn law_loop_goes_on(l: LoopView)
    ensures
        l.stage == LoopStage::Sending || l.stage == LoopStage::Writing || l.stage
            == LoopStage::Receiving ==> l.after_success().1 is Receive && l.after_success().0
            == (LoopView { stage: LoopStage::Receiving, ..l }),
        l.stage == LoopStage::Ended ==> l.after_success().0 == l && l.after_success().1 is End,
        l.stage == LoopStage::SettingUpGateway ==> l.after_success().1 is StartUpload
            && l.after_success().0 == (LoopView {
            gateway_up: true,
            stage: LoopStage::StartingUpload,
            ..l
        }),
        l.stage == LoopStage::StartingUpload ==> l.after_success().1 is Receive
            && l.after_success().0 == (LoopView {
            device_up: true,
            uploading: true,
            stage: LoopStage::Receiving,
            ..l
        }),
{
}

} // verus!
