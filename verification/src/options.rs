//! Everything that a server or a client takes from its configuration file.
use vstd::prelude::*;

use crate::config::{
    ClientRoutingSettings, ClientRoutingSettingsView, ConfigErrorView, RoutingSettings,
    RoutingSettingsView,
};
use crate::crypto::KEY_SIZE;
use crate::dns::DnsConfig;
use crate::error::{Error, ErrorKind, ErrorView};
use crate::psk::PskErrorView;
use crate::tun::TunnelAddressPlan;
use crate::{client, config, psk, routing, server, tun};

verus! {

/// What a server needs to know.
pub struct ServerOptions {
    pub psk: [u8; KEY_SIZE],
    pub routing: RoutingSettings,
    pub plan: TunnelAddressPlan,
}

/// What a client needs to know.
pub struct ClientOptions {
    pub psk: [u8; KEY_SIZE],
    pub routing: ClientRoutingSettings,
    pub dns: DnsConfig,
    pub plan: TunnelAddressPlan,
}

/// A problem with the file as a failure.
pub open spec fn config_failure(message: Seq<char>) -> ErrorView {
    ErrorView { kind: ErrorKind::Other, message }
}

/// The first problem of a server's file: the key, then routing, then the tunnel.
pub open spec fn server_problem(contents: Seq<char>) -> Option<ErrorView> {
    match psk::configured_psk(contents) {
        Err(e) => Some(config_failure(e.message_chars())),
        Ok(_) => match config::routing_settings(contents) {
            Err(e) => Some(config_failure(e.message_chars())),
            Ok(_) => match config::tunnel_settings(contents) {
                Err(e) => Some(config_failure(e.message_chars())),
                Ok(_) => None,
            },
        },
    }
}

/// The first problem of a client's file: the key, then routing, then name
/// servers, then the tunnel.
pub open spec fn client_problem(contents: Seq<char>) -> Option<ErrorView> {
    match psk::configured_psk(contents) {
        Err(e) => Some(config_failure(e.message_chars())),
        Ok(_) => match config::client_routing_settings(contents) {
            Err(e) => Some(config_failure(e.message_chars())),
            Ok(_) => match config::dns_settings(contents) {
                Err(e) => Some(config_failure(e.message_chars())),
                Ok(_) => match config::tunnel_settings(contents) {
                    Err(e) => Some(config_failure(e.message_chars())),
                    Ok(_) => None,
                },
            },
        },
    }
}

fn failure(message: String) -> (e: Error)
    ensures
        e@ == config_failure(message@),
{
    Error { kind: ErrorKind::Other, message }
}

/// Loads what a server needs to know.
pub fn load_server_options(contents: &str) -> (r: Result<ServerOptions, Error>)
    ensures
        match r {
            Ok(options) => {
                &&& psk::configured_psk(contents@) == Ok::<Seq<u8>, PskErrorView>(options.psk@)
                &&& config::routing_settings(contents@) == Ok::<
                    RoutingSettingsView,
                    ConfigErrorView,
                >(options.routing@)
                &&& config::tunnel_settings(contents@) is Ok
                &&& options.plan == tun::topology_plan(
                    config::tunnel_settings(contents@)->Ok_0.topology,
                )
            },
            Err(e) => server_problem(contents@) == Some(e@),
        },
{
    let psk = match server::load_psk(contents) {
        Ok(psk) => psk,
        Err(e) => return Err(failure(e.message())),
    };
    let routing = match config::load_routing_settings(contents) {
        Ok(routing) => routing,
        Err(e) => return Err(failure(e.message())),
    };
    let tunnel = match config::load_tunnel_settings(contents) {
        Ok(tunnel) => tunnel,
        Err(e) => return Err(failure(e.message())),
    };
    Ok(ServerOptions { psk, routing, plan: TunnelAddressPlan::from_topology(&tunnel.topology) })
}

/// The routes of a client's file. In split mode the name servers are routed too,
/// if they are to be used.
pub open spec fn client_routes(
    routing: ClientRoutingSettingsView,
    dns: config::DnsSettingsView,
) -> Seq<Seq<char>> {
    if dns.enabled && routing.mode == config::RoutingMode::Split {
        routing::with_name_servers(routing.routes, dns.servers)
    } else {
        routing.routes
    }
}

/// Loads what a client needs to know.
pub fn load_client_options(contents: &str) -> (r: Result<ClientOptions, Error>)
    ensures
        match r {
            Ok(options) => {
                &&& psk::configured_psk(contents@) == Ok::<Seq<u8>, PskErrorView>(options.psk@)
                &&& config::client_routing_settings(contents@) is Ok
                &&& config::dns_settings(contents@) is Ok
                &&& config::tunnel_settings(contents@) is Ok
                &&& options.routing@.mode == config::client_routing_settings(contents@)->Ok_0.mode
                &&& options.routing@.routes == client_routes(
                    config::client_routing_settings(contents@)->Ok_0,
                    config::dns_settings(contents@)->Ok_0,
                )
                &&& options.dns.enabled == config::dns_settings(contents@)->Ok_0.enabled
                &&& options.dns.servers@ == config::dns_settings(contents@)->Ok_0.servers
                &&& options.plan == tun::topology_plan(
                    config::tunnel_settings(contents@)->Ok_0.topology,
                )
            },
            Err(e) => client_problem(contents@) == Some(e@),
        },
{
    let psk = match client::load_psk(contents) {
        Ok(psk) => psk,
        Err(e) => return Err(failure(e.message())),
    };
    let mut routing = match config::load_client_routing_settings(contents) {
        Ok(routing) => routing,
        Err(e) => return Err(failure(e.message())),
    };
    let dns = match config::load_dns_settings(contents) {
        Ok(dns) => dns,
        Err(e) => return Err(failure(e.message())),
    };
    routing::route_name_servers(&mut routing, &dns);
    let tunnel = match config::load_tunnel_settings(contents) {
        Ok(tunnel) => tunnel,
        Err(e) => return Err(failure(e.message())),
    };
    Ok(
        ClientOptions {
            psk,
            routing,
            dns: DnsConfig { enabled: dns.enabled, servers: dns.servers },
            plan: TunnelAddressPlan::from_topology(&tunnel.topology),
        },
    )
}

/// A server's file is loaded exactly if its key, its routing and its tunnel section are
/// in order; else the first of them that is not is reported, in the words of its error.
pub proof fn law_first_problem_of_a_server(contents: Seq<char>)
    ensures
        server_problem(contents) is None <==> psk::configured_psk(contents) is Ok
            && config::routing_settings(contents) is Ok && config::tunnel_settings(contents) is Ok,
        psk::configured_psk(contents) matches Err(e) ==> server_problem(contents) == Some(
            ErrorView { kind: ErrorKind::Other, message: e.message_chars() },
        ),
        psk::configured_psk(contents) is Ok ==> (config::routing_settings(contents) matches Err(e)
            ==> server_problem(contents) == Some(
            ErrorView { kind: ErrorKind::Other, message: e.message_chars() },
        )),
        psk::configured_psk(contents) is Ok && config::routing_settings(contents) is Ok ==> (
        config::tunnel_settings(contents) matches Err(e) ==> server_problem(contents) == Some(
            ErrorView { kind: ErrorKind::Other, message: e.message_chars() },
        )),
{
}

/// A client's file is loaded exactly if its key, its routing, its name servers and its
/// tunnel section are in order; else the first of them that is not is reported, in the
/// words of its error.
pub proof fn law_first_problem_of_a_client(contents: Seq<char>)
    ensures
        ({
            let key = psk::configured_psk(contents);
            let routing = config::client_routing_settings(contents);
            let dns = config::dns_settings(contents);
            let tunnel = config::tunnel_settings(contents);
            let other = |message: Seq<char>| Some(ErrorView { kind: ErrorKind::Other, message });
            &&& client_problem(contents) is None <==> key is Ok && routing is Ok && dns is Ok
                && tunnel is Ok
            &&& key matches Err(e) ==> client_problem(contents) == other(e.message_chars())
            &&& key is Ok ==> (routing matches Err(e) ==> client_problem(contents) == other(
                e.message_chars(),
            ))
            &&& key is Ok && routing is Ok ==> (dns matches Err(e) ==> client_problem(contents)
                == other(e.message_chars()))
            &&& key is Ok && routing is Ok && dns is Ok ==> (tunnel matches Err(e)
                ==> client_problem(contents) == other(e.message_chars()))
        }),
{
}

/// A client's networks are those of its file; in split mode, if the name servers are to
/// be used, every IPv4 name server that is not among them has a network of its own behind
/// them, and nothing else is added.
pub proof fn law_client_routes_include_name_servers(
    routing: ClientRoutingSettingsView,
    dns: config::DnsSettingsView,
)
    ensures
        !(dns.enabled && routing.mode == config::RoutingMode::Split) ==> client_routes(routing, dns)
            == routing.routes,
        routing.routes.len() <= client_routes(routing, dns).len(),
        client_routes(routing, dns).take(routing.routes.len() as int) == routing.routes,
        dns.enabled && routing.mode == config::RoutingMode::Split ==> forall|i: int|
            0 <= i < dns.servers.len() && (#[trigger] dns.servers[i]) is V4 ==> client_routes(
                routing,
                dns,
            ).contains(dns.servers[i].chars() + "/32"@),
        forall|k: int|
            routing.routes.len() <= k < client_routes(routing, dns).len() ==> exists|i: int|
                0 <= i < dns.servers.len() && #[trigger] client_routes(routing, dns)[k] == (
                #[trigger] dns.servers[i]).chars() + "/32"@,
{
    routing::law_name_servers_keep_routes(routing.routes, dns.servers);
    routing::law_only_name_servers_are_added(routing.routes, dns.servers);
    assert(routing.routes.take(routing.routes.len() as int) =~= routing.routes);
    assert forall|i: int|
        0 <= i < dns.servers.len() && (#[trigger] dns.servers[i]) is V4 implies routing::with_name_servers(
        routing.routes,
        dns.servers,
    ).contains(dns.servers[i].chars() + "/32"@) by {
        routing::law_name_servers_are_routed(routing.routes, dns.servers, i);
    }
}

} // verus!
