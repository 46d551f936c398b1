//! Routing: what a gateway needs from the host, and which routes a client adds.
//!
//! Plans are computed here; carrying them out is left to the program, one host
//! command at a time.
use vstd::prelude::*;

use crate::config::{ClientRoutingSettings, DnsSettings, RoutingMode};
use crate::error::{Error, ErrorKind, ErrorView};
use crate::routing::transaction::{HostCommand, HostCommandView, Transaction};
use crate::routing::windows::ServerSetup;
use crate::tun::TunnelAddressPlan;
use crate::{config, error, net, text};

pub mod android;
pub mod linux;
pub mod transaction;
pub mod unsupported;
pub mod windows;

verus! {

/// What the server needs from the host to be a gateway for the tunnel network.
#[derive(Debug, Clone, PartialEq, Eq)]
pub struct RoutingConfig {
    /// The tunnel network, such as "10.13.13.0/24".
    pub vpn_subnet: String,
    /// The server's tunnel device.
    pub tun_interface: String,
    /// The interface to forward through; `None` means the one of the default
    /// route.
    pub outbound_interface: Option<String>,
    /// The addresses of the two ends of the tunnel.
    pub address_plan: TunnelAddressPlan,
}

/// The number of bits set in a byte.
pub open spec fn bits_set(b: nat) -> nat
    decreases b,
{
    if b == 0 {
        0
    } else {
        b % 2 + bits_set(b / 2)
    }
}

/// The network of an address, such as "10.13.13.0/24": the address under the mask,
/// and the number of bits set in the mask.
pub open spec fn cidr_chars(address: (u8, u8, u8, u8), netmask: (u8, u8, u8, u8)) -> Seq<char> {
    text::decimal_chars((address.0 & netmask.0) as nat) + "."@ + text::decimal_chars(
        (address.1 & netmask.1) as nat,
    ) + "."@ + text::decimal_chars((address.2 & netmask.2) as nat) + "."@ + text::decimal_chars(
        (address.3 & netmask.3) as nat,
    ) + "/"@ + text::decimal_chars(
        bits_set(netmask.0 as nat) + bits_set(netmask.1 as nat) + bits_set(netmask.2 as nat)
            + bits_set(netmask.3 as nat),
    )
}

/// Counts the bits set in a byte.
fn count_bits(b: u8) -> (n: u8)
    ensures
        n == bits_set(b as nat),
        n <= 8,
{
    let mut rest: u8 = b;
    let mut n: u8 = 0;
    let mut i: u8 = 0;
    let ghost bounds: Seq<int> = seq![256, 128, 64, 32, 16, 8, 4, 2, 1];
    while i < 8
        invariant
            i <= 8,
            n <= i,
            bounds == seq![256int, 128, 64, 32, 16, 8, 4, 2, 1],
            rest < bounds[i as int],
            bits_set(b as nat) == n + bits_set(rest as nat),
        decreases 8 - i,
    {
        n = n + rest % 2;
        rest = rest / 2;
        i = i + 1;
    }
    n
}

/// Computes the network of an address and a mask.
pub fn cidr_from_address_and_netmask(
    address: (u8, u8, u8, u8),
    netmask: (u8, u8, u8, u8),
) -> (s: String)
    ensures
        s@ == cidr_chars(address, netmask),
{
    let mut s = text::decimal((address.0 & netmask.0) as u64);
    s.append(".");
    s.append(text::decimal((address.1 & netmask.1) as u64).as_str());
    s.append(".");
    s.append(text::decimal((address.2 & netmask.2) as u64).as_str());
    s.append(".");
    s.append(text::decimal((address.3 & netmask.3) as u64).as_str());
    s.append("/");
    let prefix: u8 = count_bits(netmask.0) + count_bits(netmask.1) + count_bits(netmask.2)
        + count_bits(netmask.3);
    s.append(text::decimal(prefix as u64).as_str());
    s
}

/// The network that a CIDR text stands for: the address and the prefix length.
pub open spec fn parsed_cidr(s: Seq<char>) -> Option<(u32, nat)> {
    let n = text::position(s, '/') as int;
    if n >= s.len() {
        None
    } else {
        match (net::parsed_ipv4(s.take(n)), text::byte_value(s.skip(n + 1))) {
            (Some(address), Some(prefix)) => if prefix <= 32 {
                Some((address, prefix))
            } else {
                None
            },
            _ => None,
        }
    }
}

/// Whether a text is an IPv4 network such as "10.20.0.0/24".
pub fn is_valid_ipv4_cidr(s: &str) -> (b: bool)
    ensures
        b == (parsed_cidr(s@) is Some),
{
    let chars = text::chars_of(s);
    let n: usize = text::find(chars.as_slice(), '/');
    if n >= chars.len() {
        return false;
    }
    let address = &chars.as_slice()[0..n];
    let prefix = &chars.as_slice()[n + 1..chars.len()];
    assert(address@ =~= s@.take(n as int));
    assert(prefix@ =~= s@.skip(n + 1));
    match text::read_byte(prefix) {
        Some(length) => if length > 32 {
            false
        } else {
            net::parse_ipv4(address).is_some()
        },
        None => false,
    }
}

/// How the client routes once its session is established.
#[derive(Debug, Clone, PartialEq, Eq)]
pub enum ClientRoutingMode {
    /// No routes are added.
    Disabled,
    /// These networks go through the tunnel.
    Split(Vec<String>),
    /// Everything but the server's own endpoint goes through the tunnel.
    Full,
}

/// A mode as a mathematical value.
pub enum ClientRoutingModeView {
    Disabled,
    Split(Seq<Seq<char>>),
    Full,
}

impl View for ClientRoutingMode {
    type V = ClientRoutingModeView;

    open spec fn view(&self) -> ClientRoutingModeView {
        match *self {
            ClientRoutingMode::Disabled => ClientRoutingModeView::Disabled,
            ClientRoutingMode::Split(cidrs) => ClientRoutingModeView::Split(text::strings(cidrs@)),
            ClientRoutingMode::Full => ClientRoutingModeView::Full,
        }
    }
}

/// How a destination is reached: through a device alone, or through a gateway on a
/// device.
#[derive(Debug, Clone, PartialEq, Eq)]
pub enum RouteVia {
    Device(String),
    Gateway { gateway: String, device: String },
}

/// A way to a destination as a mathematical value.
pub enum RouteViaView {
    Device(Seq<char>),
    Gateway { gateway: Seq<char>, device: Seq<char> },
}

impl View for RouteVia {
    type V = RouteViaView;

    open spec fn view(&self) -> RouteViaView {
        match *self {
            RouteVia::Device(device) => RouteViaView::Device(device@),
            RouteVia::Gateway { gateway, device } => RouteViaView::Gateway {
                gateway: gateway@,
                device: device@,
            },
        }
    }
}

impl RouteVia {
    /// The same way once more.
    pub fn copy(&self) -> (way: Self)
        ensures
            way@ == self@,
    {
        match self {
            RouteVia::Device(device) => RouteVia::Device(device.clone()),
            RouteVia::Gateway { gateway, device } => RouteVia::Gateway {
                gateway: gateway.clone(),
                device: device.clone(),
            },
        }
    }
}

/// One route that the client adds.
#[derive(Debug, Clone, PartialEq, Eq)]
pub struct ClientRoute {
    /// The destination, such as "10.20.0.0/24".
    pub destination: String,
    pub via: RouteVia,
}

/// A route as a mathematical value.
pub struct ClientRouteView {
    pub destination: Seq<char>,
    pub via: RouteViaView,
}

impl View for ClientRoute {
    type V = ClientRouteView;

    open spec fn view(&self) -> ClientRouteView {
        ClientRouteView { destination: self.destination@, via: self.via@ }
    }
}

/// The routes that the client adds, in order.
#[derive(Debug, Clone, PartialEq, Eq)]
pub struct ClientRoutingPlan {
    pub routes: Vec<ClientRoute>,
}

impl View for ClientRoutingPlan {
    type V = Seq<ClientRouteView>;

    open spec fn view(&self) -> Seq<ClientRouteView> {
        Seq::new(self.routes@.len(), |i: int| self.routes@[i]@)
    }
}

/// Why there is no plan.
#[derive(Debug, Clone, PartialEq, Eq)]
pub enum RoutingPlanError {
    InvalidCidr(String),
}

/// The text about an invalid network; `quoted` is the network in quotes.
pub open spec fn invalid_cidr_chars(quoted: Seq<char>) -> Seq<char> {
    "invalid IPv4 CIDR: "@ + quoted
}

/// Describes an invalid network.
pub fn invalid_cidr_message(quoted: &str) -> (m: String)
    ensures
        m@ == invalid_cidr_chars(quoted@),
{
    let mut m = "invalid IPv4 CIDR: ".to_owned();
    m.append(quoted);
    m
}

impl RoutingPlanError {
    /// The network that is invalid.
    pub open spec fn cidr(&self) -> Seq<char> {
        match *self {
            RoutingPlanError::InvalidCidr(cidr) => cidr@,
        }
    }

    /// Describes the error.
    pub fn message(&self) -> (m: String)
        ensures
            m@ == invalid_cidr_chars(text::debug_chars(self.cidr())),
    {
        match self {
            RoutingPlanError::InvalidCidr(cidr) => invalid_cidr_message(
                text::debug_string(cidr.as_str()).as_str(),
            ),
        }
    }
}

/// The networks of a list, each once, in the order of their first mention; or the
/// first that is no network.
pub open spec fn distinct_cidrs(cidrs: Seq<Seq<char>>) -> Result<Seq<Seq<char>>, Seq<char>>
    decreases cidrs.len(),
{
    if cidrs.len() == 0 {
        Ok(Seq::empty())
    } else {
        match distinct_cidrs(cidrs.drop_last()) {
            Err(cidr) => Err(cidr),
            Ok(front) => if parsed_cidr(cidrs.last()) is None {
                Err(cidrs.last())
            } else if front.contains(cidrs.last()) {
                Ok(front)
            } else {
                Ok(front.push(cidrs.last()))
            },
        }
    }
}

/// Routes to the destinations, all through one device.
pub open spec fn routes_through(destinations: Seq<Seq<char>>, device: Seq<char>) -> Seq<
    ClientRouteView,
> {
    Seq::new(
        destinations.len(),
        |i: int|
            ClientRouteView { destination: destinations[i], via: RouteViaView::Device(device) },
    )
}

/// The routes of full mode: the server's own endpoint keeps its way, and the two
/// halves of the address space go through the tunnel.
pub open spec fn full_routes(
    tun_interface: Seq<char>,
    server_endpoint_ip: Seq<char>,
    server_route: RouteViaView,
) -> Seq<ClientRouteView> {
    seq![
        ClientRouteView { destination: server_endpoint_ip + "/32"@, via: server_route },
        ClientRouteView {
            destination: "0.0.0.0/1"@,
            via: RouteViaView::Device(tun_interface),
        },
        ClientRouteView {
            destination: "128.0.0.0/1"@,
            via: RouteViaView::Device(tun_interface),
        },
    ]
}

/// The routes that a mode calls for, or the network that is invalid.
pub open spec fn planned_routes(
    mode: ClientRoutingModeView,
    tun_interface: Seq<char>,
    server_endpoint_ip: Seq<char>,
    server_route: RouteViaView,
) -> Result<Seq<ClientRouteView>, Seq<char>> {
    match mode {
        ClientRoutingModeView::Disabled => Ok(Seq::empty()),
        ClientRoutingModeView::Split(cidrs) => match distinct_cidrs(cidrs) {
            Ok(destinations) => Ok(routes_through(destinations, tun_interface)),
            Err(cidr) => Err(cidr),
        },
        ClientRoutingModeView::Full => Ok(
            full_routes(tun_interface, server_endpoint_ip, server_route),
        ),
    }
}

/// Whether `list` holds a string with the characters of `s`.
pub fn contains_string(list: &Vec<String>, s: &str) -> (b: bool)
    ensures
        b == text::strings(list@).contains(s@),
{
    let mut i: usize = 0;
    while i < list.len()
        invariant
            i <= list@.len(),
            forall|j: int| 0 <= j < i ==> (#[trigger] list@[j])@ != s@,
        decreases list@.len() - i,
    {
        if text::same_str(list[i].as_str(), s) {
            assert(text::strings(list@)[i as int] == s@);
            return true;
        }
        i = i + 1;
    }
    assert forall|j: int| 0 <= j < text::strings(list@).len() implies text::strings(list@)[j]
        != s@ by {
        assert(list@[j]@ != s@);
    }
    false
}

proof fn lemma_distinct_cidrs_error(cidrs: Seq<Seq<char>>, n: int)
    requires
        0 <= n <= cidrs.len(),
        distinct_cidrs(cidrs.take(n)) is Err,
    ensures
        distinct_cidrs(cidrs) == distinct_cidrs(cidrs.take(n)),
    decreases cidrs.len(),
{
    if n < cidrs.len() {
        assert(cidrs.drop_last().take(n) =~= cidrs.take(n));
        lemma_distinct_cidrs_error(cidrs.drop_last(), n);
    } else {
        assert(cidrs.take(n) =~= cidrs);
    }
}

/// The networks of a list, each once.
fn keep_distinct(cidrs: &Vec<String>) -> (r: Result<Vec<String>, RoutingPlanError>)
    ensures
        match r {
            Ok(list) => distinct_cidrs(text::strings(cidrs@)) == Ok::<Seq<Seq<char>>, Seq<char>>(
                text::strings(list@),
            ),
            Err(e) => distinct_cidrs(text::strings(cidrs@)) == Err::<Seq<Seq<char>>, Seq<char>>(
                e.cidr(),
            ),
        },
{
    let mut seen: Vec<String> = Vec::new();
    let ghost all = text::strings(cidrs@);
    let mut i: usize = 0;
    assert(text::strings(seen@) =~= Seq::<Seq<char>>::empty());
    while i < cidrs.len()
        invariant
            i <= cidrs@.len(),
            all == text::strings(cidrs@),
            distinct_cidrs(all.take(i as int)) == Ok::<Seq<Seq<char>>, Seq<char>>(
                text::strings(seen@),
            ),
        decreases cidrs@.len() - i,
    {
        assert(all.take(i + 1).drop_last() =~= all.take(i as int));
        assert(all.take(i + 1).last() == cidrs@[i as int]@);
        if !is_valid_ipv4_cidr(cidrs[i].as_str()) {
            proof {
                lemma_distinct_cidrs_error(all, i + 1);
            }
            return Err(RoutingPlanError::InvalidCidr(cidrs[i].clone()));
        }
        if !contains_string(&seen, cidrs[i].as_str()) {
            let ghost before = seen@;
            seen.push(cidrs[i].clone());
            assert(text::strings(seen@) =~= text::strings(before).push(cidrs@[i as int]@));
        }
        i = i + 1;
    }
    assert(all.take(i as int) =~= all);
    Ok(seen)
}

/// Computes the routes that the client adds for `mode`. `server_route` is how the
/// host reaches the server before any of them is added.
pub fn build_client_routing_plan(
    mode: &ClientRoutingMode,
    tun_interface: &str,
    server_endpoint_ip: &str,
    server_route: &RouteVia,
) -> (r: Result<ClientRoutingPlan, RoutingPlanError>)
    ensures
        match r {
            Ok(plan) => planned_routes(
                mode@,
                tun_interface@,
                server_endpoint_ip@,
                server_route@,
            ) == Ok::<Seq<ClientRouteView>, Seq<char>>(plan@),
            Err(e) => planned_routes(
                mode@,
                tun_interface@,
                server_endpoint_ip@,
                server_route@,
            ) == Err::<Seq<ClientRouteView>, Seq<char>>(e.cidr()),
        },
{
    let mut plan = ClientRoutingPlan { routes: Vec::new() };
    assert(plan@ =~= Seq::<ClientRouteView>::empty());
    match mode {
        ClientRoutingMode::Disabled => Ok(plan),
        ClientRoutingMode::Split(cidrs) => {
            let destinations = match keep_distinct(cidrs) {
                Ok(destinations) => destinations,
                Err(e) => return Err(e),
            };
            let ghost all = text::strings(destinations@);
            let mut i: usize = 0;
            assert(routes_through(all.take(0), tun_interface@) =~= plan@);
            while i < destinations.len()
                invariant
                    i <= destinations@.len(),
                    all == text::strings(destinations@),
                    plan@ == routes_through(all.take(i as int), tun_interface@),
                decreases destinations@.len() - i,
            {
                let ghost before = plan;
                let route = ClientRoute {
                    destination: destinations[i].clone(),
                    via: RouteVia::Device(tun_interface.to_owned()),
                };
                plan.routes.push(route);
                assert(plan@ =~= before@.push(route@));
                assert(plan@ =~= routes_through(all.take(i + 1), tun_interface@));
                i = i + 1;
            }
            assert(all.take(i as int) =~= all);
            Ok(plan)
        },
        ClientRoutingMode::Full => {
            let mut exception = server_endpoint_ip.to_owned();
            exception.append("/32");
            plan.routes.push(
                ClientRoute { destination: exception, via: server_route.copy() },
            );
            plan.routes.push(
                ClientRoute {
                    destination: "0.0.0.0/1".to_owned(),
                    via: RouteVia::Device(tun_interface.to_owned()),
                },
            );
            plan.routes.push(
                ClientRoute {
                    destination: "128.0.0.0/1".to_owned(),
                    via: RouteVia::Device(tun_interface.to_owned()),
                },
            );
            assert(plan@ =~= full_routes(tun_interface@, server_endpoint_ip@, server_route@));
            Ok(plan)
        },
    }
}

/// The routes of split mode with a host route for each name server that has none
/// yet.
pub open spec fn with_name_servers(
    routes: Seq<Seq<char>>,
    servers: Seq<net::IpAddress>,
) -> Seq<Seq<char>>
    decreases servers.len(),
{
    if servers.len() == 0 {
        routes
    } else {
        let front = with_name_servers(routes, servers.drop_last());
        let cidr = servers.last().chars() + "/32"@;
        if front.contains(cidr) {
            front
        } else {
            front.push(cidr)
        }
    }
}

/// Routes the name servers through the tunnel where they would not go through it
/// by themselves: in split mode, when they are to be used at all.
pub fn route_name_servers(settings: &mut ClientRoutingSettings, dns: &DnsSettings)
    ensures
        final(settings)@.mode == old(settings)@.mode,
        final(settings)@.routes == (if dns.enabled && old(settings).mode == RoutingMode::Split {
            with_name_servers(old(settings)@.routes, dns.servers@)
        } else {
            old(settings)@.routes
        }),
{
    if !(dns.enabled && settings.mode == RoutingMode::Split) {
        return ;
    }
    let ghost start = settings@.routes;
    let mode = settings.mode;
    let mut i: usize = 0;
    assert(dns.servers@.take(0) =~= Seq::<net::IpAddress>::empty());
    while i < dns.servers.len()
        invariant
            i <= dns.servers@.len(),
            settings.mode == mode,
            settings@.routes == with_name_servers(start, dns.servers@.take(i as int)),
        decreases dns.servers@.len() - i,
    {
        assert(dns.servers@.take(i + 1).drop_last() =~= dns.servers@.take(i as int));
        let mut cidr = dns.servers[i].format();
        cidr.append("/32");
        if !contains_string(&settings.routes, cidr.as_str()) {
            let ghost before = settings.routes@;
            let ghost added = cidr@;
            settings.routes.push(cidr);
            assert(text::strings(settings.routes@) =~= text::strings(before).push(added));
        }
        i = i + 1;
    }
    assert(dns.servers@.take(i as int) =~= dns.servers@);
}

/// Every IPv4 name server has an entry, which is read as the network that holds its
/// address alone.
pub proof fn law_name_servers_are_routed(
    routes: Seq<Seq<char>>,
    servers: Seq<net::IpAddress>,
    i: int,
)
    requires
        0 <= i < servers.len(),
        servers[i] is V4,
    ensures
        with_name_servers(routes, servers).contains(servers[i].chars() + "/32"@),
        parsed_cidr(servers[i].chars() + "/32"@) == Some((servers[i]->V4_0, 32nat)),
{
    lemma_name_server_listed(routes, servers, i);
    lemma_server_destination(servers[i]->V4_0);
}

/// Routing the name servers loses no route.
pub proof fn law_name_servers_keep_routes(routes: Seq<Seq<char>>, servers: Seq<net::IpAddress>)
    ensures
        routes.len() <= with_name_servers(routes, servers).len(),
        with_name_servers(routes, servers).take(routes.len() as int) == routes,
    decreases servers.len(),
{
    if servers.len() == 0 {
        assert(routes.take(routes.len() as int) =~= routes);
    } else {
        law_name_servers_keep_routes(routes, servers.drop_last());
        let front = with_name_servers(routes, servers.drop_last());
        assert(with_name_servers(routes, servers).take(routes.len() as int) =~= front.take(
            routes.len() as int,
        ));
    }
}

proof fn lemma_name_server_listed(
    routes: Seq<Seq<char>>,
    servers: Seq<net::IpAddress>,
    i: int,
)
    requires
        0 <= i < servers.len(),
    ensures
        with_name_servers(routes, servers).contains(servers[i].chars() + "/32"@),
    decreases servers.len(),
{
    let front = with_name_servers(routes, servers.drop_last());
    let whole = with_name_servers(routes, servers);
    let cidr = servers.last().chars() + "/32"@;
    if i == servers.len() - 1 {
        if !front.contains(cidr) {
            assert(whole.last() == cidr);
        }
    } else {
        lemma_name_server_listed(routes, servers.drop_last(), i);
        let wanted = servers[i].chars() + "/32"@;
        let k = front.index_of(wanted);
        assert(whole[k] == wanted);
    }
}

/// In split mode every configured network is routed once, through the tunnel
/// device, and nothing else is: the default route is touched only if it was
/// configured.
pub proof fn law_split_plan(
    cidrs: Seq<Seq<char>>,
    tun_interface: Seq<char>,
    server_endpoint_ip: Seq<char>,
    server_route: RouteViaView,
)
    requires
        planned_routes(
            ClientRoutingModeView::Split(cidrs),
            tun_interface,
            server_endpoint_ip,
            server_route,
        ) is Ok,
    ensures
        ({
            let routes = planned_routes(
                ClientRoutingModeView::Split(cidrs),
                tun_interface,
                server_endpoint_ip,
                server_route,
            )->Ok_0;
            &&& forall|i: int|
                0 <= i < routes.len() ==> {
                    &&& (#[trigger] routes[i]).via == RouteViaView::Device(tun_interface)
                    &&& cidrs.contains(routes[i].destination)
                    &&& parsed_cidr(routes[i].destination) is Some
                }
            &&& forall|i: int, j: int|
                0 <= i < routes.len() && 0 <= j < routes.len() && i != j
                    ==> routes[i].destination != routes[j].destination
            &&& forall|c: Seq<char>| #[trigger]
                cidrs.contains(c) ==> exists|i: int|
                    0 <= i < routes.len() && (#[trigger] routes[i]).destination == c
        }),
{
    let destinations = distinct_cidrs(cidrs)->Ok_0;
    let routes = routes_through(destinations, tun_interface);
    lemma_distinct_cidrs(cidrs);
    assert forall|i: int| 0 <= i < routes.len() implies {
        &&& (#[trigger] routes[i]).via == RouteViaView::Device(tun_interface)
        &&& cidrs.contains(routes[i].destination)
        &&& parsed_cidr(routes[i].destination) is Some
    } by {
        assert(destinations.contains(destinations[i]));
    }
    assert forall|c: Seq<char>| #[trigger] cidrs.contains(c) implies exists|i: int|
        0 <= i < routes.len() && (#[trigger] routes[i]).destination == c by {
        let i = destinations.index_of(c);
        assert(routes[i].destination == c);
    }
}

proof fn lemma_distinct_cidrs(cidrs: Seq<Seq<char>>)
    requires
        distinct_cidrs(cidrs) is Ok,
    ensures
        distinct_cidrs(cidrs)->Ok_0.no_duplicates(),
        forall|c: Seq<char>|
            #![trigger distinct_cidrs(cidrs)->Ok_0.contains(c)]
            #![trigger cidrs.contains(c)]
            distinct_cidrs(cidrs)->Ok_0.contains(c) <==> cidrs.contains(c),
        forall|c: Seq<char>| #[trigger]
            distinct_cidrs(cidrs)->Ok_0.contains(c) ==> parsed_cidr(c) is Some,
    decreases cidrs.len(),
{
    if cidrs.len() > 0 {
        let front = cidrs.drop_last();
        let last = cidrs.last();
        lemma_distinct_cidrs(front);
        let before = distinct_cidrs(front)->Ok_0;
        let after = distinct_cidrs(cidrs)->Ok_0;
        assert forall|c: Seq<char>| #[trigger] cidrs.contains(c) <==> front.contains(c) || c
            == last by {
            if cidrs.contains(c) {
                let k = cidrs.index_of(c);
                if k < front.len() {
                    assert(front[k] == c);
                }
            }
            if front.contains(c) {
                let k = front.index_of(c);
                assert(cidrs[k] == c);
            }
            assert(cidrs[cidrs.len() - 1] == last);
        }
        assert forall|c: Seq<char>| #[trigger] after.contains(c) <==> before.contains(c) || c
            == last by {
            if !before.contains(last) {
                if after.contains(c) {
                    let k = after.index_of(c);
                    if k < before.len() {
                        assert(before[k] == c);
                    }
                }
                if before.contains(c) {
                    let k = before.index_of(c);
                    assert(after[k] == c);
                }
                assert(after[before.len() as int] == last);
            }
        }
    }
}

/// Whether a network covers an address.
pub open spec fn covers(network: u32, prefix: nat, ip: u32) -> bool {
    let size = vstd::arithmetic::power2::pow2((32 - prefix) as nat);
    ip as nat / size == network as nat / size
}

/// The prefix length with which a route covers an address.
pub open spec fn covering_prefix(route: ClientRouteView, ip: u32) -> Option<nat> {
    match parsed_cidr(route.destination) {
        Some((network, prefix)) => if covers(network, prefix, ip) {
            Some(prefix)
        } else {
            None
        },
        None => None,
    }
}

/// The route that a host takes for an address: the covering one with the longest
/// prefix.
pub open spec fn chosen_route(routes: Seq<ClientRouteView>, ip: u32) -> Option<int>
    decreases routes.len(),
{
    if routes.len() == 0 {
        None
    } else {
        let front = chosen_route(routes.drop_last(), ip);
        match covering_prefix(routes.last(), ip) {
            None => front,
            Some(prefix) => if front is None || covering_prefix(
                routes[front->Some_0],
                ip,
            )->Some_0 < prefix {
                Some(routes.len() - 1)
            } else {
                front
            },
        }
    }
}

proof fn lemma_cidr_text(ip: u32, prefix_text: Seq<char>, prefix: nat)
    requires
        text::byte_value(prefix_text) == Some(prefix),
        prefix <= 32,
    ensures
        parsed_cidr(ipv4_with_prefix(ip, prefix_text)) == Some((ip, prefix)),
{
    let address = net::ipv4_chars(ip);
    let whole = ipv4_with_prefix(ip, prefix_text);
    net::law_ipv4_text_round_trip(ip);
    assert forall|i: int| 0 <= i < address.len() implies whole[i] != '/' by {
        assert(whole[i] == address[i]);
    }
    text::lemma_position_is(whole, '/', address.len());
    assert(whole.take(address.len() as int) =~= address);
    assert(whole.skip(address.len() as int + 1) =~= prefix_text);
}

spec fn ipv4_with_prefix(ip: u32, prefix_text: Seq<char>) -> Seq<char> {
    net::ipv4_chars(ip) + seq!['/'] + prefix_text
}

proof fn lemma_prefix_texts()
    ensures
        text::byte_value(seq!['1']) == Some(1nat),
        text::byte_value(seq!['3', '2']) == Some(32nat),
{
    let three = seq!['3'];
    let thirty_two = seq!['3', '2'];
    let one = seq!['1'];
    assert(one.drop_last() =~= Seq::<char>::empty());
    assert(three.drop_last() =~= Seq::<char>::empty());
    assert(thirty_two.drop_last() =~= three);
    assert(text::decimal_value(Seq::<char>::empty()) == Some(0nat));
    assert(text::decimal_value(one) == Some(1nat));
    assert(text::decimal_value(three) == Some(3nat));
    assert(text::decimal_value(thirty_two) == Some(32nat));
}

proof fn lemma_server_destination(server: u32)
    ensures
        parsed_cidr(net::ipv4_chars(server) + "/32"@) == Some((server, 32nat)),
{
    reveal_strlit("/32");
    lemma_prefix_texts();
    lemma_cidr_text(server, seq!['3', '2'], 32);
    assert(net::ipv4_chars(server) + "/32"@ =~= ipv4_with_prefix(server, seq!['3', '2']));
}

proof fn lemma_lower_half()
    ensures
        parsed_cidr("0.0.0.0/1"@) == Some((0u32, 1nat)),
{
    lemma_prefix_texts();
    lemma_cidr_text(0, seq!['1'], 1);
    assert(text::decimal_chars(0) == seq!['0']);
    reveal_strlit(".");
    reveal_strlit("0.0.0.0/1");
    assert("0.0.0.0/1"@ =~= ipv4_with_prefix(0, seq!['1']));
}

proof fn lemma_upper_half()
    ensures
        parsed_cidr("128.0.0.0/1"@) == Some((0x8000_0000u32, 1nat)),
{
    lemma_prefix_texts();
    lemma_cidr_text(0x8000_0000, seq!['1'], 1);
    assert(text::decimal_chars(0) == seq!['0']);
    assert(text::decimal_chars(1) =~= seq!['1']);
    assert(text::decimal_chars(12) =~= seq!['1', '2']);
    assert(text::decimal_chars(128) =~= seq!['1', '2', '8']);
    reveal_strlit(".");
    reveal_strlit("128.0.0.0/1");
    assert("128.0.0.0/1"@ =~= ipv4_with_prefix(0x8000_0000, seq!['1']));
}

proof fn lemma_covers(server: u32, ip: u32)
    ensures
        covers(server, 32, ip) <==> ip == server,
        covers(0, 1, ip) <==> ip < 0x8000_0000,
        covers(0x8000_0000, 1, ip) <==> ip >= 0x8000_0000,
{
    vstd::arithmetic::power2::lemma2_to64();
    assert(vstd::arithmetic::power2::pow2((32 - 32int) as nat) == 1);
    assert(vstd::arithmetic::power2::pow2((32 - 1int) as nat) == 0x8000_0000);
}

proof fn lemma_chosen_of_three(routes: Seq<ClientRouteView>, ip: u32, lower: bool)
    requires
        routes.len() == 3,
        covering_prefix(routes[0], ip) is None || covering_prefix(routes[0], ip) == Some(32nat),
        covering_prefix(routes[1], ip) == (if lower {
            Some(1nat)
        } else {
            None
        }),
        covering_prefix(routes[2], ip) == (if lower {
            None
        } else {
            Some(1nat)
        }),
    ensures
        chosen_route(routes, ip) == Some(
            if covering_prefix(routes[0], ip) is Some {
                0int
            } else if lower {
                1
            } else {
                2
            },
        ),
{
    let two = routes.drop_last();
    let one = two.drop_last();
    let none = one.drop_last();
    assert(one.last() == routes[0]);
    assert(two.last() == routes[1]);
    assert(one[0] == routes[0]);
    assert(two[0] == routes[0]);
    assert(chosen_route(none, ip) is None);
    assert(chosen_route(one, ip) == (if covering_prefix(routes[0], ip) is Some {
        Some(0int)
    } else {
        None
    }));
    assert(chosen_route(two, ip) == (if covering_prefix(routes[0], ip) is Some {
        Some(0int)
    } else if lower {
        Some(1int)
    } else {
        None
    }));
}

/// The address under the mask.
pub open spec fn network_of(address: (u8, u8, u8, u8), netmask: (u8, u8, u8, u8)) -> u32 {
    ((address.0 & netmask.0) * 0x100_0000 + (address.1 & netmask.1) * 0x1_0000 + (address.2
        & netmask.2) * 0x100 + (address.3 & netmask.3)) as u32
}

/// The number of bits set in the mask.
pub open spec fn prefix_of(netmask: (u8, u8, u8, u8)) -> nat {
    bits_set(netmask.0 as nat) + bits_set(netmask.1 as nat) + bits_set(netmask.2 as nat)
        + bits_set(netmask.3 as nat)
}

proof fn lemma_bits_set_bound(b: nat, n: nat)
    requires
        b < vstd::arithmetic::power2::pow2(n),
    ensures
        bits_set(b) <= n,
    decreases n,
{
    if b > 0 {
        if n == 0 {
            vstd::arithmetic::power2::lemma2_to64();
        } else {
            vstd::arithmetic::power2::lemma_pow2_unfold(n);
            lemma_bits_set_bound(b / 2, (n - 1) as nat);
        }
    }
}

proof fn lemma_prefix_bound(netmask: (u8, u8, u8, u8))
    ensures
        prefix_of(netmask) <= 32,
{
    vstd::arithmetic::power2::lemma2_to64();
    lemma_bits_set_bound(netmask.0 as nat, 8);
    lemma_bits_set_bound(netmask.1 as nat, 8);
    lemma_bits_set_bound(netmask.2 as nat, 8);
    lemma_bits_set_bound(netmask.3 as nat, 8);
}

proof fn lemma_small_number_text(n: nat)
    requires
        n <= 255,
    ensures
        text::byte_value(text::decimal_chars(n)) == Some(n),
{
    text::lemma_decimal_round_trip(n);
    assert('0' <= text::decimal_chars(n)[0]);
}

proof fn lemma_quad_digits(w: nat, x: nat, y: nat, z: nat, n: nat)
    requires
        w < 256,
        x < 256,
        y < 256,
        z < 256,
        n == w * 0x100_0000 + x * 0x1_0000 + y * 0x100 + z,
    ensures
        n / 0x100_0000 == w,
        (n / 0x1_0000) % 256 == x,
        (n / 0x100) % 256 == y,
        n % 256 == z,
{
    net::lemma_octets(w, x, y, z, n);
}

/// The text that is computed from an address and a mask is a network: that of the
/// address under the mask, with as long a prefix as the mask has bits.
pub proof fn law_computed_network_is_valid(
    address: (u8, u8, u8, u8),
    netmask: (u8, u8, u8, u8),
)
    ensures
        parsed_cidr(cidr_chars(address, netmask)) == Some(
            (network_of(address, netmask), prefix_of(netmask)),
        ),
{
    let network = network_of(address, netmask);
    let prefix = prefix_of(netmask);
    lemma_prefix_bound(netmask);
    lemma_small_number_text(prefix);
    lemma_cidr_text(network, text::decimal_chars(prefix), prefix);
    lemma_quad_digits(
        (address.0 & netmask.0) as nat,
        (address.1 & netmask.1) as nat,
        (address.2 & netmask.2) as nat,
        (address.3 & netmask.3) as nat,
        network as nat,
    );
    reveal_strlit("/");
    assert("/"@ =~= seq!['/']);
    assert(cidr_chars(address, netmask) == net::ipv4_chars(network) + "/"@ + text::decimal_chars(
        prefix,
    ));
}

/// When routing is disabled no route is added, whatever else is configured.
pub proof fn law_disabled_plan_is_empty(
    tun_interface: Seq<char>,
    server_endpoint_ip: Seq<char>,
    server_route: RouteViaView,
)
    ensures
        planned_routes(
            ClientRoutingModeView::Disabled,
            tun_interface,
            server_endpoint_ip,
            server_route,
        ) == Ok::<Seq<ClientRouteView>, Seq<char>>(Seq::empty()),
{
}

/// In full mode every IPv4 address goes through the tunnel device but one: the
/// server's own endpoint, which keeps the way it had. No packet of the tunnel
/// itself is routed back into the tunnel.
pub proof fn law_full_plan_routes_all_but_the_server(
    tun_interface: Seq<char>,
    server: u32,
    server_route: RouteViaView,
    ip: u32,
)
    ensures
        ({
            let routes = planned_routes(
                ClientRoutingModeView::Full,
                tun_interface,
                net::ipv4_chars(server),
                server_route,
            )->Ok_0;
            let chosen = chosen_route(routes, ip);
            &&& chosen is Some
            &&& 0 <= chosen->Some_0 < routes.len()
            &&& routes[chosen->Some_0].via == (if ip == server {
                server_route
            } else {
                RouteViaView::Device(tun_interface)
            })
        }),
{
    let routes = full_routes(tun_interface, net::ipv4_chars(server), server_route);
    lemma_server_destination(server);
    lemma_lower_half();
    lemma_upper_half();
    lemma_covers(server, ip);
    lemma_chosen_of_three(routes, ip, ip < 0x8000_0000);
}

/// Full mode adds exactly three routes, and none of them is the default route.
pub proof fn law_full_plan_leaves_the_default_route(
    tun_interface: Seq<char>,
    server_endpoint_ip: Seq<char>,
    server_route: RouteViaView,
)
    ensures
        ({
            let routes = planned_routes(
                ClientRoutingModeView::Full,
                tun_interface,
                server_endpoint_ip,
                server_route,
            )->Ok_0;
            &&& routes.len() == 3
            &&& forall|i: int|
                0 <= i < routes.len() ==> (#[trigger] routes[i]).destination != "0.0.0.0/0"@
        }),
{
    reveal_strlit("/32");
    reveal_strlit("0.0.0.0/0");
    reveal_strlit("0.0.0.0/1");
    reveal_strlit("128.0.0.0/1");
    let exception = server_endpoint_ip + "/32"@;
    assert(exception.last() == '2');
    assert("0.0.0.0/0"@.last() == '0');
    assert("0.0.0.0/1"@.last() == '1');
    assert("128.0.0.0/1"@.last() == '1');
}

/// The platforms that differ in how routes are set.
#[derive(Debug, Clone, Copy, PartialEq, Eq, Structural)]
pub enum Platform {
    Linux,
    Windows,
    Android,
    Unsupported,
}

/// How the process learns that it is to stop.
#[derive(Debug, Clone, Copy, PartialEq, Eq, Structural)]
pub enum ShutdownHandler {
    /// Nothing is to be installed.
    Nothing,
    /// A handler of the interrupt signal that does not restart the interrupted
    /// call.
    InterruptSignal,
    /// A handler of console events.
    ConsoleEvents,
}

/// Which handler to install so that an interrupt lets the process clean up.
pub fn install_shutdown_handler(platform: Platform) -> (handler: ShutdownHandler)
    ensures
        handler == (match platform {
            Platform::Linux => ShutdownHandler::InterruptSignal,
            Platform::Windows => ShutdownHandler::ConsoleEvents,
            Platform::Android => ShutdownHandler::Nothing,
            Platform::Unsupported => ShutdownHandler::Nothing,
        }),
{
    match platform {
        Platform::Linux => ShutdownHandler::InterruptSignal,
        Platform::Windows => ShutdownHandler::ConsoleEvents,
        Platform::Android => {
            android::install_shutdown_handler();
            ShutdownHandler::Nothing
        },
        Platform::Unsupported => {
            unsupported::install_shutdown_handler();
            ShutdownHandler::Nothing
        },
    }
}

/// Whether the process was asked to stop, given whether a handler was called. The
/// question does not arise on platforms without a handler.
pub fn shutdown_requested(platform: Platform, signalled: bool) -> (b: bool)
    ensures
        b == (signalled && (platform == Platform::Linux || platform == Platform::Windows)),
{
    match platform {
        Platform::Linux => linux::shutdown_requested(signalled),
        Platform::Windows => windows::shutdown_requested(signalled),
        Platform::Android => android::shutdown_requested(),
        Platform::Unsupported => unsupported::shutdown_requested(),
    }
}

/// The command that asks the host how it reaches `endpoint`, where the host is
/// asked at all.
pub fn route_query(platform: Platform, endpoint: &str) -> (c: Option<HostCommand>)
    ensures
        match c {
            Some(c) => c@ == (match platform {
                Platform::Linux => linux::ip_command(seq!["route"@, "get"@, endpoint@]),
                _ => windows::powershell(windows::find_route(endpoint@)),
            }) && (platform == Platform::Linux || platform == Platform::Windows),
            None => platform == Platform::Android || platform == Platform::Unsupported,
        },
{
    match platform {
        Platform::Linux => Some(linux::route_query(endpoint)),
        Platform::Windows => Some(windows::route_query(endpoint)),
        Platform::Android => None,
        Platform::Unsupported => None,
    }
}

/// How the host reaches `endpoint`; `output` is what it answered to the query.
pub open spec fn route_to(
    platform: Platform,
    endpoint: Seq<char>,
    output: Result<Seq<char>, ErrorView>,
) -> Result<RouteViaView, ErrorView> {
    match platform {
        Platform::Linux => match output {
            Ok(text) => linux::route_in(endpoint, text),
            Err(e) => Err(e),
        },
        Platform::Windows => match output {
            Ok(text) => windows::route_in(endpoint, text),
            Err(e) => Err(e),
        },
        Platform::Android => Ok(
            RouteViaView::Gateway { gateway: "Android-VpnService"@, device: "rmnet"@ },
        ),
        Platform::Unsupported => Err(
            ErrorView {
                kind: ErrorKind::Unsupported,
                message: "Routing not implemented for this platform"@,
            },
        ),
    }
}

/// Tells how the host reaches `endpoint` from what it answered to the query.
pub fn current_route_to(
    platform: Platform,
    endpoint: &str,
    output: Result<String, Error>,
) -> (r: Result<RouteVia, Error>)
    ensures
        match r {
            Ok(route) => route_to(platform, endpoint@, error::text_outcome(output)) == Ok::<
                RouteViaView,
                ErrorView,
            >(route@),
            Err(e) => route_to(platform, endpoint@, error::text_outcome(output)) == Err::<
                RouteViaView,
                ErrorView,
            >(e@),
        },
{
    match platform {
        Platform::Linux => match output {
            Ok(text) => linux::current_route_to(endpoint, text.as_str()),
            Err(e) => Err(e),
        },
        Platform::Windows => match output {
            Ok(text) => windows::current_route_to(endpoint, text.as_str()),
            Err(e) => Err(e),
        },
        Platform::Android => android::current_route_to(endpoint),
        Platform::Unsupported => unsupported::current_route_to(endpoint),
    }
}

/// The setup of a gateway on its way.
#[derive(Debug)]
pub enum GatewaySetup {
    Linux(Transaction),
    Windows(ServerSetup),
}

/// What is known of the host before a gateway is set up: the output of the query
/// for the default route, the contents of the forwarding file, and the number of
/// this process.
#[derive(Debug)]
pub struct HostFacts {
    pub default_route: Result<String, Error>,
    pub ip_forward: Result<String, Error>,
    pub process_id: u32,
}

/// The changes that make a Linux host a gateway, or why they cannot be prepared.
pub open spec fn linux_changes(config: RoutingConfig, facts: HostFacts) -> Result<
    Seq<transaction::ChangeView>,
    ErrorView,
> {
    match linux::chosen_interface(
        config::optional(config.outbound_interface),
        error::text_outcome(facts.default_route),
    ) {
        Err(e) => Err(e),
        Ok(interface) => match facts.ip_forward {
            Err(e) => Err(e@),
            Ok(contents) => Ok(
                linux::gateway_changes(
                    config.vpn_subnet@,
                    config.tun_interface@,
                    interface,
                    text::trimmed(contents@) == "1"@,
                ),
            ),
        },
    }
}

/// Begins to make the host a gateway.
pub fn apply(platform: Platform, config: &RoutingConfig, facts: HostFacts) -> (r: Result<
    GatewaySetup,
    Error,
>)
    ensures
        match (platform, r) {
            (Platform::Linux, Ok(GatewaySetup::Linux(t))) => linux_changes(*config, facts) is Ok
                && t@ == transaction::TransactionView::begun(
                linux_changes(*config, facts)->Ok_0,
            ),
            (Platform::Linux, Err(e)) => linux_changes(*config, facts) == Err::<
                Seq<transaction::ChangeView>,
                ErrorView,
            >(e@),
            (Platform::Windows, Ok(GatewaySetup::Windows(setup))) => setup@
                == windows::setup_begun(*config, facts.process_id),
            (Platform::Android, Err(e)) => e@ == (ErrorView {
                kind: ErrorKind::Unsupported,
                message: "Cannot apply server NAT routes internally on Android."@,
            }),
            (Platform::Unsupported, Err(e)) => e@ == (ErrorView {
                kind: ErrorKind::Unsupported,
                message: "Routing/NAT backend not implemented for this platform"@,
            }),
            _ => false,
        },
{
    match platform {
        Platform::Linux => match linux::apply(config, facts.default_route, facts.ip_forward) {
            Ok(t) => Ok(GatewaySetup::Linux(t)),
            Err(e) => Err(e),
        },
        Platform::Windows => Ok(GatewaySetup::Windows(windows::apply(config, facts.process_id))),
        Platform::Android => Err(android::apply(config).unwrap_err()),
        Platform::Unsupported => Err(unsupported::apply(config).unwrap_err()),
    }
}

/// Whether a gateway is set up.
pub open spec fn gateway_applied(setup: GatewaySetup) -> bool {
    match setup {
        GatewaySetup::Linux(t) => t@.progress is Made,
        GatewaySetup::Windows(setup) => setup@.stage == windows::Stage::AppliedNat || setup@.stage
            == windows::Stage::AppliedSharing,
    }
}

/// A gateway that is set up, and how to take it back.
#[derive(Debug)]
pub struct RoutingGuard {
    inner: GatewaySetup,
}

/// The PowerShell runs of some commands.
pub open spec fn powershell_runs(commands: Seq<Seq<char>>) -> Seq<HostCommandView> {
    Seq::new(commands.len(), |i: int| windows::powershell(commands[i]))
}

/// The commands that take a gateway back.
pub open spec fn gateway_cleanup(setup: GatewaySetup) -> Seq<HostCommandView> {
    match setup {
        GatewaySetup::Linux(t) => t@.cleanup(),
        GatewaySetup::Windows(setup) => powershell_runs(setup@.cleanup()),
    }
}

impl RoutingGuard {
    /// The setup that is to be taken back.
    pub closed spec fn setup(&self) -> GatewaySetup {
        self.inner
    }

    /// Keeps a setup for taking it back, once it is complete.
    pub fn new(setup: GatewaySetup) -> (guard: Option<Self>)
        ensures
            match guard {
                Some(guard) => gateway_applied(setup) && guard.setup() == setup,
                None => !gateway_applied(setup),
            },
    {
        let applied: bool = match &setup {
            GatewaySetup::Linux(t) => t.is_made(),
            GatewaySetup::Windows(setup) => setup.stage() == windows::Stage::AppliedNat
                || setup.stage() == windows::Stage::AppliedSharing,
        };
        if applied {
            Some(RoutingGuard { inner: setup })
        } else {
            None
        }
    }

    /// The commands that take the gateway back, in order.
    pub fn cleanup(&self) -> (commands: Vec<HostCommand>)
        ensures
            transaction::commands_view(commands@) == gateway_cleanup(self.setup()),
    {
        match &self.inner {
            GatewaySetup::Linux(t) => t.cleanup(),
            GatewaySetup::Windows(setup) => {
                let scripts = setup.cleanup();
                let ghost all = text::strings(scripts@);
                let mut commands: Vec<HostCommand> = Vec::new();
                let mut i: usize = 0;
                while i < scripts.len()
                    invariant
                        i <= scripts@.len(),
                        all == text::strings(scripts@),
                        transaction::commands_view(commands@) == powershell_runs(
                            all.take(i as int),
                        ),
                    decreases scripts@.len() - i,
                {
                    let ghost before = commands@;
                    let run = windows::run_powershell(scripts[i].as_str());
                    let ghost added = run@;
                    commands.push(run);
                    assert(transaction::commands_view(commands@)
                        =~= transaction::commands_view(before).push(added));
                    assert(transaction::commands_view(commands@) =~= powershell_runs(
                        all.take(i + 1),
                    ));
                    i = i + 1;
                }
                assert(all.take(i as int) =~= all);
                commands
            },
        }
    }
}

/// Client routes that are set, and how to take them back.
#[derive(Debug)]
pub struct ClientRouteGuard {
    inner: Option<Transaction>,
}

impl ClientRouteGuard {
    /// The routes that are to be taken back, where this side has set any.
    pub closed spec fn routes(&self) -> Option<Transaction> {
        self.inner
    }

    /// Keeps routes for taking them back, once they are all added.
    pub fn new(routes: Option<Transaction>) -> (guard: Option<Self>)
        ensures
            match guard {
                Some(guard) => guard.routes() == routes && (routes matches Some(t)
                    ==> t@.progress is Made),
                None => routes matches Some(t) && !(t@.progress is Made),
            },
    {
        let added: bool = match &routes {
            Some(t) => t.is_made(),
            None => true,
        };
        if added {
            Some(ClientRouteGuard { inner: routes })
        } else {
            None
        }
    }

    /// The commands that remove the routes, the last one first.
    pub fn cleanup(&self) -> (commands: Vec<HostCommand>)
        ensures
            transaction::commands_view(commands@) == (match self.routes() {
                Some(t) => t@.cleanup(),
                None => Seq::empty(),
            }),
    {
        match &self.inner {
            Some(t) => t.cleanup(),
            None => {
                let commands: Vec<HostCommand> = Vec::new();
                assert(transaction::commands_view(commands@) =~= Seq::<HostCommandView>::empty());
                commands
            },
        }
    }
}

/// Begins to add the routes of a plan; `None` where the platform has set them
/// already.
pub fn apply_client_routes(platform: Platform, plan: &ClientRoutingPlan) -> (r: Result<
    Option<Transaction>,
    Error,
>)
    ensures
        match (platform, r) {
            (Platform::Linux, Ok(Some(t))) => t@ == transaction::TransactionView::begun(
                linux::route_changes(plan@),
            ),
            (Platform::Windows, Ok(Some(t))) => t@ == transaction::TransactionView::begun(
                windows::route_changes(plan@),
            ),
            (Platform::Android, Ok(None)) => true,
            (Platform::Unsupported, Err(e)) => e@ == (ErrorView {
                kind: ErrorKind::Unsupported,
                message: "Client routing backend not implemented for this platform"@,
            }),
            _ => false,
        },
{
    match platform {
        Platform::Linux => Ok(Some(linux::apply_client_routes(plan))),
        Platform::Windows => Ok(Some(windows::apply_client_routes(plan))),
        Platform::Android => match android::apply_client_routes(plan) {
            Ok(_) => Ok(None),
            Err(e) => Err(e),
        },
        Platform::Unsupported => Err(unsupported::apply_client_routes(plan).unwrap_err()),
    }
}

/// A text is a network exactly if it is an IPv4 address, a slash and a number of at
/// most 32 in digits; it stands for that address and that number.
pub proof fn law_network_text(s: Seq<char>)
    ensures
        parsed_cidr(s) matches Some((network, prefix)) ==> prefix <= 32 && exists|
            address: Seq<char>,
            digits: Seq<char>,
        |
            #![trigger address + seq!['/'] + digits]
            s == address + seq!['/'] + digits && net::parsed_ipv4(address) == Some(network)
                && digits.len() > 0 && text::decimal_value(digits) == Some(prefix),
        forall|address: Seq<char>, digits: Seq<char>|
            s == #[trigger] (address + seq!['/'] + digits) && !address.contains('/')
                && net::parsed_ipv4(address) is Some && digits.len() > 0 && text::decimal_value(
                digits,
            ) is Some && text::decimal_value(digits)->Some_0 <= 32 ==> parsed_cidr(s) == Some(
                (net::parsed_ipv4(address)->Some_0, text::decimal_value(digits)->Some_0),
            ),
{
    let n = text::position(s, '/');
    text::lemma_position(s, '/');
    if parsed_cidr(s) is Some {
        let address = s.take(n as int);
        let digits = s.skip(n as int + 1);
        assert(s =~= address + seq!['/'] + digits);
    }
    assert forall|address: Seq<char>, digits: Seq<char>|
        s == #[trigger] (address + seq!['/'] + digits) && !address.contains('/')
            && net::parsed_ipv4(address) is Some && digits.len() > 0 && text::decimal_value(
            digits,
        ) is Some && text::decimal_value(digits)->Some_0 <= 32 implies parsed_cidr(s) == Some(
        (net::parsed_ipv4(address)->Some_0, text::decimal_value(digits)->Some_0),
    ) by {
        assert forall|i: int| 0 <= i < address.len() implies s[i] != '/' by {
            assert(address.contains(address[i]));
            assert(s[i] == address[i]);
        }
        text::lemma_position_is(s, '/', address.len());
        assert(s.take(address.len() as int) =~= address);
        assert(s.skip(address.len() as int + 1) =~= digits);
    }
}

/// A plan for split mode fails exactly if some configured text is no network, and
/// reports the first one. Otherwise the routes stand in the order in which the networks
/// are first configured.
pub proof fn law_split_plan_order(
    cidrs: Seq<Seq<char>>,
    tun_interface: Seq<char>,
    server_endpoint_ip: Seq<char>,
    server_route: RouteViaView,
    n: int,
)
    requires
        0 <= n <= cidrs.len(),
    ensures
        ({
            let plan = |list: Seq<Seq<char>>|
                planned_routes(
                    ClientRoutingModeView::Split(list),
                    tun_interface,
                    server_endpoint_ip,
                    server_route,
                );
            &&& plan(cidrs) is Ok <==> forall|i: int|
                0 <= i < cidrs.len() ==> parsed_cidr(#[trigger] cidrs[i]) is Some
            &&& plan(cidrs) matches Err(cidr) ==> parsed_cidr(cidr) is None && exists|i: int|
                0 <= i < cidrs.len() && #[trigger] cidrs[i] == cidr && (forall|j: int|
                    0 <= j < i ==> parsed_cidr(#[trigger] cidrs[j]) is Some)
            &&& plan(cidrs) matches Ok(routes) ==> {
                &&& plan(cidrs.take(n)) is Ok
                &&& plan(cidrs.take(n))->Ok_0.is_prefix_of(routes)
            }
        }),
{
    lemma_distinct_cidrs_fail(cidrs);
    if distinct_cidrs(cidrs) is Ok {
        lemma_distinct_cidrs_order(cidrs, n);
        let few = distinct_cidrs(cidrs.take(n))->Ok_0;
        let all = distinct_cidrs(cidrs)->Ok_0;
        let part = routes_through(few, tun_interface);
        let whole = routes_through(all, tun_interface);
        assert forall|i: int| 0 <= i < part.len() implies part[i] == whole[i] by {
            assert(few[i] == all[i]);
        }
        assert(part =~= whole.subrange(0, part.len() as int));
    }
}

proof fn lemma_distinct_cidrs_order(cidrs: Seq<Seq<char>>, n: int)
    requires
        distinct_cidrs(cidrs) is Ok,
        0 <= n <= cidrs.len(),
    ensures
        distinct_cidrs(cidrs.take(n)) is Ok,
        distinct_cidrs(cidrs.take(n))->Ok_0.is_prefix_of(distinct_cidrs(cidrs)->Ok_0),
    decreases cidrs.len(),
{
    if n < cidrs.len() {
        lemma_distinct_cidrs_order(cidrs.drop_last(), n);
        assert(cidrs.drop_last().take(n) =~= cidrs.take(n));
    } else {
        assert(cidrs.take(n) =~= cidrs);
    }
}

proof fn lemma_distinct_cidrs_fail(cidrs: Seq<Seq<char>>)
    ensures
        distinct_cidrs(cidrs) is Ok <==> forall|i: int|
            0 <= i < cidrs.len() ==> parsed_cidr(#[trigger] cidrs[i]) is Some,
        distinct_cidrs(cidrs) matches Err(cidr) ==> parsed_cidr(cidr) is None && exists|i: int|
            0 <= i < cidrs.len() && #[trigger] cidrs[i] == cidr && (forall|j: int|
                0 <= j < i ==> parsed_cidr(#[trigger] cidrs[j]) is Some),
    decreases cidrs.len(),
{
    if cidrs.len() > 0 {
        let front = cidrs.drop_last();
        lemma_distinct_cidrs_fail(front);
        assert(cidrs.last() == cidrs[cidrs.len() - 1]);
        assert forall|i: int| 0 <= i < front.len() implies front[i] == cidrs[i] by {}
        if distinct_cidrs(front) is Err {
            let cidr = distinct_cidrs(front)->Err_0;
            let i = choose|i: int|
                0 <= i < front.len() && #[trigger] front[i] == cidr && (forall|j: int|
                    0 <= j < i ==> parsed_cidr(#[trigger] front[j]) is Some);
            assert(cidrs[i] == cidr);
            assert forall|j: int| 0 <= j < i implies parsed_cidr(#[trigger] cidrs[j]) is Some by {
                assert(front[j] == cidrs[j]);
            }
        } else {
            assert forall|j: int| 0 <= j < front.len() implies parsed_cidr(
                #[trigger] cidrs[j],
            ) is Some by {
                assert(front[j] == cidrs[j]);
            }
        }
    }
}

/// Full mode always has a plan: the server's endpoint, as it is given, keeps the way it
/// had, and the other two routes go through the tunnel device.
pub proof fn law_full_plan_pins_the_endpoint(
    tun_interface: Seq<char>,
    server_endpoint_ip: Seq<char>,
    server_route: RouteViaView,
)
    ensures
        planned_routes(
            ClientRoutingModeView::Full,
            tun_interface,
            server_endpoint_ip,
            server_route,
        ) matches Ok(routes) && routes.len() == 3 && routes[0].destination == server_endpoint_ip
            + "/32"@ && routes[0].via == server_route && routes[1].via == RouteViaView::Device(
            tun_interface,
        ) && routes[2].via == RouteViaView::Device(tun_interface) && parsed_cidr(
            routes[1].destination,
        ) == Some((0u32, 1nat)) && parsed_cidr(routes[2].destination) == Some(
            (0x8000_0000u32, 1nat),
        ),
{
    lemma_lower_half();
    lemma_upper_half();
}

/// Routing the name servers adds entries for name servers only, and none twice.
pub proof fn law_only_name_servers_are_added(
    routes: Seq<Seq<char>>,
    servers: Seq<net::IpAddress>,
)
    ensures
        forall|k: int|
            routes.len() <= k < with_name_servers(routes, servers).len() ==> exists|i: int|
                0 <= i < servers.len() && #[trigger] with_name_servers(routes, servers)[k] == (
                #[trigger] servers[i]).chars() + "/32"@,
        forall|k: int, j: int|
            routes.len() <= k < with_name_servers(routes, servers).len() && 0 <= j < k
                ==> #[trigger] with_name_servers(routes, servers)[k]
                != #[trigger] with_name_servers(routes, servers)[j],
    decreases servers.len(),
{
    law_name_servers_keep_routes(routes, servers);
    if servers.len() > 0 {
        let front = with_name_servers(routes, servers.drop_last());
        let whole = with_name_servers(routes, servers);
        let last = servers.last().chars() + "/32"@;
        law_name_servers_keep_routes(routes, servers.drop_last());
        law_only_name_servers_are_added(routes, servers.drop_last());
        assert forall|k: int| routes.len() <= k < whole.len() implies exists|i: int|
            0 <= i < servers.len() && #[trigger] whole[k] == (#[trigger] servers[i]).chars()
                + "/32"@ by {
            if k < front.len() {
                assert(whole[k] == front[k]);
                let i = choose|i: int|
                    0 <= i < servers.drop_last().len() && front[k] == (
                    #[trigger] servers.drop_last()[i]).chars() + "/32"@;
                assert(whole[k] == servers[i].chars() + "/32"@);
            } else {
                assert(whole[k] == servers[servers.len() - 1].chars() + "/32"@);
            }
        }
        assert forall|k: int, j: int|
            routes.len() <= k < whole.len() && 0 <= j < k implies #[trigger] whole[k]
            != #[trigger] whole[j] by {
            assert(whole[j] == front[j]);
            if k < front.len() {
                assert(whole[k] == front[k]);
            } else {
                assert(!front.contains(last));
                assert(front.contains(front[j]));
            }
        }
    }
}

/// On Linux the way to the server is read out of the host's answer: through the gateway
/// that the answer names behind "via", if it names one, on the device behind "dev".
/// What keeps the host from answering is passed on.
pub proof fn law_way_to_the_server_is_the_answer(
    endpoint: Seq<char>,
    output: Result<Seq<char>, ErrorView>,
)
    ensures
        output matches Err(e) ==> route_to(Platform::Linux, endpoint, output) == Err::<
            RouteViaView,
            ErrorView,
        >(e),
        output matches Ok(answer) ==> {
            let words = text::words(answer);
            &&& forall|via: int, dev: int|
                #![trigger words[via], words[dev]]
                0 <= via < words.len() - 1 && words[via] == "via"@ && (forall|j: int|
                    0 <= j < via ==> words[j] != "via"@) && 0 <= dev < words.len() - 1 && words[dev]
                    == "dev"@ && (forall|j: int| 0 <= j < dev ==> words[j] != "dev"@) ==> route_to(
                    Platform::Linux,
                    endpoint,
                    output,
                ) == Ok::<RouteViaView, ErrorView>(
                    RouteViaView::Gateway { gateway: words[via + 1], device: words[dev + 1] },
                )
            &&& route_to(Platform::Linux, endpoint, output) matches Ok(RouteViaView::Device(_))
                ==> forall|i: int| 0 <= i < words.len() - 1 ==> #[trigger] words[i] != "via"@
        },
{
    if output is Ok {
        let words = text::words(output->Ok_0);
        linux::law_device_route_has_no_gateway(endpoint, output->Ok_0);
        assert forall|via: int, dev: int|
            #![trigger words[via], words[dev]]
            0 <= via < words.len() - 1 && words[via] == "via"@ && (forall|j: int|
                0 <= j < via ==> words[j] != "via"@) && 0 <= dev < words.len() - 1 && words[dev]
                == "dev"@ && (forall|j: int| 0 <= j < dev ==> words[j] != "dev"@) implies route_to(
            Platform::Linux,
            endpoint,
            output,
        ) == Ok::<RouteViaView, ErrorView>(
            RouteViaView::Gateway { gateway: words[via + 1], device: words[dev + 1] },
        ) by {
            linux::law_gateway_of_the_route_is_kept(endpoint, output->Ok_0, via, dev);
        }
    }
}

/// On Linux a gateway is made of what the server is configured with: its tunnel network
/// and device, the configured interface if there is one, and forwarding as the host has
/// it. Only a missing interface and a forwarding file that cannot be read keep it from
/// being made.
pub proof fn law_linux_gateway_is_the_configured_one(config: RoutingConfig, facts: HostFacts)
    ensures
        config.outbound_interface matches Some(interface) ==> (facts.ip_forward matches Ok(contents)
            ==> linux_changes(config, facts) == Ok::<Seq<transaction::ChangeView>, ErrorView>(
            linux::gateway_changes(
                config.vpn_subnet@,
                config.tun_interface@,
                interface@,
                text::trimmed(contents@) == "1"@,
            ),
        )),
        config.outbound_interface is None ==> (facts.default_route matches Ok(output) ==> (
        facts.ip_forward matches Ok(contents) ==> forall|i: int|
            0 <= i < text::words(output@).len() - 1 && #[trigger] text::words(output@)[i] == "dev"@
                && (forall|j: int| 0 <= j < i ==> text::words(output@)[j] != "dev"@)
                ==> linux_changes(config, facts) == Ok::<Seq<transaction::ChangeView>, ErrorView>(
                linux::gateway_changes(
                    config.vpn_subnet@,
                    config.tun_interface@,
                    text::words(output@)[i + 1],
                    text::trimmed(contents@) == "1"@,
                ),
            ))),
        facts.ip_forward is Err ==> linux_changes(config, facts) is Err,
        config.outbound_interface is None && facts.default_route is Err ==> linux_changes(
            config,
            facts,
        ) is Err,
{
    linux::law_outbound_interface(
        config::optional(config.outbound_interface),
        error::text_outcome(facts.default_route),
    );
}

/// The length of a prefix is counted bit by bit.
pub proof fn law_bits_are_counted(b: u8)
    ensures
        bits_set(b as nat) == b % 2 + (b / 2) % 2 + (b / 4) % 2 + (b / 8) % 2 + (b / 16) % 2 + (b
            / 32) % 2 + (b / 64) % 2 + b / 128,
{
    let n = b as nat;
    lemma_bits_halved(n);
    lemma_bits_halved(n / 2);
    lemma_bits_halved(n / 4);
    lemma_bits_halved(n / 8);
    lemma_bits_halved(n / 16);
    lemma_bits_halved(n / 32);
    lemma_bits_halved(n / 64);
    lemma_bits_halved(n / 128);
    assert(n / 4 == n / 2 / 2 && n / 8 == n / 4 / 2 && n / 16 == n / 8 / 2 && n / 32 == n / 16 / 2);
    assert(n / 64 == n / 32 / 2 && n / 128 == n / 64 / 2);
    assert(n / 128 / 2 == 0 && (n / 128) % 2 == n / 128);
    assert(bits_set(0) == 0);
}

proof fn lemma_bits_halved(n: nat)
    ensures
        bits_set(n) == n % 2 + bits_set(n / 2),
{
    if n == 0 {
        assert(bits_set(0) == 0);
    }
}

/// The network that is computed from an address and a mask keeps the bits of each octet
/// that the mask has, and has as long a prefix as the mask has bits.
pub proof fn law_computed_network(address: (u8, u8, u8, u8), netmask: (u8, u8, u8, u8))
    ensures
        parsed_cidr(cidr_chars(address, netmask)) == Some(
            (
                ((address.0 & netmask.0) * 0x100_0000 + (address.1 & netmask.1) * 0x1_0000 + (
                address.2 & netmask.2) * 0x100 + (address.3 & netmask.3)) as u32,
                bits_set(netmask.0 as nat) + bits_set(netmask.1 as nat) + bits_set(
                    netmask.2 as nat,
                ) + bits_set(netmask.3 as nat),
            ),
        ),
{
    law_computed_network_is_valid(address, netmask);
}

/// A gateway is complete once all changes are made, or once a NetNat object or sharing is
/// applied. Taking it back undoes the changes, the last one first, or runs the cleanup
/// commands in PowerShell, in order.
pub proof fn law_gateway_is_taken_back(setup: GatewaySetup, i: int)
    ensures
        setup matches GatewaySetup::Linux(t) ==> {
            &&& gateway_applied(setup) <==> t@.progress is Made
            &&& gateway_cleanup(setup).len() == t@.changes.len()
            &&& 0 <= i < t@.changes.len() ==> gateway_cleanup(setup)[t@.changes.len() - 1 - i]
                == t@.changes[i].undo
        },
        setup matches GatewaySetup::Windows(s) ==> {
            &&& gateway_applied(setup) <==> s@.stage == windows::Stage::AppliedNat || s@.stage
                == windows::Stage::AppliedSharing
            &&& gateway_cleanup(setup).len() == s@.cleanup().len()
            &&& 0 <= i < s@.cleanup().len() ==> gateway_cleanup(setup)[i] == (HostCommandView::Run {
                program: "powershell"@,
                args: seq![
                    "-NoProfile"@,
                    "-NonInteractive"@,
                    "-Command"@,
                    s@.cleanup()[i],
                ],
            })
        },
{
}

/// On Windows the way to the server is read out of the host's reply around its bar; on
/// Android the system service has set it; elsewhere there is none. What keeps a host from
/// answering is passed on.
pub proof fn law_way_to_the_server_elsewhere(
    endpoint: Seq<char>,
    hop: Seq<char>,
    device: Seq<char>,
    e: ErrorView,
    output: Result<Seq<char>, ErrorView>,
)
    requires
        !hop.contains('|'),
        !device.contains('|'),
    ensures
        route_to(Platform::Windows, endpoint, Err(e)) == Err::<RouteViaView, ErrorView>(e),
        ({
            let read = route_to(Platform::Windows, endpoint, Ok(hop.push('|') + device));
            let gateway = text::trimmed(hop);
            if gateway.len() == 0 || gateway == "0.0.0.0"@ || gateway == "::"@ {
                read == Ok::<RouteViaView, ErrorView>(RouteViaView::Device(text::trimmed(device)))
            } else {
                read == Ok::<RouteViaView, ErrorView>(
                    RouteViaView::Gateway { gateway, device: text::trimmed(device) },
                )
            }
        }),
        route_to(Platform::Android, endpoint, output) == Ok::<RouteViaView, ErrorView>(
            RouteViaView::Gateway { gateway: "Android-VpnService"@, device: "rmnet"@ },
        ),
        route_to(Platform::Unsupported, endpoint, output) == Err::<RouteViaView, ErrorView>(
            ErrorView {
                kind: ErrorKind::Unsupported,
                message: "Routing not implemented for this platform"@,
            },
        ),
{
    windows::law_way_is_read_from_the_reply(endpoint, hop, device);
}

/// What keeps a Linux host from being made a gateway is reported: first that no interface
/// is configured and the default route cannot be had or names none, then that forwarding
/// cannot be read.
pub proof fn law_what_keeps_a_linux_host_from_it(config: RoutingConfig, facts: HostFacts)
    ensures
        config.outbound_interface is None ==> (facts.default_route matches Err(e) ==> linux_changes(
            config,
            facts,
        ) == Err::<Seq<transaction::ChangeView>, ErrorView>(e@)),
        config.outbound_interface is None ==> (facts.default_route matches Ok(output) ==> (forall|
            i: int,
        |
            0 <= i < text::words(output@).len() - 1 ==> #[trigger] text::words(output@)[i]
                != "dev"@) ==> linux_changes(config, facts) == Err::<
            Seq<transaction::ChangeView>,
            ErrorView,
        >(
            ErrorView {
                kind: ErrorKind::NotFound,
                message: linux::no_interface_chars(text::debug_chars(output@)),
            },
        )),
        config.outbound_interface is Some ==> (facts.ip_forward matches Err(e) ==> linux_changes(
            config,
            facts,
        ) == Err::<Seq<transaction::ChangeView>, ErrorView>(e@)),
{
    linux::law_outbound_interface(
        config::optional(config.outbound_interface),
        error::text_outcome(facts.default_route),
    );
}

} // verus!
