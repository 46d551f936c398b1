//! Android: routes are set by the system service before the tunnel is handed over,
//! so nothing is changed here.
use vstd::prelude::*;

use crate::error::{Error, ErrorKind, ErrorView};
use crate::routing::{ClientRoutingPlan, RouteVia, RouteViaView, RoutingConfig};

verus! {

/// Nothing to take back on a server.
#[derive(Debug)]
pub struct Guard;

/// Nothing to take back on a client.
#[derive(Debug)]
pub struct ClientRouteGuard;

/// A gateway cannot be set up.
pub fn apply(config: &RoutingConfig) -> (r: Result<Guard, Error>)
    ensures
        match r {
            Ok(_) => false,
            Err(e) => e@ == (ErrorView {
                kind: ErrorKind::Unsupported,
                message: "Cannot apply server NAT routes internally on Android."@,
            }),
        },
{
    Err(
        Error::new(
            ErrorKind::Unsupported,
            "Cannot apply server NAT routes internally on Android.",
        ),
    )
}

/// The way to every destination as far as this side is concerned: the system
/// service takes care of it.
pub fn current_route_to(endpoint_ip: &str) -> (r: Result<RouteVia, Error>)
    ensures
        match r {
            Ok(route) => route@ == (RouteViaView::Gateway {
                gateway: "Android-VpnService"@,
                device: "rmnet"@,
            }),
            Err(_) => false,
        },
{
    Ok(
        RouteVia::Gateway {
            gateway: "Android-VpnService".to_owned(),
            device: "rmnet".to_owned(),
        },
    )
}

/// Succeeds without doing anything.
pub fn apply_client_routes(plan: &ClientRoutingPlan) -> (r: Result<ClientRouteGuard, Error>)
    ensures
        r is Ok,
{
    Ok(ClientRouteGuard)
}

/// There is nothing to install.
pub fn install_shutdown_handler() {
}

/// Never: closing the descriptors ends the relays.
pub fn shutdown_requested() -> (b: bool)
    ensures
        !b,
{
    false
}

} // verus!
