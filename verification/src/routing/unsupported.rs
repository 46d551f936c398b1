//! Platforms without a routing backend: everything that would change the host
//! fails.
use vstd::prelude::*;

use crate::error::{Error, ErrorKind, ErrorView};
use crate::routing::{ClientRoutingPlan, RouteVia, RoutingConfig};

verus! {

/// Nothing to take back on a server.
#[derive(Debug)]
pub struct Guard;

/// Nothing to take back on a client.
#[derive(Debug)]
pub struct ClientRouteGuard;

/// Fails.
pub fn apply(config: &RoutingConfig) -> (r: Result<Guard, Error>)
    ensures
        match r {
            Ok(_) => false,
            Err(e) => e@ == (ErrorView {
                kind: ErrorKind::Unsupported,
                message: "Routing/NAT backend not implemented for this platform"@,
            }),
        },
{
    Err(
        Error::new(
            ErrorKind::Unsupported,
            "Routing/NAT backend not implemented for this platform",
        ),
    )
}

/// Fails.
pub fn apply_client_routes(plan: &ClientRoutingPlan) -> (r: Result<ClientRouteGuard, Error>)
    ensures
        match r {
            Ok(_) => false,
            Err(e) => e@ == (ErrorView {
                kind: ErrorKind::Unsupported,
                message: "Client routing backend not implemented for this platform"@,
            }),
        },
{
    Err(
        Error::new(
            ErrorKind::Unsupported,
            "Client routing backend not implemented for this platform",
        ),
    )
}

/// There is nothing to install.
pub fn install_shutdown_handler() {
}

/// Never.
pub fn shutdown_requested() -> (b: bool)
    ensures
        !b,
{
    false
}

/// Fails.
pub fn current_route_to(endpoint: &str) -> (r: Result<RouteVia, Error>)
    ensures
        match r {
            Ok(_) => false,
            Err(e) => e@ == (ErrorView {
                kind: ErrorKind::Unsupported,
                message: "Routing not implemented for this platform"@,
            }),
        },
{
    Err(Error::new(ErrorKind::Unsupported, "Routing not implemented for this platform"))
}

} // verus!
