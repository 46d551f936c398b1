//! Name resolution: pointing the host's resolver at the name servers of the
//! tunnel, for as long as the tunnel is up.
use vstd::prelude::*;

use crate::dns::linux::{DnsSetup, Guard};
use crate::error::Error;
use crate::net::IpAddress;
use crate::routing::Platform;
use crate::text;

pub mod linux;
pub mod unsupported;

verus! {

/// What the resolver is to be told.
#[derive(Debug, Clone, PartialEq, Eq)]
pub struct DnsConfig {
    pub enabled: bool,
    pub servers: Vec<IpAddress>,
}

/// A resolver that is configured for a device, and how to take it back.
#[derive(Debug)]
pub struct DnsGuard {
    inner: Guard,
}

impl DnsGuard {
    /// The device.
    pub closed spec fn tun_interface(&self) -> Seq<char> {
        self.inner.tun_interface()
    }

    /// Keeps a setup that was applied for taking it back.
    pub fn new(setup: DnsSetup) -> (guard: Option<Self>)
        ensures
            match guard {
                Some(guard) => setup@.stage == linux::Stage::Applied && guard.tun_interface()
                    == setup@.tun_interface,
                None => setup@.stage != linux::Stage::Applied,
            },
    {
        match setup.into_guard() {
            Some(inner) => Some(DnsGuard { inner }),
            None => None,
        }
    }

    /// The arguments of the run of `resolvectl` that takes the configuration back.
    pub fn cleanup(&self) -> (args: Vec<String>)
        ensures
            text::strings(args@) == linux::revert_args(self.tun_interface()),
    {
        self.inner.cleanup()
    }
}

/// Begins to configure the resolver for a device. Nothing is touched, and `None`
/// is returned, unless the configuration is enabled.
pub fn apply(platform: Platform, config: &DnsConfig, tun_interface: &str) -> (r: Result<
    Option<DnsSetup>,
    Error,
>)
    ensures
        match r {
            Ok(None) => !config.enabled,
            Ok(Some(setup)) => {
                &&& config.enabled
                &&& platform == Platform::Linux
                &&& config.servers@.len() > 0
                &&& setup@ == linux::setup_begun(config.servers@, tun_interface@)
            },
            Err(e) => config.enabled && e@ == (if platform == Platform::Linux {
                linux::empty_configuration()
            } else {
                unsupported::no_support()
            }) && (platform == Platform::Linux ==> config.servers@.len() == 0),
        },
{
    if !config.enabled {
        return Ok(None);
    }
    match platform {
        Platform::Linux => match linux::apply(config, tun_interface) {
            Ok(setup) => Ok(Some(setup)),
            Err(e) => Err(e),
        },
        _ => Err(unsupported::apply(config, tun_interface).unwrap_err()),
    }
}

} // verus!
