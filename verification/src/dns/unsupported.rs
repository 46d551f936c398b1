//! Platforms whose resolver is not configured.
use vstd::prelude::*;

use crate::dns::DnsConfig;
use crate::error::{Error, ErrorKind, ErrorView};

verus! {

/// Nothing to take back.
#[derive(Debug)]
pub struct Guard;

/// The error of every attempt.
pub open spec fn no_support() -> ErrorView {
    ErrorView {
        kind: ErrorKind::Unsupported,
        message: "DNS configuration is not supported on this platform."@,
    }
}

/// Fails.
pub fn apply(config: &DnsConfig, tun_interface: &str) -> (r: Result<Guard, Error>)
    ensures
        match r {
            Ok(_) => false,
            Err(e) => e@ == no_support(),
        },
{
    Err(
        Error::new(
            ErrorKind::Unsupported,
            "DNS configuration is not supported on this platform.",
        ),
    )
}

} // verus!
