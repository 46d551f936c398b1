//! The Android backend: the device comes from the system service as a descriptor.
use vstd::prelude::*;

use crate::error::{Error, ErrorKind, ErrorView};

verus! {

/// The packet dump is not available.
pub fn run() -> (r: Result<(), Error>)
    ensures
        match r {
            Ok(_) => false,
            Err(e) => e@ == (ErrorView {
                kind: ErrorKind::Unsupported,
                message: "Standalone tun test not implemented for Android"@,
            }),
        },
{
    Err(Error::new(ErrorKind::Unsupported, "Standalone tun test not implemented for Android"))
}

/// Whether the descriptors that the system service hands over can be used.
pub fn descriptors_valid(vpn_fd: i32, udp_fd: i32) -> (b: bool)
    ensures
        b == (vpn_fd >= 0 && udp_fd >= 0),
{
    vpn_fd >= 0 && udp_fd >= 0
}

} // verus!
