//! The backend of platforms without one: everything fails with the same error.
use vstd::prelude::*;

use crate::error::{Error, ErrorKind, ErrorView};

verus! {

/// A device that cannot be created.
#[derive(Debug)]
pub struct Device;

/// The read half of no device.
#[derive(Debug)]
pub struct Reader;

/// The write half of no device.
#[derive(Debug)]
pub struct Writer;

/// The error of everything here.
pub open spec fn no_backend() -> ErrorView {
    ErrorView {
        kind: ErrorKind::Unsupported,
        message: "virtual network interface backend not implemented for this platform"@,
    }
}

fn no_backend_error() -> (e: Error)
    ensures
        e@ == no_backend(),
{
    Error::new(
        ErrorKind::Unsupported,
        "virtual network interface backend not implemented for this platform",
    )
}

impl Reader {
    /// Fails, and leaves the buffer alone.
    pub fn read_packet(&mut self, buf: &mut [u8]) -> (r: Result<usize, Error>)
        ensures
            match r {
                Ok(_) => false,
                Err(e) => e@ == no_backend(),
            },
            final(buf)@ == old(buf)@,
    {
        Err(no_backend_error())
    }
}

impl Writer {
    /// Fails.
    pub fn write_packet(&mut self, buf: &[u8]) -> (r: Result<(), Error>)
        ensures
            match r {
                Ok(_) => false,
                Err(e) => e@ == no_backend(),
            },
    {
        Err(no_backend_error())
    }
}

/// Fails.
pub fn create_raw_device(
    name: &str,
    address: (u8, u8, u8, u8),
    netmask: (u8, u8, u8, u8),
) -> (r: Result<Device, Error>)
    ensures
        match r {
            Ok(_) => false,
            Err(e) => e@ == no_backend(),
        },
{
    Err(no_backend_error())
}

/// Fails.
pub fn run() -> (r: Result<(), Error>)
    ensures
        match r {
            Ok(_) => false,
            Err(e) => e@ == no_backend(),
        },
{
    Err(no_backend_error())
}

} // verus!
