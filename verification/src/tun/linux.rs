//! The Linux backend: polling before a read, and the packet dump.
use vstd::prelude::*;

use crate::error::{Error, ErrorKind, ErrorView};
use crate::text;

verus! {

/// Name of the device of the packet dump.
pub const TEST_TUN_NAME: &'static str = "tiny-tun0";

/// Address of the device of the packet dump.
pub const TEST_TUN_ADDRESS: (u8, u8, u8, u8) = (10, 13, 13, 1);

/// Netmask of the device of the packet dump.
pub const TEST_TUN_NETMASK: (u8, u8, u8, u8) = (255, 255, 255, 0);

/// How long a read waits for a packet, in milliseconds.
pub const POLL_TIMEOUT_MS: i32 = 250;

/// What polling the device came to.
#[derive(Debug, PartialEq, Eq)]
pub enum PollOutcome {
    /// There is a packet to read.
    Readable,
    /// Polling itself failed; the operating system knows why.
    SystemError,
    /// There is nothing to read yet.
    NotYet(Error),
}

/// Tells from the return value of a poll and whether the device reported readable
/// data what a read has to do.
pub fn poll_outcome(result: i32, readable: bool) -> (outcome: PollOutcome)
    ensures
        match outcome {
            PollOutcome::SystemError => result < 0,
            PollOutcome::NotYet(e) => {
                ||| result == 0 && e@ == (ErrorView {
                    kind: ErrorKind::WouldBlock,
                    message: "timeout"@,
                })
                ||| result > 0 && !readable && e@ == (ErrorView {
                    kind: ErrorKind::WouldBlock,
                    message: "not ready"@,
                })
            },
            PollOutcome::Readable => result > 0 && readable,
        },
{
    if result < 0 {
        PollOutcome::SystemError
    } else if result == 0 {
        PollOutcome::NotYet(Error::new(ErrorKind::WouldBlock, "timeout"))
    } else if !readable {
        PollOutcome::NotYet(Error::new(ErrorKind::WouldBlock, "not ready"))
    } else {
        PollOutcome::Readable
    }
}

/// Whether the packet dump writes packets back: the variable that asks for it is
/// set to "1".
pub fn echoes_back(variable: Option<&str>) -> (b: bool)
    ensures
        b == (match variable {
            Some(value) => value@ == "1"@,
            None => false,
        }),
{
    match variable {
        Some(value) => text::same_str(value, "1"),
        None => false,
    }
}

} // verus!
