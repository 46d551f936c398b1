//! The Wintun backend: the checks around its packets.
use vstd::prelude::*;

use crate::error::{Error, ErrorKind, ErrorView};

verus! {

/// Largest packet that Wintun takes.
pub const MAX_PACKET_SIZE: usize = 65535;

/// Copies a received packet to the front of `buf`, which must have room for it.
pub fn read_packet(packet: &[u8], buf: &mut [u8]) -> (r: Result<usize, Error>)
    ensures
        final(buf)@.len() == old(buf)@.len(),
        match r {
            Ok(n) => {
                &&& n == packet@.len()
                &&& packet@.len() <= old(buf)@.len()
                &&& final(buf)@ == packet@ + old(buf)@.skip(n as int)
            },
            Err(e) => {
                &&& packet@.len() > old(buf)@.len()
                &&& e@ == (ErrorView {
                    kind: ErrorKind::InvalidData,
                    message: "packet larger than buffer"@,
                })
                &&& final(buf)@ == old(buf)@
            },
        },
{
    if packet.len() > buf.len() {
        return Err(Error::new(ErrorKind::InvalidData, "packet larger than buffer"));
    }
    let ghost before = buf@;
    let mut i: usize = 0;
    while i < packet.len()
        invariant
            i <= packet@.len() <= buf@.len(),
            buf@.len() == before.len(),
            buf@ == packet@.take(i as int) + before.skip(i as int),
        decreases packet@.len() - i,
    {
        buf[i] = packet[i];
        i = i + 1;
        assert(buf@ =~= packet@.take(i as int) + before.skip(i as int));
    }
    assert(packet@.take(i as int) =~= packet@);
    Ok(packet.len())
}

/// The size to allocate for a packet that is to be sent.
pub fn write_packet(packet: &[u8]) -> (r: Result<u16, Error>)
    ensures
        match r {
            Ok(size) => size == packet@.len(),
            Err(e) => packet@.len() > MAX_PACKET_SIZE && e@ == (ErrorView {
                kind: ErrorKind::InvalidInput,
                message: "packet too big for wintun"@,
            }),
        },
{
    if packet.len() > MAX_PACKET_SIZE {
        Err(Error::new(ErrorKind::InvalidInput, "packet too big for wintun"))
    } else {
        Ok(packet.len() as u16)
    }
}

/// The failure of a blocking receive. A session that is shutting down looks like
/// an interrupted read.
pub fn receive_failure(shutting_down: bool, reason: &str) -> (e: Error)
    ensures
        e@ == (if shutting_down {
            ErrorView { kind: ErrorKind::Interrupted, message: "session shutting down"@ }
        } else {
            ErrorView { kind: ErrorKind::Other, message: "Wintun receive error: "@ + reason@ }
        }),
{
    if shutting_down {
        Error::new(ErrorKind::Interrupted, "session shutting down")
    } else {
        let mut m = "Wintun receive error: ".to_owned();
        m.append(reason);
        Error { kind: ErrorKind::Other, message: m }
    }
}

/// The packet dump is not available.
pub fn run() -> (r: Result<(), Error>)
    ensures
        match r {
            Ok(_) => false,
            Err(e) => e@ == (ErrorView {
                kind: ErrorKind::Unsupported,
                message: "Standalone tun test not implemented for Windows"@,
            }),
        },
{
    Err(Error::new(ErrorKind::Unsupported, "Standalone tun test not implemented for Windows"))
}

} // verus!
