//! The logic of a small point-to-point VPN: wire formats, packet encryption,
//! handshake and session state, configuration, routing plans and tunnel rules.
//!
//! Everything here computes on plain values. Sockets, files, processes and
//! tunnel devices belong to the program that uses the library.
use vstd::prelude::*;

pub mod bytes;
pub mod cli;
pub mod client;
pub mod config;
pub mod crypto;
pub mod dns;
pub mod error;
pub mod net;
pub mod options;
pub mod primitives;
pub mod protocol;
pub mod psk;
pub mod routing;
pub mod server;
pub mod server_loop;
pub mod text;
pub mod transport;
pub mod tun;

verus! {

} // verus!
