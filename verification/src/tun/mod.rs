//! The tunnel device: names, addresses and the rules around reading and writing
//! packets. The device itself belongs to the platform.
use vstd::prelude::*;

use crate::config::Topology;
use crate::error::{Error, ErrorKind, ErrorView};
use crate::text;

pub mod android;
pub mod linux;
pub mod unsupported;
pub mod windows;

verus! {

/// Name of the client's tunnel device.
pub const CLIENT_TUN_NAME: &'static str = "tiny-tun-client";

/// Address of the client's tunnel device.
pub const CLIENT_TUN_ADDRESS: (u8, u8, u8, u8) = (10, 13, 13, 1);

/// Name of the server's tunnel device.
pub const SERVER_TUN_NAME: &'static str = "tiny-tun-server";

/// Address of the server's tunnel device.
pub const SERVER_TUN_ADDRESS: (u8, u8, u8, u8) = (10, 13, 13, 2);

/// Netmask of the tunnel network.
pub const VPN_TUN_NETMASK: (u8, u8, u8, u8) = (255, 255, 255, 0);

/// The addresses of the two ends of the tunnel.
#[derive(Debug, Clone, Copy, PartialEq, Eq)]
pub struct TunnelAddressPlan {
    pub server_address: (u8, u8, u8, u8),
    pub client_address: (u8, u8, u8, u8),
}

/// The addresses of a topology. Internet Connection Sharing on Windows hands out
/// addresses of 192.168.137.0/24 and takes the first for itself.
pub open spec fn topology_plan(topology: Topology) -> TunnelAddressPlan {
    match topology {
        Topology::Default => TunnelAddressPlan {
            server_address: SERVER_TUN_ADDRESS,
            client_address: CLIENT_TUN_ADDRESS,
        },
        Topology::WindowsIcs => TunnelAddressPlan {
            server_address: (192, 168, 137, 1),
            client_address: (192, 168, 137, 2),
        },
    }
}

impl TunnelAddressPlan {
    /// The addresses of a topology.
    pub fn from_topology(topology: &Topology) -> (plan: Self)
        ensures
            plan == topology_plan(*topology),
    {
        match topology {
            Topology::Default => TunnelAddressPlan {
                server_address: SERVER_TUN_ADDRESS,
                client_address: CLIENT_TUN_ADDRESS,
            },
            Topology::WindowsIcs => TunnelAddressPlan {
                server_address: (192, 168, 137, 1),
                client_address: (192, 168, 137, 2),
            },
        }
    }
}

/// A failure of the platform's tunnel device.
#[derive(Debug, Clone, PartialEq, Eq)]
pub struct TunError(String);

impl TunError {
    /// What the platform said.
    pub closed spec fn reason(&self) -> Seq<char> {
        self.0@
    }

    /// The text of the error.
    pub open spec fn message_chars(&self) -> Seq<char> {
        "virtual network interface error: "@ + self.reason()
    }

    /// The failure that the platform describes as `reason`.
    pub fn new(reason: &str) -> (e: Self)
        ensures
            e.reason() == reason@,
    {
        TunError(reason.to_owned())
    }

    /// Describes the error.
    pub fn message(&self) -> (m: String)
        ensures
            m@ == self.message_chars(),
    {
        let mut m = "virtual network interface error: ".to_owned();
        m.append(self.0.as_str());
        m
    }

    /// The failure in the form that the rest of the program handles.
    pub fn into_error(self) -> (e: Error)
        ensures
            e@ == (ErrorView { kind: ErrorKind::Other, message: self.message_chars() }),
    {
        Error::new(ErrorKind::Other, self.message().as_str())
    }
}

/// What to do with what was read from one end of an unframed relay.
#[derive(Debug, PartialEq, Eq)]
pub enum StreamStep {
    /// Nothing was read: read again.
    Skip,
    /// The peer closed the connection.
    End,
    /// Write these bytes to the other end.
    Write(Vec<u8>),
}

/// The step for a packet read from the device and bound for a stream: every packet
/// becomes one write.
pub fn relay_tun_to_writer(packet: &[u8]) -> (step: StreamStep)
    ensures
        match step {
            StreamStep::Skip => packet@.len() == 0,
            StreamStep::End => false,
            StreamStep::Write(bytes) => packet@.len() > 0 && bytes@ == packet@,
        },
{
    if packet.len() == 0 {
        StreamStep::Skip
    } else {
        StreamStep::Write(vstd::slice::slice_to_vec(packet))
    }
}

/// The step for bytes read from a stream and bound for the device: an empty read
/// is the end of the stream.
pub fn relay_reader_to_tun(bytes: &[u8]) -> (step: StreamStep)
    ensures
        match step {
            StreamStep::Skip => false,
            StreamStep::End => bytes@.len() == 0,
            StreamStep::Write(packet) => bytes@.len() > 0 && packet@ == bytes@,
        },
{
    if bytes.len() == 0 {
        StreamStep::End
    } else {
        StreamStep::Write(vstd::slice::slice_to_vec(bytes))
    }
}

/// Bytes in hexadecimal, separated by single spaces.
pub open spec fn spaced_hex(bytes: Seq<u8>) -> Seq<char>
    decreases bytes.len(),
{
    if bytes.len() == 0 {
        Seq::empty()
    } else if bytes.len() == 1 {
        text::hex_byte_chars(bytes[0])
    } else {
        spaced_hex(bytes.drop_last()) + " "@ + text::hex_byte_chars(bytes.last())
    }
}

/// How many bytes of a packet a description shows.
pub const PREVIEW_SIZE: usize = 32;

/// The part of a packet that a description shows.
pub open spec fn preview(packet: Seq<u8>) -> Seq<u8> {
    if packet.len() <= PREVIEW_SIZE {
        packet
    } else {
        packet.take(PREVIEW_SIZE as int)
    }
}

/// What the first byte of a packet says of the IP version.
pub open spec fn version_line(first: u8) -> Seq<char> {
    if first / 16 == 4 {
        "  (IP version nibble indicates IPv4)"@
    } else if first / 16 == 6 {
        "  (IP version nibble indicates IPv6)"@
    } else {
        "  (unrecognized IP version nibble: "@ + text::decimal_chars((first / 16) as nat) + ")"@
    }
}

/// The description of a packet, line by line: its length, a preview in
/// hexadecimal, the IP version if there is a byte to tell it from, and an empty
/// line.
pub open spec fn packet_lines(packet: Seq<u8>) -> Seq<Seq<char>> {
    let head = seq![
        "Received packet: "@ + text::decimal_chars(packet.len()) + " bytes"@,
        "  "@ + spaced_hex(preview(packet)),
    ];
    let version = if packet.len() > 0 {
        seq![version_line(packet[0])]
    } else {
        Seq::empty()
    };
    head + version + seq![""@]
}

/// Writes bytes in hexadecimal, separated by spaces.
fn format_preview(bytes: &[u8]) -> (s: String)
    ensures
        s@ == spaced_hex(bytes@),
{
    let mut s = String::new();
    let mut i: usize = 0;
    while i < bytes.len()
        invariant
            i <= bytes@.len(),
            s@ == spaced_hex(bytes@.take(i as int)),
        decreases bytes@.len() - i,
    {
        if i > 0 {
            s.append(" ");
        }
        s.append(text::hex_byte(bytes[i]).as_str());
        assert(bytes@.take(i + 1).drop_last() =~= bytes@.take(i as int));
        assert(s@ =~= spaced_hex(bytes@.take(i + 1)));
        i = i + 1;
    }
    assert(bytes@.take(i as int) =~= bytes@);
    s
}

/// Describes a packet. The packet is not parsed beyond its first four bits.
pub fn describe_packet(packet: &[u8]) -> (lines: Vec<String>)
    ensures
        text::strings(lines@) == packet_lines(packet@),
{
    let mut lines: Vec<String> = Vec::new();
    let mut length = "Received packet: ".to_owned();
    length.append(text::decimal(packet.len() as u64).as_str());
    length.append(" bytes");
    lines.push(length);
    let shown: &[u8] = if packet.len() <= PREVIEW_SIZE {
        packet
    } else {
        &packet[0..PREVIEW_SIZE]
    };
    assert(shown@ =~= preview(packet@));
    let mut bytes = "  ".to_owned();
    bytes.append(format_preview(shown).as_str());
    lines.push(bytes);
    if packet.len() > 0 {
        let nibble: u8 = packet[0] / 16;
        if nibble == 4 {
            lines.push("  (IP version nibble indicates IPv4)".to_owned());
        } else if nibble == 6 {
            lines.push("  (IP version nibble indicates IPv6)".to_owned());
        } else {
            let mut line = "  (unrecognized IP version nibble: ".to_owned();
            line.append(text::decimal(nibble as u64).as_str());
            line.append(")");
            lines.push(line);
        }
    }
    lines.push("".to_owned());
    assert(text::strings(lines@) =~= packet_lines(packet@));
    lines
}

/// The two ends of a tunnel are different addresses of one network of 256: the default
/// one 10.13.13.0, with the client first, or that of connection sharing, whose first
/// address belongs to the server.
pub proof fn law_ends_of_the_tunnel(topology: Topology)
    ensures
        ({
            let plan = topology_plan(topology);
            let (a, b, c, d) = plan.server_address;
            let (e, f, g, h) = plan.client_address;
            &&& a == e && b == f && c == g && d != h
            &&& topology == Topology::Default ==> a == 10 && b == 13 && c == 13 && h == 1 && d == 2
            &&& topology == Topology::WindowsIcs ==> a == 192 && b == 168 && c == 137 && d == 1 && h
                == 2
        }),
{
}

/// The description of a packet shows its length and, each byte as two digits, its first
/// thirty-two bytes; and for a packet that is not empty the version of IP that its first
/// four bits give.
#[verifier::rlimit(40)]
pub proof fn law_description_of_a_packet(packet: Seq<u8>)
    ensures
        ({
            let lines = packet_lines(packet);
            let shown = if packet.len() <= 32 {
                packet.len() as int
            } else {
                32int
            };
            &&& lines.len() == (if packet.len() == 0 {
                3nat
            } else {
                4nat
            })
            &&& lines[0] == "Received packet: "@ + text::decimal_chars(packet.len()) + " bytes"@
            &&& shown == 0 ==> lines[1] == "  "@
            &&& shown > 0 ==> lines[1].len() == 3 * shown + 1
            &&& forall|i: int|
                0 <= i < shown ==> lines[1].subrange(3 * i + 2, 3 * i + 4) == text::hex_byte_chars(
                    #[trigger] packet[i],
                )
            &&& forall|i: int|
                #![trigger lines[1][3 * i + 1]]
                0 <= i < shown ==> lines[1][3 * i + 1] == ' '
            &&& packet.len() > 0 && packet[0] / 16 == 4 ==> lines[2]
                == "  (IP version nibble indicates IPv4)"@
            &&& packet.len() > 0 && packet[0] / 16 == 6 ==> lines[2]
                == "  (IP version nibble indicates IPv6)"@
            &&& packet.len() > 0 && packet[0] / 16 != 4 && packet[0] / 16 != 6 ==> lines[2]
                == "  (unrecognized IP version nibble: "@ + text::decimal_chars(
                (packet[0] / 16) as nat,
            ) + ")"@
            &&& lines.last() == ""@
        }),
{
    let lines = packet_lines(packet);
    let part = preview(packet);
    reveal_strlit("  ");
    lemma_spaced_hex(part);
    assert(part.len() == (if packet.len() <= 32 {
        packet.len() as int
    } else {
        32int
    }));
    if part.len() == 0 {
        assert(lines[1] =~= "  "@);
    }
    let hex = spaced_hex(part);
    assert forall|i: int| 0 <= i < part.len() implies lines[1].subrange(3 * i + 2, 3 * i + 4)
        == text::hex_byte_chars(#[trigger] packet[i]) by {
        assert(part[i] == packet[i]);
        assert(hex.subrange(3 * i, 3 * i + 2) == text::hex_byte_chars(part[i]));
        assert(lines[1].subrange(3 * i + 2, 3 * i + 4) =~= hex.subrange(3 * i, 3 * i + 2));
    }
    assert forall|i: int|
        #![trigger lines[1][3 * i + 1]]
        0 <= i < part.len() implies lines[1][3 * i + 1] == ' ' by {
        if i > 0 {
            assert(hex[3 * (i - 1) + 2] == ' ');
            assert(lines[1][3 * i + 1] == hex[3 * i - 1]);
        }
    }
}

#[verifier::rlimit(40)]
proof fn lemma_spaced_hex(bytes: Seq<u8>)
    ensures
        bytes.len() > 0 ==> spaced_hex(bytes).len() == 3 * bytes.len() - 1,
        bytes.len() == 0 ==> spaced_hex(bytes).len() == 0,
        forall|i: int|
            0 <= i < bytes.len() ==> spaced_hex(bytes).subrange(3 * i, 3 * i + 2)
                == text::hex_byte_chars(#[trigger] bytes[i]),
        forall|i: int|
            #![trigger spaced_hex(bytes)[3 * i + 2]]
            0 <= i < bytes.len() - 1 ==> spaced_hex(bytes)[3 * i + 2] == ' ',
    decreases bytes.len(),
{
    let hex = spaced_hex(bytes);
    reveal_strlit(" ");
    if bytes.len() == 1 {
        assert(hex.subrange(0, 2) =~= hex);
    } else if bytes.len() > 1 {
        let front = bytes.drop_last();
        let before = spaced_hex(front);
        lemma_spaced_hex(front);
        assert forall|i: int| 0 <= i < bytes.len() implies hex.subrange(3 * i, 3 * i + 2)
            == text::hex_byte_chars(#[trigger] bytes[i]) by {
            if i < front.len() {
                assert(front[i] == bytes[i]);
                assert(hex.subrange(3 * i, 3 * i + 2) =~= before.subrange(3 * i, 3 * i + 2));
            } else {
                assert(hex.subrange(3 * i, 3 * i + 2) =~= text::hex_byte_chars(bytes.last()));
            }
        }
        assert forall|i: int|
            #![trigger hex[3 * i + 2]]
            0 <= i < bytes.len() - 1 implies hex[3 * i + 2] == ' ' by {
            if i < front.len() - 1 {
                assert(before[3 * i + 2] == ' ');
                assert(hex[3 * i + 2] == before[3 * i + 2]);
            }
        }
    }
}

/// Client and server have a device each, and the tunnel network has 256 addresses.
pub proof fn law_names_of_the_devices()
    ensures
        CLIENT_TUN_NAME@ == "tiny-tun-client"@,
        SERVER_TUN_NAME@ == "tiny-tun-server"@,
        CLIENT_TUN_NAME@ != SERVER_TUN_NAME@,
        VPN_TUN_NETMASK.0 == 255 && VPN_TUN_NETMASK.1 == 255 && VPN_TUN_NETMASK.2 == 255
            && VPN_TUN_NETMASK.3 == 0,
{
    reveal_strlit("tiny-tun-client");
    reveal_strlit("tiny-tun-server");
    assert(CLIENT_TUN_NAME@[9] == 'c' && SERVER_TUN_NAME@[9] == 's');
}

} // verus!
