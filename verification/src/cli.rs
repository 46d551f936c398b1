//! The command line.
use vstd::prelude::*;

use crate::text;

verus! {

/// What the program is asked to do.
#[derive(Debug, PartialEq, Eq)]
pub enum Invocation {
    /// Relay raw bytes over TCP, as the server.
    Server { address: String },
    /// Relay raw bytes over TCP, as the client.
    Client { address: String },
    /// Dump the packets of a tunnel device.
    Tun,
    /// Relay packets over TCP, as the server.
    VpnServer { address: String },
    /// Relay packets over TCP, as the client.
    VpnClient { address: String },
    /// Relay encrypted packets over UDP, as the server.
    UdpServer { address: String, config_path: String },
    /// Relay encrypted packets over UDP, as the client.
    UdpClient { address: String, config_path: String },
}

/// An invocation as a mathematical value.
pub enum InvocationView {
    Server { address: Seq<char> },
    Client { address: Seq<char> },
    Tun,
    VpnServer { address: Seq<char> },
    VpnClient { address: Seq<char> },
    UdpServer { address: Seq<char>, config_path: Seq<char> },
    UdpClient { address: Seq<char>, config_path: Seq<char> },
}

impl View for Invocation {
    type V = InvocationView;

    open spec fn view(&self) -> InvocationView {
        match *self {
            Invocation::Server { address } => InvocationView::Server { address: address@ },
            Invocation::Client { address } => InvocationView::Client { address: address@ },
            Invocation::Tun => InvocationView::Tun,
            Invocation::VpnServer { address } => InvocationView::VpnServer { address: address@ },
            Invocation::VpnClient { address } => InvocationView::VpnClient { address: address@ },
            Invocation::UdpServer { address, config_path } => InvocationView::UdpServer {
                address: address@,
                config_path: config_path@,
            },
            Invocation::UdpClient { address, config_path } => InvocationView::UdpClient {
                address: address@,
                config_path: config_path@,
            },
        }
    }
}

/// What to tell the user about a command line that asks for nothing, line by line.
pub type Complaint = Vec<String>;

/// The name that usage lines give the program.
pub open spec fn program_name(args: Seq<Seq<char>>) -> Seq<char> {
    if args.len() > 0 {
        args[0]
    } else {
        "tiny-vpn"@
    }
}

/// The usage of a mode that takes an address.
pub open spec fn address_usage(program: Seq<char>, mode: Seq<char>) -> Seq<char> {
    "Usage: "@ + program + " "@ + mode + " <address>"@
}

/// The usage of a mode that takes an address and perhaps a file.
pub open spec fn udp_usage(program: Seq<char>, mode: Seq<char>) -> Seq<char> {
    "Usage: "@ + program + " "@ + mode + " <address> [config-path]"@
}

/// The usage of all modes.
pub open spec fn usage_lines(program: Seq<char>) -> Seq<Seq<char>> {
    seq![
        "Usage:"@,
        "  "@ + program + " server <address>                        (v0.1: raw TCP byte tunnel server)"@,
        "  "@ + program + " client <address>                        (v0.1: raw TCP byte tunnel client)"@,
        "  "@ + program + " tun                                     (v0.2: standalone TUN packet dump)"@,
        "  "@ + program + " vpn-server <address>                    (v0.3: TUN <-> TCP server)"@,
        "  "@ + program + " vpn-client <address>                    (v0.3: TUN <-> TCP client)"@,
        "  "@ + program + " udp-server <address> [config-path]      (v0.4/v0.6/v0.7: handshake-authenticated, encrypted TUN <-> UDP server, default config/server.toml)"@,
        "  "@ + program + " udp-client <address> [config-path]      (v0.4/v0.6/v0.7: handshake-authenticated, encrypted TUN <-> UDP client, default config/client.toml)"@,
    ]
}

/// What an unknown mode is answered.
pub open spec fn unknown_mode(mode: Seq<char>) -> Seq<char> {
    "Unknown mode '"@ + mode
        + "'. Expected 'server', 'client', 'tun', 'vpn-server', 'vpn-client', 'udp-server', or 'udp-client'."@
}

/// The address of a mode that takes nothing else.
pub open spec fn required_address(
    program: Seq<char>,
    args: Seq<Seq<char>>,
    mode: Seq<char>,
) -> Result<Seq<char>, Seq<Seq<char>>> {
    if args.len() == 3 {
        Ok(args[2])
    } else {
        Err(seq![address_usage(program, mode)])
    }
}

/// The address of a mode that may take a file too.
pub open spec fn required_udp_address(
    program: Seq<char>,
    args: Seq<Seq<char>>,
    mode: Seq<char>,
) -> Result<Seq<char>, Seq<Seq<char>>> {
    if args.len() == 3 || args.len() == 4 {
        Ok(args[2])
    } else {
        Err(seq![udp_usage(program, mode)])
    }
}

/// The file that is named, or the default one.
pub open spec fn chosen_config_path(args: Seq<Seq<char>>, default: Seq<char>) -> Seq<char> {
    if args.len() > 3 {
        args[3]
    } else {
        default
    }
}

/// What a command line asks for, the program's name being its first word.
pub open spec fn invocation(args: Seq<Seq<char>>) -> Result<InvocationView, Seq<Seq<char>>> {
    let program = program_name(args);
    if args.len() < 2 {
        Err(usage_lines(program))
    } else {
        let mode = args[1];
        if mode == "server"@ {
            match required_address(program, args, mode) {
                Ok(address) => Ok(InvocationView::Server { address }),
                Err(lines) => Err(lines),
            }
        } else if mode == "client"@ {
            match required_address(program, args, mode) {
                Ok(address) => Ok(InvocationView::Client { address }),
                Err(lines) => Err(lines),
            }
        } else if mode == "tun"@ {
            if args.len() == 2 {
                Ok(InvocationView::Tun)
            } else {
                Err(seq!["Usage: "@ + program + " tun"@])
            }
        } else if mode == "vpn-server"@ {
            match required_address(program, args, mode) {
                Ok(address) => Ok(InvocationView::VpnServer { address }),
                Err(lines) => Err(lines),
            }
        } else if mode == "vpn-client"@ {
            match required_address(program, args, mode) {
                Ok(address) => Ok(InvocationView::VpnClient { address }),
                Err(lines) => Err(lines),
            }
        } else if mode == "udp-server"@ {
            match required_udp_address(program, args, mode) {
                Ok(address) => Ok(
                    InvocationView::UdpServer {
                        address,
                        config_path: chosen_config_path(args, "config/server.toml"@),
                    },
                ),
                Err(lines) => Err(lines),
            }
        } else if mode == "udp-client"@ {
            match required_udp_address(program, args, mode) {
                Ok(address) => Ok(
                    InvocationView::UdpClient {
                        address,
                        config_path: chosen_config_path(args, "config/client.toml"@),
                    },
                ),
                Err(lines) => Err(lines),
            }
        } else {
            Err(seq![unknown_mode(mode)] + usage_lines(program))
        }
    }
}

/// A complaint of one line.
fn one_line(line: String) -> (lines: Complaint)
    ensures
        text::strings(lines@) == seq![line@],
{
    let ghost only = line@;
    let mut lines: Vec<String> = Vec::new();
    lines.push(line);
    assert(text::strings(lines@) =~= seq![only]);
    lines
}

/// The address of a mode that takes nothing else, or its usage.
pub fn require_address(program: &str, args: &Vec<String>, mode: &str) -> (r: Result<
    String,
    Complaint,
>)
    ensures
        match r {
            Ok(address) => required_address(program@, text::strings(args@), mode@) == Ok::<
                Seq<char>,
                Seq<Seq<char>>,
            >(address@),
            Err(lines) => required_address(program@, text::strings(args@), mode@) == Err::<
                Seq<char>,
                Seq<Seq<char>>,
            >(text::strings(lines@)),
        },
{
    if args.len() == 3 {
        Ok(args[2].clone())
    } else {
        let mut line = "Usage: ".to_owned();
        line.append(program);
        line.append(" ");
        line.append(mode);
        line.append(" <address>");
        Err(one_line(line))
    }
}

/// The address of a mode that may take a file too, or its usage.
pub fn require_udp_address(program: &str, args: &Vec<String>, mode: &str) -> (r: Result<
    String,
    Complaint,
>)
    ensures
        match r {
            Ok(address) => required_udp_address(program@, text::strings(args@), mode@) == Ok::<
                Seq<char>,
                Seq<Seq<char>>,
            >(address@),
            Err(lines) => required_udp_address(program@, text::strings(args@), mode@) == Err::<
                Seq<char>,
                Seq<Seq<char>>,
            >(text::strings(lines@)),
        },
{
    if args.len() == 3 || args.len() == 4 {
        Ok(args[2].clone())
    } else {
        let mut line = "Usage: ".to_owned();
        line.append(program);
        line.append(" ");
        line.append(mode);
        line.append(" <address> [config-path]");
        Err(one_line(line))
    }
}

/// The file that is named, or the default one.
pub fn optional_config_path(args: &Vec<String>, default: &str) -> (path: String)
    ensures
        path@ == chosen_config_path(text::strings(args@), default@),
{
    if args.len() > 3 {
        args[3].clone()
    } else {
        default.to_owned()
    }
}

/// One line of the usage of all modes.
fn usage_line(program: &str, rest: &str) -> (line: String)
    ensures
        line@ == "  "@ + program@ + rest@,
{
    let mut line = "  ".to_owned();
    line.append(program);
    line.append(rest);
    line
}

/// The usage of all modes.
pub fn usage(program: &str) -> (lines: Complaint)
    ensures
        text::strings(lines@) == usage_lines(program@),
{
    let mut lines: Vec<String> = Vec::new();
    lines.push("Usage:".to_owned());
    lines.push(
        usage_line(
            program,
            " server <address>                        (v0.1: raw TCP byte tunnel server)",
        ),
    );
    lines.push(
        usage_line(
            program,
            " client <address>                        (v0.1: raw TCP byte tunnel client)",
        ),
    );
    lines.push(
        usage_line(
            program,
            " tun                                     (v0.2: standalone TUN packet dump)",
        ),
    );
    lines.push(
        usage_line(
            program,
            " vpn-server <address>                    (v0.3: TUN <-> TCP server)",
        ),
    );
    lines.push(
        usage_line(
            program,
            " vpn-client <address>                    (v0.3: TUN <-> TCP client)",
        ),
    );
    lines.push(
        usage_line(
            program,
            " udp-server <address> [config-path]      (v0.4/v0.6/v0.7: handshake-authenticated, encrypted TUN <-> UDP server, default config/server.toml)",
        ),
    );
    lines.push(
        usage_line(
            program,
            " udp-client <address> [config-path]      (v0.4/v0.6/v0.7: handshake-authenticated, encrypted TUN <-> UDP client, default config/client.toml)",
        ),
    );
    assert(text::strings(lines@) =~= usage_lines(program@));
    lines
}

/// The complaint about an unknown mode.
fn complain_about_mode(program: &str, mode: &str) -> (lines: Complaint)
    ensures
        text::strings(lines@) == seq![unknown_mode(mode@)] + usage_lines(program@),
{
    let mut line = "Unknown mode '".to_owned();
    line.append(mode);
    line.append(
        "'. Expected 'server', 'client', 'tun', 'vpn-server', 'vpn-client', 'udp-server', or 'udp-client'.",
    );
    let mut lines = one_line(line);
    let mut rest = usage(program);
    let ghost first = lines@;
    let ghost others = rest@;
    lines.append(&mut rest);
    assert(text::strings(lines@) =~= text::strings(first) + text::strings(others));
    lines
}

/// Tells what a command line asks for.
pub fn parse_args(args: &Vec<String>) -> (r: Result<Invocation, Complaint>)
    ensures
        match r {
            Ok(asked) => invocation(text::strings(args@)) == Ok::<InvocationView, Seq<Seq<char>>>(
                asked@,
            ),
            Err(lines) => invocation(text::strings(args@)) == Err::<
                InvocationView,
                Seq<Seq<char>>,
            >(text::strings(lines@)),
        },
{
    let program = if args.len() > 0 {
        args[0].as_str()
    } else {
        "tiny-vpn"
    };
    if args.len() < 2 {
        return Err(usage(program));
    }
    let mode = args[1].as_str();
    if text::same_str(mode, "server") {
        match require_address(program, args, mode) {
            Ok(address) => Ok(Invocation::Server { address }),
            Err(lines) => Err(lines),
        }
    } else if text::same_str(mode, "client") {
        match require_address(program, args, mode) {
            Ok(address) => Ok(Invocation::Client { address }),
            Err(lines) => Err(lines),
        }
    } else if text::same_str(mode, "tun") {
        if args.len() == 2 {
            Ok(Invocation::Tun)
        } else {
            let mut line = "Usage: ".to_owned();
            line.append(program);
            line.append(" tun");
            Err(one_line(line))
        }
    } else if text::same_str(mode, "vpn-server") {
        match require_address(program, args, mode) {
            Ok(address) => Ok(Invocation::VpnServer { address }),
            Err(lines) => Err(lines),
        }
    } else if text::same_str(mode, "vpn-client") {
        match require_address(program, args, mode) {
            Ok(address) => Ok(Invocation::VpnClient { address }),
            Err(lines) => Err(lines),
        }
    } else if text::same_str(mode, "udp-server") {
        match require_udp_address(program, args, mode) {
            Ok(address) => Ok(
                Invocation::UdpServer {
                    address,
                    config_path: optional_config_path(args, "config/server.toml"),
                },
            ),
            Err(lines) => Err(lines),
        }
    } else if text::same_str(mode, "udp-client") {
        match require_udp_address(program, args, mode) {
            Ok(address) => Ok(
                Invocation::UdpClient {
                    address,
                    config_path: optional_config_path(args, "config/client.toml"),
                },
            ),
            Err(lines) => Err(lines),
        }
    } else {
        Err(complain_about_mode(program, mode))
    }
}

/// A mode that takes an address alone is given it as the third word, and nothing more.
pub proof fn law_modes_with_an_address(program: Seq<char>, address: Seq<char>)
    ensures
        invocation(seq![program, "server"@, address]) == Ok::<InvocationView, Seq<Seq<char>>>(
            InvocationView::Server { address },
        ),
        invocation(seq![program, "client"@, address]) == Ok::<InvocationView, Seq<Seq<char>>>(
            InvocationView::Client { address },
        ),
        invocation(seq![program, "vpn-server"@, address]) == Ok::<InvocationView, Seq<Seq<char>>>(
            InvocationView::VpnServer { address },
        ),
        invocation(seq![program, "vpn-client"@, address]) == Ok::<InvocationView, Seq<Seq<char>>>(
            InvocationView::VpnClient { address },
        ),
        invocation(seq![program, "tun"@]) == Ok::<InvocationView, Seq<Seq<char>>>(
            InvocationView::Tun,
        ),
{
    lemma_modes_differ();
}

/// The modes over UDP are given the address as the third word and the file as the fourth;
/// without a fourth, server and client have each a file of their own.
pub proof fn law_modes_with_a_file(program: Seq<char>, address: Seq<char>, file: Seq<char>)
    ensures
        invocation(seq![program, "udp-server"@, address]) == Ok::<InvocationView, Seq<Seq<char>>>(
            InvocationView::UdpServer { address, config_path: "config/server.toml"@ },
        ),
        invocation(seq![program, "udp-client"@, address]) == Ok::<InvocationView, Seq<Seq<char>>>(
            InvocationView::UdpClient { address, config_path: "config/client.toml"@ },
        ),
        invocation(seq![program, "udp-server"@, address, file]) == Ok::<
            InvocationView,
            Seq<Seq<char>>,
        >(InvocationView::UdpServer { address, config_path: file }),
        invocation(seq![program, "udp-client"@, address, file]) == Ok::<
            InvocationView,
            Seq<Seq<char>>,
        >(InvocationView::UdpClient { address, config_path: file }),
{
    lemma_modes_differ();
}

/// A command line asks for something only if its second word is a mode and the mode has
/// as many words behind it as it takes. Any other is answered with its usage.
pub proof fn law_what_is_refused(args: Seq<Seq<char>>)
    ensures
        invocation(args) is Ok ==> {
            &&& args.len() >= 2
            &&& args[1] == "tun"@ ==> args.len() == 2
            &&& args[1] == "server"@ || args[1] == "client"@ || args[1] == "vpn-server"@ || args[1]
                == "vpn-client"@ ==> args.len() == 3
            &&& args[1] == "udp-server"@ || args[1] == "udp-client"@ ==> args.len() == 3
                || args.len() == 4
            &&& args[1] == "tun"@ || args[1] == "server"@ || args[1] == "client"@ || args[1]
                == "vpn-server"@ || args[1] == "vpn-client"@ || args[1] == "udp-server"@ || args[1]
                == "udp-client"@
        },
        args.len() < 2 ==> invocation(args) == Err::<InvocationView, Seq<Seq<char>>>(
            usage_lines(
                if args.len() == 1 {
                    args[0]
                } else {
                    "tiny-vpn"@
                },
            ),
        ),
        args.len() >= 2 && args[1] == "tun"@ && args.len() != 2 ==> invocation(args) == Err::<
            InvocationView,
            Seq<Seq<char>>,
        >(seq!["Usage: "@ + args[0] + " tun"@]),
        args.len() >= 2 && (args[1] == "server"@ || args[1] == "client"@ || args[1] == "vpn-server"@
            || args[1] == "vpn-client"@) && args.len() != 3 ==> invocation(args) == Err::<
            InvocationView,
            Seq<Seq<char>>,
        >(seq!["Usage: "@ + args[0] + " "@ + args[1] + " <address>"@]),
        args.len() >= 2 && (args[1] == "udp-server"@ || args[1] == "udp-client"@) && args.len() != 3
            && args.len() != 4 ==> invocation(args) == Err::<InvocationView, Seq<Seq<char>>>(
            seq!["Usage: "@ + args[0] + " "@ + args[1] + " <address> [config-path]"@],
        ),
        args.len() >= 2 && !(args[1] == "tun"@ || args[1] == "server"@ || args[1] == "client"@
            || args[1] == "vpn-server"@ || args[1] == "vpn-client"@ || args[1] == "udp-server"@
            || args[1] == "udp-client"@) ==> invocation(args) == Err::<
            InvocationView,
            Seq<Seq<char>>,
        >(seq![unknown_mode(args[1])] + usage_lines(args[0])),
{
    lemma_modes_differ();
}

proof fn lemma_modes_differ()
    ensures
        "tun"@ != "server"@ && "tun"@ != "client"@ && "server"@ != "client"@,
        "vpn-server"@ != "server"@ && "vpn-server"@ != "client"@ && "vpn-server"@ != "tun"@,
        "vpn-client"@ != "server"@ && "vpn-client"@ != "client"@ && "vpn-client"@ != "tun"@,
        "udp-server"@ != "server"@ && "udp-server"@ != "client"@ && "udp-server"@ != "tun"@,
        "udp-client"@ != "server"@ && "udp-client"@ != "client"@ && "udp-client"@ != "tun"@,
        "vpn-server"@ != "vpn-client"@ && "vpn-server"@ != "udp-server"@ && "vpn-server"@
            != "udp-client"@,
        "vpn-client"@ != "udp-server"@ && "vpn-client"@ != "udp-client"@ && "udp-server"@
            != "udp-client"@,
{
    reveal_strlit("tun");
    reveal_strlit("server");
    reveal_strlit("client");
    reveal_strlit("vpn-server");
    reveal_strlit("vpn-client");
    reveal_strlit("udp-server");
    reveal_strlit("udp-client");
    assert("tun"@.len() == 3 && "server"@.len() == 6 && "client"@.len() == 6);
    assert("server"@[0] == 's' && "client"@[0] == 'c');
    assert("vpn-server"@.len() == 10 && "vpn-server"@[0] == 'v' && "vpn-server"@[4] == 's');
    assert("vpn-client"@.len() == 10 && "vpn-client"@[0] == 'v' && "vpn-client"@[4] == 'c');
    assert("udp-server"@.len() == 10 && "udp-server"@[0] == 'u' && "udp-server"@[4] == 's');
    assert("udp-client"@.len() == 10 && "udp-client"@[0] == 'u' && "udp-client"@[4] == 'c');
}

/// Whether a line of the usage shows a mode behind the name of the program.
pub open spec fn shows(line: Seq<char>, program: Seq<char>, mode: Seq<char>) -> bool {
    exists|rest: Seq<char>| line == #[trigger] ("  "@ + program + " "@ + mode + " "@ + rest)
}

proof fn lemma_shows(program: Seq<char>, mode: Seq<char>, tail: Seq<char>)
    requires
        tail.len() >= mode.len() + 2,
        tail.take(mode.len() as int + 2) == seq![' '] + mode + seq![' '],
    ensures
        shows("  "@ + program + tail, program, mode),
{
    reveal_strlit(" ");
    let rest = tail.skip(mode.len() as int + 2);
    assert(tail =~= tail.take(mode.len() as int + 2) + rest);
    assert("  "@ + program + tail =~= "  "@ + program + " "@ + mode + " "@ + rest);
}

/// The usage shows every mode, with what it takes, behind the name of the program.
pub proof fn law_usage_shows_every_mode(program: Seq<char>)
    ensures
        usage_lines(program).len() == 8,
        usage_lines(program)[0] == "Usage:"@,
        shows(usage_lines(program)[1], program, "server <address>"@),
        shows(usage_lines(program)[2], program, "client <address>"@),
        shows(usage_lines(program)[3], program, "tun"@),
        shows(usage_lines(program)[4], program, "vpn-server <address>"@),
        shows(usage_lines(program)[5], program, "vpn-client <address>"@),
        shows(usage_lines(program)[6], program, "udp-server <address> [config-path]"@),
        shows(usage_lines(program)[7], program, "udp-client <address> [config-path]"@),
{
    assert(shows(
        "  "@ + program
            + " server <address>                        (v0.1: raw TCP byte tunnel server)"@,
        program,
        "server <address>"@,
    )) by {
        reveal_strlit("server <address>");
        reveal_strlit(
            " server <address>                        (v0.1: raw TCP byte tunnel server)",
        );
        let mode = "server <address>"@;
        let tail = " server <address>                        (v0.1: raw TCP byte tunnel server)"@;
        assert(tail.take(mode.len() as int + 2) =~= seq![' '] + mode + seq![' ']);
        lemma_shows(program, mode, tail);
    }
    assert(shows(
        "  "@ + program
            + " client <address>                        (v0.1: raw TCP byte tunnel client)"@,
        program,
        "client <address>"@,
    )) by {
        reveal_strlit("client <address>");
        reveal_strlit(
            " client <address>                        (v0.1: raw TCP byte tunnel client)",
        );
        let mode = "client <address>"@;
        let tail = " client <address>                        (v0.1: raw TCP byte tunnel client)"@;
        assert(tail.take(mode.len() as int + 2) =~= seq![' '] + mode + seq![' ']);
        lemma_shows(program, mode, tail);
    }
    assert(shows(
        "  "@ + program
            + " tun                                     (v0.2: standalone TUN packet dump)"@,
        program,
        "tun"@,
    )) by {
        reveal_strlit("tun");
        reveal_strlit(
            " tun                                     (v0.2: standalone TUN packet dump)",
        );
        let mode = "tun"@;
        let tail = " tun                                     (v0.2: standalone TUN packet dump)"@;
        assert(tail.take(mode.len() as int + 2) =~= seq![' '] + mode + seq![' ']);
        lemma_shows(program, mode, tail);
    }
    assert(shows(
        "  "@ + program
            + " vpn-server <address>                    (v0.3: TUN <-> TCP server)"@,
        program,
        "vpn-server <address>"@,
    )) by {
        reveal_strlit("vpn-server <address>");
        reveal_strlit(
            " vpn-server <address>                    (v0.3: TUN <-> TCP server)",
        );
        let mode = "vpn-server <address>"@;
        let tail = " vpn-server <address>                    (v0.3: TUN <-> TCP server)"@;
        assert(tail.take(mode.len() as int + 2) =~= seq![' '] + mode + seq![' ']);
        lemma_shows(program, mode, tail);
    }
    assert(shows(
        "  "@ + program
            + " vpn-client <address>                    (v0.3: TUN <-> TCP client)"@,
        program,
        "vpn-client <address>"@,
    )) by {
        reveal_strlit("vpn-client <address>");
        reveal_strlit(
            " vpn-client <address>                    (v0.3: TUN <-> TCP client)",
        );
        let mode = "vpn-client <address>"@;
        let tail = " vpn-client <address>                    (v0.3: TUN <-> TCP client)"@;
        assert(tail.take(mode.len() as int + 2) =~= seq![' '] + mode + seq![' ']);
        lemma_shows(program, mode, tail);
    }
    assert(shows(
        "  "@ + program
            + " udp-server <address> [config-path]      (v0.4/v0.6/v0.7: handshake-authenticated, encrypted TUN <-> UDP server, default config/server.toml)"@,
        program,
        "udp-server <address> [config-path]"@,
    )) by {
        reveal_strlit("udp-server <address> [config-path]");
        reveal_strlit(
            " udp-server <address> [config-path]      (v0.4/v0.6/v0.7: handshake-authenticated, encrypted TUN <-> UDP server, default config/server.toml)",
        );
        let mode = "udp-server <address> [config-path]"@;
        let tail = " udp-server <address> [config-path]      (v0.4/v0.6/v0.7: handshake-authenticated, encrypted TUN <-> UDP server, default config/server.toml)"@;
        assert(tail.take(mode.len() as int + 2) =~= seq![' '] + mode + seq![' ']);
        lemma_shows(program, mode, tail);
    }
    assert(shows(
        "  "@ + program
            + " udp-client <address> [config-path]      (v0.4/v0.6/v0.7: handshake-authenticated, encrypted TUN <-> UDP client, default config/client.toml)"@,
        program,
        "udp-client <address> [config-path]"@,
    )) by {
        reveal_strlit("udp-client <address> [config-path]");
        reveal_strlit(
            " udp-client <address> [config-path]      (v0.4/v0.6/v0.7: handshake-authenticated, encrypted TUN <-> UDP client, default config/client.toml)",
        );
        let mode = "udp-client <address> [config-path]"@;
        let tail = " udp-client <address> [config-path]      (v0.4/v0.6/v0.7: handshake-authenticated, encrypted TUN <-> UDP client, default config/client.toml)"@;
        assert(tail.take(mode.len() as int + 2) =~= seq![' '] + mode + seq![' ']);
        lemma_shows(program, mode, tail);
    }
}

/// What an unknown mode is answered names it, and all the modes that are known.
pub proof fn law_unknown_mode_is_named(mode: Seq<char>)
    ensures
        unknown_mode(mode) == "Unknown mode '"@ + mode
            + "'. Expected 'server', 'client', 'tun', 'vpn-server', 'vpn-client', 'udp-server', or 'udp-client'."@,
{
}

} // verus!
