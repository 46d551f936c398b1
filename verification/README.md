# tinyvpn

A small VPN: one client, one server, packets of a tunnel device carried in
encrypted UDP datagrams, authenticated by a pre-shared key. `src/` holds the
protocol, the state machines and the rules as a library in Verus; `app/` is the
program that does the input and output.

## The library

| Module | What it holds |
| --- | --- |
| `protocol` | frames, handshake messages, datagrams |
| `crypto`, `primitives` | envelopes, nonces, handshake tags, session keys; the calls into the cryptographic crates |
| `transport` | the steps of the relays between tunnel device and socket |
| `server`, `server_loop` | the server's session and its receive loop, one decision at a time |
| `client` | the client's side of the handshake, and the routes it asks for |
| `config`, `psk`, `options`, `cli` | configuration files and the command line |
| `routing`, `dns` | what is changed on the host, in which order, and how it is taken back |
| `tun` | tunnel names and addresses, and the rules around packets |
| `net`, `text`, `bytes`, `error` | addresses, text, byte order and errors as plain values |

Nothing in the library touches the host. Where something has to be done there, a
state machine says what is next and is told what came of it: a `Transaction`
hands out commands and undoes them when one fails, a `ServerLoop` asks for a
datagram or for a reply to be sent.

What is proved beyond the contracts of single functions stands in the proof
functions whose names begin with `law_`: encoding and decoding undo each other,
nonces do not repeat, a handshake between two sides that know the key completes,
data is accepted from the authenticated peer alone, a failed setup of a gateway or
of routes leaves the host as it was, full routing covers every address but the server's.

Taken on trust are the cryptographic primitives (`primitives.rs`) and two items
of the standard library (`text.rs`); each says what it claims.

## The program

```text
tiny-vpn server <address>
tiny-vpn client <address>
tiny-vpn tun
tiny-vpn vpn-server <address>
tiny-vpn vpn-client <address>
tiny-vpn udp-server <address> [config-path]
tiny-vpn udp-client <address> [config-path]
```

A configuration file has a `[crypto] key` of 64 hexadecimal digits, and perhaps
`[routing]`, `[dns]` and `[tunnel]` sections; see `config.rs`.
