[package]
name = "tinyvpn"
version = "0.9.0"
edition = "2021"
publish = false

[dependencies]
chacha20poly1305 = "0.10"
hkdf = "0.12"
sha2 = "0.10"
subtle = "2"
libc = "0.2"
tun = "0.7"
jni = "0.21"
wintun = "0.5"
windows-sys = { version = "0.59", features = ["Win32_Foundation", "Win32_System_Console"] }
