[package]
name = "peer_core"
version = "0.1.0"
edition = "2021"
publish = false

[dependencies]
ssb-crypto = "=0.2.3"
ssb-handshake = "=0.5.1"
termion = "=4.0.6"
futures = "0.3"

[dev-dependencies]
async-ringbuffer = "0.5.4"
