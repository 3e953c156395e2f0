//! Secure-connection core of a peer-to-peer messaging client.
//!
//! The crate holds the decision logic of the connection layer: how inbound
//! frames become typed events, how outbound messages are encoded, how the
//! event multiplexer merges its producers, and the error taxonomy. The
//! socket, thread and terminal plumbing around this logic lives outside the
//! library and calls into it with plain values.

pub mod event;
pub mod peer_connection;
