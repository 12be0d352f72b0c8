//! A small SOCKS5 core for tunnelling TCP connections over a message-framed
//! duplex channel (such as a WebSocket).
//!
//! The crate holds the protocol logic only: decoding and encoding the SOCKS5
//! target-address field, the two-message handshake state machine with its
//! reply framing, and the buffering layer that presents a message-framed
//! channel as a byte stream.  The I/O that drives it (the channel itself, the
//! outbound TCP connection, the relay loop) lives outside, and feeds this
//! crate plain byte messages and events.

pub mod adapter;
pub mod addr;
pub mod handshake;

mod text;
mod wire;
