//! Core of an AMQP 1.0 protocol engine: the connection, session and link
//! state machines and the credit-based flow-control engine, written against a
//! caller-supplied duplex byte stream.  The engine itself never touches the
//! wire: every state machine consumes decoded performatives and time stamps
//! and yields the frames and events the caller must act on.

pub mod connection;
pub mod error;
pub mod handshake;
pub mod hb;
pub mod link;
pub mod protocol;
pub mod rcvlink;
pub mod server;
pub mod session;
pub mod shim;
pub mod types;
