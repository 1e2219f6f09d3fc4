//! Live-connection registry and broadcast protocol for a small website
//! server.
//!
//! The library tracks how many clients are currently connected over a
//! long-lived socket, notifies every connected client whenever that count
//! changes, and answers a tiny text protocol on each connection
//! (`ping`/`pong`, `heartbeat` echo, and an on-demand count request).
//!
//! The surrounding process (listener, protocol upgrade, the select loop
//! that waits on the two message sources) lives outside this crate and
//! drives the functions here with plain values.

mod channel;
pub mod handler;
pub mod json;
pub mod message;
pub mod registry;
