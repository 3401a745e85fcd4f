//! Client side of a lightweight publish/subscribe tunnel protocol.
//!
//! The crate is written sans-I/O: it frames and parses messages, keeps the
//! session state of a topic and decides what has to be written, registered or
//! shut down. Sockets and the readiness poller belong to the caller, which
//! hands plain values in and carries the decisions out.

pub mod tunnel;
pub mod utils;
