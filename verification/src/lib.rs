//! Core of a port-forwarding proxy.
//!
//! For each configured rule the proxy listens on one address, opens a
//! matching outbound connection per accepted inbound connection, and relays
//! bytes in both directions until either side closes.  An embedded
//! inspection hook may observe (never modify) every relayed chunk.
//!
//! This crate holds the verified decision logic of that engine: the
//! configuration model, the startup plan, the per-direction byte pump, the
//! session shutdown coordination, the accept-loop policy of a listener, and
//! the ordered dispatch of chunks to the inspection hook.  The surrounding
//! runtime (sockets, tasks, the concrete scripting engine) drives these
//! functions and performs the I/O they decide on.

pub mod config;
pub mod engine;
pub mod hook;
pub mod proxy;
pub mod pump;
pub mod session;
