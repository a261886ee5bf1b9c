//! Session management for serial (UART) devices.
//!
//! The heart of the crate is a registry of open ports, each optionally
//! paired with a background read-loop worker that can be started and
//! cancelled through a single-slot signal channel.  The registry, the
//! line-parameter fallback parsing, the port-name ordering and the
//! worker's state machine are all verified; the device I/O itself is
//! left to the embedding application.

pub mod channel;
pub mod config;
pub mod errors;
pub mod ports;
pub mod session;
pub mod worker;
