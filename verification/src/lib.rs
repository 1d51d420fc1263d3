//! Decision logic of a controlled-rate latency benchmarking server.
//!
//! The crate holds the state of a single-threaded connection multiplexer and
//! the rules by which it reacts to readiness events, paces timestamped
//! packets on every live connection and starts a new round once all
//! connections are gone. Sockets, polling and the clock stay with the caller:
//! every function here works on plain values.

pub mod stats;
pub mod error;
pub mod conn;
pub mod server;
pub mod pacing;
