//! A proof-of-work gate: a server hands out a puzzle, a client searches for a
//! solution, and only a verified solution earns a reward phrase.
//!
//! The library holds the wire format, the puzzle predicate, the solver and
//! the per-connection state machine; the stream handling lives outside it.
pub mod proto;
pub mod puzzle;
pub mod server;
pub mod client;
pub mod transport;
pub mod responses;
