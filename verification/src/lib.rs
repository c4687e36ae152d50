//! Core logic of a broadcast chat relay: sanitization of client-supplied
//! text, identity extraction from the connection handshake, a peer directory
//! keyed by identity, and the per-connection state machine that turns client
//! and bus events into relay actions.

pub mod bus;
pub mod directory;
pub mod pump;
pub mod query;
pub mod sanitize;
