//! A user-space TCP endpoint core: wrapping sequence-number arithmetic,
//! segment acceptability, the handshake state machine and the connection
//! table, together with a few small text-parsing and container utilities.
pub mod seq;
pub mod wire;
pub mod tcp;
pub mod table;
pub mod utils;
pub mod eldiro;
pub mod first;
pub mod binding_usage;
pub mod strsplit;
