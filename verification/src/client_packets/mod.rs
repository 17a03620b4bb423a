//! Packets that a client sends to the server.
pub mod pingreq;
