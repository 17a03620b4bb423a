//! Core of an MQTT v3.1.1 broker and of the small HTTP front end that
//! shows the published data: packet decoding and encoding, session
//! management, configuration and account files.
pub mod packets;
pub mod text;
pub mod server_packets;
pub mod client_packets;
pub mod subscribe;
pub mod http;
pub mod key_value;
pub mod config;
pub mod io_error;
pub mod server;
pub mod traits;
mod outside;
pub mod iomock;
pub mod network_connection;
pub mod connection_stream;
pub mod client;
pub mod clients_manager;
