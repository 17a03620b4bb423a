//! Errors and decisions of the broker.
pub mod server_error;
pub mod packet_processing;
pub mod client_loop;
