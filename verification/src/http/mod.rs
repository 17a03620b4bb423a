//! The HTTP front end that serves the monitoring page.
pub mod config;
pub mod messages;
