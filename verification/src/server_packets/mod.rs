//! Packets that the server reads from clients or sends to them.
pub mod connack;
pub mod disconnect;
pub mod pingresp;
pub mod unsuback;
pub mod unsubscribe;
