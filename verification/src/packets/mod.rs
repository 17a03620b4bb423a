//! Decoding and encoding of MQTT control packets.
pub mod connect;
pub mod packet_reader;
pub mod puback;
pub mod publish;
pub mod qos;
pub mod utf8;
