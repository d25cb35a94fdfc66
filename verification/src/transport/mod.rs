//! The QUIC transport.

pub mod error;
pub mod protocol;
pub mod video;
pub mod application;
pub mod datagram;
