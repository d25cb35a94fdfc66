//! The decisions of a remote-desktop session over QUIC: which channel carries a message,
//! which video frames may be shown, when a fresh keyframe has to be asked for, and what
//! fits into the datagram send queue. Sockets, clocks and tasks live outside.

pub mod keyboard;
pub mod message;
pub mod numbers;
pub mod ordered;
pub mod outbox;
pub mod text;
pub mod time;
pub mod transport;
pub mod udp;
