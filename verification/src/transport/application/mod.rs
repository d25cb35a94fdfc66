//! The application's messages over one QUIC connection.

pub mod barrier;
pub mod channels;
pub mod classify;
pub mod delivery;
pub mod holdback;
pub mod metrics;
pub mod ordering;
pub mod outbound;
pub mod pacing;
pub mod reader;
pub mod receive_recovery;
pub mod send_recovery;
pub mod session;
pub mod slots;
pub mod stream;
pub mod video_writer;
