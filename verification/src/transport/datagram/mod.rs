//! Datagrams: what fits into the send queue, and where a received one belongs.

pub mod budget;
pub mod coordinator;
pub mod receiver;
pub mod sender;
pub mod sizes;
