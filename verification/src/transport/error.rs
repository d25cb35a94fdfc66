//! Errors of the transport.

use vstd::prelude::*;

verus! {

/// Why the transport refused to go on.
#[derive(Debug)]
pub enum QuicTransportError {
    /// The transport configuration could not be used.
    Configuration(String),
    /// A datagram could not be built or sent.
    Datagram(String),
    /// A peer, or this side, broke the protocol.
    ProtocolState(String),
    /// A step took too long.
    Timeout(&'static str),
}

/// The error is a `ProtocolState` with exactly this text.
pub open spec fn is_protocol_state(error: QuicTransportError, detail: Seq<char>) -> bool {
    error matches QuicTransportError::ProtocolState(text) && text@ == detail
}

/// The error is a `Datagram` with exactly this text.
pub open spec fn is_datagram_error(error: QuicTransportError, detail: Seq<char>) -> bool {
    error matches QuicTransportError::Datagram(text) && text@ == detail
}

/// The error is a `Configuration` with exactly this text.
pub open spec fn is_configuration_error(error: QuicTransportError, detail: Seq<char>) -> bool {
    error matches QuicTransportError::Configuration(text) && text@ == detail
}

} // verus!
