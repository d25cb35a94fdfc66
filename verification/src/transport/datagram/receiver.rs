//! Where a received datagram belongs.

use crate::text::{decimal, joined, push_decimal};
use crate::transport::error::{is_protocol_state, QuicTransportError};
use crate::transport::protocol::{MessageType, MouseMovementMode, SessionId};
use crate::transport::video::VideoReassemblyOutcome;
use vstd::prelude::*;
use vstd::string::StringExecFns;

verus! {

/// A movement of the mouse.
#[derive(Clone, Copy, Debug, PartialEq, Eq, Structural)]
pub struct MouseMovement {
    pub sequence_number: u64,
    pub monotonic_timestamp_us: u64,
    pub mode: MouseMovementMode,
    pub x: i32,
    pub y: i32,
    pub display_id: u32,
    pub button_state_mask: u16,
}

/// What a received datagram came to.
pub enum DatagramReceiveEvent {
    Video(VideoReassemblyOutcome),
    AudioAccepted,
    Mouse(Option<MouseMovement>),
    ApplicationMouse(Option<(MouseMovement, Vec<u8>)>),
}

/// What the head of a datagram says.
#[derive(Clone, Copy, Debug)]
pub struct DatagramHeader {
    pub session_id: SessionId,
    pub message_type: MessageType,
    pub payload_length: u32,
}

/// The part of the receiver that takes a datagram.
#[derive(Clone, Copy, Debug, PartialEq, Eq, Structural)]
pub enum DatagramRoute {
    Video,
    Audio,
    Mouse,
    ApplicationMouse,
}

/// Receives the datagrams of one session.
pub struct QuicDatagramReceiver {
    session_id: SessionId,
    negotiated_max_datagram_size: usize,
}

/// Whether two sessions are the same.
fn same_session(a: &SessionId, b: &SessionId) -> (same: bool)
    ensures
        same == (a@ == b@),
{
    let mut index: usize = 0;
    while index < 16
        invariant
            index <= 16,
            forall|i: int| 0 <= i < index ==> a@[i] == b@[i],
        decreases 16 - index,
    {
        if a[index] != b[index] {
            assert(a@[index as int] != b@[index as int]);
            return false;
        }
        index += 1;
    }
    assert(a@ =~= b@);
    true
}

/// The part of the receiver that takes a datagram of this kind. A mouse movement that carries
/// nothing but itself has a payload of exactly `mouse_payload_len` bytes.
pub open spec fn route_of(header: DatagramHeader, mouse_payload_len: usize) -> Option<DatagramRoute> {
    match header.message_type {
        MessageType::VideoFragment => Some(DatagramRoute::Video),
        MessageType::AudioPacket => Some(DatagramRoute::Audio),
        MessageType::MouseMovement => Some(if header.payload_length == mouse_payload_len {
            DatagramRoute::Mouse
        } else {
            DatagramRoute::ApplicationMouse
        }),
        _ => None,
    }
}

impl QuicDatagramReceiver {
    /// The session whose datagrams are received.
    pub closed spec fn session(&self) -> SessionId {
        self.session_id
    }

    /// How large a datagram may be.
    pub closed spec fn size_limit(&self) -> usize {
        self.negotiated_max_datagram_size
    }

    /// Receives the datagrams of a session, however large they are.
    pub fn new(session_id: SessionId) -> (receiver: Self)
        ensures
            receiver.session() == session_id,
            receiver.size_limit() == usize::MAX,
    {
        QuicDatagramReceiver { session_id, negotiated_max_datagram_size: usize::MAX }
    }

    /// With the datagram size that both peers agreed on.
    pub fn with_max_datagram_size(self, max_datagram_size: usize) -> (receiver: Self)
        ensures
            receiver.session() == self.session(),
            receiver.size_limit() == max_datagram_size,
    {
        QuicDatagramReceiver { session_id: self.session_id, negotiated_max_datagram_size: max_datagram_size }
    }

    /// Refuses a datagram that is larger than agreed, or too short for its head.
    pub fn check_length(&self, length: usize, header_length: usize) -> (result: Result<(), QuicTransportError>)
        ensures
            match result {
                Ok(_) => header_length <= length <= self.size_limit(),
                Err(error) => if length > self.size_limit() {
                    is_protocol_state(
                        error,
                        "QUIC datagram length "@ + decimal(length as nat) + " exceeds negotiated limit "@ + decimal(
                            self.size_limit() as nat,
                        ),
                    )
                } else {
                    length < header_length && is_protocol_state(error, "received truncated QUIC datagram"@)
                },
            },
    {
        if length > self.negotiated_max_datagram_size {
            let mut text: String = "QUIC datagram length ".to_owned();
            push_decimal(&mut text, length as u64);
            text.append(" exceeds negotiated limit ");
            push_decimal(&mut text, self.negotiated_max_datagram_size as u64);
            return Err(QuicTransportError::ProtocolState(text));
        }
        if length < header_length {
            return Err(QuicTransportError::ProtocolState("received truncated QUIC datagram".to_owned()));
        }
        Ok(())
    }

    /// The part of the receiver that takes a datagram. One of another session, or of a kind that
    /// does not travel as a datagram, is refused.
    pub fn route(&self, header: &DatagramHeader, mouse_payload_len: usize) -> (route: Result<
        DatagramRoute,
        QuicTransportError,
    >)
        ensures
            match route {
                Ok(route) => {
                    &&& header.session_id@ == self.session()@
                    &&& route_of(*header, mouse_payload_len) == Some(route)
                },
                Err(error) => if header.session_id@ != self.session()@ {
                    is_protocol_state(error, "QUIC datagram session identifier changed"@)
                } else {
                    &&& route_of(*header, mouse_payload_len) is None
                    &&& is_protocol_state(
                        error,
                        "message "@ + header.message_type.spec_name() + " is invalid on QUIC DATAGRAM"@,
                    )
                },
            },
    {
        if !same_session(&header.session_id, &self.session_id) {
            return Err(QuicTransportError::ProtocolState("QUIC datagram session identifier changed".to_owned()));
        }
        match header.message_type {
            MessageType::VideoFragment => Ok(DatagramRoute::Video),
            MessageType::AudioPacket => Ok(DatagramRoute::Audio),
            MessageType::MouseMovement => {
                if header.payload_length as u64 == mouse_payload_len as u64 {
                    Ok(DatagramRoute::Mouse)
                } else {
                    Ok(DatagramRoute::ApplicationMouse)
                }
            },
            message_type => Err(
                QuicTransportError::ProtocolState(
                    joined("message ", message_type.name(), " is invalid on QUIC DATAGRAM"),
                ),
            ),
        }
    }
}

/// Fragments of video, packets of sound and mouse movements travel as datagrams, and nothing else does. A
/// movement whose payload has another length than a bare movement carries a message of the application.
pub proof fn three_kinds_travel_as_datagrams(header: DatagramHeader, mouse_payload_len: usize)
    ensures
        route_of(header, mouse_payload_len) == Some(DatagramRoute::Video) <==> header.message_type
            == MessageType::VideoFragment,
        route_of(header, mouse_payload_len) == Some(DatagramRoute::Audio) <==> header.message_type
            == MessageType::AudioPacket,
        route_of(header, mouse_payload_len) == Some(DatagramRoute::Mouse) <==> (header.message_type
            == MessageType::MouseMovement && header.payload_length == mouse_payload_len),
        route_of(header, mouse_payload_len) == Some(DatagramRoute::ApplicationMouse) <==> (header.message_type
            == MessageType::MouseMovement && header.payload_length != mouse_payload_len),
{
}

} // verus!
