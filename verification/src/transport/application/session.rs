//! What the two peers agree on.

use crate::text::joined;
use crate::transport::error::{is_configuration_error, is_datagram_error, is_protocol_state, QuicTransportError};
use crate::transport::protocol::{AudioCodec, MessageType, QuicApplicationProtocol};
use crate::transport::video::VideoCodec;
use vstd::prelude::*;

verus! {

/// The datagram size that newer protocols ask for, whatever the path allows now.
pub const V2_MAX_APPLICATION_DATAGRAM_SIZE: usize = 1_300;

/// Which side of the connection this is.
#[derive(Clone, Copy, Debug, PartialEq, Eq, Structural)]
pub enum ApplicationQuicRole {
    Client,
    Server,
}

/// What matters more than picture quality.
#[derive(Clone, Copy, Debug, PartialEq, Eq, Structural)]
pub enum LatencyMode {
    LowLatency,
}

/// What a peer is able to do.
#[derive(Clone, Copy, Debug, PartialEq, Eq, Structural)]
pub struct SessionCapabilities {
    pub clipboard_send: bool,
    pub clipboard_receive: bool,
    pub file_transfer: bool,
    pub input_send: bool,
    pub input_receive: bool,
    pub reliable_keyframes: bool,
    pub reliable_keyframe_barrier: bool,
}

/// The picture formats that a peer understands.
#[derive(Clone, Copy, Debug, PartialEq, Eq, Structural)]
pub struct ColorFormats {
    pub i420: bool,
    pub i444: bool,
    pub nv12: bool,
    pub p010: bool,
}

/// What a peer offers.
#[derive(Debug)]
pub struct SessionOffer {
    pub minimum_protocol_version: u16,
    pub maximum_protocol_version: u16,
    pub capabilities: SessionCapabilities,
    pub latency_mode: LatencyMode,
    pub video_codecs: Vec<VideoCodec>,
    pub audio_codecs: Vec<AudioCodec>,
    pub color_formats: ColorFormats,
    pub max_width: u32,
    pub max_height: u32,
    pub max_fps: u16,
    pub max_datagram_payload: u16,
    pub max_video_bitrate_kbps: u32,
    pub max_file_bitrate_kbps: u32,
}

/// What the two peers agreed on, as far as the transport looks at it.
#[derive(Clone, Copy, Debug, PartialEq, Eq, Structural)]
pub struct SessionAgreement {
    pub max_datagram_payload: u16,
    pub max_file_bitrate_kbps: u32,
    pub reliable_keyframes: bool,
    pub reliable_keyframe_barrier: bool,
}

/// The datagram size that is offered: what the path allows now, within bounds. Newer protocols offer
/// at least the size that they are made for.
pub open spec fn offered_datagram_size(current: usize, protocol: QuicApplicationProtocol) -> u16 {
    let bounded = if current < 256 {
        256usize
    } else if current > 65_000 {
        65_000usize
    } else {
        current
    };
    if protocol.spec_number() >= 2 && bounded < V2_MAX_APPLICATION_DATAGRAM_SIZE {
        V2_MAX_APPLICATION_DATAGRAM_SIZE as u16
    } else {
        bounded as u16
    }
}

/// A limit of megabits in kilobits, at most the largest number. None stands for a gigabit.
pub open spec fn file_limit_kbps(limit_mbps: u32) -> u32 {
    if limit_mbps == 0 {
        1_000_000
    } else if limit_mbps * 1_000 > u32::MAX {
        u32::MAX
    } else {
        (limit_mbps * 1_000) as u32
    }
}

/// The offer of this side, or why there is none: the configuration could not be read, or the peer takes no datagrams.
pub open spec fn is_session_offer(
    offer: Result<SessionOffer, QuicTransportError>,
    file_bandwidth_limit_mbps: Result<u32, String>,
    max_datagram_size: Option<usize>,
    application_protocol: QuicApplicationProtocol,
) -> bool {
    match offer {
        Ok(offer) => {
            &&& file_bandwidth_limit_mbps is Ok
            &&& max_datagram_size is Some
            &&& offer.minimum_protocol_version == application_protocol.spec_number()
            &&& offer.maximum_protocol_version == application_protocol.spec_number()
            &&& offer.capabilities == (SessionCapabilities {
                clipboard_send: true,
                clipboard_receive: true,
                file_transfer: true,
                input_send: true,
                input_receive: true,
                reliable_keyframes: application_protocol.spec_number() >= 2,
                reliable_keyframe_barrier: application_protocol.spec_number() >= 4,
            })
            &&& offer.latency_mode == LatencyMode::LowLatency
            &&& offer.video_codecs@ =~= seq![
                VideoCodec::Av1,
                VideoCodec::H265,
                VideoCodec::H264,
                VideoCodec::Vp9,
                VideoCodec::Vp8,
                VideoCodec::Raw,
            ]
            &&& offer.audio_codecs@ =~= seq![AudioCodec::Opus]
            &&& offer.color_formats == (ColorFormats { i420: true, i444: true, nv12: true, p010: true })
            &&& offer.max_width == 16_384
            &&& offer.max_height == 16_384
            &&& offer.max_fps == 240
            &&& offer.max_datagram_payload == offered_datagram_size(max_datagram_size->0, application_protocol)
            &&& offer.max_video_bitrate_kbps == 1_000_000
            &&& offer.max_file_bitrate_kbps == file_limit_kbps(file_bandwidth_limit_mbps->Ok_0)
        },
        Err(error) => match file_bandwidth_limit_mbps {
            Err(detail) => is_configuration_error(error, detail@),
            Ok(_) => max_datagram_size is None && is_datagram_error(
                error,
                "peer did not negotiate QUIC DATAGRAM"@,
            ),
        },
    }
}

/// The offer of this side. `file_bandwidth_limit_mbps` is what the configuration says, or why it
/// could not be read, and `max_datagram_size` what the connection allows now.
pub fn application_session_offer(
    file_bandwidth_limit_mbps: Result<u32, String>,
    max_datagram_size: Option<usize>,
    application_protocol: QuicApplicationProtocol,
) -> (offer: Result<SessionOffer, QuicTransportError>)
    ensures
        is_session_offer(offer, file_bandwidth_limit_mbps, max_datagram_size, application_protocol),
{
    let limit_mbps: u32 = match file_bandwidth_limit_mbps {
        Ok(limit) => limit,
        Err(detail) => {
            return Err(QuicTransportError::Configuration(detail));
        },
    };
    let current: usize = match max_datagram_size {
        Some(size) => size,
        None => {
            return Err(QuicTransportError::Datagram("peer did not negotiate QUIC DATAGRAM".to_owned()));
        },
    };
    let current_datagram_payload: usize = if current < 256 {
        256
    } else if current > 65_000 {
        65_000
    } else {
        current
    };
    let max_datagram_payload: u16 = if application_protocol.supports_reliable_keyframes() && current_datagram_payload
        < V2_MAX_APPLICATION_DATAGRAM_SIZE {
        V2_MAX_APPLICATION_DATAGRAM_SIZE as u16
    } else {
        current_datagram_payload as u16
    };
    let max_file_bitrate_kbps: u32 = if limit_mbps == 0 {
        1_000_000
    } else {
        match limit_mbps.checked_mul(1_000) {
            Some(kbps) => kbps,
            None => u32::MAX,
        }
    };
    Ok(
        SessionOffer {
            minimum_protocol_version: application_protocol.number(),
            maximum_protocol_version: application_protocol.number(),
            capabilities: SessionCapabilities {
                clipboard_send: true,
                clipboard_receive: true,
                file_transfer: true,
                input_send: true,
                input_receive: true,
                reliable_keyframes: application_protocol.supports_reliable_keyframes(),
                reliable_keyframe_barrier: application_protocol.supports_reliable_keyframe_barrier(),
            },
            latency_mode: LatencyMode::LowLatency,
            video_codecs: vec![
                VideoCodec::Av1,
                VideoCodec::H265,
                VideoCodec::H264,
                VideoCodec::Vp9,
                VideoCodec::Vp8,
                VideoCodec::Raw,
            ],
            audio_codecs: vec![AudioCodec::Opus],
            color_formats: ColorFormats { i420: true, i444: true, nv12: true, p010: true },
            max_width: 16_384,
            max_height: 16_384,
            max_fps: 240,
            max_datagram_payload,
            max_video_bitrate_kbps: 1_000_000,
            max_file_bitrate_kbps,
        },
    )
}

/// The step that a side of the negotiation takes.
#[derive(Debug)]
pub enum NegotiationStep {
    /// Send the offer.
    SendOffer,
    /// Wait for a message of the other side.
    Receive,
    /// Read the acceptance, and check it against the own offer.
    CheckAcceptance,
    /// Read the offer, agree on a session and accept.
    Accept,
    /// Both sides agree.
    Done,
}

/// Where the negotiation stands.
#[derive(Clone, Copy, Debug, PartialEq, Eq, Structural)]
pub enum NegotiationState {
    Start,
    Waiting,
    Received,
    Finished,
}

/// The step that is next: the client offers and checks what is accepted, the server waits for an
/// offer and accepts.
pub open spec fn negotiation_step(role: ApplicationQuicRole, state: NegotiationState) -> (
    NegotiationStep,
    NegotiationState,
) {
    match (role, state) {
        (ApplicationQuicRole::Client, NegotiationState::Start) => (
            NegotiationStep::SendOffer,
            NegotiationState::Waiting,
        ),
        (ApplicationQuicRole::Server, NegotiationState::Start) => (
            NegotiationStep::Receive,
            NegotiationState::Received,
        ),
        (_, NegotiationState::Waiting) => (NegotiationStep::Receive, NegotiationState::Received),
        (ApplicationQuicRole::Client, NegotiationState::Received) => (
            NegotiationStep::CheckAcceptance,
            NegotiationState::Finished,
        ),
        (ApplicationQuicRole::Server, NegotiationState::Received) => (
            NegotiationStep::Accept,
            NegotiationState::Finished,
        ),
        (_, NegotiationState::Finished) => (NegotiationStep::Done, NegotiationState::Finished),
    }
}

/// The step that is next, and where the negotiation stands after it.
pub fn next_negotiation_step(role: ApplicationQuicRole, state: NegotiationState) -> (step: (
    NegotiationStep,
    NegotiationState,
))
    ensures
        step == negotiation_step(role, state),
{
    match (role, state) {
        (ApplicationQuicRole::Client, NegotiationState::Start) => (
            NegotiationStep::SendOffer,
            NegotiationState::Waiting,
        ),
        (ApplicationQuicRole::Server, NegotiationState::Start) => (
            NegotiationStep::Receive,
            NegotiationState::Received,
        ),
        (_, NegotiationState::Waiting) => (NegotiationStep::Receive, NegotiationState::Received),
        (ApplicationQuicRole::Client, NegotiationState::Received) => (
            NegotiationStep::CheckAcceptance,
            NegotiationState::Finished,
        ),
        (ApplicationQuicRole::Server, NegotiationState::Received) => (
            NegotiationStep::Accept,
            NegotiationState::Finished,
        ),
        (_, NegotiationState::Finished) => (NegotiationStep::Done, NegotiationState::Finished),
    }
}

/// The message that a side waits for.
pub open spec fn expected_message(role: ApplicationQuicRole) -> MessageType {
    match role {
        ApplicationQuicRole::Client => MessageType::SessionAccept,
        ApplicationQuicRole::Server => MessageType::SessionOffer,
    }
}

/// What is said of a message that a side did not wait for.
pub open spec fn unexpected_message(role: ApplicationQuicRole, message_type: MessageType) -> Seq<char> {
    match role {
        ApplicationQuicRole::Client => "expected QUIC session acceptance, received "@ + message_type.spec_name() + ""@,
        ApplicationQuicRole::Server => "expected QUIC session offer, received "@ + message_type.spec_name() + ""@,
    }
}

/// Refuses a message of the negotiation that this side does not wait for.
pub fn check_session_message(role: ApplicationQuicRole, message_type: MessageType) -> (result: Result<
    (),
    QuicTransportError,
>)
    ensures
        match result {
            Ok(_) => message_type == expected_message(role),
            Err(error) => message_type != expected_message(role) && is_protocol_state(
                error,
                unexpected_message(role, message_type),
            ),
        },
{
    match role {
        ApplicationQuicRole::Client => {
            if message_type != MessageType::SessionAccept {
                return Err(
                    QuicTransportError::ProtocolState(
                        joined("expected QUIC session acceptance, received ", message_type.name(), ""),
                    ),
                );
            }
        },
        ApplicationQuicRole::Server => {
            if message_type != MessageType::SessionOffer {
                return Err(
                    QuicTransportError::ProtocolState(
                        joined("expected QUIC session offer, received ", message_type.name(), ""),
                    ),
                );
            }
        },
    }
    Ok(())
}

/// The error of a negotiation that failed.
pub fn session_negotiation_error(detail: &str) -> (error: QuicTransportError)
    ensures
        is_protocol_state(error, "QUIC session negotiation failed: "@ + detail@ + ""@),
{
    QuicTransportError::ProtocolState(joined("QUIC session negotiation failed: ", detail, ""))
}

/// The client offers, waits for what is accepted and checks it; the server waits for an offer and accepts. Each is
/// done then, and stays so.
pub proof fn negotiations_come_to_an_end()
    ensures
        ({
            let client = ApplicationQuicRole::Client;
            let first = negotiation_step(client, NegotiationState::Start);
            let second = negotiation_step(client, first.1);
            let third = negotiation_step(client, second.1);
            let last = negotiation_step(client, third.1);
            &&& first.0 is SendOffer
            &&& second.0 is Receive
            &&& third.0 is CheckAcceptance
            &&& last.0 is Done
            &&& negotiation_step(client, last.1) == last
        }),
        ({
            let server = ApplicationQuicRole::Server;
            let first = negotiation_step(server, NegotiationState::Start);
            let second = negotiation_step(server, first.1);
            let last = negotiation_step(server, second.1);
            &&& first.0 is Receive
            &&& second.0 is Accept
            &&& last.0 is Done
            &&& negotiation_step(server, last.1) == last
        }),
{
}

/// Each side waits for what the other side sends first: the client for an acceptance, the server for an offer.
pub proof fn sides_wait_for_each_other(role: ApplicationQuicRole, message_type: MessageType)
    ensures
        message_type == expected_message(role) <==> ((role is Client && message_type == MessageType::SessionAccept) || (
        role is Server && message_type == MessageType::SessionOffer)),
{
}

/// The datagram size that is offered is what the path allows, between two hundred and fifty-six and sixty-five
/// thousand bytes; from the second protocol on it is no less than thirteen hundred.
pub proof fn offered_sizes_are_bounded(current: usize, protocol: QuicApplicationProtocol)
    ensures
        ({
            let least = if protocol is V1 {
                256int
            } else {
                1_300
            };
            let size = offered_datagram_size(current, protocol);
            &&& least <= size <= 65_000
            &&& least <= current <= 65_000 ==> size == current
            &&& current < least ==> size == least
            &&& current > 65_000 ==> size == 65_000
        }),
{
}

/// A limit in megabits is a thousand times as many kilobits, as far as that can be told; no limit is a gigabit.
pub proof fn limits_are_told_in_kilobits(limit_mbps: u32)
    ensures
        limit_mbps == 0 ==> file_limit_kbps(limit_mbps) == 1_000_000,
        limit_mbps > 0 && limit_mbps <= 4_294_967 ==> file_limit_kbps(limit_mbps) == limit_mbps * 1_000,
        limit_mbps > 4_294_967 ==> file_limit_kbps(limit_mbps) == u32::MAX,
{
}

/// An offer is made if and only if the configuration could be read and the peer takes datagrams. It speaks of one
/// protocol alone. From the second protocol on keyframes may travel reliably, and from the fourth on deltas wait for
/// them; sound, input, files and the clipboard are offered always.
pub proof fn newer_protocols_offer_more(
    offer: Result<SessionOffer, QuicTransportError>,
    file_bandwidth_limit_mbps: Result<u32, String>,
    max_datagram_size: Option<usize>,
    application_protocol: QuicApplicationProtocol,
)
    requires
        is_session_offer(offer, file_bandwidth_limit_mbps, max_datagram_size, application_protocol),
    ensures
        offer is Ok <==> (file_bandwidth_limit_mbps is Ok && max_datagram_size is Some),
        offer matches Ok(offer) ==> {
            let number = application_protocol.spec_number();
            &&& offer.minimum_protocol_version == offer.maximum_protocol_version == number
            &&& offer.capabilities.reliable_keyframes <==> number == 2 || number == 3 || number == 4
            &&& offer.capabilities.reliable_keyframe_barrier <==> number == 4
            &&& offer.capabilities.clipboard_send && offer.capabilities.clipboard_receive
            &&& offer.capabilities.file_transfer && offer.capabilities.input_send && offer.capabilities.input_receive
            &&& offer.audio_codecs@.contains(AudioCodec::Opus)
            &&& offer.video_codecs@.no_duplicates()
            &&& offer.video_codecs@.len() == 6
            &&& offer.video_codecs@[0] is Av1
            &&& offer.max_width == 16_384 && offer.max_height == 16_384 && offer.max_fps == 240
            &&& offer.max_video_bitrate_kbps == 1_000_000
            &&& offer.color_formats.i420 && offer.color_formats.i444 && offer.color_formats.nv12
            &&& offer.color_formats.p010
            &&& offer.latency_mode is LowLatency
            &&& 256 <= offer.max_datagram_payload <= 65_000
        },
{
    if let Ok(offer) = offer {
        assert(offer.audio_codecs@[0] == AudioCodec::Opus);
    }
}

} // verus!
