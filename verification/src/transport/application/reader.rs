//! What the readers of the reliable channels and of the datagrams do with what they read.

use super::classify::{audio_format_message, channels_take_their_own_kind, control_takes_raw_and_ordering_messages,
    datagram_message_fault, epoch_bytes, ordering_epoch_bytes, payload_epoch,
    payload_source, read_ordering_epoch, message_class,
    reliable_message_fault, validate_datagram_application_message,
    validate_reliable_application_message, video_source_info, ApplicationClass,
    ApplicationClassTag};
use super::metrics::{raise, raised, QuicApplicationMetrics};
use super::ordering::VideoOrderingGate;
use super::outbound::{OutboundPayload, ReliableOutbound};
use super::receive_recovery::VideoReceiveRecovery;
use crate::message::{misc_message, misc_part, AudioFormat, Message, MiscUnion};
use crate::outbox::bytes_view;
use crate::text::{decimal, with_number};
use crate::transport::error::{is_protocol_state, QuicTransportError};
use crate::transport::protocol::{MessageType, ReliableChannelKind};
use crate::transport::video::{lemma_keyframe_flag, VideoSourceInfo};
use bytes::Bytes;
use vstd::prelude::*;

verus! {

/// Why a reader gives up.
#[derive(Debug)]
pub enum ReadFailure {
    /// The message was refused.
    Refused(QuicTransportError),
    /// Something else is wrong.
    Detail(String),
}

/// What a reader does with a message it has read.
#[derive(Debug)]
pub enum ReliableReadAction {
    /// Hand the payload to the application.
    Deliver,
    /// Hand the payload behind the epoch to the application, then acknowledge the epoch.
    DeliverOrdered(u64),
    /// Nothing: an epoch was acknowledged.
    Acknowledged,
    /// Let the keyframe open the barrier.
    OpenBarrier(VideoSourceInfo),
    /// Hand the keyframe to the application, then note it.
    DeliverKeyframe(VideoSourceInfo),
    /// Give up.
    Fail(ReadFailure),
}

/// The failure is a refusal with exactly this text.
pub open spec fn is_refusal(failure: ReadFailure, detail: Seq<char>) -> bool {
    failure matches ReadFailure::Refused(error) && is_protocol_state(error, detail)
}

/// An acknowledgement of this epoch makes sense: it was given out.
pub open spec fn is_valid_acknowledgement(gate: VideoOrderingGate, epoch: u64) -> bool {
    epoch != 0 && epoch <= gate.requested()
}

/// A reader does this with a message that it has read. One that does not belong on the channel is an error. A display
/// switch is handed on behind its epoch, an acknowledgement lets frames go, and a keyframe goes to the barrier if
/// there is one. Everything else is handed on.
pub open spec fn is_reliable_action(
    expected_kind: ReliableChannelKind,
    message_type: MessageType,
    payload: Seq<u8>,
    parsed: Result<Message, String>,
    barrier: Option<bool>,
    gate: VideoOrderingGate,
    gate_after: VideoOrderingGate,
    action: ReliableReadAction,
) -> bool {
    &&& gate_after.requested() == gate.requested()
    &&& !(action is Acknowledged) ==> gate_after.acknowledged() == gate.acknowledged()
    &&& match reliable_message_fault(expected_kind, message_type, payload, parsed) {
        Some(detail) => action matches ReliableReadAction::Fail(failure) && is_refusal(failure, detail),
        None => match (expected_kind, message_type) {
            (ReliableChannelKind::Control, MessageType::VideoOrdering) => action
                == ReliableReadAction::DeliverOrdered(payload_epoch(payload)->0),
            (ReliableChannelKind::Control, MessageType::VideoOrderingAck) => {
                let epoch = payload_epoch(payload)->0;
                if is_valid_acknowledgement(gate, epoch) {
                    &&& action is Acknowledged
                    &&& gate_after.opens(epoch)
                    &&& gate_after.acknowledged() == if gate.acknowledged() < epoch {
                        epoch
                    } else {
                        gate.acknowledged()
                    }
                } else {
                    action matches ReliableReadAction::Fail(ReadFailure::Detail(text)) && text@
                        == "invalid QUIC video ordering acknowledgement "@ + decimal(epoch as nat) + ""@
                }
            },
            (ReliableChannelKind::Video, _) => {
                &&& payload_source(parsed) matches Some(info) && info.keyframe && action == if barrier == Some(true) {
                    ReliableReadAction::OpenBarrier(info)
                } else {
                    ReliableReadAction::DeliverKeyframe(info)
                }
            },
            _ => action is Deliver,
        },
    }
}

/// What a reader does with a message that it has read. `parsed` is what the part of the payload that
/// holds the application message was read as. `barrier` says whether the keyframe barrier is used;
/// a reader of another channel has no barrier to speak of.
pub fn next_reliable_action(
    expected_kind: ReliableChannelKind,
    message_type: MessageType,
    payload: &[u8],
    parsed: &Result<Message, String>,
    barrier: Option<bool>,
    video_ordering: &mut VideoOrderingGate,
) -> (action: ReliableReadAction)
    ensures
        old(video_ordering).wf() ==> final(video_ordering).wf(),
        is_reliable_action(
            expected_kind,
            message_type,
            payload@,
            *parsed,
            barrier,
            *old(video_ordering),
            *final(video_ordering),
            action,
        ),
{
    if let Err(error) = validate_reliable_application_message(expected_kind, message_type, payload, parsed) {
        return ReliableReadAction::Fail(ReadFailure::Refused(error));
    }
    if expected_kind == ReliableChannelKind::Control {
        match message_type {
            MessageType::ApplicationRaw => {
                return ReliableReadAction::Deliver;
            },
            MessageType::VideoOrdering => {
                let epoch: u64 = match read_ordering_epoch(payload) {
                    Ok(epoch) => epoch,
                    Err(_) => 0,
                };
                return ReliableReadAction::DeliverOrdered(epoch);
            },
            MessageType::VideoOrderingAck => {
                let epoch: u64 = match read_ordering_epoch(payload) {
                    Ok(epoch) => epoch,
                    Err(_) => 0,
                };
                if epoch == 0 || epoch > video_ordering.current_epoch() {
                    return ReliableReadAction::Fail(
                        ReadFailure::Detail(with_number("invalid QUIC video ordering acknowledgement ", epoch, "")),
                    );
                }
                video_ordering.acknowledge(epoch);
                return ReliableReadAction::Acknowledged;
            },
            _ => {},
        }
    }
    if expected_kind == ReliableChannelKind::Video {
        proof {
            lemma_keyframe_flag();
        }
        return match video_source_info(parsed) {
            Ok(info) => {
                if !info.keyframe {
                    ReliableReadAction::Fail(
                        ReadFailure::Detail("reliable video channel received a delta frame".to_owned()),
                    )
                } else if matches!(barrier, Some(true)) {
                    ReliableReadAction::OpenBarrier(info)
                } else {
                    ReliableReadAction::DeliverKeyframe(info)
                }
            },
            Err(error) => ReliableReadAction::Fail(ReadFailure::Refused(error)),
        };
    }
    ReliableReadAction::Deliver
}

/// What goes back to the peer once an ordered payload was handed to the application. Without a way
/// back the reader gives up.
pub fn ordering_acknowledgement(epoch: u64, has_control: bool) -> (acknowledgement: Result<
    ReliableOutbound,
    ReadFailure,
>)
    ensures
        match acknowledgement {
            Ok(item) => {
                &&& has_control
                &&& item.message_type is VideoOrderingAck
                &&& item.completion is None
                &&& item.payload matches OutboundPayload::Encoded(bytes) && bytes_view(bytes) == epoch_bytes(epoch)
            },
            Err(failure) => !has_control && (failure matches ReadFailure::Detail(text) && text@
                == "QUIC video ordering acknowledgement channel is unavailable"@),
        },
{
    if !has_control {
        return Err(
            ReadFailure::Detail("QUIC video ordering acknowledgement channel is unavailable".to_owned()),
        );
    }
    let bytes: Vec<u8> = ordering_epoch_bytes(epoch);
    Ok(
        ReliableOutbound {
            message_type: MessageType::VideoOrderingAck,
            payload: OutboundPayload::Encoded(Bytes::copy_from_slice(bytes.as_slice())),
            completion: None,
        },
    )
}

/// The bytes that acknowledge a display switch are read by the peer as the epoch that it gave out.
pub proof fn acknowledgement_carries_the_epoch(epoch: u64)
    requires
        epoch != 0,
    ensures
        payload_epoch(epoch_bytes(epoch)) == Some(epoch),
{
    super::classify::ordered_payload_survives(epoch, Seq::empty());
    assert(epoch_bytes(epoch) + Seq::<u8>::empty() =~= epoch_bytes(epoch));
}

/// Notes a keyframe that was handed to the application without the barrier.
pub fn note_reliable_keyframe(
    info: VideoSourceInfo,
    metrics: &mut QuicApplicationMetrics,
    recovery: &mut VideoReceiveRecovery,
)
    requires
        old(recovery).wf(),
    ensures
        final(recovery).wf(),
        final(recovery)@ == old(recovery)@.observe(info, false).0,
        *final(metrics) == (QuicApplicationMetrics {
            reliable_keyframes_received: raised(old(metrics).reliable_keyframes_received, 1),
            ..*old(metrics)
        }),
{
    raise(&mut metrics.reliable_keyframes_received, 1);
    let _decision = recovery.observe(info, false);
}

/// Whether anything is to be done after frames were dropped because they took too long.
pub fn expiry_needs_handling(keyframe_barrier: bool, dropped_frames: u32, request_keyframe: bool) -> (needed: bool)
    ensures
        needed == (keyframe_barrier || dropped_frames > 0 || request_keyframe),
{
    keyframe_barrier || dropped_frames > 0 || request_keyframe
}

/// The format of the audio packets that were handed to the application.
pub struct AudioFormatTracker {
    received: Option<(u32, u8)>,
}

impl AudioFormatTracker {
    /// The format that the application was told last: the sample rate and the channels.
    pub closed spec fn told(&self) -> Option<(u32, u8)> {
        self.received
    }

    /// The application was told nothing yet.
    pub fn new() -> (tracker: Self)
        ensures
            tracker.told() is None,
    {
        AudioFormatTracker { received: None }
    }

    /// The message that tells the application of a format, if it is not the one it was told last.
    pub fn announcement(&self, sample_rate_hz: u32, channels: u8) -> (message: Option<Message>)
        ensures
            match message {
                Some(message) => {
                    &&& self.told() != Some((sample_rate_hz, channels))
                    &&& message == misc_message(
                        MiscUnion::AudioFormat(AudioFormat { sample_rate: sample_rate_hz, channels: channels as u32 }),
                    )
                },
                None => self.told() == Some((sample_rate_hz, channels)),
            },
    {
        if let Some(told) = self.received {
            if told.0 == sample_rate_hz && told.1 == channels {
                return None;
            }
        }
        Some(audio_format_message(sample_rate_hz, channels))
    }

    /// The application was told of a format.
    pub fn announced(&mut self, sample_rate_hz: u32, channels: u8)
        ensures
            final(self).told() == Some((sample_rate_hz, channels)),
    {
        self.received = Some((sample_rate_hz, channels));
    }
}

/// Whether the payload of an audio packet is handed to the application.
pub fn audio_payload_is_delivered(parsed: &Result<Message, String>) -> (delivered: bool)
    ensures
        delivered == (datagram_message_fault(ApplicationClassTag::Audio, *parsed) is None),
{
    validate_datagram_application_message(ApplicationClassTag::Audio, parsed).is_ok()
}

/// Whether the payload of a mouse movement is handed to the application.
pub fn mouse_payload_is_delivered(parsed: &Result<Message, String>) -> (delivered: bool)
    ensures
        delivered == (datagram_message_fault(ApplicationClassTag::Mouse, *parsed) is None),
{
    validate_datagram_application_message(ApplicationClassTag::Mouse, parsed).is_ok()
}

/// An acknowledgement of a display switch that was sent lets the frames behind it go, and those behind every earlier
/// one; an acknowledgement never holds a frame up again. One of a switch that was never sent is an error and lets
/// nothing go.
pub proof fn acknowledged_switches_let_frames_go(
    epoch: u64,
    other: u64,
    parsed: Result<Message, String>,
    barrier: Option<bool>,
    gate: VideoOrderingGate,
    gate_after: VideoOrderingGate,
    action: ReliableReadAction,
)
    requires
        epoch != 0,
        is_reliable_action(
            ReliableChannelKind::Control,
            MessageType::VideoOrderingAck,
            epoch_bytes(epoch),
            parsed,
            barrier,
            gate,
            gate_after,
            action,
        ),
    ensures
        epoch <= gate.requested() <==> action is Acknowledged,
        epoch > gate.requested() <==> action is Fail,
        epoch <= gate.requested() ==> (gate_after.opens(other) <==> (other <= epoch || gate.opens(other))),
        epoch > gate.requested() ==> (gate_after.opens(other) <==> gate.opens(other)),
{
    acknowledgement_carries_the_epoch(epoch);
}

/// A display switch that comes under a number is handed to the application, to be acknowledged under that number. It
/// does not touch what this side waits for.
pub proof fn display_switches_are_handed_on(
    epoch: u64,
    message: Seq<u8>,
    parsed: Result<Message, String>,
    barrier: Option<bool>,
    gate: VideoOrderingGate,
    gate_after: VideoOrderingGate,
    action: ReliableReadAction,
)
    requires
        epoch != 0,
        is_reliable_action(
            ReliableChannelKind::Control,
            MessageType::VideoOrdering,
            epoch_bytes(epoch) + message,
            parsed,
            barrier,
            gate,
            gate_after,
            action,
        ),
    ensures
        action is Fail || action == ReliableReadAction::DeliverOrdered(epoch),
        action is Fail <==> !(parsed matches Ok(switch) && misc_part(switch) == Some(MiscUnion::SwitchDisplay)),
        gate_after.acknowledged() == gate.acknowledged(),
        gate_after.requested() == gate.requested(),
{
    super::classify::ordered_payload_survives(epoch, message);
    control_takes_raw_and_ordering_messages(epoch_bytes(epoch) + message, parsed);
}

/// The channel of keyframes hands on keyframes and nothing else: to the barrier where there is one, and to the
/// application otherwise. A delta on it is an error.
pub proof fn keyframes_alone_come_by_their_channel(
    payload: Seq<u8>,
    parsed: Result<Message, String>,
    barrier: Option<bool>,
    gate: VideoOrderingGate,
    gate_after: VideoOrderingGate,
    action: ReliableReadAction,
)
    requires
        is_reliable_action(
            ReliableChannelKind::Video,
            MessageType::ReliableVideoFrame,
            payload,
            parsed,
            barrier,
            gate,
            gate_after,
            action,
        ),
    ensures
        match payload_source(parsed) {
            Some(info) => if info.keyframe {
                &&& barrier == Some(true) ==> action == ReliableReadAction::OpenBarrier(info)
                &&& barrier != Some(true) ==> action == ReliableReadAction::DeliverKeyframe(info)
            } else {
                action is Fail
            },
            None => action is Fail,
        },
{
    channels_take_their_own_kind(ReliableChannelKind::Video, MessageType::ReliableVideoFrame, payload, parsed);
    super::classify::frames_tell_where_they_come_from(parsed);
}

/// A message that comes by the channel of its kind, and a raw payload among the control messages, is handed to the
/// application as it is; one that comes by another channel is an error.
pub proof fn messages_come_by_the_channel_of_their_kind(
    expected_kind: ReliableChannelKind,
    message_type: MessageType,
    payload: Seq<u8>,
    parsed: Result<Message, String>,
    barrier: Option<bool>,
    gate: VideoOrderingGate,
    gate_after: VideoOrderingGate,
    action: ReliableReadAction,
)
    requires
        is_reliable_action(
            expected_kind,
            message_type,
            payload,
            parsed,
            barrier,
            gate,
            gate_after,
            action,
        ),
        !(expected_kind is Video),
        expected_kind is Control ==> !(message_type is VideoOrdering || message_type is VideoOrderingAck),
    ensures
        action is Deliver || action is Fail,
        action is Deliver <==> {
            ||| expected_kind is Control && message_type is ApplicationRaw
            ||| (parsed matches Ok(message) && (message_class(message) matches Some(class) && match expected_kind {
                ReliableChannelKind::Control => message_type is ApplicationControl,
                ReliableChannelKind::Input => message_type is ReliableInput && class == ApplicationClass::Input,
                ReliableChannelKind::Clipboard => message_type is Clipboard && class == ApplicationClass::Clipboard,
                ReliableChannelKind::FileTransfer => message_type is FileChunk && class == ApplicationClass::File,
                ReliableChannelKind::Diagnostics => message_type is Diagnostics && class
                    == ApplicationClass::Diagnostics,
                ReliableChannelKind::Video => false,
            }))
        },
        gate_after.acknowledged() == gate.acknowledged(),
{
    control_takes_raw_and_ordering_messages(payload, parsed);
    if !(expected_kind is Control && message_type is ApplicationRaw) {
        channels_take_their_own_kind(expected_kind, message_type, payload, parsed);
    }
}

} // verus!
