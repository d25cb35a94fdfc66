//! What a message is, and how it travels.

use crate::message::{misc_message, misc_part, AudioFormat, EncodedVideoFrames, Message, MessageUnion, Misc, MiscUnion,
    MouseEvent, VideoFrame, VideoFrameUnion, VideoReferenceRefresh};
use crate::numbers::at_most_u64;
use crate::text::joined;
use crate::transport::error::{is_protocol_state, QuicTransportError};
use crate::transport::protocol::{MessageType, MouseMovementMode, ReliableChannelKind};
use crate::transport::video::{lemma_keyframe_flag, VideoCodec, VideoFrameMetadata, VideoSourceInfo, VideoStreamKey,
    FLAG_KEYFRAME};
use vstd::prelude::*;

verus! {

/// The way a message travels.
#[derive(Clone, Copy, Debug, PartialEq, Eq, Structural)]
pub enum ApplicationClass {
    Control,
    Input,
    Clipboard,
    File,
    Diagnostics,
    Video(VideoFrameMetadata),
    Audio,
    Mouse { mode: MouseMovementMode, x: i32, y: i32, button_state_mask: u16 },
}

/// The ways that lead through datagrams and carry no video.
#[derive(Clone, Copy, Debug, PartialEq, Eq, Structural)]
pub enum ApplicationClassTag {
    Audio,
    Mouse,
}

/// Some picture of the frame can be decoded without any other.
pub open spec fn holds_keyframe(frames: EncodedVideoFrames) -> bool {
    exists|i: int| 0 <= i < frames.frames@.len() && (#[trigger] frames.frames@[i]).key
}

/// The codec of what a frame carries, and whether it is a keyframe. Raw pictures always are.
pub open spec fn frame_codec(union: VideoFrameUnion) -> (VideoCodec, bool) {
    match union {
        VideoFrameUnion::Vp9s(frames) => (VideoCodec::Vp9, holds_keyframe(frames)),
        VideoFrameUnion::H264s(frames) => (VideoCodec::H264, holds_keyframe(frames)),
        VideoFrameUnion::H265s(frames) => (VideoCodec::H265, holds_keyframe(frames)),
        VideoFrameUnion::Vp8s(frames) => (VideoCodec::Vp8, holds_keyframe(frames)),
        VideoFrameUnion::Av1s(frames) => (VideoCodec::Av1, holds_keyframe(frames)),
        VideoFrameUnion::Rgb => (VideoCodec::Raw, true),
        VideoFrameUnion::Yuv => (VideoCodec::Raw, true),
    }
}

/// Milliseconds as microseconds, at most the largest number there is.
pub open spec fn millis_to_micros(millis: u64) -> u64 {
    at_most_u64(millis as nat * 1_000) as u64
}

/// What the transport knows of a frame with this content.
pub open spec fn frame_metadata(frame: VideoFrame, union: VideoFrameUnion) -> VideoFrameMetadata {
    VideoFrameMetadata {
        frame_id: frame.frame_id,
        codec: frame_codec(union).0,
        flags: if frame_codec(union).1 {
            FLAG_KEYFRAME
        } else {
            0
        },
        presentation_timestamp_us: millis_to_micros(frame.capture_time_ms),
    }
}

/// Whether some picture of the frame can be decoded without any other.
fn has_keyframe(frames: &EncodedVideoFrames) -> (found: bool)
    ensures
        found == holds_keyframe(*frames),
{
    let mut index: usize = 0;
    while index < frames.frames.len()
        invariant
            index <= frames.frames@.len(),
            forall|i: int| 0 <= i < index ==> !(#[trigger] frames.frames@[i]).key,
        decreases frames.frames@.len() - index,
    {
        if frames.frames[index].key {
            assert(frames.frames@[index as int].key);
            return true;
        }
        index += 1;
    }
    false
}

/// What the transport knows of a frame. A frame without content is refused.
pub fn video_metadata(frame: &VideoFrame) -> (metadata: Result<VideoFrameMetadata, QuicTransportError>)
    ensures
        match (frame.union, metadata) {
            (Some(union), Ok(metadata)) => metadata == frame_metadata(*frame, union),
            (None, Err(error)) => is_protocol_state(error, "video protobuf has no codec payload"@),
            _ => false,
        },
{
    let (codec, keyframe) = match &frame.union {
        Some(VideoFrameUnion::Vp9s(frames)) => (VideoCodec::Vp9, has_keyframe(frames)),
        Some(VideoFrameUnion::H264s(frames)) => (VideoCodec::H264, has_keyframe(frames)),
        Some(VideoFrameUnion::H265s(frames)) => (VideoCodec::H265, has_keyframe(frames)),
        Some(VideoFrameUnion::Vp8s(frames)) => (VideoCodec::Vp8, has_keyframe(frames)),
        Some(VideoFrameUnion::Av1s(frames)) => (VideoCodec::Av1, has_keyframe(frames)),
        Some(VideoFrameUnion::Rgb) | Some(VideoFrameUnion::Yuv) => (VideoCodec::Raw, true),
        None => {
            return Err(QuicTransportError::ProtocolState("video protobuf has no codec payload".to_owned()));
        },
    };
    let presentation_timestamp_us: u64 = match frame.capture_time_ms.checked_mul(1_000) {
        Some(micros) => micros,
        None => u64::MAX,
    };
    Ok(
        VideoFrameMetadata {
            frame_id: frame.frame_id,
            codec,
            flags: if keyframe {
                FLAG_KEYFRAME
            } else {
                0
            },
            presentation_timestamp_us,
        },
    )
}

/// The buttons that are down during a mouse event.
pub open spec fn buttons_down(event: MouseEvent) -> u16 {
    ((event.mask >> 3) as u16) & 0x1f
}

/// A plain movement travels as a datagram, every other mouse event as input.
pub open spec fn mouse_class(event: MouseEvent) -> ApplicationClass {
    let what = event.mask & 0x7;
    if what == 0 || what == 5 {
        ApplicationClass::Mouse {
            mode: if what == 0 {
                MouseMovementMode::Absolute
            } else {
                MouseMovementMode::Relative
            },
            x: event.x,
            y: event.y,
            button_state_mask: buttons_down(event),
        }
    } else {
        ApplicationClass::Input
    }
}

/// The way a message travels; none for a video frame without content.
pub open spec fn message_class(message: Message) -> Option<ApplicationClass> {
    match message.union {
        Some(MessageUnion::VideoFrame(frame)) => match frame.union {
            Some(union) => Some(ApplicationClass::Video(frame_metadata(frame, union))),
            None => None,
        },
        Some(MessageUnion::AudioFrame) => Some(ApplicationClass::Audio),
        Some(MessageUnion::MouseEvent(event)) => Some(mouse_class(event)),
        Some(MessageUnion::KeyEvent)
        | Some(MessageUnion::KeyboardInput(_))
        | Some(MessageUnion::PointerDeviceEvent) => Some(ApplicationClass::Input),
        Some(MessageUnion::Clipboard)
        | Some(MessageUnion::MultiClipboards)
        | Some(MessageUnion::Cliprdr) => Some(ApplicationClass::Clipboard),
        Some(MessageUnion::FileAction) | Some(MessageUnion::FileResponse) => Some(ApplicationClass::File),
        Some(MessageUnion::TestDelay) => Some(ApplicationClass::Diagnostics),
        Some(MessageUnion::Misc(misc)) => Some(if misc.union == Some(MiscUnion::VideoFeedback) {
            ApplicationClass::Diagnostics
        } else {
            ApplicationClass::Control
        }),
        _ => Some(ApplicationClass::Control),
    }
}

/// The way a message travels. A video frame without content is refused.
pub fn classify_message(message: &Message) -> (class: Result<ApplicationClass, QuicTransportError>)
    ensures
        match (message_class(*message), class) {
            (Some(expected), Ok(class)) => class == expected,
            (None, Err(error)) => is_protocol_state(error, "video protobuf has no codec payload"@),
            _ => false,
        },
{
    match &message.union {
        Some(MessageUnion::VideoFrame(frame)) => match video_metadata(frame) {
            Ok(metadata) => Ok(ApplicationClass::Video(metadata)),
            Err(error) => Err(error),
        },
        Some(MessageUnion::AudioFrame) => Ok(ApplicationClass::Audio),
        Some(MessageUnion::MouseEvent(event)) => {
            let what: i32 = event.mask & 0x7;
            let button_state_mask: u16 = ((event.mask >> 3) as u16) & 0x1f;
            if what == 0 {
                Ok(
                    ApplicationClass::Mouse {
                        mode: MouseMovementMode::Absolute,
                        x: event.x,
                        y: event.y,
                        button_state_mask,
                    },
                )
            } else if what == 5 {
                Ok(
                    ApplicationClass::Mouse {
                        mode: MouseMovementMode::Relative,
                        x: event.x,
                        y: event.y,
                        button_state_mask,
                    },
                )
            } else {
                Ok(ApplicationClass::Input)
            }
        },
        Some(MessageUnion::KeyEvent)
        | Some(MessageUnion::KeyboardInput(_))
        | Some(MessageUnion::PointerDeviceEvent) => Ok(ApplicationClass::Input),
        Some(MessageUnion::Clipboard)
        | Some(MessageUnion::MultiClipboards)
        | Some(MessageUnion::Cliprdr) => Ok(ApplicationClass::Clipboard),
        Some(MessageUnion::FileAction) | Some(MessageUnion::FileResponse) => Ok(ApplicationClass::File),
        Some(MessageUnion::TestDelay) => Ok(ApplicationClass::Diagnostics),
        Some(MessageUnion::Misc(misc)) => match misc.union {
            Some(MiscUnion::VideoFeedback) => Ok(ApplicationClass::Diagnostics),
            _ => Ok(ApplicationClass::Control),
        },
        _ => Ok(ApplicationClass::Control),
    }
}

/// The message switches the display that is shown.
pub open spec fn switches_display(message: Message) -> bool {
    misc_part(message) == Some(MiscUnion::SwitchDisplay)
}

/// Whether the frames that follow the message may not overtake it.
pub fn is_video_ordering_message(message: &Message) -> (ordering: bool)
    ensures
        ordering == switches_display(*message),
{
    match &message.union {
        Some(MessageUnion::Misc(misc)) => matches!(misc.union, Some(MiscUnion::SwitchDisplay)),
        _ => false,
    }
}

/// Where a frame with this content comes from.
pub open spec fn frame_source(frame: VideoFrame, union: VideoFrameUnion) -> VideoSourceInfo {
    VideoSourceInfo {
        key: VideoStreamKey { display: frame.display, stream_id: frame.stream_id },
        frame_id: frame.frame_id,
        keyframe: frame_codec(union).1,
        codec: frame_codec(union).0,
    }
}

/// Where the video frame comes from that a payload was read as; none if the payload could not be
/// read, or is no video frame with content.
pub open spec fn payload_source(parsed: Result<Message, String>) -> Option<VideoSourceInfo> {
    match parsed {
        Ok(message) => match message.union {
            Some(MessageUnion::VideoFrame(frame)) => match frame.union {
                Some(union) => Some(frame_source(frame, union)),
                None => None,
            },
            _ => None,
        },
        Err(_) => None,
    }
}

/// Why a payload that was read like this tells no video source.
pub open spec fn payload_source_fault(parsed: Result<Message, String>) -> Seq<char> {
    match parsed {
        Ok(message) => if message.union matches Some(MessageUnion::VideoFrame(_)) {
            "video protobuf has no codec payload"@
        } else {
            "QUIC video payload does not contain a video frame"@
        },
        Err(detail) => detail@,
    }
}

/// Where the video frame comes from that a payload was read as.
pub fn video_source_info(parsed: &Result<Message, String>) -> (info: Result<VideoSourceInfo, QuicTransportError>)
    ensures
        match (payload_source(*parsed), info) {
            (Some(expected), Ok(info)) => info == expected,
            (None, Err(error)) => is_protocol_state(error, payload_source_fault(*parsed)),
            _ => false,
        },
{
    let message = match parsed {
        Ok(message) => message,
        Err(detail) => {
            return Err(QuicTransportError::ProtocolState(detail.as_str().to_owned()));
        },
    };
    match &message.union {
        Some(MessageUnion::VideoFrame(frame)) => {
            proof {
                lemma_keyframe_flag();
            }
            match video_metadata(frame) {
                Ok(metadata) => Ok(
                    VideoSourceInfo {
                        key: VideoStreamKey { display: frame.display, stream_id: frame.stream_id },
                        frame_id: frame.frame_id,
                        keyframe: metadata.is_keyframe(),
                        codec: metadata.codec,
                    },
                ),
                Err(error) => Err(error),
            }
        },
        _ => Err(
            QuicTransportError::ProtocolState("QUIC video payload does not contain a video frame".to_owned()),
        ),
    }
}

/// The audio format that the message announces.
pub fn audio_format(message: &Message) -> (format: Option<&AudioFormat>)
    ensures
        match format {
            Some(format) => misc_part(*message) == Some(MiscUnion::AudioFormat(*format)),
            None => !(misc_part(*message) matches Some(MiscUnion::AudioFormat(_))),
        },
{
    match &message.union {
        Some(MessageUnion::Misc(misc)) => match &misc.union {
            Some(MiscUnion::AudioFormat(format)) => Some(format),
            _ => None,
        },
        _ => None,
    }
}

/// The format can be sent along with an audio datagram.
pub open spec fn is_usable_format(format: AudioFormat) -> bool {
    1 <= format.channels <= 8 && format.sample_rate >= 8_000
}

/// A usable format as one number, with the channels above the sample rate; zero otherwise.
pub open spec fn packed_format(format: AudioFormat) -> u64 {
    if is_usable_format(format) {
        (format.channels * 0x1_0000_0000 + format.sample_rate) as u64
    } else {
        0
    }
}

/// Packs a format into one number.
pub fn pack_audio_format(format: &AudioFormat) -> (packed: u64)
    ensures
        packed == packed_format(*format),
{
    if format.channels == 0 || format.channels > 8 || format.sample_rate < 8_000 {
        return 0;
    }
    let channels: u32 = format.channels;
    let sample_rate: u32 = format.sample_rate;
    assert(((channels as u64) << 32) | (sample_rate as u64) == channels * 0x1_0000_0000 + sample_rate) by (bit_vector);
    ((channels as u64) << 32) | (sample_rate as u64)
}

/// The sample rate and the channels that a number stands for; none for zero.
pub open spec fn unpacked_format(value: u64) -> Option<(u32, u8)> {
    if value == 0 {
        None
    } else {
        Some(((value % 0x1_0000_0000) as u32, ((value / 0x1_0000_0000) % 0x100) as u8))
    }
}

/// Unpacks a format from one number.
pub fn unpack_audio_format(value: u64) -> (format: Option<(u32, u8)>)
    ensures
        format == unpacked_format(value),
{
    if value == 0 {
        return None;
    }
    assert(value as u32 == value % 0x1_0000_0000) by (bit_vector);
    assert((value >> 32) as u8 == (value / 0x1_0000_0000) % 0x100) by (bit_vector);
    Some((value as u32, (value >> 32) as u8))
}

/// Unpacking gives back what was packed.
pub proof fn audio_format_survives_packing(format: AudioFormat)
    requires
        is_usable_format(format),
    ensures
        unpacked_format(packed_format(format)) == Some((format.sample_rate, format.channels as u8)),
{
    let channels = format.channels as int;
    let rate = format.sample_rate as int;
    assert((channels * 0x1_0000_0000 + rate) / 0x1_0000_0000 == channels);
    assert((channels * 0x1_0000_0000 + rate) % 0x1_0000_0000 == rate);
}

/// The message that announces an audio format.
pub fn audio_format_message(sample_rate: u32, channels: u8) -> (message: Message)
    ensures
        message == misc_message(MiscUnion::AudioFormat(AudioFormat { sample_rate, channels: channels as u32 })),
{
    let format = AudioFormat { sample_rate, channels: channels as u32 };
    Message { union: Some(MessageUnion::Misc(Misc { union: Some(MiscUnion::AudioFormat(format)) })) }
}

/// The message that asks for a fresh keyframe of everything.
pub fn refresh_video_message() -> (message: Message)
    ensures
        message == misc_message(MiscUnion::RefreshVideo(true)),
{
    Message { union: Some(MessageUnion::Misc(Misc { union: Some(MiscUnion::RefreshVideo(true)) })) }
}

/// The request for a fresh keyframe of the stream a frame comes from; none for a frame that does
/// not tell its stream.
pub open spec fn reference_refresh(info: VideoSourceInfo, dropped_frames: u64, strict_recovery: bool) -> Option<
    VideoReferenceRefresh,
> {
    if info.key.display < 0 || info.key.stream_id == 0 || info.frame_id == 0 {
        None
    } else {
        Some(
            VideoReferenceRefresh {
                display: info.key.display,
                stream_id: info.key.stream_id,
                received_frame_id: info.frame_id,
                dropped_frames,
                strict_recovery,
            },
        )
    }
}

/// The request for a fresh keyframe of the stream a frame comes from.
pub fn video_reference_refresh(info: VideoSourceInfo, dropped_frames: u64, strict_recovery: bool) -> (refresh: Option<
    VideoReferenceRefresh,
>)
    ensures
        refresh == reference_refresh(info, dropped_frames, strict_recovery),
{
    if info.key.display < 0 || info.key.stream_id == 0 || info.frame_id == 0 {
        return None;
    }
    Some(
        VideoReferenceRefresh {
            display: info.key.display,
            stream_id: info.key.stream_id,
            received_frame_id: info.frame_id,
            dropped_frames,
            strict_recovery,
        },
    )
}

/// The message that asks for a fresh keyframe of one stream.
pub fn video_reference_refresh_message(refresh: VideoReferenceRefresh) -> (message: Message)
    ensures
        message == misc_message(MiscUnion::VideoReferenceRefresh(refresh)),
{
    Message { union: Some(MessageUnion::Misc(Misc { union: Some(MiscUnion::VideoReferenceRefresh(refresh)) })) }
}

/// The number that eight bytes stand for, the highest byte first.
pub open spec fn big_endian(bytes: Seq<u8>) -> nat
    decreases bytes.len(),
{
    if bytes.len() == 0 {
        0
    } else {
        big_endian(bytes.drop_last()) * 256 + bytes.last() as nat
    }
}

/// The eight bytes of a number, the highest first.
pub open spec fn epoch_bytes(epoch: u64) -> Seq<u8> {
    seq![
        (epoch / 0x100_0000_0000_0000) as u8,
        (epoch / 0x1_0000_0000_0000 % 0x100) as u8,
        (epoch / 0x100_0000_0000 % 0x100) as u8,
        (epoch / 0x1_0000_0000 % 0x100) as u8,
        (epoch / 0x100_0000 % 0x100) as u8,
        (epoch / 0x1_0000 % 0x100) as u8,
        (epoch / 0x100 % 0x100) as u8,
        (epoch % 0x100) as u8,
    ]
}

/// The ordering epoch at the head of a payload; none if it is cut short or zero.
pub open spec fn payload_epoch(payload: Seq<u8>) -> Option<u64> {
    if payload.len() < 8 || big_endian(payload.take(8)) == 0 {
        None
    } else {
        Some(big_endian(payload.take(8)) as u64)
    }
}

/// Why a payload has no ordering epoch at its head.
pub open spec fn payload_epoch_fault(payload: Seq<u8>) -> Seq<char> {
    if payload.len() < 8 {
        "QUIC video ordering epoch is truncated"@
    } else {
        "QUIC video ordering epoch must not be zero"@
    }
}

/// Eight bytes stand for a number that fits.
pub proof fn lemma_big_endian_bound(bytes: Seq<u8>)
    requires
        bytes.len() == 8,
    ensures
        big_endian(bytes) <= u64::MAX,
        big_endian(bytes) == bytes[0] * 0x100_0000_0000_0000 + bytes[1] * 0x1_0000_0000_0000 + bytes[2]
            * 0x100_0000_0000 + bytes[3] * 0x1_0000_0000 + bytes[4] * 0x100_0000 + bytes[5] * 0x1_0000 + bytes[6] * 0x100
            + bytes[7],
{
    reveal_with_fuel(big_endian, 9);
    assert(bytes.drop_last().drop_last().drop_last().drop_last().drop_last().drop_last().drop_last().drop_last()
        =~= Seq::<u8>::empty());
}

/// The bytes of an epoch stand for the epoch.
pub proof fn epoch_survives_its_bytes(epoch: u64)
    ensures
        big_endian(epoch_bytes(epoch)) == epoch,
        epoch_bytes(epoch).len() == 8,
{
    assert(epoch / 0x100_0000_0000_0000 < 0x100) by (bit_vector);
    assert((epoch / 0x100_0000_0000_0000) * 0x100_0000_0000_0000 + (epoch / 0x1_0000_0000_0000 % 0x100)
        * 0x1_0000_0000_0000 + (epoch / 0x100_0000_0000 % 0x100) * 0x100_0000_0000 + (epoch / 0x1_0000_0000 % 0x100)
        * 0x1_0000_0000 + (epoch / 0x100_0000 % 0x100) * 0x100_0000 + (epoch / 0x1_0000 % 0x100) * 0x1_0000 + (epoch
        / 0x100 % 0x100) * 0x100 + epoch % 0x100 == epoch) by (bit_vector);
    lemma_big_endian_bound(epoch_bytes(epoch));
}

/// The ordering epoch at the head of a payload.
pub fn read_ordering_epoch(payload: &[u8]) -> (epoch: Result<u64, QuicTransportError>)
    ensures
        match (payload_epoch(payload@), epoch) {
            (Some(expected), Ok(epoch)) => epoch == expected && epoch != 0,
            (None, Err(error)) => is_protocol_state(error, payload_epoch_fault(payload@)),
            _ => false,
        },
{
    if payload.len() < 8 {
        return Err(QuicTransportError::ProtocolState("QUIC video ordering epoch is truncated".to_owned()));
    }
    proof {
        lemma_big_endian_bound(payload@.take(8));
    }
    let epoch: u64 = payload[0] as u64 * 0x100_0000_0000_0000 + payload[1] as u64 * 0x1_0000_0000_0000 + payload[2] as u64
        * 0x100_0000_0000 + payload[3] as u64 * 0x1_0000_0000 + payload[4] as u64 * 0x100_0000 + payload[5] as u64
        * 0x1_0000 + payload[6] as u64 * 0x100 + payload[7] as u64;
    if epoch == 0 {
        return Err(QuicTransportError::ProtocolState("QUIC video ordering epoch must not be zero".to_owned()));
    }
    Ok(epoch)
}

/// The bytes of an epoch.
pub fn ordering_epoch_bytes(epoch: u64) -> (bytes: Vec<u8>)
    ensures
        bytes@ == epoch_bytes(epoch),
{
    let mut bytes: Vec<u8> = Vec::new();
    bytes.push((epoch / 0x100_0000_0000_0000) as u8);
    bytes.push((epoch / 0x1_0000_0000_0000 % 0x100) as u8);
    bytes.push((epoch / 0x100_0000_0000 % 0x100) as u8);
    bytes.push((epoch / 0x1_0000_0000 % 0x100) as u8);
    bytes.push((epoch / 0x100_0000 % 0x100) as u8);
    bytes.push((epoch / 0x1_0000 % 0x100) as u8);
    bytes.push((epoch / 0x100 % 0x100) as u8);
    bytes.push((epoch % 0x100) as u8);
    bytes
}

/// A payload with an ordering epoch in front.
pub fn ordered_payload(epoch: u64, payload: &[u8]) -> (ordered: Vec<u8>)
    ensures
        ordered@ == epoch_bytes(epoch) + payload@,
{
    let mut ordered: Vec<u8> = ordering_epoch_bytes(epoch);
    ordered.extend_from_slice(payload);
    ordered
}

/// What is read from an ordered payload is what was written: the epoch, and behind it the payload.
pub proof fn ordered_payload_survives(epoch: u64, payload: Seq<u8>)
    requires
        epoch != 0,
    ensures
        payload_epoch(epoch_bytes(epoch) + payload) == Some(epoch),
        (epoch_bytes(epoch) + payload).skip(8) == payload,
{
    let ordered = epoch_bytes(epoch) + payload;
    epoch_survives_its_bytes(epoch);
    assert(ordered.take(8) =~= epoch_bytes(epoch));
    assert(ordered.skip(8) =~= payload);
}

/// Where the application message begins in the payload of a reliable message. A raw payload and an
/// acknowledgement hold none.
pub open spec fn message_start(expected: ReliableChannelKind, message_type: MessageType) -> Option<nat> {
    if expected is Control {
        match message_type {
            MessageType::ApplicationRaw => None,
            MessageType::VideoOrderingAck => None,
            MessageType::VideoOrdering => Some(8),
            _ => Some(0),
        }
    } else {
        Some(0)
    }
}

/// The class is one that the channel carries under this message type.
pub open spec fn channel_carries(
    expected: ReliableChannelKind,
    message_type: MessageType,
    class: ApplicationClass,
) -> bool {
    match expected {
        ReliableChannelKind::Control => message_type is ApplicationControl,
        ReliableChannelKind::Input => message_type is ReliableInput && class is Input,
        ReliableChannelKind::Clipboard => message_type is Clipboard && class is Clipboard,
        ReliableChannelKind::FileTransfer => message_type is FileChunk && class is File,
        ReliableChannelKind::Diagnostics => message_type is Diagnostics && class is Diagnostics,
        ReliableChannelKind::Video => message_type is ReliableVideoFrame && (match class {
            ApplicationClass::Video(metadata) => metadata.spec_is_keyframe(),
            _ => false,
        }),
    }
}

/// Why a reliable message is refused; none if it is not. `parsed` is what the part of the payload
/// that holds the application message was read as.
pub open spec fn reliable_message_fault(
    expected: ReliableChannelKind,
    message_type: MessageType,
    payload: Seq<u8>,
    parsed: Result<Message, String>,
) -> Option<Seq<char>> {
    if expected is Control && message_type is ApplicationRaw {
        None
    } else if expected is Control && (message_type is VideoOrdering || message_type is VideoOrderingAck)
        && payload_epoch(payload) is None {
        Some(payload_epoch_fault(payload))
    } else if expected is Control && message_type is VideoOrderingAck {
        None
    } else {
        match parsed {
            Err(detail) => Some(detail@),
            Ok(message) => if expected is Control && message_type is VideoOrdering {
                if switches_display(message) {
                    None
                } else {
                    Some("QUIC video ordering message does not contain SwitchDisplay"@)
                }
            } else {
                match message_class(message) {
                    None => Some("video protobuf has no codec payload"@),
                    Some(class) => if channel_carries(expected, message_type, class) {
                        None
                    } else {
                        Some("protobuf message is invalid on "@ + expected.spec_name() + ""@)
                    },
                }
            },
        }
    }
}

/// Where the application message begins in the payload of a reliable message, if the payload holds
/// one. A payload that is too short for its ordering epoch, or has a zero epoch, is refused.
pub fn reliable_message_start(expected: ReliableChannelKind, message_type: MessageType, payload: &[u8]) -> (start: Result<
    Option<usize>,
    QuicTransportError,
>)
    ensures
        match start {
            Ok(start) => {
                &&& start == match message_start(expected, message_type) {
                    Some(start) => Some(start as usize),
                    None => None,
                }
                &&& start matches Some(start) ==> start <= payload@.len()
                &&& expected is Control && (message_type is VideoOrdering || message_type is VideoOrderingAck)
                    ==> payload_epoch(payload@) is Some
            },
            Err(error) => {
                &&& expected is Control && (message_type is VideoOrdering || message_type is VideoOrderingAck)
                &&& payload_epoch(payload@) is None
                &&& is_protocol_state(error, payload_epoch_fault(payload@))
            },
        },
{
    if expected == ReliableChannelKind::Control {
        match message_type {
            MessageType::ApplicationRaw => {
                return Ok(None);
            },
            MessageType::VideoOrdering => {
                return match read_ordering_epoch(payload) {
                    Ok(_) => Ok(Some(8)),
                    Err(error) => Err(error),
                };
            },
            MessageType::VideoOrderingAck => {
                return match read_ordering_epoch(payload) {
                    Ok(_) => Ok(None),
                    Err(error) => Err(error),
                };
            },
            _ => {},
        }
    }
    Ok(Some(0))
}

/// Refuses a reliable message that its channel does not carry.
pub fn validate_reliable_application_message(
    expected: ReliableChannelKind,
    message_type: MessageType,
    payload: &[u8],
    parsed: &Result<Message, String>,
) -> (result: Result<(), QuicTransportError>)
    ensures
        match (reliable_message_fault(expected, message_type, payload@, *parsed), result) {
            (None, Ok(_)) => true,
            (Some(detail), Err(error)) => is_protocol_state(error, detail),
            _ => false,
        },
{
    if expected == ReliableChannelKind::Control {
        match message_type {
            MessageType::ApplicationRaw => {
                return Ok(());
            },
            MessageType::VideoOrdering => {
                match read_ordering_epoch(payload) {
                    Ok(_) => {},
                    Err(error) => {
                        return Err(error);
                    },
                }
                return match parsed {
                    Ok(message) => {
                        if is_video_ordering_message(message) {
                            Ok(())
                        } else {
                            Err(
                                QuicTransportError::ProtocolState(
                                    "QUIC video ordering message does not contain SwitchDisplay".to_owned(),
                                ),
                            )
                        }
                    },
                    Err(detail) => Err(QuicTransportError::ProtocolState(detail.as_str().to_owned())),
                };
            },
            MessageType::VideoOrderingAck => {
                return match read_ordering_epoch(payload) {
                    Ok(_) => Ok(()),
                    Err(error) => Err(error),
                };
            },
            _ => {},
        }
    }
    let message = match parsed {
        Ok(message) => message,
        Err(detail) => {
            return Err(QuicTransportError::ProtocolState(detail.as_str().to_owned()));
        },
    };
    let class = match classify_message(message) {
        Ok(class) => class,
        Err(error) => {
            return Err(error);
        },
    };
    let valid = match expected {
        ReliableChannelKind::Control => message_type == MessageType::ApplicationControl,
        ReliableChannelKind::Input => message_type == MessageType::ReliableInput && class == ApplicationClass::Input,
        ReliableChannelKind::Clipboard => message_type == MessageType::Clipboard && class
            == ApplicationClass::Clipboard,
        ReliableChannelKind::FileTransfer => message_type == MessageType::FileChunk && class == ApplicationClass::File,
        ReliableChannelKind::Diagnostics => message_type == MessageType::Diagnostics && class
            == ApplicationClass::Diagnostics,
        ReliableChannelKind::Video => {
            let keyframe = match class {
                ApplicationClass::Video(metadata) => metadata.is_keyframe(),
                _ => false,
            };
            message_type == MessageType::ReliableVideoFrame && keyframe
        },
    };
    if valid {
        Ok(())
    } else {
        Err(QuicTransportError::ProtocolState(joined("protobuf message is invalid on ", expected.name(), "")))
    }
}

/// Why an audio or mouse datagram is refused; none if it is not.
pub open spec fn datagram_message_fault(expected: ApplicationClassTag, parsed: Result<Message, String>) -> Option<
    Seq<char>,
> {
    match parsed {
        Err(detail) => Some(detail@),
        Ok(message) => match message_class(message) {
            None => Some("video protobuf has no codec payload"@),
            Some(class) => if (expected is Audio && class is Audio) || (expected is Mouse && class is Mouse) {
                None
            } else {
                Some("protobuf message is invalid on QUIC DATAGRAM"@)
            },
        },
    }
}

/// Refuses an audio or mouse datagram that carries another message.
pub fn validate_datagram_application_message(
    expected: ApplicationClassTag,
    parsed: &Result<Message, String>,
) -> (result: Result<(), QuicTransportError>)
    ensures
        match (datagram_message_fault(expected, *parsed), result) {
            (None, Ok(_)) => true,
            (Some(detail), Err(error)) => is_protocol_state(error, detail),
            _ => false,
        },
{
    let message = match parsed {
        Ok(message) => message,
        Err(detail) => {
            return Err(QuicTransportError::ProtocolState(detail.as_str().to_owned()));
        },
    };
    let class = match classify_message(message) {
        Ok(class) => class,
        Err(error) => {
            return Err(error);
        },
    };
    let valid = match (expected, class) {
        (ApplicationClassTag::Audio, ApplicationClass::Audio) => true,
        (ApplicationClassTag::Mouse, ApplicationClass::Mouse { .. }) => true,
        _ => false,
    };
    if valid {
        Ok(())
    } else {
        Err(QuicTransportError::ProtocolState("protobuf message is invalid on QUIC DATAGRAM".to_owned()))
    }
}

/// What the mask of a mouse event says, in numbers: its type is what is left of it by eight, the buttons
/// are the five bits above.
proof fn lemma_mouse_mask(event: MouseEvent)
    ensures
        event.mask & 0x7 == event.mask % 8,
        buttons_down(event) == (event.mask as int / 8) % 32,
{
    let mask = event.mask;
    assert(mask & 0x7i32 == mask % 8) by (bit_vector);
    assert(((mask >> 3i32) as u16) & 0x1fu16 == (mask as int / 8) % 32) by (bit_vector);
}

/// A mouse event is a movement, which may be overtaken or lost, if and only if its type is zero, for an
/// absolute one, or five, for a relative one. It keeps its place and the buttons that are down. Every other
/// mouse event, be it a press, a release or a turn of the wheel, is input.
pub proof fn only_movements_travel_as_movements(message: Message, event: MouseEvent)
    requires
        message.union == Some(MessageUnion::MouseEvent(event)),
    ensures
        match message_class(message) {
            Some(ApplicationClass::Mouse { mode, x, y, button_state_mask }) => {
                &&& event.mask % 8 == 0 || event.mask % 8 == 5
                &&& mode is Absolute <==> event.mask % 8 == 0
                &&& x == event.x
                &&& y == event.y
                &&& button_state_mask == (event.mask as int / 8) % 32
            },
            Some(class) => class is Input && event.mask % 8 != 0 && event.mask % 8 != 5,
            None => false,
        },
{
    lemma_mouse_mask(event);
}

/// Keys and pointers are input, what is copied travels with the clipboard, and files with files. Delay
/// tests and feedback are diagnostics. Sound is sound, and everything else is control. What is no video
/// frame is always taken.
pub proof fn messages_travel_with_their_kind(message: Message)
    requires
        !(message.union matches Some(MessageUnion::VideoFrame(_))),
    ensures
        message_class(message) is Some,
        message.union matches Some(MessageUnion::AudioFrame) <==> message_class(message) == Some(
            ApplicationClass::Audio,
        ),
        message.union matches Some(MessageUnion::KeyEvent) ==> message_class(message) == Some(ApplicationClass::Input),
        message.union matches Some(MessageUnion::KeyboardInput(_)) ==> message_class(message) == Some(
            ApplicationClass::Input,
        ),
        message.union matches Some(MessageUnion::PointerDeviceEvent) ==> message_class(message) == Some(
            ApplicationClass::Input,
        ),
        message_class(message) == Some(ApplicationClass::Clipboard) <==> {
            ||| message.union matches Some(MessageUnion::Clipboard)
            ||| message.union matches Some(MessageUnion::MultiClipboards)
            ||| message.union matches Some(MessageUnion::Cliprdr)
        },
        message_class(message) == Some(ApplicationClass::File) <==> {
            ||| message.union matches Some(MessageUnion::FileAction)
            ||| message.union matches Some(MessageUnion::FileResponse)
        },
        message_class(message) == Some(ApplicationClass::Diagnostics) <==> {
            ||| message.union matches Some(MessageUnion::TestDelay)
            ||| message.union matches Some(MessageUnion::Misc(misc)) && misc.union == Some(MiscUnion::VideoFeedback)
        },
        message_class(message) == Some(ApplicationClass::Control) <==> {
            ||| message.union is None
            ||| message.union matches Some(MessageUnion::Other)
            ||| message.union matches Some(MessageUnion::Misc(misc)) && misc.union != Some(MiscUnion::VideoFeedback)
        },
        !(message_class(message) matches Some(ApplicationClass::Video(_))),
{
}

/// A video frame with content travels as video, under its own number and codec, with its time in
/// microseconds as far as that can be told. It is a keyframe if one of its pictures is, or if it is not
/// encoded at all. A frame without content travels nowhere.
pub proof fn video_frames_travel_as_video(message: Message, frame: VideoFrame)
    requires
        message.union == Some(MessageUnion::VideoFrame(frame)),
    ensures
        match (frame.union, message_class(message)) {
            (None, None) => true,
            (Some(union), Some(ApplicationClass::Video(metadata))) => {
                &&& metadata.frame_id == frame.frame_id
                &&& frame.capture_time_ms * 1_000 <= u64::MAX ==> metadata.presentation_timestamp_us
                    == frame.capture_time_ms * 1_000
                &&& frame.capture_time_ms * 1_000 > u64::MAX ==> metadata.presentation_timestamp_us == u64::MAX
                &&& match union {
                    VideoFrameUnion::Vp9s(frames) => metadata.codec is Vp9 && (metadata.spec_is_keyframe()
                        <==> exists|i: int| 0 <= i < frames.frames@.len() && (#[trigger] frames.frames@[i]).key),
                    VideoFrameUnion::Vp8s(frames) => metadata.codec is Vp8 && (metadata.spec_is_keyframe()
                        <==> exists|i: int| 0 <= i < frames.frames@.len() && (#[trigger] frames.frames@[i]).key),
                    VideoFrameUnion::H264s(frames) => metadata.codec is H264 && (metadata.spec_is_keyframe()
                        <==> exists|i: int| 0 <= i < frames.frames@.len() && (#[trigger] frames.frames@[i]).key),
                    VideoFrameUnion::H265s(frames) => metadata.codec is H265 && (metadata.spec_is_keyframe()
                        <==> exists|i: int| 0 <= i < frames.frames@.len() && (#[trigger] frames.frames@[i]).key),
                    VideoFrameUnion::Av1s(frames) => metadata.codec is Av1 && (metadata.spec_is_keyframe()
                        <==> exists|i: int| 0 <= i < frames.frames@.len() && (#[trigger] frames.frames@[i]).key),
                    VideoFrameUnion::Rgb | VideoFrameUnion::Yuv => metadata.codec is Raw
                        && metadata.spec_is_keyframe(),
                }
            },
            _ => false,
        },
{
    lemma_keyframe_flag();
}

/// A frame tells where it comes from: its display and stream, its number, its codec, and whether it is a
/// keyframe, the same as it tells the sender. What is no frame, or cannot be read, tells nothing.
pub proof fn frames_tell_where_they_come_from(parsed: Result<Message, String>)
    ensures
        match (parsed, payload_source(parsed)) {
            (Ok(message), Some(info)) => {
                &&& message.union matches Some(MessageUnion::VideoFrame(frame)) && {
                    &&& info.key.display == frame.display
                    &&& info.key.stream_id == frame.stream_id
                    &&& info.frame_id == frame.frame_id
                }
                &&& message_class(message) matches Some(ApplicationClass::Video(metadata)) && {
                    &&& info.codec == metadata.codec
                    &&& info.keyframe == metadata.spec_is_keyframe()
                }
            },
            (Ok(message), None) => !(message_class(message) matches Some(ApplicationClass::Video(_))),
            (Err(_), info) => info is None,
        },
{
    lemma_keyframe_flag();
    if let Ok(message) = parsed {
        if let Some(MessageUnion::VideoFrame(frame)) = message.union {
            video_frames_travel_as_video(message, frame);
        } else {
            messages_travel_with_their_kind(message);
        }
    }
}

/// The message that frames may not overtake is the one that switches the display, and no other.
pub proof fn only_display_switches_hold_frames_up(message: Message)
    ensures
        switches_display(message) <==> (message.union matches Some(MessageUnion::Misc(misc)) && misc.union matches Some(
            MiscUnion::SwitchDisplay,
        )),
        switches_display(message) ==> message_class(message) == Some(ApplicationClass::Control),
{
}

/// Packing gives zero, which stands for no format, exactly to the formats that no audio datagram can
/// carry: without channels, with more than eight, or below eight kilohertz. Two formats that can be
/// carried are packed alike only if they are the same.
pub proof fn formats_that_can_be_carried(format: AudioFormat, other: AudioFormat)
    ensures
        packed_format(format) == 0 <==> (format.channels == 0 || format.channels > 8 || format.sample_rate < 8_000),
        unpacked_format(packed_format(format)) is None <==> packed_format(format) == 0,
        packed_format(format) != 0 ==> unpacked_format(packed_format(format)) == Some(
            (format.sample_rate, format.channels as u8),
        ),
        packed_format(format) != 0 && packed_format(format) == packed_format(other) ==> format == other,
{
    if is_usable_format(format) {
        audio_format_survives_packing(format);
    }
    if is_usable_format(other) {
        audio_format_survives_packing(other);
    }
}

/// A request for a fresh keyframe repeats what is known of the frame it speaks of. It is made of every
/// frame that has a number on a numbered stream of a display, and of no other.
pub proof fn requests_speak_of_their_frame(info: VideoSourceInfo, dropped_frames: u64, strict_recovery: bool)
    ensures
        match reference_refresh(info, dropped_frames, strict_recovery) {
            Some(refresh) => {
                &&& info.key.display >= 0 && info.key.stream_id > 0 && info.frame_id > 0
                &&& refresh.display == info.key.display
                &&& refresh.stream_id == info.key.stream_id
                &&& refresh.received_frame_id == info.frame_id
                &&& refresh.dropped_frames == dropped_frames
                &&& refresh.strict_recovery == strict_recovery
            },
            None => info.key.display < 0 || info.key.stream_id == 0 || info.frame_id == 0,
        },
{
}

/// On the channel of control messages a raw payload is always taken, whatever it holds; an
/// acknowledgement is taken if it begins with eight bytes that are not all zero; and a message that frames
/// may not overtake is taken if it does so too and switches the display.
pub proof fn control_takes_raw_and_ordering_messages(payload: Seq<u8>, parsed: Result<Message, String>)
    ensures
        reliable_message_fault(ReliableChannelKind::Control, MessageType::ApplicationRaw, payload, parsed) is None,
        reliable_message_fault(ReliableChannelKind::Control, MessageType::VideoOrderingAck, payload, parsed) is None
            <==> (payload.len() >= 8 && exists|i: int| 0 <= i < 8 && payload[i] != 0),
        reliable_message_fault(ReliableChannelKind::Control, MessageType::VideoOrdering, payload, parsed) is None <==> {
            &&& payload.len() >= 8 && exists|i: int| 0 <= i < 8 && payload[i] != 0
            &&& parsed matches Ok(message) && misc_part(message) == Some(MiscUnion::SwitchDisplay)
        },
{
    if payload.len() >= 8 {
        let head = payload.take(8);
        lemma_big_endian_bound(head);
        if exists|i: int| 0 <= i < 8 && payload[i] != 0 {
            let i = choose|i: int| 0 <= i < 8 && payload[i] != 0;
            assert(head[i] != 0);
        } else {
            assert(head[0] == payload[0] && head[1] == payload[1] && head[2] == payload[2] && head[3] == payload[3]);
            assert(head[4] == payload[4] && head[5] == payload[5] && head[6] == payload[6] && head[7] == payload[7]);
        }
    }
}

/// Apart from those, a channel takes a message that can be read under its own message type only, and only
/// of its own kind: the channel of control messages any message, the channel of keyframes keyframes alone.
pub proof fn channels_take_their_own_kind(
    expected: ReliableChannelKind,
    message_type: MessageType,
    payload: Seq<u8>,
    parsed: Result<Message, String>,
)
    requires
        expected is Control ==> !(message_type is ApplicationRaw || message_type is VideoOrdering
            || message_type is VideoOrderingAck),
    ensures
        reliable_message_fault(expected, message_type, payload, parsed) is None <==> (parsed matches Ok(message)
            && message_class(message) matches Some(class) && match expected {
            ReliableChannelKind::Control => message_type is ApplicationControl,
            ReliableChannelKind::Input => message_type is ReliableInput && class == ApplicationClass::Input,
            ReliableChannelKind::Clipboard => message_type is Clipboard && class == ApplicationClass::Clipboard,
            ReliableChannelKind::FileTransfer => message_type is FileChunk && class == ApplicationClass::File,
            ReliableChannelKind::Diagnostics => message_type is Diagnostics && class == ApplicationClass::Diagnostics,
            ReliableChannelKind::Video => message_type is ReliableVideoFrame && (payload_source(parsed) matches Some(
                info,
            ) && info.keyframe),
        }),
        parsed matches Err(detail) ==> reliable_message_fault(expected, message_type, payload, parsed) == Some(
            detail@,
        ),
{
    frames_tell_where_they_come_from(parsed);
}

/// A datagram of sound carries sound, and one of a mouse movement a movement of type zero or five; nothing
/// else is taken from them.
pub proof fn datagrams_carry_sound_and_movements(message: Message)
    ensures
        datagram_message_fault(ApplicationClassTag::Audio, Ok(message)) is None <==> message.union matches Some(
            MessageUnion::AudioFrame,
        ),
        datagram_message_fault(ApplicationClassTag::Mouse, Ok(message)) is None <==> (message.union matches Some(
            MessageUnion::MouseEvent(event),
        ) && (event.mask % 8 == 0 || event.mask % 8 == 5)),
{
    if let Some(MessageUnion::MouseEvent(event)) = message.union {
        lemma_mouse_mask(event);
    }
}

/// The message of the application begins right at the head of a payload, or behind the eight bytes of the
/// epoch. A raw payload and an acknowledgement hold none.
pub proof fn messages_begin_behind_the_epoch(expected: ReliableChannelKind, message_type: MessageType)
    ensures
        message_start(expected, message_type) is None <==> (expected is Control && (message_type is ApplicationRaw
            || message_type is VideoOrderingAck)),
        message_start(expected, message_type) == Some(8nat) <==> (expected is Control
            && message_type is VideoOrdering),
        message_start(expected, message_type) matches Some(start) ==> start == 0 || start == 8,
{
}

/// A payload that is too short for an epoch is told apart from one whose epoch is zero.
pub proof fn short_payloads_are_told_apart(payload: Seq<u8>)
    ensures
        payload_epoch_fault(payload) == "QUIC video ordering epoch is truncated"@ <==> payload.len() <= 7,
        payload_epoch_fault(payload) == "QUIC video ordering epoch must not be zero"@ <==> payload.len() >= 8,
{
    reveal_strlit("QUIC video ordering epoch is truncated");
    reveal_strlit("QUIC video ordering epoch must not be zero");
    assert("QUIC video ordering epoch is truncated"@.len() != "QUIC video ordering epoch must not be zero"@.len());
}

} // verus!
