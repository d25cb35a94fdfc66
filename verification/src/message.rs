//! The application's messages, as far as the transport looks into them.

use crate::keyboard::KeyboardInput;
use vstd::prelude::*;

verus! {

/// One encoded picture.
#[derive(Clone, Copy, Debug, PartialEq, Eq, Structural)]
pub struct EncodedVideoFrame {
    /// It can be decoded without any other picture.
    pub key: bool,
}

/// The encoded pictures of one video frame.
#[derive(Debug)]
pub struct EncodedVideoFrames {
    pub frames: Vec<EncodedVideoFrame>,
}

/// What a video frame carries.
#[derive(Debug)]
pub enum VideoFrameUnion {
    Vp9s(EncodedVideoFrames),
    Rgb,
    Yuv,
    H264s(EncodedVideoFrames),
    H265s(EncodedVideoFrames),
    Vp8s(EncodedVideoFrames),
    Av1s(EncodedVideoFrames),
}

/// A video frame.
#[derive(Debug)]
pub struct VideoFrame {
    pub display: i32,
    pub stream_id: u64,
    pub frame_id: u64,
    pub capture_time_ms: u64,
    pub union: Option<VideoFrameUnion>,
}

/// A mouse event. The three low bits of the mask say what happened, the next five which buttons
/// are down.
#[derive(Clone, Copy, Debug, PartialEq, Eq, Structural)]
pub struct MouseEvent {
    pub mask: i32,
    pub x: i32,
    pub y: i32,
}

/// The format of the audio frames that follow.
#[derive(Clone, Copy, Debug, PartialEq, Eq, Structural)]
pub struct AudioFormat {
    pub sample_rate: u32,
    pub channels: u32,
}

/// Asks for a fresh keyframe of one stream.
#[derive(Clone, Copy, Debug, PartialEq, Eq, Structural)]
pub struct VideoReferenceRefresh {
    pub display: i32,
    pub stream_id: u64,
    /// The last frame that was received.
    pub received_frame_id: u64,
    pub dropped_frames: u64,
    /// Nothing is shown until the keyframe comes.
    pub strict_recovery: bool,
}

/// What a miscellaneous message carries.
#[derive(Clone, Copy, Debug, PartialEq, Eq, Structural)]
pub enum MiscUnion {
    SwitchDisplay,
    VideoFeedback,
    AudioFormat(AudioFormat),
    RefreshVideo(bool),
    VideoReferenceRefresh(VideoReferenceRefresh),
    /// Something the transport does not look into.
    Other,
}

/// A miscellaneous message.
#[derive(Clone, Copy, Debug, PartialEq, Eq, Structural)]
pub struct Misc {
    pub union: Option<MiscUnion>,
}

/// What a message carries.
#[derive(Debug)]
pub enum MessageUnion {
    VideoFrame(VideoFrame),
    AudioFrame,
    MouseEvent(MouseEvent),
    KeyEvent,
    KeyboardInput(KeyboardInput),
    PointerDeviceEvent,
    Clipboard,
    MultiClipboards,
    Cliprdr,
    FileAction,
    FileResponse,
    TestDelay,
    Misc(Misc),
    /// Something the transport does not look into.
    Other,
}

/// A message of the application.
#[derive(Debug)]
pub struct Message {
    pub union: Option<MessageUnion>,
}

/// The message that carries exactly this miscellaneous part.
pub open spec fn misc_message(union: MiscUnion) -> Message {
    Message { union: Some(MessageUnion::Misc(Misc { union: Some(union) })) }
}

/// The miscellaneous part that the message carries.
pub open spec fn misc_part(message: Message) -> Option<MiscUnion> {
    match message.union {
        Some(MessageUnion::Misc(misc)) => misc.union,
        _ => None,
    }
}

} // verus!
