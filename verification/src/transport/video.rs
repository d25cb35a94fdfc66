//! What is known of a video frame.

use crate::message::Message;
use crate::ordered::OrderedKey;
use bytes::Bytes;
use vstd::prelude::*;

verus! {

/// Marks a frame that can be decoded without any other frame.
pub const FLAG_KEYFRAME: u8 = 1;

/// The codec of a video frame.
#[derive(Clone, Copy, Debug, PartialEq, Eq, Structural)]
pub enum VideoCodec {
    Raw,
    Vp8,
    Vp9,
    H264,
    H265,
    Av1,
}

impl VideoCodec {
    /// Whether a missing reference frame spoils every frame up to the next keyframe.
    pub open spec fn spec_is_reference_sensitive(self) -> bool {
        self is H264 || self is H265 || self is Av1
    }

    /// Whether a missing reference frame spoils every frame up to the next keyframe.
    pub fn is_reference_sensitive(self) -> (sensitive: bool)
        ensures
            sensitive == self.spec_is_reference_sensitive(),
    {
        matches!(self, VideoCodec::H264 | VideoCodec::H265 | VideoCodec::Av1)
    }
}

/// What the transport knows of a frame.
#[derive(Clone, Copy, Debug, PartialEq, Eq, Structural)]
pub struct VideoFrameMetadata {
    pub frame_id: u64,
    pub codec: VideoCodec,
    pub flags: u8,
    pub presentation_timestamp_us: u64,
}

impl VideoFrameMetadata {
    /// Whether the keyframe flag is set.
    pub open spec fn spec_is_keyframe(self) -> bool {
        self.flags & FLAG_KEYFRAME != 0
    }

    /// Whether the keyframe flag is set.
    pub fn is_keyframe(self) -> (keyframe: bool)
        ensures
            keyframe == self.spec_is_keyframe(),
    {
        self.flags & FLAG_KEYFRAME != 0
    }
}

/// The keyframe flag alone marks a keyframe, and no flag at all does not.
pub proof fn lemma_keyframe_flag()
    ensures
        FLAG_KEYFRAME & FLAG_KEYFRAME != 0,
        0u8 & FLAG_KEYFRAME == 0,
{
    assert(1u8 & 1u8 != 0) by (bit_vector);
    assert(0u8 & 1u8 == 0) by (bit_vector);
}

/// A stream of frames of one display.
#[derive(Clone, Copy, Debug, PartialEq, Eq, PartialOrd, Ord, Structural)]
pub struct VideoStreamKey {
    pub display: i32,
    pub stream_id: u64,
}

/// Streams are ordered by display, then by stream.
impl OrderedKey for VideoStreamKey {
    open spec fn rank(self) -> int {
        self.display * 0x1_0000_0000_0000_0000 + self.stream_id
    }

    proof fn rank_is_injective(a: Self, b: Self) {
    }

    fn precedes(&self, other: &Self) -> (before: bool) {
        self.display < other.display || (self.display == other.display && self.stream_id < other.stream_id)
    }
}

/// No stream comes before every stream.
impl OrderedKey for Option<VideoStreamKey> {
    open spec fn rank(self) -> int {
        match self {
            None => -0x1_0000_0000_0000_0000_0000_0000,
            Some(key) => key.rank(),
        }
    }

    proof fn rank_is_injective(a: Self, b: Self) {
        if let (Some(x), Some(y)) = (a, b) {
            VideoStreamKey::rank_is_injective(x, y);
        }
    }

    fn precedes(&self, other: &Self) -> (before: bool) {
        match (self, other) {
            (None, None) => false,
            (None, Some(_)) => true,
            (Some(_), None) => false,
            (Some(a), Some(b)) => a.precedes(b),
        }
    }
}

/// The place of a delta: the keyframe it refers to, and its own number.
#[derive(Clone, Copy, Debug, PartialEq, Eq, PartialOrd, Ord, Structural)]
pub struct HeldFrameKey {
    pub reference_epoch: u64,
    pub frame_id: u64,
}

/// Deltas are ordered by the keyframe they refer to, then by their own number.
impl OrderedKey for HeldFrameKey {
    open spec fn rank(self) -> int {
        self.reference_epoch * 0x1_0000_0000_0000_0000 + self.frame_id
    }

    proof fn rank_is_injective(a: Self, b: Self) {
    }

    fn precedes(&self, other: &Self) -> (before: bool) {
        self.reference_epoch < other.reference_epoch || (self.reference_epoch == other.reference_epoch && self.frame_id
            < other.frame_id)
    }
}

/// Where a frame comes from.
#[derive(Clone, Copy, Debug, PartialEq, Eq, Structural)]
pub struct VideoSourceInfo {
    pub key: VideoStreamKey,
    pub frame_id: u64,
    pub keyframe: bool,
    pub codec: VideoCodec,
}

/// A frame that was put together from datagrams.
pub struct ReassembledVideoFrame {
    pub metadata: VideoFrameMetadata,
    pub payload: Bytes,
    /// What the payload was read as, or why it could not be read.
    pub message: Result<Message, String>,
}

/// What putting frames together came to.
pub struct VideoReassemblyOutcome {
    /// A keyframe is wanted.
    pub request_keyframe: bool,
    /// How many frames were dropped unfinished.
    pub dropped_frames: u32,
    pub frame: Option<ReassembledVideoFrame>,
}

/// What was counted while frames were put together.
#[derive(Clone, Copy, Debug, PartialEq, Eq, Structural)]
pub struct VideoReassemblyStats {
    pub expired_frames: u64,
    pub evicted_frames: u64,
    pub obsolete_frames: u64,
    pub pre_keyframe_frames: u64,
    pub expired_keyframes: u64,
    pub missing_fragments: u64,
    pub last_frame_assembly_us: u64,
    pub max_frame_assembly_us: u64,
    pub max_fragment_gap_us: u64,
    pub last_frame_bytes: u64,
    pub last_frame_fragments: u64,
}

impl Default for VideoReassemblyStats {
    /// Nothing was counted yet.
    fn default() -> (stats: Self)
        ensures
            stats == (VideoReassemblyStats {
                expired_frames: 0,
                evicted_frames: 0,
                obsolete_frames: 0,
                pre_keyframe_frames: 0,
                expired_keyframes: 0,
                missing_fragments: 0,
                last_frame_assembly_us: 0,
                max_frame_assembly_us: 0,
                max_fragment_gap_us: 0,
                last_frame_bytes: 0,
                last_frame_fragments: 0,
            }),
    {
        VideoReassemblyStats {
            expired_frames: 0,
            evicted_frames: 0,
            obsolete_frames: 0,
            pre_keyframe_frames: 0,
            expired_keyframes: 0,
            missing_fragments: 0,
            last_frame_assembly_us: 0,
            max_frame_assembly_us: 0,
            max_fragment_gap_us: 0,
            last_frame_bytes: 0,
            last_frame_fragments: 0,
        }
    }
}

/// The lowest flag marks a keyframe, whatever the others say.
pub proof fn keyframes_have_odd_flags(metadata: VideoFrameMetadata)
    ensures
        metadata.spec_is_keyframe() <==> metadata.flags % 2 == 1,
{
    let flags = metadata.flags;
    assert(flags & 1u8 != 0 <==> flags % 2 == 1) by (bit_vector);
}

/// A lost reference spoils what follows it for three codecs; the others show what they can.
pub proof fn three_codecs_need_every_reference(codec: VideoCodec)
    ensures
        codec.spec_is_reference_sensitive() <==> (codec == VideoCodec::H264 || codec == VideoCodec::H265 || codec
            == VideoCodec::Av1),
        !codec.spec_is_reference_sensitive() <==> (codec == VideoCodec::Raw || codec == VideoCodec::Vp8 || codec
            == VideoCodec::Vp9),
{
}

/// Streams stand in the order of their displays, and on a display in the order of their numbers; what is
/// for no stream comes before all of them.
pub proof fn streams_stand_in_order(a: VideoStreamKey, b: VideoStreamKey)
    ensures
        a.rank() < b.rank() <==> (a.display < b.display || (a.display == b.display && a.stream_id < b.stream_id)),
        None::<VideoStreamKey>.rank() < Some(a).rank(),
        Some(a).rank() < Some(b).rank() <==> a.rank() < b.rank(),
{
}

/// Deltas stand in the order of the keyframes that they refer to, and behind a keyframe in the order of
/// their numbers.
pub proof fn deltas_stand_in_order(a: HeldFrameKey, b: HeldFrameKey)
    ensures
        a.rank() < b.rank() <==> (a.reference_epoch < b.reference_epoch || (a.reference_epoch == b.reference_epoch
            && a.frame_id < b.frame_id)),
{
}

} // verus!
