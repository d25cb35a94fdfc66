//! What waits to be sent.

use crate::message::Message;
use crate::ordered::{OrderedKey, OrderedMap};
use crate::transport::protocol::{MessageType, MouseMovementMode};
use crate::transport::video::{keyframes_have_odd_flags, VideoFrameMetadata, VideoSourceInfo, VideoStreamKey};
use bytes::Bytes;
use tokio::sync::oneshot;
use vstd::prelude::*;

verus! {

/// The content of a reliable message.
pub enum OutboundPayload {
    /// Bytes that go out as they are.
    Encoded(Bytes),
    /// A message of the transport's own, which is encoded when it goes out.
    Message(Message),
}

/// A message for a reliable channel.
pub struct ReliableOutbound {
    pub message_type: MessageType,
    pub payload: OutboundPayload,
    /// Who is told when the message went out, or why it did not.
    pub completion: Option<oneshot::Sender<Result<(), String>>>,
}

/// The message with this type and content, of which nobody is told.
pub open spec fn outbound(message_type: MessageType, payload: OutboundPayload) -> ReliableOutbound {
    ReliableOutbound { message_type, payload, completion: None }
}

/// A track of frames of which only the latest waits.
#[derive(Clone, Copy, Debug, PartialEq, Eq, PartialOrd, Ord, Structural)]
pub enum VideoOutboundTrackKey {
    /// The track that the application named.
    Latest(u64),
    /// The track of a stream.
    Source(VideoStreamKey),
    /// Frames that belong to no track.
    Unscoped,
}

/// Named tracks come first, then streams, then frames of no track.
impl OrderedKey for VideoOutboundTrackKey {
    open spec fn rank(self) -> int {
        match self {
            VideoOutboundTrackKey::Latest(key) => key as int,
            VideoOutboundTrackKey::Source(key) => key.rank() + 0x1_0000_0000_0000_0000_0000_0000,
            VideoOutboundTrackKey::Unscoped => 0x2_0000_0000_0000_0000_0000_0000,
        }
    }

    proof fn rank_is_injective(a: Self, b: Self) {
        match (a, b) {
            (VideoOutboundTrackKey::Source(x), VideoOutboundTrackKey::Source(y)) => {
                VideoStreamKey::rank_is_injective(x, y);
            },
            _ => {},
        }
    }

    fn precedes(&self, other: &Self) -> (before: bool) {
        match (self, other) {
            (VideoOutboundTrackKey::Latest(a), VideoOutboundTrackKey::Latest(b)) => *a < *b,
            (VideoOutboundTrackKey::Latest(_), _) => true,
            (VideoOutboundTrackKey::Source(_), VideoOutboundTrackKey::Latest(_)) => false,
            (VideoOutboundTrackKey::Source(a), VideoOutboundTrackKey::Source(b)) => a.precedes(b),
            (VideoOutboundTrackKey::Source(_), VideoOutboundTrackKey::Unscoped) => true,
            (VideoOutboundTrackKey::Unscoped, _) => false,
        }
    }
}

impl VideoOutboundTrackKey {
    /// The track of a frame: the one that the application named, else that of its stream.
    pub open spec fn spec_resolve(latest_key: Option<u64>, source_info: Option<VideoSourceInfo>) -> Self {
        match (latest_key, source_info) {
            (Some(key), _) => VideoOutboundTrackKey::Latest(key),
            (None, Some(source)) => VideoOutboundTrackKey::Source(source.key),
            (None, None) => VideoOutboundTrackKey::Unscoped,
        }
    }

    /// The track of a frame.
    pub fn resolve(latest_key: Option<u64>, source_info: Option<VideoSourceInfo>) -> (key: Self)
        ensures
            key == Self::spec_resolve(latest_key, source_info),
    {
        if let Some(key) = latest_key {
            VideoOutboundTrackKey::Latest(key)
        } else if let Some(source) = source_info {
            VideoOutboundTrackKey::Source(source.key)
        } else {
            VideoOutboundTrackKey::Unscoped
        }
    }
}

/// A video frame that waits to be sent.
pub struct VideoOutbound {
    pub track_key: VideoOutboundTrackKey,
    pub metadata: VideoFrameMetadata,
    pub source_info: Option<VideoSourceInfo>,
    pub payload: Bytes,
    /// The display switch that the frame may not overtake.
    pub ordering_epoch: u64,
}

impl VideoOutbound {
    /// Whether the frame is a keyframe.
    pub fn is_keyframe(&self) -> (keyframe: bool)
        ensures
            keyframe == self.metadata.spec_is_keyframe(),
    {
        self.metadata.is_keyframe()
    }
}

/// A frame takes the place of a pending one. A frame of a later display switch always does, one of
/// an earlier switch never. Within a switch a delta does not replace a keyframe.
pub open spec fn replaces(pending: VideoOutbound, incoming: VideoOutbound) -> bool {
    if incoming.ordering_epoch != pending.ordering_epoch {
        incoming.ordering_epoch > pending.ordering_epoch
    } else {
        !pending.metadata.spec_is_keyframe() || incoming.metadata.spec_is_keyframe()
    }
}

/// Whether a frame takes the place of a pending one.
pub fn should_replace_pending_video(pending: &VideoOutbound, incoming: &VideoOutbound) -> (replace: bool)
    ensures
        replace == replaces(*pending, *incoming),
{
    if incoming.ordering_epoch != pending.ordering_epoch {
        return incoming.ordering_epoch > pending.ordering_epoch;
    }
    !pending.is_keyframe() || incoming.is_keyframe()
}

/// The keyframe that a frame refers to, behind the keyframe barrier: a keyframe refers to itself, a
/// delta to the last keyframe of its stream, or to none.
pub open spec fn reference_epoch(item: VideoOutbound, epochs: Map<VideoStreamKey, u64>, barrier: bool) -> Option<u64> {
    match item.source_info {
        Some(info) => if !barrier {
            None
        } else if item.metadata.spec_is_keyframe() {
            Some(info.frame_id)
        } else if epochs.contains_key(info.key) {
            Some(epochs[info.key])
        } else {
            Some(0)
        },
        None => None,
    }
}

/// The metadata with which a frame goes out: a delta carries the keyframe that it refers to.
pub open spec fn tagged(item: VideoOutbound, epochs: Map<VideoStreamKey, u64>, barrier: bool) -> VideoFrameMetadata {
    match reference_epoch(item, epochs, barrier) {
        Some(epoch) => if item.metadata.spec_is_keyframe() {
            item.metadata
        } else {
            VideoFrameMetadata { presentation_timestamp_us: epoch, ..item.metadata }
        },
        None => item.metadata,
    }
}

/// The last keyframes of the streams after a frame.
pub open spec fn epochs_after(item: VideoOutbound, epochs: Map<VideoStreamKey, u64>, barrier: bool) -> Map<
    VideoStreamKey,
    u64,
> {
    match item.source_info {
        Some(info) => if barrier && item.metadata.spec_is_keyframe() {
            epochs.insert(info.key, info.frame_id)
        } else {
            epochs
        },
        None => epochs,
    }
}

/// Notes a keyframe, or tags a delta with the keyframe that it refers to.
pub fn apply_video_reference_epoch(
    item: &mut VideoOutbound,
    reference_epochs: &mut OrderedMap<VideoStreamKey, u64>,
    keyframe_barrier: bool,
) -> (epoch: Option<u64>)
    requires
        old(reference_epochs).wf(),
    ensures
        final(reference_epochs).wf(),
        epoch == reference_epoch(*old(item), old(reference_epochs)@, keyframe_barrier),
        *final(item) == (VideoOutbound {
            metadata: tagged(*old(item), old(reference_epochs)@, keyframe_barrier),
            ..*old(item)
        }),
        final(reference_epochs)@ == epochs_after(*old(item), old(reference_epochs)@, keyframe_barrier),
{
    if !keyframe_barrier {
        return None;
    }
    let info = match item.source_info {
        Some(info) => info,
        None => {
            return None;
        },
    };
    if item.is_keyframe() {
        reference_epochs.insert(info.key, info.frame_id);
        Some(info.frame_id)
    } else {
        let epoch: u64 = match reference_epochs.get(&info.key) {
            Some(epoch) => *epoch,
            None => 0,
        };
        item.metadata.presentation_timestamp_us = epoch;
        Some(epoch)
    }
}

/// A delta that follows a keyframe of its stream is tagged with that keyframe.
pub proof fn delta_is_tagged_with_the_latest_keyframe(
    keyframe: VideoOutbound,
    delta: VideoOutbound,
    epochs: Map<VideoStreamKey, u64>,
)
    requires
        keyframe.metadata.spec_is_keyframe(),
        !delta.metadata.spec_is_keyframe(),
        keyframe.source_info is Some,
        delta.source_info is Some,
        delta.source_info->0.key == keyframe.source_info->0.key,
    ensures
        ({
            let after = epochs_after(keyframe, epochs, true);
            &&& reference_epoch(delta, after, true) == Some(keyframe.source_info->0.frame_id)
            &&& tagged(delta, after, true).presentation_timestamp_us == keyframe.source_info->0.frame_id
        }),
{
}

/// An audio packet that waits to be sent.
pub struct AudioOutbound {
    pub capture_timestamp_us: u64,
    pub channels: u8,
    pub sample_rate_hz: u32,
    pub payload: Bytes,
}

/// A mouse movement that waits to be sent.
pub struct MouseOutbound {
    pub mode: MouseMovementMode,
    pub x: i32,
    pub y: i32,
    pub button_state_mask: u16,
    pub payload: Bytes,
}

/// A frame of one stream changes nothing for another: a delta of the other stream refers to the same
/// keyframe before and after it, and carries the same.
pub proof fn streams_keep_their_own_keyframe(
    frame: VideoOutbound,
    delta: VideoOutbound,
    epochs: Map<VideoStreamKey, u64>,
    barrier: bool,
)
    requires
        delta.source_info is Some,
        frame.source_info matches Some(info) ==> info.key != delta.source_info->0.key,
    ensures
        reference_epoch(delta, epochs_after(frame, epochs, barrier), barrier) == reference_epoch(delta, epochs, barrier),
        tagged(delta, epochs_after(frame, epochs, barrier), barrier) == tagged(delta, epochs, barrier),
        epochs_after(frame, epochs, barrier).dom().contains(delta.source_info->0.key) == epochs.dom().contains(
            delta.source_info->0.key,
        ),
        epochs_after(frame, epochs, barrier)[delta.source_info->0.key] == epochs[delta.source_info->0.key],
{
}

/// A delta changes nothing for the frames that follow, on whatever stream.
pub proof fn deltas_are_no_references(frame: VideoOutbound, epochs: Map<VideoStreamKey, u64>, barrier: bool)
    requires
        frame.metadata.flags % 2 == 0,
    ensures
        epochs_after(frame, epochs, barrier) == epochs,
{
    keyframes_have_odd_flags(frame.metadata);
}

/// Behind the barrier a keyframe refers to itself and goes out as it is, and a delta says in place of its
/// time which keyframe it refers to, zero before the first. Without the barrier, and on no stream that is
/// told, nothing refers to anything and every frame goes out as it is.
pub proof fn frames_say_what_they_refer_to(item: VideoOutbound, epochs: Map<VideoStreamKey, u64>, barrier: bool)
    ensures
        ({
            let epoch = reference_epoch(item, epochs, barrier);
            let sent = tagged(item, epochs, barrier);
            &&& epoch is Some <==> (barrier && item.source_info is Some)
            &&& item.metadata.flags % 2 == 1 ==> sent == item.metadata
            &&& item.metadata.flags % 2 == 1 && barrier ==> (item.source_info matches Some(info) ==> epoch == Some(
                info.frame_id,
            ))
            &&& epoch is None ==> sent == item.metadata
            &&& sent.frame_id == item.metadata.frame_id
            &&& sent.codec == item.metadata.codec
            &&& sent.flags == item.metadata.flags
            &&& item.metadata.flags % 2 == 0 && epoch is Some ==> sent.presentation_timestamp_us == epoch->0
            &&& item.metadata.flags % 2 == 0 && barrier ==> (item.source_info matches Some(info) ==> if epochs.dom().contains(
                info.key,
            ) {
                epoch == Some(epochs[info.key])
            } else {
                epoch == Some(0u64)
            })
        }),
{
    keyframes_have_odd_flags(item.metadata);
}

/// A later keyframe of a stream takes the place of the earlier one: the deltas that follow refer to the
/// last keyframe that went out, whatever came before it.
pub proof fn last_keyframe_counts(
    earlier: VideoOutbound,
    keyframe: VideoOutbound,
    delta: VideoOutbound,
    epochs: Map<VideoStreamKey, u64>,
)
    requires
        keyframe.metadata.flags % 2 == 1,
        delta.metadata.flags % 2 == 0,
        keyframe.source_info is Some,
        delta.source_info is Some,
        delta.source_info->0.key == keyframe.source_info->0.key,
    ensures
        reference_epoch(delta, epochs_after(keyframe, epochs_after(earlier, epochs, true), true), true) == Some(
            keyframe.source_info->0.frame_id,
        ),
{
    keyframes_have_odd_flags(keyframe.metadata);
    keyframes_have_odd_flags(delta.metadata);
}

/// Of two frames of a track, the one of the later display switch stays. Within a switch the newer one
/// stays, unless it is a delta and would push a keyframe out.
pub proof fn keyframes_are_not_pushed_out_by_deltas(pending: VideoOutbound, incoming: VideoOutbound)
    ensures
        incoming.ordering_epoch > pending.ordering_epoch ==> replaces(pending, incoming),
        incoming.ordering_epoch < pending.ordering_epoch ==> !replaces(pending, incoming),
        incoming.ordering_epoch == pending.ordering_epoch ==> (replaces(pending, incoming) <==> (
        incoming.metadata.flags % 2 == 1 || pending.metadata.flags % 2 == 0)),
{
    keyframes_have_odd_flags(pending.metadata);
    keyframes_have_odd_flags(incoming.metadata);
}

/// A frame belongs to the track that the application named; otherwise to that of its stream, and without a
/// stream to the one that all such frames share.
pub proof fn frames_belong_to_one_track(latest_key: Option<u64>, source_info: Option<VideoSourceInfo>)
    ensures
        ({
            let track = VideoOutboundTrackKey::spec_resolve(latest_key, source_info);
            &&& latest_key matches Some(key) ==> track == VideoOutboundTrackKey::Latest(key)
            &&& latest_key is None && source_info is Some ==> track == VideoOutboundTrackKey::Source(
                source_info->0.key,
            )
            &&& latest_key is None && source_info is None ==> track == VideoOutboundTrackKey::Unscoped
        }),
{
}

} // verus!
