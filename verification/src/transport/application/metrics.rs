//! What the transport counts.

use crate::time::Timestamp;
use vstd::prelude::*;

verus! {

/// A counter after it was raised. It starts over at zero behind the largest number.
pub open spec fn raised(counter: u64, by: u64) -> u64 {
    ((counter + by) % 0x1_0000_0000_0000_0000) as u64
}

/// Raises a counter.
pub fn raise(counter: &mut u64, by: u64)
    ensures
        *final(counter) == raised(*old(counter), by),
{
    let room: u64 = u64::MAX - *counter;
    *counter = if by <= room {
        *counter + by
    } else {
        by - room - 1
    };
}

/// The last keyframe that went out on the reliable channel.
#[derive(Clone, Copy, Debug, PartialEq, Eq, Structural)]
pub struct ReliableKeyframeState {
    pub display: i32,
    pub stream_id: u64,
    pub barrier_epoch: u64,
    pub sent_at: Timestamp,
}

/// What the transport counts.
#[derive(Clone, Copy, Debug, PartialEq, Eq, Structural)]
pub struct QuicApplicationMetrics {
    pub video_reassembly_drops: u64,
    pub video_reassembly_expired: u64,
    pub video_reassembly_evicted: u64,
    pub video_reassembly_obsolete: u64,
    pub video_reassembly_pre_keyframe: u64,
    pub video_reassembly_expired_keyframes: u64,
    pub video_reassembly_missing_fragments: u64,
    pub video_reassembly_last_us: u64,
    pub video_reassembly_max_us: u64,
    pub video_reassembly_max_gap_us: u64,
    pub video_reassembly_last_frame_bytes: u64,
    pub video_reassembly_last_frame_fragments: u64,
    pub video_keyframe_requests: u64,
    pub reliable_keyframes_sent: u64,
    pub reliable_keyframe_last_bytes: u64,
    pub reliable_keyframe_last_state: Option<ReliableKeyframeState>,
    pub reliable_keyframes_received: u64,
    pub video_source_frame_gaps: u64,
    pub video_recovery_suppressed_frames: u64,
    pub video_sender_replacements: u64,
    pub video_sender_reference_resets: u64,
    pub video_datagram_frames_rejected_teardown: u64,
    pub video_frames_discarded_teardown: u64,
    pub video_keyframe_barrier_held: u64,
    pub video_keyframe_barrier_released: u64,
    pub video_keyframe_barrier_timeouts: u64,
    pub video_keyframe_barrier_overflows: u64,
    pub video_keyframe_barrier_gap_events: u64,
    pub video_keyframe_barrier_gap_skipped_frames: u64,
}

/// Nothing was counted yet.
pub open spec fn no_metrics() -> QuicApplicationMetrics {
    QuicApplicationMetrics {
        video_reassembly_drops: 0,
        video_reassembly_expired: 0,
        video_reassembly_evicted: 0,
        video_reassembly_obsolete: 0,
        video_reassembly_pre_keyframe: 0,
        video_reassembly_expired_keyframes: 0,
        video_reassembly_missing_fragments: 0,
        video_reassembly_last_us: 0,
        video_reassembly_max_us: 0,
        video_reassembly_max_gap_us: 0,
        video_reassembly_last_frame_bytes: 0,
        video_reassembly_last_frame_fragments: 0,
        video_keyframe_requests: 0,
        reliable_keyframes_sent: 0,
        reliable_keyframe_last_bytes: 0,
        reliable_keyframe_last_state: None,
        reliable_keyframes_received: 0,
        video_source_frame_gaps: 0,
        video_recovery_suppressed_frames: 0,
        video_sender_replacements: 0,
        video_sender_reference_resets: 0,
        video_datagram_frames_rejected_teardown: 0,
        video_frames_discarded_teardown: 0,
        video_keyframe_barrier_held: 0,
        video_keyframe_barrier_released: 0,
        video_keyframe_barrier_timeouts: 0,
        video_keyframe_barrier_overflows: 0,
        video_keyframe_barrier_gap_events: 0,
        video_keyframe_barrier_gap_skipped_frames: 0,
    }
}

impl Default for QuicApplicationMetrics {
    /// Nothing was counted yet.
    fn default() -> (metrics: Self)
        ensures
            metrics == no_metrics(),
    {
        QuicApplicationMetrics {
            video_reassembly_drops: 0,
            video_reassembly_expired: 0,
            video_reassembly_evicted: 0,
            video_reassembly_obsolete: 0,
            video_reassembly_pre_keyframe: 0,
            video_reassembly_expired_keyframes: 0,
            video_reassembly_missing_fragments: 0,
            video_reassembly_last_us: 0,
            video_reassembly_max_us: 0,
            video_reassembly_max_gap_us: 0,
            video_reassembly_last_frame_bytes: 0,
            video_reassembly_last_frame_fragments: 0,
            video_keyframe_requests: 0,
            reliable_keyframes_sent: 0,
            reliable_keyframe_last_bytes: 0,
            reliable_keyframe_last_state: None,
            reliable_keyframes_received: 0,
            video_source_frame_gaps: 0,
            video_recovery_suppressed_frames: 0,
            video_sender_replacements: 0,
            video_sender_reference_resets: 0,
            video_datagram_frames_rejected_teardown: 0,
            video_frames_discarded_teardown: 0,
            video_keyframe_barrier_held: 0,
            video_keyframe_barrier_released: 0,
            video_keyframe_barrier_timeouts: 0,
            video_keyframe_barrier_overflows: 0,
            video_keyframe_barrier_gap_events: 0,
            video_keyframe_barrier_gap_skipped_frames: 0,
        }
    }
}

/// A counter that is raised grows by as much, as long as it can tell; behind the largest number it starts
/// over at zero.
pub proof fn counters_grow_and_start_over(counter: u64, by: u64)
    ensures
        counter + by <= u64::MAX ==> raised(counter, by) == counter + by,
        counter + by > u64::MAX ==> raised(counter, by) == counter + by - u64::MAX - 1,
{
}

/// At first every counter is zero, and no keyframe went out.
pub proof fn counting_begins_at_zero()
    ensures
        ({
            let nothing = no_metrics();
            &&& nothing.video_reassembly_drops == 0
            &&& nothing.video_reassembly_expired == 0
            &&& nothing.video_reassembly_evicted == 0
            &&& nothing.video_reassembly_obsolete == 0
            &&& nothing.video_reassembly_pre_keyframe == 0
            &&& nothing.video_reassembly_expired_keyframes == 0
            &&& nothing.video_reassembly_missing_fragments == 0
            &&& nothing.video_reassembly_last_us == 0
            &&& nothing.video_reassembly_max_us == 0
            &&& nothing.video_reassembly_max_gap_us == 0
            &&& nothing.video_reassembly_last_frame_bytes == 0
            &&& nothing.video_reassembly_last_frame_fragments == 0
            &&& nothing.video_keyframe_requests == 0
            &&& nothing.reliable_keyframes_sent == 0
            &&& nothing.reliable_keyframe_last_bytes == 0
            &&& nothing.reliable_keyframes_received == 0
            &&& nothing.video_source_frame_gaps == 0
            &&& nothing.video_recovery_suppressed_frames == 0
            &&& nothing.video_sender_replacements == 0
            &&& nothing.video_sender_reference_resets == 0
            &&& nothing.video_datagram_frames_rejected_teardown == 0
            &&& nothing.video_frames_discarded_teardown == 0
            &&& nothing.video_keyframe_barrier_held == 0
            &&& nothing.video_keyframe_barrier_released == 0
            &&& nothing.video_keyframe_barrier_timeouts == 0
            &&& nothing.video_keyframe_barrier_overflows == 0
            &&& nothing.video_keyframe_barrier_gap_events == 0
            &&& nothing.video_keyframe_barrier_gap_skipped_frames == 0
            &&& nothing.reliable_keyframe_last_state is None
        }),
{
}

} // verus!
