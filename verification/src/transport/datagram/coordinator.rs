//! What the senders of one connection share: the queue policy and the counters.

use super::budget::{DEFAULT_VIDEO_DATAGRAM_QUEUE_TARGET_US, MIN_VIDEO_DATAGRAM_QUEUE_BYTES};
use crate::numbers::{at_most_u64, at_most_usize, larger, larger_u64, smaller_u64};
use crate::time::duration_nanos;
use std::time::Duration;
use vstd::prelude::*;

verus! {

/// What was counted of the datagrams that were sent.
#[derive(Clone, Copy, Debug, PartialEq, Eq, Structural)]
pub struct DatagramSendStats {
    pub video_frames_sent: u64,
    pub video_frames_rejected: u64,
    pub video_datagrams_sent: u64,
    pub video_frame_bytes: u64,
    pub video_frame_bytes_peak: u64,
    pub video_frame_fragments: u64,
    pub video_frame_fragments_peak: u64,
    pub video_frame_datagram_bytes_p95: u64,
    pub video_frame_datagram_bytes_p99: u64,
    pub video_frame_required_bytes_p95: u64,
    pub video_frame_required_bytes_p99: u64,
    pub send_buffer_space: u64,
    pub send_buffer_space_min: u64,
    pub send_buffer_queued: u64,
    pub video_queue_budget: u64,
    pub video_queue_delay_us: u64,
    pub video_queue_target_us: u64,
    pub audio_packets_dropped: u64,
    pub mouse_updates_dropped: u64,
}

/// The counters of the datagrams that were sent.
#[derive(Clone, Copy, Debug, PartialEq, Eq, Structural)]
pub struct DatagramSendCounters {
    pub video_frames_sent: u64,
    pub video_frames_rejected: u64,
    pub video_datagrams_sent: u64,
    pub video_frame_bytes: u64,
    pub video_frame_bytes_peak: u64,
    pub video_frame_fragments: u64,
    pub video_frame_fragments_peak: u64,
    pub video_frame_datagram_bytes_p95: u64,
    pub video_frame_datagram_bytes_p99: u64,
    pub video_frame_required_bytes_p95: u64,
    pub video_frame_required_bytes_p99: u64,
    pub send_buffer_space: u64,
    /// The least space that was ever left, the largest number before the first look.
    pub send_buffer_space_min: u64,
    /// The most space that was ever left.
    pub send_buffer_capacity: u64,
    pub send_buffer_queued: u64,
    pub video_queue_budget: u64,
    pub video_queue_delay_us: u64,
    pub audio_packets_dropped: u64,
    pub mouse_updates_dropped: u64,
}

/// The counters after a look at the space that is left.
pub open spec fn with_space(counters: DatagramSendCounters, available: u64) -> DatagramSendCounters {
    let capacity = larger_u64(counters.send_buffer_capacity, available);
    DatagramSendCounters {
        send_buffer_space: available,
        send_buffer_space_min: smaller_u64(counters.send_buffer_space_min, available),
        send_buffer_capacity: capacity,
        send_buffer_queued: (capacity - available) as u64,
        ..counters
    }
}

/// A target time in microseconds, one at least.
pub open spec fn target_us(target_nanos: nat) -> u64 {
    at_most_u64(larger(target_nanos / 1_000, 1)) as u64
}

/// What the senders of one connection share.
pub struct QuicDatagramSendCoordinator {
    pub interactive_reserve_bytes: usize,
    pub video_queue_target_us: u64,
    pub min_video_queue_bytes: u64,
    pub counters: DatagramSendCounters,
}

impl QuicDatagramSendCoordinator {
    /// Nothing was sent yet, the default queue policy holds, and the queue has this much space.
    pub open spec fn unused(interactive_reserve_bytes: usize, send_buffer_capacity: usize) -> Self {
        QuicDatagramSendCoordinator {
            interactive_reserve_bytes,
            video_queue_target_us: DEFAULT_VIDEO_DATAGRAM_QUEUE_TARGET_US,
            min_video_queue_bytes: MIN_VIDEO_DATAGRAM_QUEUE_BYTES as u64,
            counters: DatagramSendCounters {
                video_frames_sent: 0,
                video_frames_rejected: 0,
                video_datagrams_sent: 0,
                video_frame_bytes: 0,
                video_frame_bytes_peak: 0,
                video_frame_fragments: 0,
                video_frame_fragments_peak: 0,
                video_frame_datagram_bytes_p95: 0,
                video_frame_datagram_bytes_p99: 0,
                video_frame_required_bytes_p95: 0,
                video_frame_required_bytes_p99: 0,
                send_buffer_space: 0,
                send_buffer_space_min: u64::MAX,
                send_buffer_capacity: send_buffer_capacity as u64,
                send_buffer_queued: 0,
                video_queue_budget: 0,
                video_queue_delay_us: 0,
                audio_packets_dropped: 0,
                mouse_updates_dropped: 0,
            },
        }
    }

    /// Nothing was sent, and the queue has this much space.
    pub fn new(interactive_reserve_bytes: usize, send_buffer_capacity: usize) -> (coordinator: Self)
        ensures
            coordinator == Self::unused(interactive_reserve_bytes, send_buffer_capacity),
    {
        QuicDatagramSendCoordinator {
            interactive_reserve_bytes,
            video_queue_target_us: DEFAULT_VIDEO_DATAGRAM_QUEUE_TARGET_US,
            min_video_queue_bytes: MIN_VIDEO_DATAGRAM_QUEUE_BYTES as u64,
            counters: DatagramSendCounters {
                video_frames_sent: 0,
                video_frames_rejected: 0,
                video_datagrams_sent: 0,
                video_frame_bytes: 0,
                video_frame_bytes_peak: 0,
                video_frame_fragments: 0,
                video_frame_fragments_peak: 0,
                video_frame_datagram_bytes_p95: 0,
                video_frame_datagram_bytes_p99: 0,
                video_frame_required_bytes_p95: 0,
                video_frame_required_bytes_p99: 0,
                send_buffer_space: 0,
                send_buffer_space_min: u64::MAX,
                send_buffer_capacity: send_buffer_capacity as u64,
                send_buffer_queued: 0,
                video_queue_budget: 0,
                video_queue_delay_us: 0,
                audio_packets_dropped: 0,
                mouse_updates_dropped: 0,
            },
        }
    }

    /// What was counted, as it is shown.
    pub open spec fn spec_stats(self) -> DatagramSendStats {
        DatagramSendStats {
            video_frames_sent: self.counters.video_frames_sent,
            video_frames_rejected: self.counters.video_frames_rejected,
            video_datagrams_sent: self.counters.video_datagrams_sent,
            video_frame_bytes: self.counters.video_frame_bytes,
            video_frame_bytes_peak: self.counters.video_frame_bytes_peak,
            video_frame_fragments: self.counters.video_frame_fragments,
            video_frame_fragments_peak: self.counters.video_frame_fragments_peak,
            video_frame_datagram_bytes_p95: self.counters.video_frame_datagram_bytes_p95,
            video_frame_datagram_bytes_p99: self.counters.video_frame_datagram_bytes_p99,
            video_frame_required_bytes_p95: self.counters.video_frame_required_bytes_p95,
            video_frame_required_bytes_p99: self.counters.video_frame_required_bytes_p99,
            send_buffer_space: self.counters.send_buffer_space,
            send_buffer_space_min: if self.counters.send_buffer_space_min == u64::MAX {
                0
            } else {
                self.counters.send_buffer_space_min
            },
            send_buffer_queued: self.counters.send_buffer_queued,
            video_queue_budget: self.counters.video_queue_budget,
            video_queue_delay_us: self.counters.video_queue_delay_us,
            video_queue_target_us: self.video_queue_target_us,
            audio_packets_dropped: self.counters.audio_packets_dropped,
            mouse_updates_dropped: self.counters.mouse_updates_dropped,
        }
    }

    /// What was counted. Before the first look at the space that is left, the least space shows as
    /// zero.
    pub fn stats(&self) -> (stats: DatagramSendStats)
        ensures
            stats == self.spec_stats(),
    {
        let send_buffer_space_min: u64 = self.counters.send_buffer_space_min;
        DatagramSendStats {
            video_frames_sent: self.counters.video_frames_sent,
            video_frames_rejected: self.counters.video_frames_rejected,
            video_datagrams_sent: self.counters.video_datagrams_sent,
            video_frame_bytes: self.counters.video_frame_bytes,
            video_frame_bytes_peak: self.counters.video_frame_bytes_peak,
            video_frame_fragments: self.counters.video_frame_fragments,
            video_frame_fragments_peak: self.counters.video_frame_fragments_peak,
            video_frame_datagram_bytes_p95: self.counters.video_frame_datagram_bytes_p95,
            video_frame_datagram_bytes_p99: self.counters.video_frame_datagram_bytes_p99,
            video_frame_required_bytes_p95: self.counters.video_frame_required_bytes_p95,
            video_frame_required_bytes_p99: self.counters.video_frame_required_bytes_p99,
            send_buffer_space: self.counters.send_buffer_space,
            send_buffer_space_min: if send_buffer_space_min == u64::MAX {
                0
            } else {
                send_buffer_space_min
            },
            send_buffer_queued: self.counters.send_buffer_queued,
            video_queue_budget: self.counters.video_queue_budget,
            video_queue_delay_us: self.counters.video_queue_delay_us,
            video_queue_target_us: self.video_queue_target_us,
            audio_packets_dropped: self.counters.audio_packets_dropped,
            mouse_updates_dropped: self.counters.mouse_updates_dropped,
        }
    }

    /// From now on video may wait this long and fill at least this much.
    pub fn set_video_queue_policy(&mut self, target: Duration, minimum_bytes: usize)
        ensures
            *final(self) == (QuicDatagramSendCoordinator {
                video_queue_target_us: target_us(duration_nanos(target)),
                min_video_queue_bytes: minimum_bytes as u64,
                ..*old(self)
            }),
    {
        let micros: u128 = target.as_micros();
        self.video_queue_target_us =
        if micros < 1 {
            1
        } else if micros > u64::MAX as u128 {
            u64::MAX
        } else {
            micros as u64
        };
        self.min_video_queue_bytes = minimum_bytes as u64;
    }

    /// Notes the space that is left, and says how much waits and how much the queue holds in all.
    pub fn record_space(&mut self, available: usize) -> (queued_and_capacity: (usize, usize))
        ensures
            final(self).counters == with_space(old(self).counters, available as u64),
            *final(self) == (QuicDatagramSendCoordinator { counters: final(self).counters, ..*old(self) }),
            queued_and_capacity.0 == at_most_usize(final(self).counters.send_buffer_queued as nat),
            queued_and_capacity.1 == at_most_usize(final(self).counters.send_buffer_capacity as nat),
    {
        let available: u64 = available as u64;
        self.counters.send_buffer_space = available;
        if available < self.counters.send_buffer_space_min {
            self.counters.send_buffer_space_min = available;
        }
        if self.counters.send_buffer_capacity < available {
            self.counters.send_buffer_capacity = available;
        }
        let capacity: u64 = self.counters.send_buffer_capacity;
        let queued: u64 = capacity - available;
        self.counters.send_buffer_queued = queued;
        (
            if queued > usize::MAX as u64 {
                usize::MAX
            } else {
                queued as usize
            },
            if capacity > usize::MAX as u64 {
                usize::MAX
            } else {
                capacity as usize
            },
        )
    }
}

/// What waits and what is left make up the whole queue.
pub proof fn space_and_queue_make_up_the_capacity(counters: DatagramSendCounters, available: u64)
    ensures
        ({
            let after = with_space(counters, available);
            &&& after.send_buffer_queued + after.send_buffer_space == after.send_buffer_capacity
            &&& after.send_buffer_space_min <= after.send_buffer_space
            &&& after.send_buffer_capacity >= counters.send_buffer_capacity
        }),
{
}

/// A look at the space that is left remembers the most and the least that was ever left. What waits is what is
/// left over of the most. Nothing else is touched.
pub proof fn looks_remember_the_most_and_the_least(counters: DatagramSendCounters, available: u64)
    ensures
        ({
            let after = with_space(counters, available);
            &&& after.send_buffer_space == available
            &&& after.send_buffer_capacity >= available && after.send_buffer_capacity >= counters.send_buffer_capacity
            &&& after.send_buffer_capacity == available || after.send_buffer_capacity == counters.send_buffer_capacity
            &&& after.send_buffer_space_min <= available && after.send_buffer_space_min
                <= counters.send_buffer_space_min
            &&& after.send_buffer_space_min == available || after.send_buffer_space_min
                == counters.send_buffer_space_min
            &&& after.send_buffer_queued + available == after.send_buffer_capacity
            &&& after == (DatagramSendCounters {
                send_buffer_space: after.send_buffer_space,
                send_buffer_space_min: after.send_buffer_space_min,
                send_buffer_capacity: after.send_buffer_capacity,
                send_buffer_queued: after.send_buffer_queued,
                ..counters
            })
        }),
{
}

/// A target is told in whole microseconds, and none as one.
pub proof fn targets_are_whole_microseconds(target_nanos: nat)
    ensures
        target_nanos < 2_000 ==> target_us(target_nanos) == 1,
        1_000 <= target_nanos && target_nanos / 1_000 <= u64::MAX ==> target_us(target_nanos) * 1_000 <= target_nanos < (
        target_us(target_nanos) + 1) * 1_000,
        target_nanos / 1_000 > u64::MAX ==> target_us(target_nanos) == u64::MAX,
{
}

/// Before anything was sent every counter is zero, but for the space that there is; video may wait a hundred and
/// twenty milliseconds and fill a hundred and ninety-two kibibytes.
pub proof fn nothing_is_counted_before_anything_is_sent(reserve: usize, capacity: usize)
    ensures
        ({
            let unused = QuicDatagramSendCoordinator::unused(reserve, capacity);
            let shown = unused.spec_stats();
            &&& unused.interactive_reserve_bytes == reserve
            &&& unused.video_queue_target_us == 120_000
            &&& unused.min_video_queue_bytes == 192 * 1_024
            &&& unused.counters.send_buffer_capacity == capacity
            &&& shown.video_frames_sent == 0 && shown.video_frames_rejected == 0 && shown.video_datagrams_sent == 0
            &&& shown.send_buffer_space_min == 0 && shown.send_buffer_queued == 0
            &&& shown.audio_packets_dropped == 0 && shown.mouse_updates_dropped == 0
            &&& shown.video_frame_bytes == 0 && shown.video_frame_bytes_peak == 0
            &&& shown.video_frame_fragments == 0 && shown.video_frame_fragments_peak == 0
            &&& shown.video_frame_datagram_bytes_p95 == 0 && shown.video_frame_datagram_bytes_p99 == 0
            &&& shown.video_frame_required_bytes_p95 == 0 && shown.video_frame_required_bytes_p99 == 0
            &&& shown.send_buffer_space == 0 && shown.video_queue_budget == 0 && shown.video_queue_delay_us == 0
            &&& with_space(unused.counters, 7).send_buffer_space_min == 7
        }),
{
}

/// What is shown is what was counted; the least space shows as zero before the first look.
pub proof fn what_was_counted_is_shown(coordinator: QuicDatagramSendCoordinator)
    ensures
        ({
            let shown = coordinator.spec_stats();
            let counters = coordinator.counters;
            &&& shown.video_frames_sent == counters.video_frames_sent
            &&& shown.video_frames_rejected == counters.video_frames_rejected
            &&& shown.video_datagrams_sent == counters.video_datagrams_sent
            &&& shown.video_frame_bytes == counters.video_frame_bytes
            &&& shown.video_frame_bytes_peak == counters.video_frame_bytes_peak
            &&& shown.video_frame_fragments == counters.video_frame_fragments
            &&& shown.video_frame_fragments_peak == counters.video_frame_fragments_peak
            &&& shown.video_frame_datagram_bytes_p95 == counters.video_frame_datagram_bytes_p95
            &&& shown.video_frame_datagram_bytes_p99 == counters.video_frame_datagram_bytes_p99
            &&& shown.video_frame_required_bytes_p95 == counters.video_frame_required_bytes_p95
            &&& shown.video_frame_required_bytes_p99 == counters.video_frame_required_bytes_p99
            &&& shown.send_buffer_space == counters.send_buffer_space
            &&& counters.send_buffer_space_min < u64::MAX ==> shown.send_buffer_space_min
                == counters.send_buffer_space_min
            &&& counters.send_buffer_space_min == u64::MAX ==> shown.send_buffer_space_min == 0
            &&& shown.send_buffer_queued == counters.send_buffer_queued
            &&& shown.video_queue_budget == counters.video_queue_budget
            &&& shown.video_queue_delay_us == counters.video_queue_delay_us
            &&& shown.video_queue_target_us == coordinator.video_queue_target_us
            &&& shown.audio_packets_dropped == counters.audio_packets_dropped
            &&& shown.mouse_updates_dropped == counters.mouse_updates_dropped
        }),
{
}

} // verus!
