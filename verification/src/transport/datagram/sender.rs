//! Which datagrams go out, and under which numbers.

use super::budget::{admission_failure, queue_budget, queue_delay_us, video_datagram_queue_budget,
    video_datagram_queue_delay_us, video_frame_admission_failure, VideoDatagramAdmissionFailure};
use super::coordinator::{with_space, DatagramSendCounters, QuicDatagramSendCoordinator};
use super::sizes::{record_delta_frame_size, size_percentiles, SizeWindowModel, VideoFrameSizeWindow};
use crate::numbers::{at_most_usize, larger_u64};
use crate::time::{duration_nanos, Timestamp};
use crate::transport::application::metrics::{raise, raised};
use crate::transport::error::{is_datagram_error, is_protocol_state, QuicTransportError};
use crate::transport::protocol::SessionId;
use crate::transport::video::{keyframes_have_odd_flags, VideoFrameMetadata};
use std::time::Duration;
use vstd::prelude::*;

verus! {

/// What became of a video frame.
#[derive(Clone, Copy, Debug, PartialEq, Eq, Structural)]
pub enum VideoDatagramSendOutcome {
    Sent { fragment_count: usize },
    RejectedNoSpace {
        failure: VideoDatagramAdmissionFailure,
        datagram_bytes: usize,
        available_bytes: usize,
        queued_bytes: usize,
        video_queue_budget: usize,
        interactive_reserve_bytes: usize,
        queue_delay_us: u64,
        datagram_bytes_p95: u64,
        datagram_bytes_p99: u64,
        required_bytes_p95: u64,
        required_bytes_p99: u64,
    },
}

/// The way to the peer, at one moment.
pub struct DatagramPath {
    /// The space that is left in the send queue.
    pub available_bytes: usize,
    pub congestion_window_bytes: u64,
    pub rtt: Duration,
}

/// What is to be done with a video frame.
#[derive(Clone, Copy, Debug, PartialEq, Eq, Structural)]
pub enum VideoAdmission {
    /// All its fragments go out.
    Send { fragment_count: usize },
    /// None of them does.
    Reject(VideoDatagramSendOutcome),
}

/// The time since the start, in microseconds.
pub fn elapsed_us(started: Timestamp, now: Timestamp) -> (micros: u64)
    ensures
        micros == now.spec_since(started) / 1_000,
{
    now.since(started) / 1_000
}

/// The bytes of some fragments, as far as they can be counted.
pub open spec fn fragment_bytes(fragments: Seq<Vec<u8>>) -> nat
    decreases fragments.len(),
{
    if fragments.len() == 0 {
        0
    } else {
        fragment_bytes(fragments.drop_last()) + fragments.last()@.len()
    }
}

/// A sum of bytes, at most the largest that can be counted.
pub open spec fn counted_bytes(bytes: nat) -> usize {
    at_most_usize(bytes) as usize
}

/// The bytes of some fragments.
fn sum_fragments(fragments: &Vec<Vec<u8>>) -> (bytes: usize)
    ensures
        bytes == counted_bytes(fragment_bytes(fragments@)),
{
    let mut bytes: usize = 0;
    let mut index: usize = 0;
    proof {
        assert(fragments@.take(0) =~= Seq::empty());
    }
    while index < fragments.len()
        invariant
            index <= fragments@.len(),
            bytes == counted_bytes(fragment_bytes(fragments@.take(index as int))),
        decreases fragments@.len() - index,
    {
        proof {
            assert(fragments@.take(index + 1).drop_last() =~= fragments@.take(index as int));
        }
        bytes = bytes.saturating_add(fragments[index].len());
        index += 1;
    }
    assert(fragments@.take(index as int) =~= fragments@);
    bytes
}

/// Numbers the datagrams of one connection, and keeps the sizes of its latest video frames.
pub struct QuicDatagramSender {
    session_id: SessionId,
    next_video_sequence: u64,
    next_audio_sequence: u64,
    next_mouse_sequence: u64,
    started: Timestamp,
    video_frame_sizes: VideoFrameSizeWindow,
    negotiated_max_datagram_size: usize,
}

/// What a sender knows.
#[verifier::ext_equal]
pub struct SenderModel {
    pub session_id: SessionId,
    pub next_video_sequence: u64,
    pub next_audio_sequence: u64,
    pub next_mouse_sequence: u64,
    pub started: Timestamp,
    pub sizes: SizeWindowModel,
    pub negotiated_max_datagram_size: usize,
}

/// An audio packet is sent under the next number if it finds space, and dropped otherwise; the number is used up all the
/// same. Without a number left nothing happens.
pub open spec fn is_audio_step(
    before: SenderModel,
    after: SenderModel,
    coordinator: QuicDatagramSendCoordinator,
    coordinator_after: QuicDatagramSendCoordinator,
    datagram_bytes: usize,
    available_bytes: usize,
    sequence: Result<Option<u64>, QuicTransportError>,
) -> bool {
    if before.next_audio_sequence == u64::MAX {
        &&& sequence matches Err(error) && is_protocol_state(error, "audio sequence exhausted"@)
        &&& after == before
        &&& coordinator_after == coordinator
    } else {
        let looked = with_space(coordinator.counters, available_bytes as u64);
        let fits = datagram_bytes <= available_bytes;
        &&& sequence == Ok::<Option<u64>, QuicTransportError>(
            if fits {
                Some(before.next_audio_sequence)
            } else {
                None
            },
        )
        &&& after == (SenderModel {
            next_audio_sequence: (before.next_audio_sequence + 1) as u64,
            ..before
        })
        &&& coordinator_after == (QuicDatagramSendCoordinator {
            counters: DatagramSendCounters {
                audio_packets_dropped: if fits {
                    looked.audio_packets_dropped
                } else {
                    raised(looked.audio_packets_dropped, 1)
                },
                ..looked
            },
            ..coordinator
        })
    }
}

/// A mouse movement is sent under the next number if it finds space, and dropped otherwise; the number is used up all the
/// same. Without a number left nothing happens.
pub open spec fn is_mouse_step(
    before: SenderModel,
    after: SenderModel,
    coordinator: QuicDatagramSendCoordinator,
    coordinator_after: QuicDatagramSendCoordinator,
    datagram_bytes: usize,
    available_bytes: usize,
    sequence: Result<Option<u64>, QuicTransportError>,
) -> bool {
    if before.next_mouse_sequence == u64::MAX {
        &&& sequence matches Err(error) && is_protocol_state(error, "mouse sequence exhausted"@)
        &&& after == before
        &&& coordinator_after == coordinator
    } else {
        let looked = with_space(coordinator.counters, available_bytes as u64);
        let fits = datagram_bytes <= available_bytes;
        &&& sequence == Ok::<Option<u64>, QuicTransportError>(
            if fits {
                Some(before.next_mouse_sequence)
            } else {
                None
            },
        )
        &&& after == (SenderModel {
            next_mouse_sequence: (before.next_mouse_sequence + 1) as u64,
            ..before
        })
        &&& coordinator_after == (QuicDatagramSendCoordinator {
            counters: DatagramSendCounters {
                mouse_updates_dropped: if fits {
                    looked.mouse_updates_dropped
                } else {
                    raised(looked.mouse_updates_dropped, 1)
                },
                ..looked
            },
            ..coordinator
        })
    }
}

impl View for QuicDatagramSender {
    type V = SenderModel;

    closed spec fn view(&self) -> SenderModel {
        SenderModel {
            session_id: self.session_id,
            next_video_sequence: self.next_video_sequence,
            next_audio_sequence: self.next_audio_sequence,
            next_mouse_sequence: self.next_mouse_sequence,
            started: self.started,
            sizes: self.video_frame_sizes@,
            negotiated_max_datagram_size: self.negotiated_max_datagram_size,
        }
    }
}

/// What waits in the queue, once the space that is left was noted.
pub open spec fn waiting_bytes(counters: DatagramSendCounters) -> usize {
    counted_bytes(counters.send_buffer_queued as nat)
}

/// How much video may wait on the way to the peer.
pub open spec fn path_budget(coordinator: QuicDatagramSendCoordinator, path: DatagramPath) -> nat {
    queue_budget(
        path.congestion_window_bytes as nat,
        duration_nanos(path.rtt) / 1_000,
        counted_bytes(with_space(coordinator.counters, path.available_bytes as u64).send_buffer_capacity as nat) as nat,
        coordinator.interactive_reserve_bytes as nat,
        coordinator.video_queue_target_us as nat,
        counted_bytes(coordinator.min_video_queue_bytes as nat) as nat,
    )
}

/// How long what waits takes to go out on the way to the peer.
pub open spec fn path_delay_us(coordinator: QuicDatagramSendCoordinator, path: DatagramPath) -> nat {
    queue_delay_us(
        waiting_bytes(with_space(coordinator.counters, path.available_bytes as u64)) as nat,
        path.congestion_window_bytes as nat,
        duration_nanos(path.rtt) / 1_000,
    )
}

/// The sizes of the latest frames, with one more frame. Keyframes do not count.
pub open spec fn sizes_after(
    sizes: SizeWindowModel,
    coordinator: QuicDatagramSendCoordinator,
    metadata: VideoFrameMetadata,
    datagram_bytes: usize,
    path: DatagramPath,
    now: Timestamp,
) -> SizeWindowModel {
    let waiting = waiting_bytes(with_space(coordinator.counters, path.available_bytes as u64));
    if metadata.spec_is_keyframe() {
        sizes
    } else {
        sizes.record(now, datagram_bytes, counted_bytes((waiting + datagram_bytes) as nat))
    }
}

/// The counters after a frame was looked at, whatever becomes of it.
pub open spec fn counters_after(
    sizes: SizeWindowModel,
    coordinator: QuicDatagramSendCoordinator,
    metadata: VideoFrameMetadata,
    frame_bytes: usize,
    fragments: Seq<Vec<u8>>,
    path: DatagramPath,
    now: Timestamp,
) -> DatagramSendCounters {
    let looked = with_space(coordinator.counters, path.available_bytes as u64);
    let recorded = sizes_after(sizes, coordinator, metadata, counted_bytes(fragment_bytes(fragments)), path, now);
    let published = !metadata.spec_is_keyframe() && recorded.is_due(now);
    let percentiles = size_percentiles(recorded.samples);
    DatagramSendCounters {
        video_frame_bytes: frame_bytes as u64,
        video_frame_bytes_peak: larger_u64(looked.video_frame_bytes_peak, frame_bytes as u64),
        video_frame_fragments: fragments.len() as u64,
        video_frame_fragments_peak: larger_u64(looked.video_frame_fragments_peak, fragments.len() as u64),
        video_queue_budget: path_budget(coordinator, path) as u64,
        video_queue_delay_us: path_delay_us(coordinator, path) as u64,
        video_frame_datagram_bytes_p95: if published {
            percentiles.0
        } else {
            looked.video_frame_datagram_bytes_p95
        },
        video_frame_datagram_bytes_p99: if published {
            percentiles.1
        } else {
            looked.video_frame_datagram_bytes_p99
        },
        video_frame_required_bytes_p95: if published {
            percentiles.2
        } else {
            looked.video_frame_required_bytes_p95
        },
        video_frame_required_bytes_p99: if published {
            percentiles.3
        } else {
            looked.video_frame_required_bytes_p99
        },
        ..looked
    }
}

/// Why a frame is not sent on the way to the peer; none if it is.
pub open spec fn path_failure(
    coordinator: QuicDatagramSendCoordinator,
    datagram_bytes: usize,
    path: DatagramPath,
) -> Option<VideoDatagramAdmissionFailure> {
    admission_failure(
        datagram_bytes,
        path.available_bytes,
        coordinator.interactive_reserve_bytes,
        waiting_bytes(with_space(coordinator.counters, path.available_bytes as u64)),
        path_budget(coordinator, path) as usize,
    )
}

impl QuicDatagramSender {
    /// What the sender keeps is well formed.
    pub closed spec fn wf(&self) -> bool {
        self.video_frame_sizes.wf()
    }

    /// Nothing was sent yet.
    pub fn new(session_id: SessionId, now: Timestamp) -> (sender: Self)
        ensures
            sender.wf(),
            sender@ == (SenderModel {
                session_id,
                next_video_sequence: 1,
                next_audio_sequence: 1,
                next_mouse_sequence: 1,
                started: now,
                sizes: SizeWindowModel {
                    samples: Seq::empty(),
                    last_published_at: now,
                    last_recorded_at: None,
                },
                negotiated_max_datagram_size: usize::MAX,
            }),
    {
        QuicDatagramSender {
            session_id,
            next_video_sequence: 1,
            next_audio_sequence: 1,
            next_mouse_sequence: 1,
            started: now,
            video_frame_sizes: VideoFrameSizeWindow::new(now),
            negotiated_max_datagram_size: usize::MAX,
        }
    }

    /// With the datagram size that both peers agreed on.
    pub fn with_max_datagram_size(self, max_datagram_size: usize) -> (sender: Self)
        requires
            self.wf(),
        ensures
            sender.wf(),
            sender@ == (SenderModel { negotiated_max_datagram_size: max_datagram_size, ..self@ }),
    {
        let mut sender = self;
        sender.negotiated_max_datagram_size = max_datagram_size;
        sender
    }

    /// The session.
    pub fn session_id(&self) -> (session_id: SessionId)
        ensures
            session_id == self@.session_id,
    {
        self.session_id
    }

    /// When the sender was made.
    pub fn started(&self) -> (started: Timestamp)
        ensures
            started == self@.started,
    {
        self.started
    }

    /// The number of the next video fragment.
    pub fn next_video_sequence(&self) -> (sequence: u64)
        ensures
            sequence == self@.next_video_sequence,
    {
        self.next_video_sequence
    }

    /// The number of the next audio packet.
    pub fn next_audio_sequence(&self) -> (sequence: u64)
        ensures
            sequence == self@.next_audio_sequence,
    {
        self.next_audio_sequence
    }

    /// The number of the next mouse movement.
    pub fn next_mouse_sequence(&self) -> (sequence: u64)
        ensures
            sequence == self@.next_mouse_sequence,
    {
        self.next_mouse_sequence
    }

    /// How large a datagram may be, given what the connection allows now.
    pub fn max_datagram_size(&self, current: Option<usize>) -> (size: Result<usize, QuicTransportError>)
        ensures
            match (current, size) {
                (Some(current), Ok(size)) => size == if current < self@.negotiated_max_datagram_size {
                    current
                } else {
                    self@.negotiated_max_datagram_size
                },
                (None, Err(error)) => is_datagram_error(error, "peer does not support QUIC DATAGRAM"@),
                _ => false,
            },
    {
        match current {
            Some(current) => {
                if current < self.negotiated_max_datagram_size {
                    Ok(current)
                } else {
                    Ok(self.negotiated_max_datagram_size)
                }
            },
            None => Err(QuicTransportError::Datagram("peer does not support QUIC DATAGRAM".to_owned())),
        }
    }

    /// Decides whether a video frame is sent, all its fragments or none. They are if they leave the
    /// reserve free and what waits is within its budget. Sending them is left to the caller, who then
    /// reports it with `video_frame_sent`.
    pub fn send_video_frame(
        &mut self,
        coordinator: &mut QuicDatagramSendCoordinator,
        metadata: VideoFrameMetadata,
        frame_bytes: usize,
        fragments: &Vec<Vec<u8>>,
        path: &DatagramPath,
        now: Timestamp,
    ) -> (admission: Result<VideoAdmission, QuicTransportError>)
        requires
            old(self).wf(),
        ensures
            final(self).wf(),
            ({
                let datagram_bytes = counted_bytes(fragment_bytes(fragments@));
                let counters = counters_after(
                    old(self)@.sizes,
                    *old(coordinator),
                    metadata,
                    frame_bytes,
                    fragments@,
                    *path,
                    now,
                );
                let failure = path_failure(*old(coordinator), datagram_bytes, *path);
                let recorded = sizes_after(
                    old(self)@.sizes,
                    *old(coordinator),
                    metadata,
                    datagram_bytes,
                    *path,
                    now,
                );
                &&& final(self)@ == (SenderModel {
                    sizes: if !metadata.spec_is_keyframe() && recorded.is_due(now) {
                        SizeWindowModel { last_published_at: now, ..recorded }
                    } else {
                        recorded
                    },
                    ..old(self)@
                })
                &&& *final(coordinator) == (QuicDatagramSendCoordinator {
                    counters: DatagramSendCounters {
                        video_frames_rejected: if failure is Some {
                            raised(counters.video_frames_rejected, 1)
                        } else {
                            counters.video_frames_rejected
                        },
                        ..counters
                    },
                    ..*old(coordinator)
                })
                &&& match failure {
                    Some(failure) => admission == Ok::<VideoAdmission, QuicTransportError>(
                        VideoAdmission::Reject(
                            VideoDatagramSendOutcome::RejectedNoSpace {
                                failure,
                                datagram_bytes,
                                available_bytes: path.available_bytes,
                                queued_bytes: waiting_bytes(counters),
                                video_queue_budget: path_budget(*old(coordinator), *path) as usize,
                                interactive_reserve_bytes: old(coordinator).interactive_reserve_bytes,
                                queue_delay_us: path_delay_us(*old(coordinator), *path) as u64,
                                datagram_bytes_p95: counters.video_frame_datagram_bytes_p95,
                                datagram_bytes_p99: counters.video_frame_datagram_bytes_p99,
                                required_bytes_p95: counters.video_frame_required_bytes_p95,
                                required_bytes_p99: counters.video_frame_required_bytes_p99,
                            },
                        ),
                    ),
                    None => if old(self)@.next_video_sequence + fragments@.len() > u64::MAX {
                        admission matches Err(error) && is_protocol_state(error, "video sequence exhausted"@)
                    } else {
                        admission == Ok::<VideoAdmission, QuicTransportError>(
                            VideoAdmission::Send { fragment_count: fragments@.len() as usize },
                        )
                    },
                }
            }),
    {
        let fragment_count: usize = fragments.len();
        let datagram_bytes: usize = sum_fragments(fragments);
        let frame_bytes_u64: u64 = frame_bytes as u64;
        let fragment_count_u64: u64 = fragment_count as u64;
        coordinator.counters.video_frame_bytes = frame_bytes_u64;
        if coordinator.counters.video_frame_bytes_peak < frame_bytes_u64 {
            coordinator.counters.video_frame_bytes_peak = frame_bytes_u64;
        }
        coordinator.counters.video_frame_fragments = fragment_count_u64;
        if coordinator.counters.video_frame_fragments_peak < fragment_count_u64 {
            coordinator.counters.video_frame_fragments_peak = fragment_count_u64;
        }
        let available_bytes: usize = path.available_bytes;
        let (queued_bytes, send_buffer_capacity) = coordinator.record_space(available_bytes);
        let target_us: u64 = coordinator.video_queue_target_us;
        let min_video_queue_bytes: usize = if coordinator.min_video_queue_bytes > usize::MAX as u64 {
            usize::MAX
        } else {
            coordinator.min_video_queue_bytes as usize
        };
        let video_queue_budget: usize = video_datagram_queue_budget(
            path.congestion_window_bytes,
            path.rtt,
            send_buffer_capacity,
            coordinator.interactive_reserve_bytes,
            Duration::from_micros(target_us),
            min_video_queue_bytes,
        );
        let queue_delay_us: u64 = video_datagram_queue_delay_us(queued_bytes, path.congestion_window_bytes, path.rtt);
        coordinator.counters.video_queue_budget = video_queue_budget as u64;
        coordinator.counters.video_queue_delay_us = queue_delay_us;
        if record_delta_frame_size(
            &mut self.video_frame_sizes,
            metadata,
            now,
            datagram_bytes,
            queued_bytes.saturating_add(datagram_bytes),
        ) {
            if let Some((datagram_p95, datagram_p99, required_p95, required_p99)) = self.video_frame_sizes.publish_if_due(
                now,
            ) {
                coordinator.counters.video_frame_datagram_bytes_p95 = datagram_p95;
                coordinator.counters.video_frame_datagram_bytes_p99 = datagram_p99;
                coordinator.counters.video_frame_required_bytes_p95 = required_p95;
                coordinator.counters.video_frame_required_bytes_p99 = required_p99;
            }
        }
        if let Some(failure) = video_frame_admission_failure(
            datagram_bytes,
            available_bytes,
            coordinator.interactive_reserve_bytes,
            queued_bytes,
            video_queue_budget,
        ) {
            raise(&mut coordinator.counters.video_frames_rejected, 1);
            return Ok(
                VideoAdmission::Reject(
                    VideoDatagramSendOutcome::RejectedNoSpace {
                        failure,
                        datagram_bytes,
                        available_bytes,
                        queued_bytes,
                        video_queue_budget,
                        interactive_reserve_bytes: coordinator.interactive_reserve_bytes,
                        queue_delay_us,
                        datagram_bytes_p95: coordinator.counters.video_frame_datagram_bytes_p95,
                        datagram_bytes_p99: coordinator.counters.video_frame_datagram_bytes_p99,
                        required_bytes_p95: coordinator.counters.video_frame_required_bytes_p95,
                        required_bytes_p99: coordinator.counters.video_frame_required_bytes_p99,
                    },
                ),
            );
        }
        match self.next_video_sequence.checked_add(fragment_count_u64) {
            Some(_) => Ok(VideoAdmission::Send { fragment_count }),
            None => Err(QuicTransportError::ProtocolState("video sequence exhausted".to_owned())),
        }
    }

    /// All fragments of a video frame went out: the numbers they took are used up.
    pub fn video_frame_sent(
        &mut self,
        coordinator: &mut QuicDatagramSendCoordinator,
        fragment_count: usize,
    ) -> (outcome: VideoDatagramSendOutcome)
        requires
            old(self).wf(),
            old(self)@.next_video_sequence + fragment_count <= u64::MAX,
        ensures
            final(self).wf(),
            final(self)@ == (SenderModel {
                next_video_sequence: (old(self)@.next_video_sequence + fragment_count) as u64,
                ..old(self)@
            }),
            *final(coordinator) == (QuicDatagramSendCoordinator {
                counters: DatagramSendCounters {
                    video_frames_sent: raised(old(coordinator).counters.video_frames_sent, 1),
                    video_datagrams_sent: raised(
                        old(coordinator).counters.video_datagrams_sent,
                        fragment_count as u64,
                    ),
                    ..old(coordinator).counters
                },
                ..*old(coordinator)
            }),
            outcome == (VideoDatagramSendOutcome::Sent { fragment_count }),
    {
        self.next_video_sequence = self.next_video_sequence + fragment_count as u64;
        raise(&mut coordinator.counters.video_frames_sent, 1);
        raise(&mut coordinator.counters.video_datagrams_sent, fragment_count as u64);
        VideoDatagramSendOutcome::Sent { fragment_count }
    }

    /// Decides whether an audio packet is sent, and under which number. One that finds no space is
    /// dropped; its number is used up all the same.
    pub fn send_audio_packet(
        &mut self,
        coordinator: &mut QuicDatagramSendCoordinator,
        datagram_bytes: usize,
        available_bytes: usize,
    ) -> (sequence: Result<Option<u64>, QuicTransportError>)
        requires
            old(self).wf(),
        ensures
            final(self).wf(),
            is_audio_step(
                old(self)@,
                final(self)@,
                *old(coordinator),
                *final(coordinator),
                datagram_bytes,
                available_bytes,
                sequence,
            ),
    {
        let sequence: u64 = self.next_audio_sequence;
        let next_sequence: u64 = match sequence.checked_add(1) {
            Some(next) => next,
            None => {
                return Err(QuicTransportError::ProtocolState("audio sequence exhausted".to_owned()));
            },
        };
        let _space = coordinator.record_space(available_bytes);
        self.next_audio_sequence = next_sequence;
        if datagram_bytes > available_bytes {
            raise(&mut coordinator.counters.audio_packets_dropped, 1);
            return Ok(None);
        }
        Ok(Some(sequence))
    }

    /// Decides whether a mouse movement is sent, and under which number, whether it carries nothing but
    /// itself or a message of the application. One that finds no space is dropped; its number is used
    /// up all the same.
    pub fn send_mouse_movement(
        &mut self,
        coordinator: &mut QuicDatagramSendCoordinator,
        datagram_bytes: usize,
        available_bytes: usize,
    ) -> (sequence: Result<Option<u64>, QuicTransportError>)
        requires
            old(self).wf(),
        ensures
            final(self).wf(),
            is_mouse_step(
                old(self)@,
                final(self)@,
                *old(coordinator),
                *final(coordinator),
                datagram_bytes,
                available_bytes,
                sequence,
            ),
    {
        let sequence: u64 = self.next_mouse_sequence;
        let next_sequence: u64 = match sequence.checked_add(1) {
            Some(next) => next,
            None => {
                return Err(QuicTransportError::ProtocolState("mouse sequence exhausted".to_owned()));
            },
        };
        let _space = coordinator.record_space(available_bytes);
        self.next_mouse_sequence = next_sequence;
        if datagram_bytes > available_bytes {
            raise(&mut coordinator.counters.mouse_updates_dropped, 1);
            return Ok(None);
        }
        Ok(Some(sequence))
    }
}

/// The bytes of some fragments are those of each of them, in whatever way they are taken together.
pub proof fn fragments_add_up(first: Seq<Vec<u8>>, second: Seq<Vec<u8>>, fragment: Vec<u8>)
    ensures
        fragment_bytes(first + second) == fragment_bytes(first) + fragment_bytes(second),
        fragment_bytes(seq![fragment]) == fragment@.len(),
        fragment_bytes(first) <= usize::MAX ==> counted_bytes(fragment_bytes(first)) == fragment_bytes(first),
    decreases second.len(),
{
    reveal_with_fuel(fragment_bytes, 2);
    assert(seq![fragment].drop_last() =~= Seq::empty());
    if second.len() == 0 {
        assert(first + second =~= first);
    } else {
        fragments_add_up(first, second.drop_last(), fragment);
        assert((first + second).drop_last() =~= first + second.drop_last());
        assert((first + second).last() == second.last());
    }
}

/// On the way to the peer a frame goes out if and only if its datagrams leave the reserve free in the space that
/// is left now, and no more waits before it than the budget allows. What waits is what the most space that was
/// ever left is short of now.
pub proof fn frames_go_out_where_there_is_space(
    coordinator: QuicDatagramSendCoordinator,
    datagram_bytes: usize,
    path: DatagramPath,
)
    ensures
        ({
            let most = if coordinator.counters.send_buffer_capacity > path.available_bytes {
                coordinator.counters.send_buffer_capacity as int
            } else {
                path.available_bytes as int
            };
            most <= usize::MAX ==> (path_failure(coordinator, datagram_bytes, path) is None <==> {
                &&& datagram_bytes + coordinator.interactive_reserve_bytes <= path.available_bytes
                &&& most - path.available_bytes <= path_budget(coordinator, path)
            })
        }),
{
}

/// The budget of the way to the peer leaves the reserve free, and grows no further than what goes out within
/// the target of the connection at one congestion window per round trip, or than its minimum.
pub proof fn path_budget_goes_out_within_the_target(coordinator: QuicDatagramSendCoordinator, path: DatagramPath)
    requires
        coordinator.counters.send_buffer_capacity <= usize::MAX,
        coordinator.min_video_queue_bytes <= usize::MAX,
        path.congestion_window_bytes * coordinator.video_queue_target_us <= u128::MAX,
        coordinator.video_queue_target_us >= 1,
    ensures
        ({
            let budget = path_budget(coordinator, path);
            let rtt_us = duration_nanos(path.rtt) / 1_000;
            let most = if coordinator.counters.send_buffer_capacity > path.available_bytes {
                coordinator.counters.send_buffer_capacity as nat
            } else {
                path.available_bytes as nat
            };
            &&& budget + coordinator.interactive_reserve_bytes <= most || budget == 0
            &&& rtt_us >= 5_000 && budget > coordinator.min_video_queue_bytes ==> budget * rtt_us
                <= path.congestion_window_bytes * coordinator.video_queue_target_us
            &&& rtt_us >= 5_000 && budget + coordinator.interactive_reserve_bytes < most ==> {
                &&& budget >= coordinator.min_video_queue_bytes
                &&& path.congestion_window_bytes * coordinator.video_queue_target_us < (budget + 1) * rtt_us
            }
        }),
{
    let most = if coordinator.counters.send_buffer_capacity > path.available_bytes {
        coordinator.counters.send_buffer_capacity as nat
    } else {
        path.available_bytes as nat
    };
    super::budget::budget_goes_out_within_the_target(
        path.congestion_window_bytes as nat,
        duration_nanos(path.rtt) / 1_000,
        most,
        coordinator.interactive_reserve_bytes as nat,
        coordinator.video_queue_target_us as nat,
        coordinator.min_video_queue_bytes as nat,
    );
}

/// Only deltas are remembered for the percentiles: with the bytes of their datagrams, and with those and all that
/// waited before them.
pub proof fn only_deltas_are_measured(
    sizes: SizeWindowModel,
    coordinator: QuicDatagramSendCoordinator,
    metadata: VideoFrameMetadata,
    datagram_bytes: usize,
    path: DatagramPath,
    now: Timestamp,
)
    requires
        sizes.samples.len() <= 512,
        datagram_bytes <= u32::MAX,
        coordinator.counters.send_buffer_capacity + datagram_bytes <= u32::MAX,
    ensures
        ({
            let after = sizes_after(sizes, coordinator, metadata, datagram_bytes, path, now);
            let waits = if coordinator.counters.send_buffer_capacity > path.available_bytes {
                coordinator.counters.send_buffer_capacity - path.available_bytes
            } else {
                0
            };
            &&& metadata.flags % 2 == 1 ==> after == sizes
            &&& metadata.flags % 2 == 0 ==> {
                &&& after.samples.len() > 0
                &&& after.samples.last().datagram_bytes == datagram_bytes
                &&& after.samples.last().required_bytes == waits + datagram_bytes
                &&& after.last_recorded_at == Some(now)
            }
        }),
{
    keyframes_have_odd_flags(metadata);
}

/// A frame that was looked at is counted whatever becomes of it: its own size, the largest so far, and the
/// same of its fragments, and the budget and the delay that it met. Percentiles change only with a delta, and
/// only every half second.
pub proof fn frames_are_counted_whatever_becomes_of_them(
    sizes: SizeWindowModel,
    coordinator: QuicDatagramSendCoordinator,
    metadata: VideoFrameMetadata,
    frame_bytes: usize,
    fragments: Seq<Vec<u8>>,
    path: DatagramPath,
    now: Timestamp,
)
    requires
        fragments.len() <= u64::MAX,
    ensures
        ({
            let before = coordinator.counters;
            let after = counters_after(sizes, coordinator, metadata, frame_bytes, fragments, path, now);
            &&& after.video_frame_bytes == frame_bytes
            &&& after.video_frame_bytes_peak >= frame_bytes
            &&& after.video_frame_bytes_peak >= before.video_frame_bytes_peak
            &&& after.video_frame_bytes_peak == frame_bytes || after.video_frame_bytes_peak
                == before.video_frame_bytes_peak
            &&& after.video_frame_fragments == fragments.len()
            &&& after.video_frame_fragments_peak >= fragments.len()
            &&& after.video_frame_fragments_peak >= before.video_frame_fragments_peak
            &&& after.video_frame_fragments_peak == fragments.len() || after.video_frame_fragments_peak
                == before.video_frame_fragments_peak
            &&& after.video_queue_budget == path_budget(coordinator, path) as u64
            &&& after.video_queue_delay_us == path_delay_us(coordinator, path) as u64
            &&& after.send_buffer_space == path.available_bytes
            &&& after.video_frames_sent == before.video_frames_sent
            &&& after.video_frames_rejected == before.video_frames_rejected
            &&& after.video_datagrams_sent == before.video_datagrams_sent
            &&& after.audio_packets_dropped == before.audio_packets_dropped
            &&& after.mouse_updates_dropped == before.mouse_updates_dropped
            &&& metadata.flags % 2 == 1 || now.nanos < sizes.last_published_at.nanos + 500_000_000 ==> {
                &&& after.video_frame_datagram_bytes_p95 == before.video_frame_datagram_bytes_p95
                &&& after.video_frame_datagram_bytes_p99 == before.video_frame_datagram_bytes_p99
                &&& after.video_frame_required_bytes_p95 == before.video_frame_required_bytes_p95
                &&& after.video_frame_required_bytes_p99 == before.video_frame_required_bytes_p99
            }
            &&& metadata.flags % 2 == 0 && now.nanos >= sizes.last_published_at.nanos + 500_000_000 ==> {
                let measured = sizes_after(
                    sizes,
                    coordinator,
                    metadata,
                    counted_bytes(fragment_bytes(fragments)),
                    path,
                    now,
                );
                (
                    after.video_frame_datagram_bytes_p95,
                    after.video_frame_datagram_bytes_p99,
                    after.video_frame_required_bytes_p95,
                    after.video_frame_required_bytes_p99,
                ) == size_percentiles(measured.samples)
            }
        }),
{
    keyframes_have_odd_flags(metadata);
}

/// How long what waits takes on the way to the peer, at one congestion window per round trip, rounded down.
pub proof fn path_delay_is_the_time_of_what_waits(coordinator: QuicDatagramSendCoordinator, path: DatagramPath)
    requires
        coordinator.counters.send_buffer_capacity <= usize::MAX,
        path.congestion_window_bytes > 0,
    ensures
        ({
            let delay = path_delay_us(coordinator, path);
            let rtt_us = duration_nanos(path.rtt) / 1_000;
            let waits = if coordinator.counters.send_buffer_capacity > path.available_bytes {
                (coordinator.counters.send_buffer_capacity - path.available_bytes) as nat
            } else {
                0
            };
            &&& delay * path.congestion_window_bytes <= waits * rtt_us
            &&& waits * rtt_us <= u128::MAX && delay < u64::MAX ==> waits * rtt_us < (delay + 1)
                * path.congestion_window_bytes
        }),
{
    let waits = if coordinator.counters.send_buffer_capacity > path.available_bytes {
        (coordinator.counters.send_buffer_capacity - path.available_bytes) as nat
    } else {
        0
    };
    super::budget::delay_is_the_time_of_what_waits(
        waits,
        path.congestion_window_bytes as nat,
        duration_nanos(path.rtt) / 1_000,
    );
}

/// An audio packet is sent if and only if it is not larger than the space that is left. It bears the number that is next, and
/// the one after it bears a higher one, whether or not it was sent. What is dropped is counted; the numbers of
/// everything else stay.
pub proof fn audio_is_sent_where_there_is_space(
    before: SenderModel,
    after: SenderModel,
    coordinator: QuicDatagramSendCoordinator,
    coordinator_after: QuicDatagramSendCoordinator,
    datagram_bytes: usize,
    available_bytes: usize,
    sequence: Result<Option<u64>, QuicTransportError>,
)
    requires
        is_audio_step(before, after, coordinator, coordinator_after, datagram_bytes, available_bytes, sequence),
    ensures
        before.next_audio_sequence == u64::MAX <==> sequence is Err,
        sequence is Err ==> after == before && coordinator_after == coordinator,
        sequence matches Ok(sent) ==> {
            &&& sent is Some <==> datagram_bytes <= available_bytes
            &&& sent matches Some(number) ==> number == before.next_audio_sequence
            &&& after.next_audio_sequence == before.next_audio_sequence + 1
            &&& after == (SenderModel { next_audio_sequence: after.next_audio_sequence, ..before })
            &&& coordinator_after.counters.send_buffer_space == available_bytes as u64
            &&& sent is Some ==> coordinator_after.counters.audio_packets_dropped == coordinator.counters.audio_packets_dropped
            &&& sent is None && coordinator.counters.audio_packets_dropped < u64::MAX ==> coordinator_after.counters.audio_packets_dropped
                == coordinator.counters.audio_packets_dropped + 1
            &&& coordinator_after.counters.video_frames_sent == coordinator.counters.video_frames_sent
            &&& coordinator_after.counters.video_frames_rejected == coordinator.counters.video_frames_rejected
        },
{
}

/// A mouse movement is sent if and only if it is not larger than the space that is left. It bears the number that is next, and
/// the one after it bears a higher one, whether or not it was sent. What is dropped is counted; the numbers of
/// everything else stay.
pub proof fn movements_are_sent_where_there_is_space(
    before: SenderModel,
    after: SenderModel,
    coordinator: QuicDatagramSendCoordinator,
    coordinator_after: QuicDatagramSendCoordinator,
    datagram_bytes: usize,
    available_bytes: usize,
    sequence: Result<Option<u64>, QuicTransportError>,
)
    requires
        is_mouse_step(before, after, coordinator, coordinator_after, datagram_bytes, available_bytes, sequence),
    ensures
        before.next_mouse_sequence == u64::MAX <==> sequence is Err,
        sequence is Err ==> after == before && coordinator_after == coordinator,
        sequence matches Ok(sent) ==> {
            &&& sent is Some <==> datagram_bytes <= available_bytes
            &&& sent matches Some(number) ==> number == before.next_mouse_sequence
            &&& after.next_mouse_sequence == before.next_mouse_sequence + 1
            &&& after == (SenderModel { next_mouse_sequence: after.next_mouse_sequence, ..before })
            &&& coordinator_after.counters.send_buffer_space == available_bytes as u64
            &&& sent is Some ==> coordinator_after.counters.mouse_updates_dropped == coordinator.counters.mouse_updates_dropped
            &&& sent is None && coordinator.counters.mouse_updates_dropped < u64::MAX ==> coordinator_after.counters.mouse_updates_dropped
                == coordinator.counters.mouse_updates_dropped + 1
            &&& coordinator_after.counters.video_frames_sent == coordinator.counters.video_frames_sent
            &&& coordinator_after.counters.video_frames_rejected == coordinator.counters.video_frames_rejected
        },
{
}

} // verus!
