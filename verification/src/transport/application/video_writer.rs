//! The steps in which a video frame goes out.

use super::metrics::{raise, raised, QuicApplicationMetrics, ReliableKeyframeState};
use super::ordering::VideoOrderingGate;
use super::outbound::{apply_video_reference_epoch, epochs_after, reference_epoch, replaces,
    should_replace_pending_video, tagged, VideoOutbound, VideoOutboundTrackKey};
use super::send_recovery::{refreshes_for, SendRecoveryModel, VideoSendRecovery};
use crate::ordered::OrderedMap;
use crate::outbox::bytes_view;
use crate::time::Timestamp;
use crate::transport::datagram::sender::VideoDatagramSendOutcome;
use crate::transport::video::{keyframes_have_odd_flags, VideoStreamKey};
use vstd::prelude::*;

verus! {

/// How a video frame goes out.
#[derive(Clone, Copy, Debug, PartialEq, Eq, Structural)]
pub enum VideoWriteAction {
    /// Not at all, and the writer stops: the connection is being torn down.
    Stop,
    /// Not yet: the display switch before it was not acknowledged.
    Wait,
    /// Not at all: its track waits for a keyframe.
    Skip,
    /// On the reliable channel, as the keyframe that the deltas behind the barrier refer to.
    SendReliable(Option<u64>),
    /// In datagrams.
    SendDatagrams,
}

/// What the writer does with the frame that is next.
#[derive(Clone, Copy, Debug, PartialEq, Eq, Structural)]
pub enum WriteStep {
    /// Drops it and stops: the connection is being torn down.
    Stop,
    /// Waits: the display switch before the frame was not acknowledged.
    Wait,
    /// Sends it.
    Prepare,
}

/// What the writer does with a frame.
pub open spec fn write_step(item: VideoOutbound, teardown: bool, gate: VideoOrderingGate) -> WriteStep {
    if teardown {
        WriteStep::Stop
    } else if !gate.opens(item.ordering_epoch) {
        WriteStep::Wait
    } else {
        WriteStep::Prepare
    }
}

/// Nobody waits for the display switch of a frame that was dropped because the connection is being torn
/// down; otherwise nothing changed.
pub open spec fn is_gate_after_step(
    before: VideoOrderingGate,
    after: VideoOrderingGate,
    item: VideoOutbound,
    teardown: bool,
) -> bool {
    &&& after.requested() == before.requested()
    &&& after.acknowledged() == if teardown && before.acknowledged() < item.ordering_epoch {
        item.ordering_epoch
    } else {
        before.acknowledged()
    }
    &&& before.wf() && item.ordering_epoch <= before.requested() ==> after.wf()
}

/// What the writer does with a frame: it does not send it before the display switch before it was
/// acknowledged. If the connection is being torn down, nobody waits for that switch any more.
pub fn next_write_step(item: &VideoOutbound, teardown: bool, video_ordering: &mut VideoOrderingGate) -> (step: WriteStep)
    ensures
        step == write_step(*item, teardown, *old(video_ordering)),
        is_gate_after_step(*old(video_ordering), *final(video_ordering), *item, teardown),
{
    if teardown {
        video_ordering.cancel_epoch(item.ordering_epoch);
        WriteStep::Stop
    } else if !video_ordering.is_open(item.ordering_epoch) {
        WriteStep::Wait
    } else {
        WriteStep::Prepare
    }
}

/// How a frame goes out that is sent: a keyframe on the reliable channel if there is one for it, everything else
/// in datagrams.
pub open spec fn send_action(
    item: VideoOutbound,
    epochs: Map<VideoStreamKey, u64>,
    barrier: bool,
    reliable: bool,
) -> VideoWriteAction {
    if item.metadata.spec_is_keyframe() && reliable {
        VideoWriteAction::SendReliable(reference_epoch(item, epochs, barrier))
    } else {
        VideoWriteAction::SendDatagrams
    }
}

/// The writer of video frames.
pub struct VideoWriter {
    reference_epochs: OrderedMap<VideoStreamKey, u64>,
    keyframe_barrier: bool,
    reliable_keyframes: bool,
}

impl VideoWriter {
    /// The last keyframes of the streams.
    pub closed spec fn epochs(&self) -> Map<VideoStreamKey, u64> {
        self.reference_epochs@
    }

    /// Deltas say which keyframe they refer to.
    pub closed spec fn barrier(&self) -> bool {
        self.keyframe_barrier
    }

    /// Keyframes go out on the reliable channel.
    pub closed spec fn reliable(&self) -> bool {
        self.reliable_keyframes
    }

    /// What the writer keeps is well formed.
    pub closed spec fn wf(&self) -> bool {
        self.reference_epochs.wf()
    }

    /// No frame went out yet.
    pub fn new(keyframe_barrier: bool, reliable_keyframes: bool) -> (writer: Self)
        ensures
            writer.wf(),
            writer.epochs() == Map::<VideoStreamKey, u64>::empty(),
            writer.barrier() == keyframe_barrier,
            writer.reliable() == reliable_keyframes,
    {
        VideoWriter { reference_epochs: OrderedMap::new(), keyframe_barrier, reliable_keyframes }
    }

    /// Decides whether a frame goes out now and how, and tags a delta with the keyframe that it refers
    /// to. A frame does not go out before the display switch before it was acknowledged.
    pub fn prepare(
        &mut self,
        item: &mut VideoOutbound,
        teardown: bool,
        video_ordering: &mut VideoOrderingGate,
        recovery: &mut VideoSendRecovery,
        metrics: &mut QuicApplicationMetrics,
    ) -> (action: VideoWriteAction)
        requires
            old(self).wf(),
            old(recovery).wf(),
        ensures
            final(self).wf(),
            final(recovery).wf(),
            final(self).barrier() == old(self).barrier(),
            final(self).reliable() == old(self).reliable(),
            final(recovery).asked() == old(recovery).asked(),
            final(recovery).scoped() == old(recovery).scoped(),
            final(recovery).refresh_queue() == old(recovery).refresh_queue(),
            is_gate_after_step(*old(video_ordering), *final(video_ordering), *old(item), teardown),
            action is SendReliable || action is SendDatagrams ==> old(video_ordering).opens(old(item).ordering_epoch),
            is_prepared(
                *old(self),
                *final(self),
                *old(item),
                *final(item),
                teardown,
                *old(video_ordering),
                old(recovery)@,
                final(recovery)@,
                *old(metrics),
                *final(metrics),
                action,
            ),
    {
        match next_write_step(item, teardown, video_ordering) {
            WriteStep::Stop => {
                return VideoWriteAction::Stop;
            },
            WriteStep::Wait => {
                return VideoWriteAction::Wait;
            },
            WriteStep::Prepare => {},
        }
        if !item.is_keyframe() && recovery.suppress_delta(item.track_key, item.metadata.frame_id, metrics) {
            return VideoWriteAction::Skip;
        }
        let epoch: Option<u64> = apply_video_reference_epoch(item, &mut self.reference_epochs, self.keyframe_barrier);
        if item.is_keyframe() && self.reliable_keyframes {
            VideoWriteAction::SendReliable(epoch)
        } else {
            VideoWriteAction::SendDatagrams
        }
    }
}

/// A frame was made ready to go out, as far as it goes out now. A delta of a track that waits for a keyframe is
/// skipped; a frame that goes out says what it refers to. While the frame may not go out nothing changes.
pub open spec fn is_prepared(
    writer: VideoWriter,
    writer_after: VideoWriter,
    item: VideoOutbound,
    item_after: VideoOutbound,
    teardown: bool,
    gate: VideoOrderingGate,
    recovery: SendRecoveryModel,
    recovery_after: SendRecoveryModel,
    metrics: QuicApplicationMetrics,
    metrics_after: QuicApplicationMetrics,
    action: VideoWriteAction,
) -> bool {
    match write_step(item, teardown, gate) {
        WriteStep::Prepare => {
            let keyframe = item.metadata.spec_is_keyframe();
            let suppressed = !keyframe && recovery.suppresses(item.track_key);
            &&& recovery_after == if keyframe {
                recovery
            } else {
                recovery.delta(item.track_key, item.metadata.frame_id)
            }
            &&& metrics_after == (QuicApplicationMetrics {
                video_recovery_suppressed_frames: if suppressed {
                    raised(metrics.video_recovery_suppressed_frames, 1)
                } else {
                    metrics.video_recovery_suppressed_frames
                },
                ..metrics
            })
            &&& if suppressed {
                &&& action is Skip
                &&& item_after == item
                &&& writer_after.epochs() == writer.epochs()
            } else {
                &&& action == send_action(
                    item,
                    writer.epochs(),
                    writer.barrier(),
                    writer.reliable(),
                )
                &&& item_after == (VideoOutbound {
                    metadata: tagged(item, writer.epochs(), writer.barrier()),
                    ..item
                })
                &&& writer_after.epochs() == epochs_after(item, writer.epochs(), writer.barrier())
            }
        },
        step => {
            &&& action == if step is Stop {
                VideoWriteAction::Stop
            } else {
                VideoWriteAction::Wait
            }
            &&& item_after == item
            &&& writer_after.epochs() == writer.epochs()
            &&& recovery_after == recovery
            &&& metrics_after == metrics
        },
    }
}

/// What is kept of a frame that waits and a newer one of its track.
pub open spec fn kept_of(item: VideoOutbound, newer: VideoOutbound) -> VideoOutbound {
    if replaces(item, newer) {
        newer
    } else {
        item
    }
}

/// Losing the newer frame, or the older one for a newer delta, breaks the track.
pub open spec fn breaks_track(item: VideoOutbound, newer: VideoOutbound) -> bool {
    !replaces(item, newer) || !newer.metadata.spec_is_keyframe()
}

/// A newer frame of the same track comes while a frame waits for its display switch: one of the two
/// is dropped.
pub fn merge_newer_frame(
    item: VideoOutbound,
    newer: VideoOutbound,
    recovery: &mut VideoSendRecovery,
    metrics: &mut QuicApplicationMetrics,
) -> (kept: VideoOutbound)
    requires
        old(recovery).wf(),
    ensures
        final(recovery).wf(),
        final(recovery).scoped() == old(recovery).scoped(),
        final(recovery).refresh_queue() == old(recovery).refresh_queue(),
        kept == kept_of(item, newer),
        final(recovery)@ == if breaks_track(item, newer) {
            old(recovery)@.lose(newer.track_key, newer.metadata.frame_id)
        } else {
            old(recovery)@
        },
        final(recovery).asked() == if breaks_track(item, newer) {
            old(recovery).asked() + refreshes_for(
                old(recovery)@,
                old(recovery).scoped(),
                newer.track_key,
                newer.source_info,
            )
        } else {
            old(recovery).asked()
        },
        *final(metrics) == (QuicApplicationMetrics {
            video_sender_replacements: raised(old(metrics).video_sender_replacements, 1),
            video_sender_reference_resets: if breaks_track(item, newer) && old(recovery)@.is_first_loss(
                newer.track_key,
            ) {
                raised(old(metrics).video_sender_reference_resets, 1)
            } else {
                old(metrics).video_sender_reference_resets
            },
            ..*old(metrics)
        }),
{
    raise(&mut metrics.video_sender_replacements, 1);
    if should_replace_pending_video(&item, &newer) {
        if !newer.is_keyframe() {
            recovery.enter(newer.track_key, newer.source_info, newer.metadata.frame_id, metrics);
        }
        newer
    } else {
        recovery.enter(newer.track_key, newer.source_info, newer.metadata.frame_id, metrics);
        item
    }
}

/// A keyframe went out on the reliable channel.
pub fn reliable_keyframe_sent(
    item: &VideoOutbound,
    barrier_epoch: Option<u64>,
    now: Timestamp,
    recovery: &mut VideoSendRecovery,
    metrics: &mut QuicApplicationMetrics,
)
    requires
        old(recovery).wf(),
    ensures
        final(recovery).wf(),
        final(recovery).asked() == old(recovery).asked(),
        final(recovery).scoped() == old(recovery).scoped(),
        final(recovery).refresh_queue() == old(recovery).refresh_queue(),
        final(recovery)@ == old(recovery)@.keyframe(item.track_key, item.metadata.frame_id),
        *final(metrics) == (QuicApplicationMetrics {
            reliable_keyframes_sent: raised(old(metrics).reliable_keyframes_sent, 1),
            reliable_keyframe_last_bytes: bytes_view(item.payload).len() as u64,
            reliable_keyframe_last_state: match (item.source_info, barrier_epoch) {
                (Some(source), Some(barrier_epoch)) => Some(
                    ReliableKeyframeState {
                        display: source.key.display,
                        stream_id: source.key.stream_id,
                        barrier_epoch,
                        sent_at: now,
                    },
                ),
                _ => old(metrics).reliable_keyframe_last_state,
            },
            ..*old(metrics)
        }),
{
    raise(&mut metrics.reliable_keyframes_sent, 1);
    metrics.reliable_keyframe_last_bytes = item.payload.len() as u64;
    if let (Some(source), Some(barrier_epoch)) = (item.source_info, barrier_epoch) {
        metrics.reliable_keyframe_last_state = Some(
            ReliableKeyframeState {
                display: source.key.display,
                stream_id: source.key.stream_id,
                barrier_epoch,
                sent_at: now,
            },
        );
    }
    recovery.keyframe_sent(item.track_key, item.metadata.frame_id);
}

/// The sender's knowledge after a frame was sent in datagrams, or found no space. Sending a keyframe may end the
/// waiting of its track; a frame without space breaks its track, unless the connection is being torn down.
pub open spec fn recovery_after_datagrams(
    recovery: SendRecoveryModel,
    item: VideoOutbound,
    sent: bool,
    teardown: bool,
) -> SendRecoveryModel {
    if sent {
        if item.metadata.spec_is_keyframe() {
            recovery.keyframe(item.track_key, item.metadata.frame_id)
        } else {
            recovery
        }
    } else if teardown {
        recovery
    } else {
        recovery.lose(item.track_key, item.metadata.frame_id)
    }
}

/// Sending a frame in datagrams was settled. A frame that found no space breaks its track, and the encoder is asked
/// for a keyframe, unless the connection is being torn down: then the writer stops, and nobody waits any more for
/// the display switch before the frame.
pub open spec fn is_settled(
    item: VideoOutbound,
    sent: bool,
    teardown: bool,
    gate: VideoOrderingGate,
    gate_after: VideoOrderingGate,
    recovery: VideoSendRecovery,
    recovery_after: VideoSendRecovery,
    metrics: QuicApplicationMetrics,
    metrics_after: QuicApplicationMetrics,
    goes_on: bool,
) -> bool {
    &&& goes_on == (sent || !teardown)
    &&& gate_after.acknowledged() == if !goes_on && gate.acknowledged()
        < item.ordering_epoch {
        item.ordering_epoch
    } else {
        gate.acknowledged()
    }
    &&& recovery_after@ == recovery_after_datagrams(recovery@, item, sent, teardown)
    &&& recovery_after.asked() == if goes_on && !sent {
        recovery.asked() + refreshes_for(
            recovery@,
            recovery.scoped(),
            item.track_key,
            item.source_info,
        )
    } else {
        recovery.asked()
    }
    &&& metrics_after == (QuicApplicationMetrics {
        video_datagram_frames_rejected_teardown: if goes_on {
            metrics.video_datagram_frames_rejected_teardown
        } else {
            raised(metrics.video_datagram_frames_rejected_teardown, 1)
        },
        video_sender_reference_resets: if goes_on && !sent && recovery@.is_first_loss(
            item.track_key,
        ) {
            raised(metrics.video_sender_reference_resets, 1)
        } else {
            metrics.video_sender_reference_resets
        },
        ..metrics
    })
}

/// What follows from sending a frame in datagrams, for every way that can have gone. A frame that
/// found no space breaks its track, unless the connection is being torn down. Says whether the writer
/// goes on.
pub fn settle_video_datagrams(
    item: &VideoOutbound,
    outcome: VideoDatagramSendOutcome,
    teardown: bool,
    video_ordering: &mut VideoOrderingGate,
    recovery: &mut VideoSendRecovery,
    metrics: &mut QuicApplicationMetrics,
) -> (goes_on: bool)
    requires
        old(recovery).wf(),
    ensures
        final(recovery).wf(),
        final(recovery).scoped() == old(recovery).scoped(),
        final(recovery).refresh_queue() == old(recovery).refresh_queue(),
        old(video_ordering).wf() && item.ordering_epoch <= old(video_ordering).requested()
            ==> final(video_ordering).wf(),
        final(video_ordering).requested() == old(video_ordering).requested(),
        is_settled(
            *item,
            outcome is Sent,
            teardown,
            *old(video_ordering),
            *final(video_ordering),
            *old(recovery),
            *final(recovery),
            *old(metrics),
            *final(metrics),
            goes_on,
        ),
{
    match outcome {
        VideoDatagramSendOutcome::Sent { .. } => {
            if item.is_keyframe() {
                recovery.keyframe_sent(item.track_key, item.metadata.frame_id);
            }
            true
        },
        VideoDatagramSendOutcome::RejectedNoSpace { .. } => {
            if teardown {
                video_ordering.cancel_epoch(item.ordering_epoch);
                raise(&mut metrics.video_datagram_frames_rejected_teardown, 1);
                return false;
            }
            recovery.enter(item.track_key, item.source_info, item.metadata.frame_id, metrics);
            true
        },
    }
}

/// After a frame found no space, the deltas of its track are not sent until a newer keyframe was.
pub proof fn rejected_frame_silences_its_track(recovery: SendRecoveryModel, item: VideoOutbound, keyframe_id: u64)
    requires
        recovery.sound(),
    ensures
        ({
            let lost = recovery.lose(item.track_key, item.metadata.frame_id);
            &&& lost.suppresses(item.track_key)
            &&& keyframe_id <= item.metadata.frame_id ==> lost.keyframe(item.track_key, keyframe_id).suppresses(
                item.track_key,
            )
        }),
{
}

/// While the connection is up a frame goes out if and only if the switch before it was acknowledged, and waits
/// otherwise; while it is torn down no frame goes out.
pub proof fn frames_wait_for_the_switch_before_them(item: VideoOutbound, teardown: bool, gate: VideoOrderingGate)
    ensures
        write_step(item, teardown, gate) is Stop <==> teardown,
        write_step(item, teardown, gate) is Wait <==> (!teardown && gate.acknowledged() < item.ordering_epoch),
        write_step(item, teardown, gate) is Prepare <==> (!teardown && gate.acknowledged() >= item.ordering_epoch),
{
}

/// A keyframe goes out on the reliable channel if there is one for keyframes; a delta never does.
pub proof fn deltas_go_out_in_datagrams(
    item: VideoOutbound,
    epochs: Map<VideoStreamKey, u64>,
    barrier: bool,
    reliable: bool,
)
    ensures
        send_action(item, epochs, barrier, reliable) is SendDatagrams <==> (item.metadata.flags % 2 == 0 || !reliable),
        send_action(item, epochs, barrier, reliable) matches VideoWriteAction::SendReliable(epoch) ==> {
            &&& item.metadata.flags % 2 == 1
            &&& reliable
            &&& epoch is Some <==> (barrier && item.source_info is Some)
            &&& epoch matches Some(epoch) ==> epoch == item.source_info->0.frame_id
        },
        !(send_action(item, epochs, barrier, reliable) is Skip),
        !(send_action(item, epochs, barrier, reliable) is Wait),
        !(send_action(item, epochs, barrier, reliable) is Stop),
{
    keyframes_have_odd_flags(item.metadata);
}

/// Of a frame that waits and a newer one of its track one is kept: the newer one, unless it belongs to an earlier
/// switch, or is a delta and the other a keyframe of the same switch. The track is broken unless the newer one is
/// kept and is a keyframe.
pub proof fn one_of_two_frames_is_kept(item: VideoOutbound, newer: VideoOutbound)
    ensures
        ({
            let older_stays = newer.ordering_epoch < item.ordering_epoch || (newer.ordering_epoch == item.ordering_epoch
                && newer.metadata.flags % 2 == 0 && item.metadata.flags % 2 == 1);
            &&& older_stays ==> kept_of(item, newer) == item
            &&& !older_stays ==> kept_of(item, newer) == newer
            &&& breaks_track(item, newer) <==> (older_stays || newer.metadata.flags % 2 == 0)
        }),
{
    keyframes_have_odd_flags(item.metadata);
    keyframes_have_odd_flags(newer.metadata);
}

/// Only a frame that found no space while the connection is up makes its track wait; only a keyframe that was sent
/// ends the waiting of its track, if it is new enough; nothing is done to other tracks.
pub proof fn frames_without_space_break_their_track(
    recovery: SendRecoveryModel,
    item: VideoOutbound,
    sent: bool,
    teardown: bool,
    other: VideoOutboundTrackKey,
)
    requires
        recovery.sound(),
        recovery.tracks.contains_key(item.track_key) || recovery.tracks.dom().len() < 16,
        other != item.track_key,
    ensures
        ({
            let after = recovery_after_datagrams(recovery, item, sent, teardown);
            &&& !sent && !teardown ==> after.suppresses(item.track_key) && after.tracks[item.track_key].minimum_keyframe_id
                >= item.metadata.frame_id
            &&& !sent && teardown ==> after == recovery
            &&& sent && item.metadata.flags % 2 == 0 ==> after == recovery
            &&& sent && item.metadata.flags % 2 == 1 ==> (after.suppresses(item.track_key) <==> (recovery.suppresses(
                item.track_key,
            ) && item.metadata.frame_id <= recovery.tracks[item.track_key].minimum_keyframe_id))
            &&& after.suppresses(other) == recovery.suppresses(other)
        }),
{
    keyframes_have_odd_flags(item.metadata);
}

/// A frame goes out if and only if the connection is up, the switch before it was acknowledged, and it is a keyframe
/// or a delta of a track that does not wait for one. A delta that is skipped is counted, and a frame that does not go
/// out is left as it is.
pub proof fn frames_go_out_unless_something_holds_them(
    writer: VideoWriter,
    writer_after: VideoWriter,
    item: VideoOutbound,
    item_after: VideoOutbound,
    teardown: bool,
    gate: VideoOrderingGate,
    recovery: SendRecoveryModel,
    recovery_after: SendRecoveryModel,
    metrics: QuicApplicationMetrics,
    metrics_after: QuicApplicationMetrics,
    action: VideoWriteAction,
)
    requires
        recovery.sound(),
        is_prepared(
            writer,
            writer_after,
            item,
            item_after,
            teardown,
            gate,
            recovery,
            recovery_after,
            metrics,
            metrics_after,
            action,
        ),
    ensures
        ({
            let waits = recovery.tracks.contains_key(item.track_key);
            let keyframe = item.metadata.flags % 2 == 1;
            let goes_out = action is SendReliable || action is SendDatagrams;
            &&& goes_out <==> (!teardown && gate.acknowledged() >= item.ordering_epoch && (keyframe || !waits))
            &&& action is Stop <==> teardown
            &&& action is Wait <==> (!teardown && gate.acknowledged() < item.ordering_epoch)
            &&& action is SendReliable ==> keyframe
            &&& goes_out && keyframe && writer.reliable() ==> action is SendReliable
            &&& !goes_out ==> item_after == item && writer_after.epochs() == writer.epochs()
            &&& keyframe ==> item_after == item && recovery_after == recovery
            &&& item_after.payload == item.payload
            &&& item_after.track_key == item.track_key
            &&& item_after.metadata.frame_id == item.metadata.frame_id
            &&& item_after.metadata.flags == item.metadata.flags
            &&& !(action is Skip) ==> metrics_after == metrics
            &&& action is Skip && metrics.video_recovery_suppressed_frames < u64::MAX
                ==> metrics_after.video_recovery_suppressed_frames == metrics.video_recovery_suppressed_frames + 1
        }),
{
    keyframes_have_odd_flags(item.metadata);
}

/// The writer stops only if a frame found no space while the connection is torn down. Otherwise a frame without space
/// makes its track wait, and the encoder is asked for a keyframe if the track did not wait already; a frame that was
/// sent asks for nothing.
pub proof fn frames_without_space_ask_for_a_keyframe(
    item: VideoOutbound,
    sent: bool,
    teardown: bool,
    gate: VideoOrderingGate,
    gate_after: VideoOrderingGate,
    recovery: VideoSendRecovery,
    recovery_after: VideoSendRecovery,
    metrics: QuicApplicationMetrics,
    metrics_after: QuicApplicationMetrics,
    goes_on: bool,
)
    requires
        recovery@.sound(),
        is_settled(
            item,
            sent,
            teardown,
            gate,
            gate_after,
            recovery,
            recovery_after,
            metrics,
            metrics_after,
            goes_on,
        ),
    ensures
        !goes_on <==> (!sent && teardown),
        goes_on ==> gate_after.acknowledged() == gate.acknowledged(),
        !goes_on ==> gate_after.acknowledged() >= item.ordering_epoch && recovery_after@ == recovery@,
        !goes_on && metrics.video_datagram_frames_rejected_teardown < u64::MAX
            ==> metrics_after.video_datagram_frames_rejected_teardown == metrics.video_datagram_frames_rejected_teardown
            + 1,
        sent || teardown ==> recovery_after.asked() == recovery.asked(),
        sent || teardown ==> metrics_after.video_sender_reference_resets == metrics.video_sender_reference_resets,
        !sent && !teardown ==> recovery_after@.suppresses(item.track_key),
        !sent && !teardown && recovery@.tracks.contains_key(item.track_key) ==> recovery_after.asked() == recovery.asked(),
        !sent && !teardown && !recovery@.tracks.contains_key(item.track_key) && !recovery.scoped()
            ==> recovery_after.asked().len() == recovery.asked().len() + 1,
        !sent && !teardown && !recovery@.tracks.contains_key(item.track_key)
            && metrics.video_sender_reference_resets < u64::MAX ==> metrics_after.video_sender_reference_resets
            == metrics.video_sender_reference_resets + 1,
        sent ==> metrics_after == metrics,
{
}

/// Once the connection is torn down nothing waits any more for the display switch before a frame that is dropped; as
/// long as it is up, looking at a frame acknowledges nothing. No switch is asked for either way.
pub proof fn dropped_frames_hold_nothing_up(
    before: VideoOrderingGate,
    after: VideoOrderingGate,
    item: VideoOutbound,
    teardown: bool,
)
    requires
        is_gate_after_step(before, after, item, teardown),
    ensures
        after.requested() == before.requested(),
        !teardown ==> after.acknowledged() == before.acknowledged(),
        teardown ==> after.acknowledged() >= item.ordering_epoch,
        after.acknowledged() >= before.acknowledged(),
        after.acknowledged() == before.acknowledged() || after.acknowledged() == item.ordering_epoch,
{
}

} // verus!
