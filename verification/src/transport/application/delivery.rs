//! How received video reaches the application, and how a keyframe is asked for.

use super::barrier::{no_outcome, HoldbackModel, OutcomeModel};
use super::classify::{payload_source, refresh_video_message, video_reference_refresh_message, video_source_info};
use super::holdback::{VideoEpochHoldback, VideoHoldbackOutcome};
use super::metrics::{raise, raised, QuicApplicationMetrics};
use super::outbound::{outbound, OutboundPayload, ReliableOutbound};
use super::receive_recovery::{RecoveryModel, VideoKeyframeRequest, VideoReceiveDecision, VideoReceiveRecovery};
use crate::message::{misc_message, Message, MessageUnion, MiscUnion};
use crate::numbers::sum_u64;
use crate::outbox::{bytes_as_slice, bytes_mut_from_slice, bytes_view, inbound_bytes, InboundItem, Outbox, SendOutcome};
use crate::time::{duration_nanos, Timestamp};
use crate::transport::protocol::MessageType;
use crate::transport::video::{VideoCodec, VideoReassemblyOutcome, VideoReassemblyStats, VideoSourceInfo, VideoStreamKey};
use bytes::Bytes;
use std::time::Duration;
use vstd::prelude::*;

verus! {

/// What delivering a frame came to.
#[derive(Clone, Copy, Debug, PartialEq, Eq, Structural)]
pub struct VideoPayloadDelivery {
    /// The application still listens.
    pub alive: bool,
    /// A fresh keyframe is wanted.
    pub needs_keyframe: bool,
    /// Nothing may be shown without it.
    pub strict_recovery: bool,
}

/// A gap on a stream is not glossed over: either nowhere, or not for this codec.
pub open spec fn is_strict(info: VideoSourceInfo, strict_gap_recovery: bool) -> bool {
    strict_gap_recovery || info.codec.spec_is_reference_sensitive()
}

/// The frame is handed to the application.
pub open spec fn is_delivered(recovery: RecoveryModel, info: VideoSourceInfo, strict_gap_recovery: bool) -> bool {
    let decision = recovery.observe(info, is_strict(info, strict_gap_recovery)).1;
    decision is Accept || decision is AcceptAfterGap
}

/// What delivering a frame comes to. `outcome` is what became of handing it over, if it was.
pub open spec fn payload_delivery(
    recovery: RecoveryModel,
    info: VideoSourceInfo,
    strict_gap_recovery: bool,
    outcome: SendOutcome,
) -> VideoPayloadDelivery {
    let strict = is_strict(info, strict_gap_recovery);
    let (observed, decision) = recovery.observe(info, strict);
    match decision {
        VideoReceiveDecision::Suppress => VideoPayloadDelivery {
            alive: true,
            needs_keyframe: true,
            strict_recovery: strict,
        },
        VideoReceiveDecision::SuppressAfterGap => VideoPayloadDelivery {
            alive: true,
            needs_keyframe: true,
            strict_recovery: true,
        },
        _ => match outcome {
            SendOutcome::Sent => VideoPayloadDelivery {
                alive: true,
                needs_keyframe: decision is AcceptAfterGap || (info.keyframe && observed.streams.contains_key(info.key)
                    && observed.streams[info.key].awaiting_keyframe),
                strict_recovery: false,
            },
            SendOutcome::Full => VideoPayloadDelivery { alive: true, needs_keyframe: true, strict_recovery: true },
            SendOutcome::Closed => VideoPayloadDelivery { alive: false, needs_keyframe: false, strict_recovery: false },
        },
    }
}

/// The receiver after a frame. A frame that the application had no room for silences its stream.
pub open spec fn recovery_after(
    recovery: RecoveryModel,
    info: VideoSourceInfo,
    strict_gap_recovery: bool,
    outcome: SendOutcome,
) -> RecoveryModel {
    let observed = recovery.observe(info, is_strict(info, strict_gap_recovery)).0;
    if is_delivered(recovery, info, strict_gap_recovery) && outcome is Full {
        observed.lose(info.key)
    } else {
        observed
    }
}

/// What was counted after a frame.
pub open spec fn metrics_after(
    metrics: QuicApplicationMetrics,
    recovery: RecoveryModel,
    info: VideoSourceInfo,
    strict_gap_recovery: bool,
    outcome: SendOutcome,
) -> QuicApplicationMetrics {
    let decision = recovery.observe(info, is_strict(info, strict_gap_recovery)).1;
    let gap = decision is AcceptAfterGap || decision is SuppressAfterGap;
    let lost = !is_delivered(recovery, info, strict_gap_recovery) || outcome is Full;
    QuicApplicationMetrics {
        video_source_frame_gaps: if gap {
            raised(metrics.video_source_frame_gaps, 1)
        } else {
            metrics.video_source_frame_gaps
        },
        video_recovery_suppressed_frames: if lost {
            raised(metrics.video_recovery_suppressed_frames, 1)
        } else {
            metrics.video_recovery_suppressed_frames
        },
        ..metrics
    }
}

/// What follows from handing a frame over, for every way that can have gone. A frame that the
/// application had no room for silences its stream.
pub fn settle_video_payload(
    info: VideoSourceInfo,
    accepted_after_gap: bool,
    outcome: SendOutcome,
    metrics: &mut QuicApplicationMetrics,
    recovery: &mut VideoReceiveRecovery,
) -> (delivery: VideoPayloadDelivery)
    requires
        old(recovery).wf(),
    ensures
        final(recovery).wf(),
        final(recovery)@ == if outcome is Full {
            old(recovery)@.lose(info.key)
        } else {
            old(recovery)@
        },
        *final(metrics) == (QuicApplicationMetrics {
            video_recovery_suppressed_frames: if outcome is Full {
                raised(old(metrics).video_recovery_suppressed_frames, 1)
            } else {
                old(metrics).video_recovery_suppressed_frames
            },
            ..*old(metrics)
        }),
        delivery.alive == !(outcome is Closed),
        delivery.strict_recovery == (outcome is Full),
        delivery.needs_keyframe == match outcome {
            SendOutcome::Sent => accepted_after_gap || (info.keyframe && old(recovery)@.streams.contains_key(info.key)
                && old(recovery)@.streams[info.key].awaiting_keyframe),
            SendOutcome::Full => true,
            SendOutcome::Closed => false,
        },
{
    match outcome {
        SendOutcome::Sent => {
            let needs_keyframe = accepted_after_gap || (info.keyframe && recovery.stream_awaiting_keyframe(info.key));
            VideoPayloadDelivery { alive: true, needs_keyframe, strict_recovery: false }
        },
        SendOutcome::Full => {
            recovery.mark_stream_reference_loss(info.key);
            raise(&mut metrics.video_recovery_suppressed_frames, 1);
            VideoPayloadDelivery { alive: true, needs_keyframe: true, strict_recovery: true }
        },
        SendOutcome::Closed => VideoPayloadDelivery { alive: false, needs_keyframe: false, strict_recovery: false },
    }
}

/// Hands a frame to the application, unless it may not be shown.
pub fn deliver_video_payload(
    info: VideoSourceInfo,
    payload: &Bytes,
    inbound: &mut Outbox<InboundItem>,
    metrics: &mut QuicApplicationMetrics,
    recovery: &mut VideoReceiveRecovery,
    strict_gap_recovery: bool,
) -> (delivery: VideoPayloadDelivery)
    requires
        old(recovery).wf(),
    ensures
        final(recovery).wf(),
        final(inbound).queue() == old(inbound).queue(),
        if is_delivered(old(recovery)@, info, strict_gap_recovery) {
            let attempts = final(inbound).attempts();
            let outcome = attempts.last().1;
            &&& attempts.len() > 0
            &&& attempts.drop_last() == old(inbound).attempts()
            &&& inbound_bytes(attempts.last().0) == Some(bytes_view(*payload))
            &&& delivery == payload_delivery(old(recovery)@, info, strict_gap_recovery, outcome)
            &&& final(recovery)@ == recovery_after(old(recovery)@, info, strict_gap_recovery, outcome)
            &&& *final(metrics) == metrics_after(
                *old(metrics),
                old(recovery)@,
                info,
                strict_gap_recovery,
                outcome,
            )
        } else {
            &&& final(inbound).attempts() == old(inbound).attempts()
            &&& forall|outcome: SendOutcome|
                {
                    &&& delivery == #[trigger] payload_delivery(old(recovery)@, info, strict_gap_recovery, outcome)
                    &&& final(recovery)@ == recovery_after(old(recovery)@, info, strict_gap_recovery, outcome)
                    &&& *final(metrics) == metrics_after(
                        *old(metrics),
                        old(recovery)@,
                        info,
                        strict_gap_recovery,
                        outcome,
                    )
                }
        },
{
    let strict_gap = strict_gap_recovery || info.codec.is_reference_sensitive();
    let decision = recovery.observe(info, strict_gap);
    match decision {
        VideoReceiveDecision::Accept | VideoReceiveDecision::AcceptAfterGap => {
            let accepted_after_gap = matches!(decision, VideoReceiveDecision::AcceptAfterGap);
            if accepted_after_gap {
                raise(&mut metrics.video_source_frame_gaps, 1);
            }
            let outcome = inbound.try_send(Ok(bytes_mut_from_slice(bytes_as_slice(payload))));
            proof {
                assert(inbound.attempts().drop_last() =~= old(inbound).attempts());
            }
            settle_video_payload(info, accepted_after_gap, outcome, metrics, recovery)
        },
        VideoReceiveDecision::Suppress => {
            raise(&mut metrics.video_recovery_suppressed_frames, 1);
            VideoPayloadDelivery { alive: true, needs_keyframe: true, strict_recovery: strict_gap }
        },
        VideoReceiveDecision::SuppressAfterGap => {
            raise(&mut metrics.video_source_frame_gaps, 1);
            raise(&mut metrics.video_recovery_suppressed_frames, 1);
            VideoPayloadDelivery { alive: true, needs_keyframe: true, strict_recovery: true }
        },
    }
}

/// The message that makes a request.
pub open spec fn request_message(request: VideoKeyframeRequest) -> Message {
    match request {
        VideoKeyframeRequest::Legacy => misc_message(MiscUnion::RefreshVideo(true)),
        VideoKeyframeRequest::Scoped(refresh) => misc_message(MiscUnion::VideoReferenceRefresh(refresh)),
    }
}

/// What goes to the peer when a keyframe is wanted.
pub open spec fn requests_for(
    recovery: RecoveryModel,
    scoped: bool,
    now: Timestamp,
    dropped_frames: u64,
    strict_recovery: bool,
) -> Seq<ReliableOutbound> {
    match recovery.request(now, scoped, dropped_frames, strict_recovery).1 {
        Some(request) => seq![
            outbound(MessageType::ApplicationControl, OutboundPayload::Message(request_message(request))),
        ],
        None => Seq::empty(),
    }
}

/// What follows from handing a request over, for every way that can have gone. Says whether the way
/// to the peer is still there.
pub fn settle_keyframe_request(outcome: SendOutcome, metrics: &mut QuicApplicationMetrics) -> (alive: bool)
    ensures
        alive == !(outcome is Closed),
        *final(metrics) == (QuicApplicationMetrics {
            video_keyframe_requests: if outcome is Sent {
                raised(old(metrics).video_keyframe_requests, 1)
            } else {
                old(metrics).video_keyframe_requests
            },
            ..*old(metrics)
        }),
{
    match outcome {
        SendOutcome::Sent => {
            raise(&mut metrics.video_keyframe_requests, 1);
            true
        },
        SendOutcome::Full => true,
        SendOutcome::Closed => false,
    }
}

/// A keyframe is wanted: asks the peer for it if it is time to. Says whether the way to the peer is
/// still there.
pub fn request_video_keyframe(
    control: &mut Outbox<ReliableOutbound>,
    scoped_reference_refresh: bool,
    metrics: &mut QuicApplicationMetrics,
    recovery: &mut VideoReceiveRecovery,
    now: Timestamp,
    dropped_frames: u64,
    strict_recovery: bool,
) -> (alive: bool)
    requires
        old(recovery).wf(),
    ensures
        final(recovery).wf(),
        final(recovery)@ == old(recovery)@.request(now, scoped_reference_refresh, dropped_frames, strict_recovery).0,
        final(control).continues(old(control)),
        final(control).handed_since(old(control)) == requests_for(
            old(recovery)@,
            scoped_reference_refresh,
            now,
            dropped_frames,
            strict_recovery,
        ),
        ({
            let outcomes = final(control).outcomes_since(old(control));
            &&& alive == (outcomes.len() == 0 || !(outcomes[0] is Closed))
            &&& *final(metrics) == (QuicApplicationMetrics {
                video_keyframe_requests: if outcomes.len() > 0 && outcomes[0] is Sent {
                    raised(old(metrics).video_keyframe_requests, 1)
                } else {
                    old(metrics).video_keyframe_requests
                },
                ..*old(metrics)
            })
        }),
{
    let request = match recovery.next_keyframe_request_with_recovery(
        now,
        scoped_reference_refresh,
        dropped_frames,
        strict_recovery,
    ) {
        Some(request) => request,
        None => {
            assert(control.handed_since(control) =~= Seq::<ReliableOutbound>::empty());
            assert(control.outcomes_since(control) =~= Seq::<SendOutcome>::empty());
            return true;
        },
    };
    let message = match request {
        VideoKeyframeRequest::Legacy => refresh_video_message(),
        VideoKeyframeRequest::Scoped(refresh) => video_reference_refresh_message(refresh),
    };
    let item = ReliableOutbound {
        message_type: MessageType::ApplicationControl,
        payload: OutboundPayload::Message(message),
        completion: None,
    };
    let ghost handed = item;
    let outcome = control.try_send(item);
    assert(control.handed_since(old(control)) =~= seq![handed]);
    assert(control.outcomes_since(old(control)) =~= seq![outcome]);
    settle_keyframe_request(outcome, metrics)
}

/// What was counted after a step of the keyframe barrier.
pub open spec fn with_holdback(metrics: QuicApplicationMetrics, outcome: OutcomeModel) -> QuicApplicationMetrics {
    QuicApplicationMetrics {
        video_keyframe_barrier_held: raised(metrics.video_keyframe_barrier_held, outcome.held_frames as u64),
        video_keyframe_barrier_released: raised(
            metrics.video_keyframe_barrier_released,
            outcome.released_frames as u64,
        ),
        video_keyframe_barrier_timeouts: raised(
            metrics.video_keyframe_barrier_timeouts,
            outcome.timed_out_frames as u64,
        ),
        video_keyframe_barrier_overflows: raised(
            metrics.video_keyframe_barrier_overflows,
            outcome.overflowed_frames as u64,
        ),
        video_keyframe_barrier_gap_events: raised(metrics.video_keyframe_barrier_gap_events, outcome.gap_events as u64),
        video_keyframe_barrier_gap_skipped_frames: raised(
            metrics.video_keyframe_barrier_gap_skipped_frames,
            outcome.gap_skipped_frames as u64,
        ),
        ..metrics
    }
}

/// Counts a step of the keyframe barrier.
pub fn record_video_holdback_metrics(outcome: &VideoHoldbackOutcome, metrics: &mut QuicApplicationMetrics)
    ensures
        *final(metrics) == with_holdback(*old(metrics), outcome@),
{
    raise(&mut metrics.video_keyframe_barrier_held, outcome.held_frames as u64);
    raise(&mut metrics.video_keyframe_barrier_released, outcome.released_frames as u64);
    raise(&mut metrics.video_keyframe_barrier_timeouts, outcome.timed_out_frames as u64);
    raise(&mut metrics.video_keyframe_barrier_overflows, outcome.overflowed_frames as u64);
    raise(&mut metrics.video_keyframe_barrier_gap_events, outcome.gap_events as u64);
    raise(&mut metrics.video_keyframe_barrier_gap_skipped_frames, outcome.gap_skipped_frames);
}

/// Where the delivery of some frames stands.
#[verifier::ext_equal]
pub struct DeliveryModel {
    pub recovery: RecoveryModel,
    pub metrics: QuicApplicationMetrics,
    /// The application still listens.
    pub alive: bool,
    /// A fresh keyframe is wanted.
    pub needs_keyframe: bool,
    /// Nothing may be shown without it.
    pub strict_recovery: bool,
    /// The payloads that were handed over.
    pub handed: Seq<Seq<u8>>,
}

impl DeliveryModel {
    /// Delivers one frame, if the application still listens. What becomes of the payloads that are
    /// handed over is read off `outcomes`, one after the other.
    pub open spec fn deliver(
        self,
        item: (VideoSourceInfo, Bytes),
        strict_gap_recovery: bool,
        outcomes: Seq<SendOutcome>,
    ) -> DeliveryModel {
        if self.alive {
            let outcome = outcomes[self.handed.len() as int];
            let delivery = payload_delivery(self.recovery, item.0, strict_gap_recovery, outcome);
            DeliveryModel {
                recovery: recovery_after(self.recovery, item.0, strict_gap_recovery, outcome),
                metrics: metrics_after(self.metrics, self.recovery, item.0, strict_gap_recovery, outcome),
                alive: delivery.alive,
                needs_keyframe: self.needs_keyframe || delivery.needs_keyframe,
                strict_recovery: self.strict_recovery || delivery.strict_recovery,
                handed: if is_delivered(self.recovery, item.0, strict_gap_recovery) {
                    self.handed.push(bytes_view(item.1))
                } else {
                    self.handed
                },
            }
        } else {
            self
        }
    }

    /// Delivers some frames in their order.
    pub open spec fn deliver_all(
        self,
        ready: Seq<(VideoSourceInfo, Bytes)>,
        strict_gap_recovery: bool,
        outcomes: Seq<SendOutcome>,
    ) -> DeliveryModel
        decreases ready.len(),
    {
        if ready.len() == 0 {
            self
        } else {
            self.deliver_all(ready.drop_last(), strict_gap_recovery, outcomes).deliver(
                ready.last(),
                strict_gap_recovery,
                outcomes,
            )
        }
    }
}

/// Outcomes that come later change nothing about what was delivered before.
proof fn lemma_later_outcomes(
    start: DeliveryModel,
    ready: Seq<(VideoSourceInfo, Bytes)>,
    strict_gap_recovery: bool,
    outcomes: Seq<SendOutcome>,
    more: Seq<SendOutcome>,
)
    requires
        outcomes.is_prefix_of(more),
        start.deliver_all(ready, strict_gap_recovery, outcomes).handed.len() <= outcomes.len(),
    ensures
        start.deliver_all(ready, strict_gap_recovery, outcomes) == start.deliver_all(
            ready,
            strict_gap_recovery,
            more,
        ),
    decreases ready.len(),
{
    if ready.len() > 0 {
        let before = start.deliver_all(ready.drop_last(), strict_gap_recovery, outcomes);
        let after = start.deliver_all(ready, strict_gap_recovery, outcomes);
        assert(after.handed.len() >= before.handed.len());
        lemma_later_outcomes(start, ready.drop_last(), strict_gap_recovery, outcomes, more);
        let item = ready.last();
        let n = before.handed.len() as int;
        if is_delivered(before.recovery, item.0, strict_gap_recovery) {
            if before.alive {
                assert(after.handed.len() == n + 1);
                assert(outcomes[n] == more[n]);
            }
        }
    }
}

/// Once the application has stopped listening nothing more is delivered.
proof fn lemma_deaf(
    start: DeliveryModel,
    ready: Seq<(VideoSourceInfo, Bytes)>,
    strict_gap_recovery: bool,
    outcomes: Seq<SendOutcome>,
    count: int,
)
    requires
        0 <= count <= ready.len(),
        !start.deliver_all(ready.take(count), strict_gap_recovery, outcomes).alive,
    ensures
        start.deliver_all(ready, strict_gap_recovery, outcomes) == start.deliver_all(
            ready.take(count),
            strict_gap_recovery,
            outcomes,
        ),
    decreases ready.len(),
{
    if count == ready.len() {
        assert(ready.take(count) =~= ready);
    } else {
        assert(ready.drop_last().take(count) =~= ready.take(count));
        lemma_deaf(start, ready.drop_last(), strict_gap_recovery, outcomes, count);
    }
}

/// What one step of the barrier leads to, before its frames are delivered.
pub open spec fn delivery_start(
    recovery: RecoveryModel,
    metrics: QuicApplicationMetrics,
    outcome: OutcomeModel,
    needs_keyframe: bool,
    strict_recovery: bool,
) -> DeliveryModel {
    DeliveryModel {
        recovery: if outcome.strict_recovery_required {
            recovery.lose_all()
        } else {
            recovery
        },
        metrics: with_holdback(metrics, outcome),
        alive: true,
        needs_keyframe: needs_keyframe || outcome.recovery_required,
        strict_recovery: strict_recovery || outcome.strict_recovery_required,
        handed: Seq::empty(),
    }
}

/// Delivers what the barrier hands out and asks for a keyframe if one is wanted. Says whether the
/// application and the way to the peer are still there.
fn deliver_outcome(
    outcome: VideoHoldbackOutcome,
    needs_keyframe: bool,
    strict_recovery: bool,
    strict_gap_recovery: bool,
    inbound: &mut Outbox<InboundItem>,
    control: &mut Outbox<ReliableOutbound>,
    scoped_reference_refresh: bool,
    metrics: &mut QuicApplicationMetrics,
    recovery: &mut VideoReceiveRecovery,
    now: Timestamp,
    dropped_frames: u64,
) -> (alive: bool)
    requires
        old(recovery).wf(),
    ensures
        final(recovery).wf(),
        video_step(
            delivery_start(old(recovery)@, *old(metrics), outcome@, needs_keyframe, strict_recovery),
            outcome@.ready,
            strict_gap_recovery,
            scoped_reference_refresh,
            now,
            dropped_frames,
            old(inbound),
            final(inbound),
            old(control),
            final(control),
            final(recovery)@,
            *final(metrics),
            alive,
        ),
{
    let ghost first = *inbound;
    let ghost start = delivery_start(recovery@, *metrics, outcome@, needs_keyframe, strict_recovery);
    record_video_holdback_metrics(&outcome, metrics);
    let mut wanted = needs_keyframe;
    let mut strict = strict_recovery;
    if outcome.strict_recovery_required {
        strict = true;
        recovery.mark_reference_loss();
    }
    if outcome.recovery_required {
        wanted = true;
    }
    let mut index: usize = 0;
    proof {
        assert(outcome.ready@.take(0) =~= Seq::empty());
        assert(inbound.outcomes_since(&first) =~= Seq::<SendOutcome>::empty());
        assert(inbound.handed_since(&first) =~= Seq::<InboundItem>::empty());
        assert(payloads(inbound.handed_since(&first)) =~= Seq::<Option<Seq<u8>>>::empty());
        assert(delivered(start.handed) =~= Seq::<Option<Seq<u8>>>::empty());
    }
    while index < outcome.ready.len()
        invariant
            index <= outcome.ready@.len(),
            recovery.wf(),
            start == delivery_start(old(recovery)@, *old(metrics), outcome@, needs_keyframe, strict_recovery),
            first == *old(inbound),
            *control == *old(control),
            inbound.continues(&first),
            ({
                let reached = start.deliver_all(
                    outcome.ready@.take(index as int),
                    strict_gap_recovery,
                    inbound.outcomes_since(&first),
                );
                &&& reached.recovery == recovery@
                &&& reached.metrics == *metrics
                &&& reached.alive
                &&& reached.needs_keyframe == wanted
                &&& reached.strict_recovery == strict
                &&& payloads(inbound.handed_since(&first)) == delivered(reached.handed)
            }),
        decreases outcome.ready@.len() - index,
    {
        let ghost before = *inbound;
        let ghost ready = outcome.ready@.take(index as int);
        let ghost reached = start.deliver_all(ready, strict_gap_recovery, before.outcomes_since(&first));
        let (info, payload) = &outcome.ready[index];
        let delivery = deliver_video_payload(*info, payload, inbound, metrics, recovery, strict_gap_recovery);
        wanted = wanted || delivery.needs_keyframe;
        strict = strict || delivery.strict_recovery;
        proof {
            let item = outcome.ready@[index as int];
            let more = outcome.ready@.take(index + 1);
            assert(more.drop_last() =~= ready);
            assert(more.last() == item);
            let outcomes = before.outcomes_since(&first);
            let now_outcomes = inbound.outcomes_since(&first);
            assert(payloads(before.handed_since(&first)).len() == reached.handed.len());
            assert(outcomes.len() == reached.handed.len());
            if is_delivered(reached.recovery, item.0, strict_gap_recovery) {
                let attempt = inbound.attempts().last();
                assert(inbound.attempts() =~= before.attempts().push(attempt));
                assert(now_outcomes =~= outcomes.push(attempt.1));
                assert(inbound.handed_since(&first) =~= before.handed_since(&first).push(attempt.0));
                assert(payloads(inbound.handed_since(&first)) =~= payloads(before.handed_since(&first)).push(
                    Some(bytes_view(item.1)),
                ));
                assert(delivered(reached.handed.push(bytes_view(item.1))) =~= delivered(reached.handed).push(
                    Some(bytes_view(item.1)),
                ));
            } else {
                assert(now_outcomes == outcomes);
            }
            lemma_later_outcomes(start, ready, strict_gap_recovery, outcomes, now_outcomes);
        }
        if !delivery.alive {
            proof {
                lemma_deaf(
                    start,
                    outcome.ready@,
                    strict_gap_recovery,
                    inbound.outcomes_since(&first),
                    index + 1,
                );
                assert(control.handed_since(control) =~= Seq::<ReliableOutbound>::empty());
                assert(control.outcomes_since(control) =~= Seq::<SendOutcome>::empty());
            }
            return false;
        }
        index += 1;
    }
    proof {
        assert(outcome.ready@.take(index as int) =~= outcome.ready@);
    }
    if !wanted {
        proof {
            assert(control.handed_since(control) =~= Seq::<ReliableOutbound>::empty());
            assert(control.outcomes_since(control) =~= Seq::<SendOutcome>::empty());
        }
        return true;
    }
    request_video_keyframe(
        control,
        scoped_reference_refresh,
        metrics,
        recovery,
        now,
        dropped_frames,
        strict,
    )
}

/// The payloads of some items.
pub open spec fn payloads(items: Seq<InboundItem>) -> Seq<Option<Seq<u8>>> {
    items.map_values(|item: InboundItem| inbound_bytes(item))
}

/// Payloads that were handed over as messages.
pub open spec fn delivered(handed: Seq<Seq<u8>>) -> Seq<Option<Seq<u8>>> {
    handed.map_values(|bytes: Seq<u8>| Some(bytes))
}

/// Frames are delivered from `start` on, and a keyframe is asked for if one is wanted. The items
/// handed to the application since `inbound_before` are exactly the payloads that may be shown, up
/// to the one that found nobody listening. The messages handed to the peer since `control_before`
/// are exactly the request that is due.
pub open spec fn video_step(
    start: DeliveryModel,
    ready: Seq<(VideoSourceInfo, Bytes)>,
    strict_gap_recovery: bool,
    scoped: bool,
    now: Timestamp,
    dropped_frames: u64,
    inbound_before: &Outbox<InboundItem>,
    inbound: &Outbox<InboundItem>,
    control_before: &Outbox<ReliableOutbound>,
    control: &Outbox<ReliableOutbound>,
    recovery: RecoveryModel,
    metrics: QuicApplicationMetrics,
    alive: bool,
) -> bool {
    let reached = start.deliver_all(ready, strict_gap_recovery, inbound.outcomes_since(inbound_before));
    let asks = reached.alive && reached.needs_keyframe;
    let answers = control.outcomes_since(control_before);
    &&& inbound.continues(inbound_before)
    &&& payloads(inbound.handed_since(inbound_before)) == delivered(reached.handed)
    &&& control.continues(control_before)
    &&& control.handed_since(control_before) == if asks {
        requests_for(reached.recovery, scoped, now, dropped_frames, reached.strict_recovery)
    } else {
        Seq::empty()
    }
    &&& recovery == if asks {
        reached.recovery.request(now, scoped, dropped_frames, reached.strict_recovery).0
    } else {
        reached.recovery
    }
    &&& metrics == (QuicApplicationMetrics {
        video_keyframe_requests: if answers.len() > 0 && answers[0] is Sent {
            raised(reached.metrics.video_keyframe_requests, 1)
        } else {
            reached.metrics.video_keyframe_requests
        },
        ..reached.metrics
    })
    &&& alive == (reached.alive && (answers.len() == 0 || !(answers[0] is Closed)))
}

/// What was counted while frames were put together, taken over.
pub open spec fn with_reassembly(metrics: QuicApplicationMetrics, stats: VideoReassemblyStats) -> QuicApplicationMetrics {
    QuicApplicationMetrics {
        video_reassembly_drops: sum_u64(
            sum_u64(sum_u64(stats.expired_frames, stats.evicted_frames), stats.obsolete_frames),
            stats.pre_keyframe_frames,
        ),
        video_reassembly_expired: stats.expired_frames,
        video_reassembly_evicted: stats.evicted_frames,
        video_reassembly_obsolete: stats.obsolete_frames,
        video_reassembly_pre_keyframe: stats.pre_keyframe_frames,
        video_reassembly_expired_keyframes: stats.expired_keyframes,
        video_reassembly_missing_fragments: stats.missing_fragments,
        video_reassembly_last_us: stats.last_frame_assembly_us,
        video_reassembly_max_us: stats.max_frame_assembly_us,
        video_reassembly_max_gap_us: stats.max_fragment_gap_us,
        video_reassembly_last_frame_bytes: stats.last_frame_bytes,
        video_reassembly_last_frame_fragments: stats.last_frame_fragments,
        ..metrics
    }
}

/// Takes over what was counted while frames were put together.
fn record_reassembly(video_stats: &VideoReassemblyStats, metrics: &mut QuicApplicationMetrics)
    ensures
        *final(metrics) == with_reassembly(*old(metrics), *video_stats),
{
    metrics.video_reassembly_drops =
        video_stats.expired_frames.saturating_add(video_stats.evicted_frames).saturating_add(
        video_stats.obsolete_frames,
    ).saturating_add(video_stats.pre_keyframe_frames);
    metrics.video_reassembly_expired = video_stats.expired_frames;
    metrics.video_reassembly_evicted = video_stats.evicted_frames;
    metrics.video_reassembly_obsolete = video_stats.obsolete_frames;
    metrics.video_reassembly_pre_keyframe = video_stats.pre_keyframe_frames;
    metrics.video_reassembly_expired_keyframes = video_stats.expired_keyframes;
    metrics.video_reassembly_missing_fragments = video_stats.missing_fragments;
    metrics.video_reassembly_last_us = video_stats.last_frame_assembly_us;
    metrics.video_reassembly_max_us = video_stats.max_frame_assembly_us;
    metrics.video_reassembly_max_gap_us = video_stats.max_fragment_gap_us;
    metrics.video_reassembly_last_frame_bytes = video_stats.last_frame_bytes;
    metrics.video_reassembly_last_frame_fragments = video_stats.last_frame_fragments;
}

/// Frames were dropped unfinished, and the codec cannot do without them.
pub open spec fn is_strict_loss(recovery: RecoveryModel, dropped_frames: u32) -> bool {
    dropped_frames > 0 && (match recovery.latest_source() {
        Some(source) => source.codec.spec_is_reference_sensitive(),
        None => false,
    })
}

/// The receiver after frames were dropped unfinished. Without the barrier, or for a codec that
/// cannot do without them, that silences every stream.
pub open spec fn after_drops(recovery: RecoveryModel, dropped_frames: u32, keyframe_barrier: bool) -> RecoveryModel {
    if dropped_frames > 0 && (!keyframe_barrier || is_strict_loss(recovery, dropped_frames)) {
        recovery.lose_all()
    } else {
        recovery
    }
}

/// Where the frame comes from that was put together, if there is one that can be read.
pub open spec fn frame_source_of(outcome: VideoReassemblyOutcome) -> Option<VideoSourceInfo> {
    match outcome.frame {
        Some(frame) => payload_source(frame.message),
        None => None,
    }
}

/// What a frame that was put together makes of the barrier, and what the barrier hands out. Without
/// the barrier the frame passes. With it a delta waits for its keyframe, and if there is no frame
/// only time passes. A frame that cannot be read is dropped.
pub open spec fn through_barrier(
    holdback: HoldbackModel,
    outcome: VideoReassemblyOutcome,
    keyframe_barrier: bool,
    now: Timestamp,
    window: nat,
) -> (HoldbackModel, OutcomeModel) {
    match (outcome.frame, frame_source_of(outcome)) {
        (Some(frame), Some(info)) => if keyframe_barrier {
            holdback.with_delta(info, frame.metadata.presentation_timestamp_us, frame.payload, now, window)
        } else {
            (holdback, OutcomeModel { ready: seq![(info, frame.payload)], ..no_outcome() })
        },
        (None, _) => if keyframe_barrier {
            holdback.expire(now, window)
        } else {
            (holdback, no_outcome())
        },
        _ => (holdback, no_outcome()),
    }
}

/// The receiver before the frames are delivered that the barrier hands out.
pub open spec fn before_delivery(
    recovery: RecoveryModel,
    outcome: VideoReassemblyOutcome,
    keyframe_barrier: bool,
) -> RecoveryModel {
    let dropped = after_drops(recovery, outcome.dropped_frames, keyframe_barrier);
    match frame_source_of(outcome) {
        Some(info) => if keyframe_barrier {
            dropped.note(info)
        } else {
            dropped
        },
        None => dropped,
    }
}

/// Deals with what putting frames together came to: the frame passes the barrier or waits there,
/// what may be shown is delivered, and a keyframe is asked for if one is wanted. Says whether the
/// application and the way to the peer are still there.
pub fn handle_video_outcome(
    outcome: VideoReassemblyOutcome,
    video_stats: &VideoReassemblyStats,
    inbound: &mut Outbox<InboundItem>,
    control: &mut Outbox<ReliableOutbound>,
    scoped_reference_refresh: bool,
    keyframe_barrier: bool,
    metrics: &mut QuicApplicationMetrics,
    recovery: &mut VideoReceiveRecovery,
    holdback: &mut VideoEpochHoldback,
    now: Timestamp,
    reorder_window: Duration,
) -> (alive: bool)
    requires
        old(recovery).wf(),
        old(holdback).wf(),
    ensures
        final(recovery).wf(),
        final(holdback).wf(),
        ({
            let (held, passed) = through_barrier(
                old(holdback)@,
                outcome,
                keyframe_barrier,
                now,
                duration_nanos(reorder_window),
            );
            &&& final(holdback)@ == held
            &&& video_step(
                delivery_start(
                    before_delivery(old(recovery)@, outcome, keyframe_barrier),
                    with_reassembly(*old(metrics), *video_stats),
                    passed,
                    outcome.request_keyframe || outcome.dropped_frames > 0,
                    is_strict_loss(old(recovery)@, outcome.dropped_frames),
                ),
                passed.ready,
                !keyframe_barrier,
                scoped_reference_refresh,
                now,
                outcome.dropped_frames as u64,
                old(inbound),
                final(inbound),
                old(control),
                final(control),
                final(recovery)@,
                *final(metrics),
                alive,
            )
        }),
{
    record_reassembly(video_stats, metrics);
    let dropped_frames: u32 = outcome.dropped_frames;
    let strict_reassembly_loss = dropped_frames > 0 && (match recovery.latest_source() {
        Some(source) => source.codec.is_reference_sensitive(),
        None => false,
    });
    let needs_keyframe = outcome.request_keyframe || dropped_frames > 0;
    if dropped_frames > 0 && (!keyframe_barrier || strict_reassembly_loss) {
        recovery.mark_reference_loss();
    }
    let mut passed = VideoHoldbackOutcome::default();
    match outcome.frame {
        Some(frame) => {
            if let Ok(info) = video_source_info(&frame.message) {
                if keyframe_barrier {
                    recovery.note_source_context(info);
                    passed = holdback.admit_delta(
                        info,
                        frame.metadata.presentation_timestamp_us,
                        frame.payload,
                        now,
                        reorder_window,
                    );
                } else {
                    passed.ready.push((info, frame.payload));
                    assert(passed@.ready =~= seq![(info, frame.payload)]);
                }
            }
        },
        None => {
            if keyframe_barrier {
                passed = holdback.expire(now, reorder_window);
            }
        },
    }
    deliver_outcome(
        passed,
        needs_keyframe,
        strict_reassembly_loss,
        !keyframe_barrier,
        inbound,
        control,
        scoped_reference_refresh,
        metrics,
        recovery,
        now,
        dropped_frames as u64,
    )
}

/// Deals with a keyframe that came on the reliable channel: it opens the barrier, what may be shown
/// is delivered, and a keyframe is asked for if one is still wanted. Says whether the application
/// and the way to the peer are still there.
pub fn accept_reliable_keyframe(
    info: VideoSourceInfo,
    payload: Bytes,
    inbound: &mut Outbox<InboundItem>,
    control: &mut Outbox<ReliableOutbound>,
    scoped_reference_refresh: bool,
    metrics: &mut QuicApplicationMetrics,
    recovery: &mut VideoReceiveRecovery,
    holdback: &mut VideoEpochHoldback,
    now: Timestamp,
    reorder_window: Duration,
    asked_at: Timestamp,
) -> (alive: bool)
    requires
        old(recovery).wf(),
        old(holdback).wf(),
    ensures
        final(recovery).wf(),
        final(holdback).wf(),
        ({
            let (held, passed) = old(holdback)@.with_keyframe(info, payload, now, duration_nanos(reorder_window));
            &&& final(holdback)@ == held
            &&& video_step(
                delivery_start(
                    old(recovery)@,
                    QuicApplicationMetrics {
                        reliable_keyframes_received: raised(old(metrics).reliable_keyframes_received, 1),
                        ..*old(metrics)
                    },
                    passed,
                    false,
                    false,
                ),
                passed.ready,
                false,
                scoped_reference_refresh,
                asked_at,
                0,
                old(inbound),
                final(inbound),
                old(control),
                final(control),
                final(recovery)@,
                *final(metrics),
                alive,
            )
        }),
{
    raise(&mut metrics.reliable_keyframes_received, 1);
    let passed = holdback.accept_keyframe(info, payload, now, reorder_window);
    deliver_outcome(
        passed,
        false,
        false,
        false,
        inbound,
        control,
        scoped_reference_refresh,
        metrics,
        recovery,
        asked_at,
        0,
    )
}

/// A frame that the application has no room for calls for a keyframe without which nothing of its
/// stream may be shown, and silences that stream.
pub proof fn full_queue_calls_for_a_strict_keyframe(
    recovery: RecoveryModel,
    info: VideoSourceInfo,
    strict_gap_recovery: bool,
)
    requires
        is_delivered(recovery, info, strict_gap_recovery),
    ensures
        ({
            let delivery = payload_delivery(recovery, info, strict_gap_recovery, SendOutcome::Full);
            let after = recovery_after(recovery, info, strict_gap_recovery, SendOutcome::Full);
            &&& delivery.alive
            &&& delivery.needs_keyframe
            &&& delivery.strict_recovery
            &&& after.streams.contains_key(info.key) ==> after.streams[info.key].awaiting_keyframe
        }),
{
}

/// After a gap no delta of a codec that cannot do without its references is handed over, whatever
/// the barrier.
pub proof fn sensitive_codecs_show_no_delta_after_a_gap(
    recovery: RecoveryModel,
    info: VideoSourceInfo,
    strict_gap_recovery: bool,
)
    requires
        info.codec.spec_is_reference_sensitive(),
        info.key.stream_id != 0,
        info.frame_id != 0,
        !info.keyframe,
        recovery.streams.contains_key(info.key),
        is_delivered(recovery, info, strict_gap_recovery),
    ensures
        info.frame_id == recovery.streams[info.key].last_frame_id + 1,
        !recovery.streams[info.key].awaiting_keyframe,
{
}

/// Once the application has stopped listening, nothing more is handed over and nothing changes.
pub proof fn nothing_is_delivered_to_nobody(
    start: DeliveryModel,
    ready: Seq<(VideoSourceInfo, Bytes)>,
    strict_gap_recovery: bool,
    outcomes: Seq<SendOutcome>,
)
    requires
        !start.alive,
    ensures
        start.deliver_all(ready, strict_gap_recovery, outcomes) == start,
{
    assert(ready.take(0) =~= Seq::empty());
    lemma_deaf(start, ready, strict_gap_recovery, outcomes, 0);
}

/// Which frames are handed to the application: every keyframe, every frame that does not tell its stream or
/// its number, and a delta that is ahead of what its stream has shown, unless the stream waits for a keyframe.
/// If frames are missing before it, the delta is handed over only where gaps are put up with and its codec is
/// none of the three that need every reference.
pub proof fn frames_that_are_handed_over(recovery: RecoveryModel, info: VideoSourceInfo, strict_gap_recovery: bool)
    requires
        recovery.streams.contains_key(info.key),
    ensures
        ({
            let state = recovery.streams[info.key];
            let needs_all = info.codec == VideoCodec::H264 || info.codec == VideoCodec::H265 || info.codec
                == VideoCodec::Av1;
            is_delivered(recovery, info, strict_gap_recovery) <==> {
                ||| info.keyframe
                ||| info.key.stream_id == 0
                ||| info.frame_id == 0
                ||| {
                    &&& !state.awaiting_keyframe
                    &&& state.last_frame_id > 0
                    &&& info.frame_id > state.last_frame_id
                    &&& info.frame_id == state.last_frame_id + 1 || (!strict_gap_recovery && !needs_all)
                }
            }
        }),
{
}

/// Of a stream that is not known only keyframes are handed over, and frames that do not tell their stream or
/// their number.
pub proof fn unknown_streams_begin_with_a_keyframe(
    recovery: RecoveryModel,
    info: VideoSourceInfo,
    strict_gap_recovery: bool,
)
    requires
        !recovery.streams.contains_key(info.key),
    ensures
        is_delivered(recovery, info, strict_gap_recovery) <==> (info.keyframe || info.key.stream_id == 0
            || info.frame_id == 0),
{
}

/// What delivering a frame comes to. The application is given up only when it no longer listens. A keyframe is
/// wanted when the frame was not handed over, found no room, or was handed over behind a gap; and nothing may
/// be shown without it when the frame found no room, or was not handed over where gaps are not put up with.
pub proof fn deliveries_ask_for_what_is_missing(
    recovery: RecoveryModel,
    info: VideoSourceInfo,
    strict_gap_recovery: bool,
    outcome: SendOutcome,
)
    requires
        recovery.streams.contains_key(info.key),
        info.key.stream_id != 0,
        info.frame_id != 0,
    ensures
        ({
            let delivery = payload_delivery(recovery, info, strict_gap_recovery, outcome);
            let handed = is_delivered(recovery, info, strict_gap_recovery);
            let behind_gap = !info.keyframe && info.frame_id > recovery.streams[info.key].last_frame_id + 1;
            let needs_all = info.codec == VideoCodec::H264 || info.codec == VideoCodec::H265 || info.codec
                == VideoCodec::Av1;
            &&& delivery.alive <==> !(handed && outcome is Closed)
            &&& delivery.needs_keyframe <==> (!handed || outcome is Full || (outcome is Sent && behind_gap))
            &&& delivery.strict_recovery <==> ((!handed && (strict_gap_recovery || needs_all)) || (handed
                && outcome is Full))
        }),
{
}

/// A frame that found no room makes its stream wait for a keyframe. Whatever else became of it, the receiver
/// goes on as if it had been looked at alone.
pub proof fn frames_without_room_silence_their_stream(
    recovery: RecoveryModel,
    info: VideoSourceInfo,
    strict_gap_recovery: bool,
    outcome: SendOutcome,
)
    ensures
        ({
            let needs_all = info.codec == VideoCodec::H264 || info.codec == VideoCodec::H265 || info.codec
                == VideoCodec::Av1;
            let observed = recovery.observe(info, strict_gap_recovery || needs_all).0;
            let after = recovery_after(recovery, info, strict_gap_recovery, outcome);
            let lost = is_delivered(recovery, info, strict_gap_recovery) && outcome is Full;
            &&& !lost ==> after == observed
            &&& lost ==> after.streams.dom() == observed.streams.dom()
            &&& lost && observed.streams.contains_key(info.key) ==> {
                &&& after.streams[info.key].awaiting_keyframe
                &&& after.streams[info.key].last_frame_id == observed.streams[info.key].last_frame_id
            }
            &&& forall|other: VideoStreamKey|
                other != info.key && #[trigger] observed.streams.contains_key(other) ==> after.streams[other]
                    == observed.streams[other]
            &&& after.pending_requests == observed.pending_requests
            &&& after.last_observed == observed.last_observed
        }),
{
    let observed = recovery.observe(info, is_strict(info, strict_gap_recovery)).0;
    assert(observed.lose(info.key).streams.dom() =~= observed.streams.dom());
}

/// A gap is counted when a delta comes of a stream that goes on, further ahead than the next one, whether it is
/// shown or not; and a frame counts as suppressed when it was not handed over or found no room. Nothing else is
/// counted.
pub proof fn deliveries_are_counted(
    metrics: QuicApplicationMetrics,
    recovery: RecoveryModel,
    info: VideoSourceInfo,
    strict_gap_recovery: bool,
    outcome: SendOutcome,
)
    requires
        recovery.streams.contains_key(info.key),
        info.key.stream_id != 0,
        info.frame_id != 0,
        metrics.video_source_frame_gaps < u64::MAX,
        metrics.video_recovery_suppressed_frames < u64::MAX,
    ensures
        ({
            let state = recovery.streams[info.key];
            let gap = !info.keyframe && !state.awaiting_keyframe && state.last_frame_id > 0 && info.frame_id
                > state.last_frame_id + 1;
            let lost = !is_delivered(recovery, info, strict_gap_recovery) || outcome is Full;
            metrics_after(metrics, recovery, info, strict_gap_recovery, outcome) == (QuicApplicationMetrics {
                video_source_frame_gaps: (metrics.video_source_frame_gaps + if gap {
                    1int
                } else {
                    0
                }) as u64,
                video_recovery_suppressed_frames: (metrics.video_recovery_suppressed_frames + if lost {
                    1int
                } else {
                    0
                }) as u64,
                ..metrics
            })
        }),
{
}

/// As long as the application listens every keyframe among some frames is handed over, in their order.
pub proof fn keyframes_are_all_handed_over(
    start: DeliveryModel,
    ready: Seq<(VideoSourceInfo, Bytes)>,
    strict_gap_recovery: bool,
    outcomes: Seq<SendOutcome>,
)
    requires
        start.alive,
        forall|i: int| 0 <= i < ready.len() ==> (#[trigger] ready[i]).0.keyframe,
        forall|i: int| 0 <= i < start.handed.len() + ready.len() ==> !(#[trigger] outcomes[i] is Closed),
    ensures
        ({
            let reached = start.deliver_all(ready, strict_gap_recovery, outcomes);
            &&& reached.alive
            &&& reached.handed == start.handed + ready.map_values(
                |item: (VideoSourceInfo, Bytes)| bytes_view(item.1),
            )
        }),
    decreases ready.len(),
{
    let contents = |item: (VideoSourceInfo, Bytes)| bytes_view(item.1);
    if ready.len() == 0 {
        assert(start.handed + ready.map_values(contents) =~= start.handed);
    } else {
        let rest = ready.drop_last();
        assert forall|i: int| 0 <= i < rest.len() implies (#[trigger] rest[i]).0.keyframe by {
            assert(ready[i].0.keyframe);
        }
        keyframes_are_all_handed_over(start, rest, strict_gap_recovery, outcomes);
        let before = start.deliver_all(rest, strict_gap_recovery, outcomes);
        assert(ready[ready.len() - 1].0.keyframe);
        assert(before.handed.len() == start.handed.len() + rest.len());
        assert(!(outcomes[before.handed.len() as int] is Closed));
        let reached = start.deliver_all(ready, strict_gap_recovery, outcomes);
        assert(reached.handed =~= start.handed + ready.map_values(contents));
    }
}

/// A single frame that is looked at is handed over if and only if it may be, and what it asks for is not
/// forgotten.
pub proof fn one_frame_is_delivered(
    start: DeliveryModel,
    item: (VideoSourceInfo, Bytes),
    strict_gap_recovery: bool,
    outcomes: Seq<SendOutcome>,
)
    requires
        start.alive,
    ensures
        ({
            let reached = start.deliver_all(seq![item], strict_gap_recovery, outcomes);
            let outcome = outcomes[start.handed.len() as int];
            let delivery = payload_delivery(start.recovery, item.0, strict_gap_recovery, outcome);
            &&& reached.handed == if is_delivered(start.recovery, item.0, strict_gap_recovery) {
                start.handed.push(bytes_view(item.1))
            } else {
                start.handed
            }
            &&& reached.alive == delivery.alive
            &&& reached.needs_keyframe == (start.needs_keyframe || delivery.needs_keyframe)
            &&& reached.strict_recovery == (start.strict_recovery || delivery.strict_recovery)
            &&& reached.recovery == recovery_after(start.recovery, item.0, strict_gap_recovery, outcome)
        }),
{
    reveal_with_fuel(DeliveryModel::deliver_all, 2);
    assert(seq![item].drop_last() =~= Seq::empty());
}

/// Once a keyframe is wanted, or nothing may be shown without one, that stays so through a step.
pub proof fn wants_are_not_forgotten(
    start: DeliveryModel,
    ready: Seq<(VideoSourceInfo, Bytes)>,
    strict_gap_recovery: bool,
    outcomes: Seq<SendOutcome>,
)
    ensures
        ({
            let reached = start.deliver_all(ready, strict_gap_recovery, outcomes);
            &&& start.needs_keyframe ==> reached.needs_keyframe
            &&& start.strict_recovery ==> reached.strict_recovery
            &&& reached.alive ==> start.alive
            &&& start.handed.len() <= reached.handed.len() <= start.handed.len() + ready.len()
        }),
    decreases ready.len(),
{
    if ready.len() > 0 {
        wants_are_not_forgotten(start, ready.drop_last(), strict_gap_recovery, outcomes);
    }
}

/// Without the barrier a frame that can be read passes at once and alone, whatever it is. A frame that cannot
/// be read is dropped, and without a frame nothing passes. The barrier itself is not touched.
pub proof fn frames_pass_without_the_barrier(
    holdback: HoldbackModel,
    outcome: VideoReassemblyOutcome,
    now: Timestamp,
    window: nat,
)
    ensures
        ({
            let (after, passed) = through_barrier(holdback, outcome, false, now, window);
            &&& after == holdback
            &&& passed == (OutcomeModel { ready: passed.ready, ..no_outcome() })
            &&& match outcome.frame {
                Some(frame) => match payload_source(frame.message) {
                    Some(info) => passed.ready == seq![(info, frame.payload)],
                    None => passed.ready.len() == 0,
                },
                None => passed.ready.len() == 0,
            }
        }),
{
}

/// With the barrier a frame that can be read goes through it as a delta of the keyframe that it names in place
/// of its time; one that cannot be read is dropped; and without a frame time passes.
pub proof fn frames_go_through_the_barrier(
    holdback: HoldbackModel,
    outcome: VideoReassemblyOutcome,
    now: Timestamp,
    window: nat,
)
    ensures
        ({
            let through = through_barrier(holdback, outcome, true, now, window);
            match outcome.frame {
                Some(frame) => match payload_source(frame.message) {
                    Some(info) => through == holdback.with_delta(
                        info,
                        frame.metadata.presentation_timestamp_us,
                        frame.payload,
                        now,
                        window,
                    ),
                    None => through == (holdback, no_outcome()),
                },
                None => through == holdback.expire(now, window),
            }
        }),
{
}

/// Frames that were dropped unfinished silence every stream where there is no barrier, or where the codec of
/// the last frame needs every reference; otherwise, and if none was dropped, no stream is silenced. Behind the
/// barrier the frame that came is remembered before it may be shown.
pub proof fn unfinished_frames_silence_the_streams(
    recovery: RecoveryModel,
    outcome: VideoReassemblyOutcome,
    keyframe_barrier: bool,
)
    requires
        recovery.last_observed is Some,
    ensures
        ({
            let codec = recovery.last_observed->0.codec;
            let needs_all = codec == VideoCodec::H264 || codec == VideoCodec::H265 || codec == VideoCodec::Av1;
            let silenced = outcome.dropped_frames > 0 && (!keyframe_barrier || needs_all);
            let before = if silenced {
                recovery.lose_all()
            } else {
                recovery
            };
            &&& is_strict_loss(recovery, outcome.dropped_frames) <==> (outcome.dropped_frames > 0 && needs_all)
            &&& after_drops(recovery, outcome.dropped_frames, keyframe_barrier) == before
            &&& before_delivery(recovery, outcome, keyframe_barrier) == match frame_source_of(outcome) {
                Some(info) => if keyframe_barrier {
                    before.note(info)
                } else {
                    before
                },
                None => before,
            }
        }),
{
}

/// What the barrier reports decides how the delivery begins: where nothing may be shown every stream is
/// silenced first, and what was wanted before is still wanted.
pub proof fn delivery_begins_with_what_is_reported(
    recovery: RecoveryModel,
    metrics: QuicApplicationMetrics,
    outcome: OutcomeModel,
    needs_keyframe: bool,
    strict_recovery: bool,
)
    ensures
        ({
            let start = delivery_start(recovery, metrics, outcome, needs_keyframe, strict_recovery);
            &&& start.alive
            &&& start.handed.len() == 0
            &&& start.needs_keyframe <==> (needs_keyframe || outcome.recovery_required)
            &&& start.strict_recovery <==> (strict_recovery || outcome.strict_recovery_required)
            &&& outcome.strict_recovery_required ==> start.recovery == recovery.lose_all()
            &&& !outcome.strict_recovery_required ==> start.recovery == recovery
        }),
{
}

/// A request that is made goes to the peer as one control message, of which nobody is told, and says what it
/// asks for: everything, or the stream that it names.
pub proof fn requests_go_out_as_control_messages(
    recovery: RecoveryModel,
    scoped: bool,
    now: Timestamp,
    dropped_frames: u64,
    strict_recovery: bool,
)
    ensures
        ({
            let sent = requests_for(recovery, scoped, now, dropped_frames, strict_recovery);
            match recovery.request(now, scoped, dropped_frames, strict_recovery).1 {
                None => sent.len() == 0,
                Some(request) => {
                    &&& sent.len() == 1
                    &&& sent[0].message_type is ApplicationControl
                    &&& sent[0].completion is None
                    &&& sent[0].payload matches OutboundPayload::Message(message) && message.union matches Some(
                        MessageUnion::Misc(misc),
                    ) && match request {
                        VideoKeyframeRequest::Legacy => misc.union == Some(MiscUnion::RefreshVideo(true)),
                        VideoKeyframeRequest::Scoped(refresh) => misc.union == Some(
                            MiscUnion::VideoReferenceRefresh(refresh),
                        ),
                    }
                },
            }
        }),
{
}

/// A step of the barrier is counted as it is reported: what was held, let out, timed out, overflowed, and what
/// was given up, with the gaps.
pub proof fn barrier_steps_are_counted(metrics: QuicApplicationMetrics, outcome: OutcomeModel)
    requires
        metrics.video_keyframe_barrier_held + outcome.held_frames <= u64::MAX,
        metrics.video_keyframe_barrier_released + outcome.released_frames <= u64::MAX,
        metrics.video_keyframe_barrier_timeouts + outcome.timed_out_frames <= u64::MAX,
        metrics.video_keyframe_barrier_overflows + outcome.overflowed_frames <= u64::MAX,
        metrics.video_keyframe_barrier_gap_events + outcome.gap_events <= u64::MAX,
        metrics.video_keyframe_barrier_gap_skipped_frames + outcome.gap_skipped_frames <= u64::MAX,
    ensures
        ({
            let after = with_holdback(metrics, outcome);
            &&& after.video_keyframe_barrier_held == metrics.video_keyframe_barrier_held + outcome.held_frames
            &&& after.video_keyframe_barrier_released == metrics.video_keyframe_barrier_released
                + outcome.released_frames
            &&& after.video_keyframe_barrier_timeouts == metrics.video_keyframe_barrier_timeouts
                + outcome.timed_out_frames
            &&& after.video_keyframe_barrier_overflows == metrics.video_keyframe_barrier_overflows
                + outcome.overflowed_frames
            &&& after.video_keyframe_barrier_gap_events == metrics.video_keyframe_barrier_gap_events
                + outcome.gap_events
            &&& after.video_keyframe_barrier_gap_skipped_frames == metrics.video_keyframe_barrier_gap_skipped_frames
                + outcome.gap_skipped_frames
            &&& after.video_keyframe_requests == metrics.video_keyframe_requests
            &&& after.video_source_frame_gaps == metrics.video_source_frame_gaps
            &&& after.video_recovery_suppressed_frames == metrics.video_recovery_suppressed_frames
        }),
{
}

/// Frames that expired, were evicted, were overtaken or came before the first keyframe count as dropped, each
/// once, and every count is shown as it was taken.
pub proof fn drops_are_summed_up(metrics: QuicApplicationMetrics, stats: VideoReassemblyStats)
    requires
        stats.expired_frames + stats.evicted_frames + stats.obsolete_frames + stats.pre_keyframe_frames <= u64::MAX,
    ensures
        ({
            let after = with_reassembly(metrics, stats);
            &&& after.video_reassembly_drops == stats.expired_frames + stats.evicted_frames + stats.obsolete_frames
                + stats.pre_keyframe_frames
            &&& after.video_reassembly_expired == stats.expired_frames
            &&& after.video_reassembly_evicted == stats.evicted_frames
            &&& after.video_reassembly_obsolete == stats.obsolete_frames
            &&& after.video_reassembly_pre_keyframe == stats.pre_keyframe_frames
            &&& after.video_reassembly_expired_keyframes == stats.expired_keyframes
            &&& after.video_reassembly_missing_fragments == stats.missing_fragments
            &&& after.video_reassembly_last_us == stats.last_frame_assembly_us
            &&& after.video_reassembly_max_us == stats.max_frame_assembly_us
            &&& after.video_reassembly_max_gap_us == stats.max_fragment_gap_us
            &&& after.video_reassembly_last_frame_bytes == stats.last_frame_bytes
            &&& after.video_reassembly_last_frame_fragments == stats.last_frame_fragments
            &&& after.video_keyframe_requests == metrics.video_keyframe_requests
        }),
{
}

/// A step in which no frame is ready asks the peer for a keyframe if and only if one is wanted: what goes to the queue
/// of control are the requests, and nothing else. Reading ends only if that queue is closed.
pub proof fn wanted_keyframes_are_asked_for(
    start: DeliveryModel,
    ready: Seq<(VideoSourceInfo, Bytes)>,
    strict_gap_recovery: bool,
    scoped: bool,
    now: Timestamp,
    dropped_frames: u64,
    inbound_before: &Outbox<InboundItem>,
    inbound: &Outbox<InboundItem>,
    control_before: &Outbox<ReliableOutbound>,
    control: &Outbox<ReliableOutbound>,
    recovery: RecoveryModel,
    metrics: QuicApplicationMetrics,
    alive: bool,
)
    requires
        start.alive,
        ready.len() == 0,
        video_step(
            start,
            ready,
            strict_gap_recovery,
            scoped,
            now,
            dropped_frames,
            inbound_before,
            inbound,
            control_before,
            control,
            recovery,
            metrics,
            alive,
        ),
    ensures
        inbound.queue() == inbound_before.queue() && inbound_before.attempts().is_prefix_of(inbound.attempts()),
        control.queue() == control_before.queue() && control_before.attempts().is_prefix_of(control.attempts()),
        inbound.handed_since(inbound_before).len() == start.handed.len(),
        start.needs_keyframe ==> control.handed_since(control_before) == requests_for(
            start.recovery,
            scoped,
            now,
            dropped_frames,
            start.strict_recovery,
        ),
        start.needs_keyframe ==> recovery == start.recovery.request(now, scoped, dropped_frames, start.strict_recovery).0,
        !start.needs_keyframe ==> control.handed_since(control_before).len() == 0 && recovery == start.recovery && alive,
        alive <==> (control.outcomes_since(control_before).len() == 0 || !(control.outcomes_since(
            control_before,
        )[0] is Closed)),
        start.metrics.video_keyframe_requests < u64::MAX && control.outcomes_since(control_before).len() > 0
            && control.outcomes_since(control_before)[0] is Sent ==> metrics.video_keyframe_requests
            == start.metrics.video_keyframe_requests + 1,
        control.outcomes_since(control_before).len() == 0 ==> metrics == start.metrics,
{
    assert(payloads(inbound.handed_since(inbound_before)).len() == delivered(start.handed).len());
    assert(control.handed_since(control_before).len() == control.outcomes_since(control_before).len());
}

} // verus!
