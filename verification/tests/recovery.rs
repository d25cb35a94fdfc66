use bytes::{Bytes, BytesMut};
use quic_application::message::{
    EncodedVideoFrame, EncodedVideoFrames, Message, MessageUnion, VideoFrame, VideoFrameUnion,
};
use quic_application::ordered::OrderedMap;
use quic_application::outbox::{InboundItem, Outbox, SendOutcome};
use quic_application::time::Timestamp;
use quic_application::transport::application::barrier::{
    VIDEO_EPOCH_HOLDBACK_MAX_BYTES, VIDEO_EPOCH_HOLDBACK_TIMEOUT_NANOS,
};
use quic_application::transport::application::delivery::{
    accept_reliable_keyframe, deliver_video_payload, handle_video_outcome, request_video_keyframe,
    settle_keyframe_request, settle_video_payload, VideoPayloadDelivery,
};
use quic_application::transport::application::holdback::{VideoEpochHoldback, VideoHoldbackOutcome};
use quic_application::transport::application::metrics::QuicApplicationMetrics;
use quic_application::transport::application::ordering::VideoOrderingGate;
use quic_application::transport::application::outbound::{ReliableOutbound, VideoOutboundTrackKey};
use quic_application::transport::application::receive_recovery::{
    VideoKeyframeRequest, VideoReceiveDecision, VideoReceiveRecovery, MAX_VIDEO_STREAM_STATES,
};
use quic_application::transport::application::send_recovery::VideoSendRecovery;
use quic_application::transport::application::slots::TrackLatestSlot;
use quic_application::transport::video::{
    ReassembledVideoFrame, VideoCodec, VideoFrameMetadata, VideoReassemblyOutcome, VideoReassemblyStats,
    VideoSourceInfo, VideoStreamKey,
};
use std::time::Duration;
use tokio::sync::mpsc;

const NOW: Timestamp = Timestamp { nanos: 50_000_000_000 };

const WINDOW: Duration = Duration::from_millis(40);

fn after_millis(millis: u64) -> Timestamp {
    Timestamp { nanos: NOW.nanos + millis * 1_000_000 }
}

fn source(display: i32, stream_id: u64, frame_id: u64, keyframe: bool) -> VideoSourceInfo {
    VideoSourceInfo { key: VideoStreamKey { display, stream_id }, frame_id, keyframe, codec: VideoCodec::H264 }
}

fn ids(outcome: &VideoHoldbackOutcome) -> Vec<u64> {
    outcome.ready.iter().map(|(info, _)| info.frame_id).collect()
}

fn queues() -> (
    Outbox<InboundItem>,
    mpsc::Receiver<InboundItem>,
    Outbox<ReliableOutbound>,
    mpsc::Receiver<ReliableOutbound>,
) {
    let (inbound, inbound_rx) = mpsc::channel(8);
    let (control, control_rx) = mpsc::channel(8);
    (Outbox::new(inbound), inbound_rx, Outbox::new(control), control_rx)
}

#[test]
fn sending_ends_tell_what_became_of_a_value() {
    let (sender, mut receiver) = mpsc::channel(1);
    let mut outbox = Outbox::new(sender);
    assert_eq!(outbox.try_send(1), SendOutcome::Sent);
    assert_eq!(outbox.try_send(2), SendOutcome::Full);
    assert_eq!(receiver.try_recv(), Ok(1));
    assert!(receiver.try_recv().is_err());
    drop(receiver);
    assert_eq!(outbox.try_send(3), SendOutcome::Closed);
}

#[test]
fn maps_keep_their_keys_in_order() {
    let mut map = OrderedMap::new();
    for display in [3, -1, 7, 0] {
        map.insert(VideoStreamKey { display, stream_id: 9 }, display);
    }
    map.insert(VideoStreamKey { display: 7, stream_id: 9 }, 8);
    assert_eq!(map.len(), 4);
    let displays: Vec<i32> = (0..map.len()).map(|index| map.key_at(index).display).collect();
    assert_eq!(displays, vec![-1, 0, 3, 7]);
    assert_eq!(map.get(&VideoStreamKey { display: 7, stream_id: 9 }), Some(&8));
    assert_eq!(map.remove(&VideoStreamKey { display: -1, stream_id: 9 }), Some(-1));
    assert!(!map.contains_key(&VideoStreamKey { display: -1, stream_id: 9 }));
}

#[test]
fn due_delta_leaves_at_once() {
    let mut holdback = VideoEpochHoldback::default();
    holdback.accept_keyframe(source(0, 7, 10, true), Bytes::from_static(b"key"), NOW, WINDOW);
    let outcome = holdback.admit_delta(source(0, 7, 11, false), 10, Bytes::from_static(b"next"), NOW, WINDOW);
    assert_eq!(ids(&outcome), vec![11]);
    assert_eq!(&outcome.ready[0].1[..], b"next");
    assert_eq!((outcome.held_frames, outcome.released_frames), (0, 0));
}

#[test]
fn gap_is_waited_for_until_the_window_is_over() {
    let mut holdback = VideoEpochHoldback::default();
    holdback.accept_keyframe(source(0, 7, 10, true), Bytes::new(), NOW, WINDOW);
    holdback.admit_delta(source(0, 7, 15, false), 10, Bytes::new(), NOW, WINDOW);
    assert!(holdback.expire(after_millis(39), WINDOW).ready.is_empty());
    let outcome = holdback.expire(after_millis(40), WINDOW);
    assert_eq!(ids(&outcome), vec![15]);
    assert_eq!((outcome.gap_events, outcome.gap_skipped_frames, outcome.released_frames), (1, 4, 1));
}

#[test]
fn deltas_without_a_keyframe_call_for_one() {
    let mut holdback = VideoEpochHoldback::default();
    let outcome = holdback.admit_delta(source(0, 7, 3, false), 0, Bytes::new(), NOW, WINDOW);
    assert!(outcome.recovery_required && outcome.strict_recovery_required);
    assert_eq!(holdback.stream_count(), 0);
}

#[test]
fn late_and_repeated_deltas_are_dropped() {
    let mut holdback = VideoEpochHoldback::default();
    holdback.accept_keyframe(source(0, 7, 10, true), Bytes::new(), NOW, WINDOW);
    holdback.admit_delta(source(0, 7, 13, false), 10, Bytes::from_static(b"abc"), NOW, WINDOW);
    holdback.admit_delta(source(0, 7, 13, false), 10, Bytes::from_static(b"abc"), NOW, WINDOW);
    holdback.admit_delta(source(0, 7, 9, false), 10, Bytes::from_static(b"abc"), NOW, WINDOW);
    holdback.admit_delta(source(0, 7, 12, false), 9, Bytes::from_static(b"abc"), NOW, WINDOW);
    assert_eq!(holdback.pending_totals(), (1, 3));
}

#[test]
fn too_many_bytes_are_dropped() {
    let mut holdback = VideoEpochHoldback::default();
    let half = Bytes::from(vec![0; VIDEO_EPOCH_HOLDBACK_MAX_BYTES / 2]);
    holdback.admit_delta(source(0, 7, 1, false), 10, half.clone(), NOW, WINDOW);
    holdback.admit_delta(source(1, 8, 1, false), 10, half, NOW, WINDOW);
    assert_eq!(holdback.pending_totals(), (2, VIDEO_EPOCH_HOLDBACK_MAX_BYTES));
    let outcome = holdback.admit_delta(source(0, 7, 2, false), 10, Bytes::from_static(b"x"), NOW, WINDOW);
    assert_eq!(outcome.overflowed_frames, 3);
    assert_eq!(holdback.pending_totals(), (0, 0));
}

#[test]
fn no_delta_waits_longer_than_the_timeout() {
    let mut holdback = VideoEpochHoldback::default();
    holdback.admit_delta(source(0, 7, 11, false), 10, Bytes::new(), NOW, WINDOW);
    let almost = Timestamp { nanos: NOW.nanos + VIDEO_EPOCH_HOLDBACK_TIMEOUT_NANOS - 1 };
    assert_eq!(holdback.expire(almost, WINDOW).timed_out_frames, 0);
    let over = Timestamp { nanos: NOW.nanos + VIDEO_EPOCH_HOLDBACK_TIMEOUT_NANOS };
    assert_eq!(holdback.expire(over, WINDOW).timed_out_frames, 1);
}

#[test]
fn receiver_remembers_few_streams() {
    let mut recovery = VideoReceiveRecovery::default();
    for display in 0..MAX_VIDEO_STREAM_STATES as i32 + 1 {
        recovery.observe(source(display, 7, 1, true), true);
        recovery.next_keyframe_request(NOW, true, 1);
    }
    assert_eq!(recovery.stream_count(), MAX_VIDEO_STREAM_STATES);
    assert_eq!(recovery.pending_request_count(), MAX_VIDEO_STREAM_STATES);
    // The first stream in order goes, and its request with it.
    assert!(!recovery.has_stream(VideoStreamKey { display: 0, stream_id: 7 }));
    assert!(!recovery.has_pending_request(Some(VideoStreamKey { display: 0, stream_id: 7 })));
}

#[test]
fn shown_frames_advance_and_loss_silences_one_stream() {
    let mut recovery = VideoReceiveRecovery::default();
    recovery.observe(source(0, 7, 5, true), true);
    recovery.observe(source(1, 8, 5, true), true);
    assert_eq!(recovery.observe(source(0, 7, 5, false), true), VideoReceiveDecision::Suppress);
    assert_eq!(recovery.observe(source(0, 7, 4, false), true), VideoReceiveDecision::Suppress);
    recovery.mark_stream_reference_loss(VideoStreamKey { display: 0, stream_id: 7 });
    assert_eq!(recovery.observe(source(0, 7, 6, false), true), VideoReceiveDecision::Suppress);
    assert_eq!(recovery.observe(source(1, 8, 6, false), true), VideoReceiveDecision::Accept);
    assert_eq!(recovery.latest_source(), Some(source(1, 8, 6, false)));
}

#[test]
fn streams_that_cannot_be_named_get_no_request() {
    let mut recovery = VideoReceiveRecovery::default();
    recovery.observe(source(-1, 7, 5, true), true);
    assert!(recovery.next_keyframe_request(NOW, true, 1).is_none());
    assert!(matches!(
        recovery.next_keyframe_request(NOW, false, 1),
        Some(VideoKeyframeRequest::Legacy)
    ));
}

#[test]
fn gates_open_with_their_epoch() {
    let mut gate = VideoOrderingGate::new();
    assert!(gate.is_open(0));
    assert_eq!(gate.next_epoch().unwrap(), 1);
    assert_eq!(gate.next_epoch().unwrap(), 2);
    gate.acknowledge(1);
    assert!(gate.is_open(1) && !gate.is_open(2));
    gate.acknowledge(2);
    gate.acknowledge(1);
    assert!(gate.is_open(2));
    // Giving up an epoch opens the earlier ones too.
    assert_eq!(gate.next_epoch().unwrap(), 3);
    assert_eq!(gate.next_epoch().unwrap(), 4);
    gate.cancel_epoch(4);
    assert!(gate.is_open(3) && gate.is_open(4));
}

#[test]
fn sender_remembers_few_tracks() {
    let (refresh, mut refresh_rx) = mpsc::channel(64);
    let mut metrics = QuicApplicationMetrics::default();
    let mut recovery = VideoSendRecovery::new(refresh, true);
    for track in 0..MAX_VIDEO_STREAM_STATES as u64 {
        recovery.enter(VideoOutboundTrackKey::Latest(track), Some(source(0, track + 1, 1, false)), 1, &mut metrics);
    }
    // The first track is touched, so the second one goes.
    assert!(recovery.suppress_delta(VideoOutboundTrackKey::Latest(0), 2, &mut metrics));
    recovery.enter(VideoOutboundTrackKey::Unscoped, None, 1, &mut metrics);
    assert!(recovery.suppress_delta(VideoOutboundTrackKey::Latest(0), 3, &mut metrics));
    assert!(!recovery.suppress_delta(VideoOutboundTrackKey::Latest(1), 3, &mut metrics));
    assert!(recovery.suppress_delta(VideoOutboundTrackKey::Unscoped, 3, &mut metrics));
    let mut asked = 0;
    while refresh_rx.try_recv().is_ok() {
        asked += 1;
    }
    assert_eq!(asked, MAX_VIDEO_STREAM_STATES);
    assert_eq!(metrics.video_sender_reference_resets, MAX_VIDEO_STREAM_STATES as u64 + 1);
}

#[test]
fn tracks_are_served_in_turn() {
    let mut slot = TrackLatestSlot::new(0);
    let first = VideoOutboundTrackKey::Latest(1);
    let second = VideoOutboundTrackKey::Source(VideoStreamKey { display: 0, stream_id: 1 });
    let third = VideoOutboundTrackKey::Unscoped;
    assert!(slot.replace_when_with(first, 'a', |_, _| true).is_queued());
    // There is room for one track at least, and here for no more.
    assert!(!slot.replace_when_with(second, 'b', |_, _| true).is_queued());
    assert_eq!(slot.take_track(second), None);
    assert_eq!(slot.take_track(first), Some('a'));

    let mut slot = TrackLatestSlot::new(3);
    for (key, value) in [(third, 'c'), (second, 'b'), (first, 'a')] {
        slot.replace_when_with(key, value, |_, _| true);
    }
    assert_eq!(slot.take(), Some('a'));
    slot.replace_when_with(first, 'd', |_, _| true);
    assert_eq!(slot.take(), Some('b'));
    assert_eq!(slot.take(), Some('c'));
    assert_eq!(slot.take(), Some('d'));
    assert_eq!(slot.take(), None);
}

#[test]
fn frames_are_handed_over_byte_by_byte() {
    let (mut inbound, mut inbound_rx, _control, _control_rx) = queues();
    let mut metrics = QuicApplicationMetrics::default();
    let mut recovery = VideoReceiveRecovery::default();
    deliver_video_payload(
        source(0, 7, 1, true),
        &Bytes::from_static(b"picture"),
        &mut inbound,
        &mut metrics,
        &mut recovery,
        true,
    );
    assert_eq!(inbound_rx.try_recv().unwrap().unwrap(), BytesMut::from(&b"picture"[..]));
    drop(inbound_rx);
    let delivery = deliver_video_payload(
        source(0, 7, 2, false),
        &Bytes::from_static(b"delta"),
        &mut inbound,
        &mut metrics,
        &mut recovery,
        true,
    );
    assert_eq!(delivery, VideoPayloadDelivery { alive: false, needs_keyframe: false, strict_recovery: false });
}

#[test]
fn outcomes_of_handing_over_are_settled() {
    let mut metrics = QuicApplicationMetrics::default();
    let mut recovery = VideoReceiveRecovery::default();
    recovery.observe(source(0, 7, 1, true), true);
    let info = source(0, 7, 2, false);
    assert_eq!(
        settle_video_payload(info, true, SendOutcome::Sent, &mut metrics, &mut recovery),
        VideoPayloadDelivery { alive: true, needs_keyframe: true, strict_recovery: false }
    );
    assert_eq!(
        settle_video_payload(info, false, SendOutcome::Full, &mut metrics, &mut recovery),
        VideoPayloadDelivery { alive: true, needs_keyframe: true, strict_recovery: true }
    );
    assert!(recovery.stream_awaiting_keyframe(info.key));
    assert_eq!(metrics.video_recovery_suppressed_frames, 1);
    assert!(!settle_video_payload(info, false, SendOutcome::Closed, &mut metrics, &mut recovery).alive);
    assert!(settle_keyframe_request(SendOutcome::Sent, &mut metrics));
    assert!(settle_keyframe_request(SendOutcome::Full, &mut metrics));
    assert!(!settle_keyframe_request(SendOutcome::Closed, &mut metrics));
    assert_eq!(metrics.video_keyframe_requests, 1);
}

#[test]
fn requests_keep_their_distance() {
    let (_inbound, _inbound_rx, mut control, mut control_rx) = queues();
    let mut metrics = QuicApplicationMetrics::default();
    let mut recovery = VideoReceiveRecovery::default();
    recovery.observe(source(0, 7, 1, true), true);
    for millis in [0, 500, 999, 1_000, 1_500] {
        assert!(request_video_keyframe(
            &mut control,
            true,
            &mut metrics,
            &mut recovery,
            after_millis(millis),
            0,
            false
        ));
    }
    assert!(control_rx.try_recv().is_ok() && control_rx.try_recv().is_ok());
    assert!(control_rx.try_recv().is_err());
    assert_eq!(metrics.video_keyframe_requests, 2);
}

fn delta_message(frame_id: u64) -> Result<Message, String> {
    Ok(Message {
        union: Some(MessageUnion::VideoFrame(VideoFrame {
            display: 0,
            stream_id: 7,
            frame_id,
            capture_time_ms: 0,
            union: Some(VideoFrameUnion::H264s(EncodedVideoFrames { frames: vec![EncodedVideoFrame { key: false }] })),
        })),
    })
}

fn reassembled(epoch: u64, payload: &'static [u8], message: Result<Message, String>) -> VideoReassemblyOutcome {
    VideoReassemblyOutcome {
        request_keyframe: false,
        dropped_frames: 0,
        frame: Some(ReassembledVideoFrame {
            metadata: VideoFrameMetadata {
                frame_id: 1,
                codec: VideoCodec::H264,
                flags: 0,
                presentation_timestamp_us: epoch,
            },
            payload: Bytes::from_static(payload),
            message,
        }),
    }
}

#[test]
fn deltas_pass_the_barrier_behind_their_keyframe() {
    let (mut inbound, mut inbound_rx, mut control, mut control_rx) = queues();
    let mut metrics = QuicApplicationMetrics::default();
    let mut recovery = VideoReceiveRecovery::default();
    let mut holdback = VideoEpochHoldback::default();
    let stats = VideoReassemblyStats {
        expired_frames: u64::MAX,
        evicted_frames: 1,
        obsolete_frames: 2,
        last_frame_bytes: 77,
        ..VideoReassemblyStats::default()
    };
    for (frame_id, payload) in [(12, &b"twelve"[..]), (11, &b"eleven"[..])] {
        assert!(handle_video_outcome(
            reassembled(10, payload, delta_message(frame_id)),
            &stats,
            &mut inbound,
            &mut control,
            true,
            true,
            &mut metrics,
            &mut recovery,
            &mut holdback,
            NOW,
            WINDOW,
        ));
    }
    // What cannot be read is dropped.
    assert!(handle_video_outcome(
        reassembled(10, b"noise", Err("unread".to_owned())),
        &stats,
        &mut inbound,
        &mut control,
        true,
        true,
        &mut metrics,
        &mut recovery,
        &mut holdback,
        NOW,
        WINDOW,
    ));
    assert!(inbound_rx.try_recv().is_err());
    assert!(accept_reliable_keyframe(
        source(0, 7, 10, true),
        Bytes::from_static(b"ten"),
        &mut inbound,
        &mut control,
        true,
        &mut metrics,
        &mut recovery,
        &mut holdback,
        NOW,
        WINDOW,
        NOW,
    ));
    for expected in [&b"ten"[..], &b"eleven"[..], &b"twelve"[..]] {
        assert_eq!(&inbound_rx.try_recv().unwrap().unwrap()[..], expected);
    }
    assert!(control_rx.try_recv().is_err());
    assert_eq!(metrics.reliable_keyframes_received, 1);
    assert_eq!((metrics.video_keyframe_barrier_held, metrics.video_keyframe_barrier_released), (2, 2));
    assert_eq!((metrics.video_reassembly_drops, metrics.video_reassembly_evicted), (u64::MAX, 1));
    assert_eq!(metrics.video_reassembly_last_frame_bytes, 77);

    // Nobody listens any more: the step says so.
    drop(inbound_rx);
    assert!(!accept_reliable_keyframe(
        source(0, 7, 20, true),
        Bytes::from_static(b"twenty"),
        &mut inbound,
        &mut control,
        true,
        &mut metrics,
        &mut recovery,
        &mut holdback,
        NOW,
        WINDOW,
        NOW,
    ));
}

#[test]
fn frames_pass_at_once_without_the_barrier() {
    let (mut inbound, mut inbound_rx, mut control, control_rx) = queues();
    let mut metrics = QuicApplicationMetrics::default();
    let mut recovery = VideoReceiveRecovery::default();
    recovery.observe(source(0, 7, 1, true), true);
    let mut holdback = VideoEpochHoldback::default();
    let mut step = |frame_id| {
        handle_video_outcome(
            reassembled(0, b"delta", delta_message(frame_id)),
            &VideoReassemblyStats::default(),
            &mut inbound,
            &mut control,
            true,
            false,
            &mut metrics,
            &mut recovery,
            &mut holdback,
            NOW,
            WINDOW,
        )
    };
    assert!(step(2));
    assert!(inbound_rx.try_recv().is_ok());
    drop(control_rx);
    // A gap calls for a keyframe, and there is no way to ask for it any more.
    assert!(!step(4));
    assert!(inbound_rx.try_recv().is_err());
    assert_eq!((metrics.video_source_frame_gaps, metrics.video_recovery_suppressed_frames), (1, 1));
    assert_eq!(holdback.stream_count(), 0);
}
