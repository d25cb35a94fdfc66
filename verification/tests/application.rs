use bytes::{Bytes, BytesMut};
use quic_application::keyboard::KeyboardInput;
use quic_application::message::{
    AudioFormat, EncodedVideoFrame, EncodedVideoFrames, Message, MessageUnion, MiscUnion, MouseEvent, VideoFrame,
    VideoFrameUnion,
};
use quic_application::ordered::OrderedMap;
use quic_application::outbox::{InboundItem, Outbox, SendOutcome};
use quic_application::time::Timestamp;
use quic_application::transport::application::barrier::{
    MAX_VIDEO_EPOCH_STREAM_STATES, VIDEO_EPOCH_HOLDBACK_MAX_FRAMES, VIDEO_EPOCH_HOLDBACK_TIMEOUT_NANOS,
};
use quic_application::transport::application::channels::application_channel_kinds;
use quic_application::transport::application::classify::{
    classify_message, pack_audio_format, unpack_audio_format, ApplicationClass,
};
use quic_application::transport::application::delivery::{
    deliver_video_payload, handle_video_outcome, request_video_keyframe, VideoPayloadDelivery,
};
use quic_application::transport::application::holdback::{VideoEpochHoldback, VideoHoldbackOutcome};
use quic_application::transport::application::metrics::QuicApplicationMetrics;
use quic_application::transport::application::ordering::VideoOrderingGate;
use quic_application::transport::application::outbound::{
    apply_video_reference_epoch, should_replace_pending_video, OutboundPayload, ReliableOutbound, VideoOutbound,
    VideoOutboundTrackKey,
};
use quic_application::transport::application::pacing::VIDEO_EPOCH_REORDER_MIN_NANOS;
use quic_application::transport::application::receive_recovery::{
    VideoKeyframeRequest, VideoReceiveDecision, VideoReceiveRecovery, VIDEO_KEYFRAME_REQUEST_MIN_INTERVAL_NANOS,
    VIDEO_KEYFRAME_RETRY_INITIAL_DELAY_NANOS,
};
use quic_application::transport::application::send_recovery::{LocalVideoRefresh, VideoSendRecovery};
use quic_application::transport::application::slots::TrackLatestSlot;
use quic_application::transport::protocol::{MouseMovementMode, ReliableChannelKind};
use quic_application::transport::video::{
    VideoCodec, VideoFrameMetadata, VideoReassemblyOutcome, VideoReassemblyStats, VideoSourceInfo, VideoStreamKey,
    FLAG_KEYFRAME,
};
use std::time::Duration;
use tokio::sync::mpsc;

const NOW: Timestamp = Timestamp { nanos: 5_000_000_000 };

fn after(nanos: u64) -> Timestamp {
    Timestamp { nanos: NOW.nanos + nanos }
}

fn after_millis(millis: u64) -> Timestamp {
    after(millis * 1_000_000)
}

fn reorder_min() -> Duration {
    Duration::from_nanos(VIDEO_EPOCH_REORDER_MIN_NANOS)
}

fn message(union: MessageUnion) -> Message {
    Message { union: Some(union) }
}

fn inbound_queue(room: usize) -> (Outbox<InboundItem>, mpsc::Receiver<InboundItem>) {
    let (sender, receiver) = mpsc::channel(room);
    (Outbox::new(sender), receiver)
}

fn control_queue(room: usize) -> (Outbox<ReliableOutbound>, mpsc::Receiver<ReliableOutbound>) {
    let (sender, receiver) = mpsc::channel(room);
    (Outbox::new(sender), receiver)
}

/// The miscellaneous part of a message that the transport made.
fn misc_union(outbound: ReliableOutbound) -> MiscUnion {
    let OutboundPayload::Message(message) = outbound.payload else {
        panic!("expected a message of the transport");
    };
    let Some(MessageUnion::Misc(misc)) = message.union else {
        panic!("expected misc message");
    };
    misc.union.expect("expected a miscellaneous part")
}

#[test]
fn keyboard_v2_uses_the_reliable_input_class() {
    let message = message(MessageUnion::KeyboardInput(KeyboardInput {
        protocol_version: 0,
        input_epoch: 0,
        sequence: 0,
        union: None,
    }));
    assert_eq!(classify_message(&message).unwrap(), ApplicationClass::Input);
}

#[test]
fn protobuf_messages_are_classified_without_native_struct_deserialization() {
    let mouse = message(MessageUnion::MouseEvent(MouseEvent { mask: 5, x: -3, y: 4 }));
    assert!(matches!(
        classify_message(&mouse).unwrap(),
        ApplicationClass::Mouse { mode: MouseMovementMode::Relative, .. }
    ));
    assert_eq!(
        classify_message(&message(MessageUnion::Clipboard)).unwrap(),
        ApplicationClass::Clipboard
    );
    assert_eq!(classify_message(&message(MessageUnion::AudioFrame)).unwrap(), ApplicationClass::Audio);
}

#[test]
fn video_metadata_preserves_codec_keyframe_and_timestamp() {
    let video = VideoFrame {
        display: 0,
        stream_id: 0,
        frame_id: 42,
        capture_time_ms: 17,
        union: Some(VideoFrameUnion::H264s(EncodedVideoFrames { frames: vec![EncodedVideoFrame { key: true }] })),
    };
    assert_eq!(
        classify_message(&message(MessageUnion::VideoFrame(video))).unwrap(),
        ApplicationClass::Video(VideoFrameMetadata {
            frame_id: 42,
            codec: VideoCodec::H264,
            flags: FLAG_KEYFRAME,
            presentation_timestamp_us: 17_000,
        })
    );
}

fn outbound_video(frame_id: u64, keyframe: bool, ordering_epoch: u64) -> VideoOutbound {
    outbound_video_for_track(7, frame_id, keyframe, ordering_epoch)
}

fn outbound_video_for_track(track_key: u64, frame_id: u64, keyframe: bool, ordering_epoch: u64) -> VideoOutbound {
    VideoOutbound {
        track_key: VideoOutboundTrackKey::Latest(track_key),
        metadata: VideoFrameMetadata {
            frame_id,
            codec: VideoCodec::H264,
            flags: if keyframe { FLAG_KEYFRAME } else { 0 },
            presentation_timestamp_us: frame_id * 1_000,
        },
        source_info: Some(VideoSourceInfo {
            key: VideoStreamKey { display: 0, stream_id: 7 },
            frame_id,
            keyframe,
            codec: VideoCodec::H264,
        }),
        payload: Bytes::from(vec![frame_id as u8]),
        ordering_epoch,
    }
}

#[test]
fn v4_deltas_are_tagged_with_the_latest_source_keyframe() {
    let mut epochs = OrderedMap::new();
    let mut keyframe = outbound_video(10, true, 0);
    let mut delta = outbound_video(11, false, 0);

    assert_eq!(apply_video_reference_epoch(&mut keyframe, &mut epochs, true), Some(10));
    assert_eq!(apply_video_reference_epoch(&mut delta, &mut epochs, true), Some(10));
    assert_eq!(delta.metadata.presentation_timestamp_us, 10);

    let mut legacy = outbound_video(12, false, 0);
    assert_eq!(apply_video_reference_epoch(&mut legacy, &mut epochs, false), None);
    assert_eq!(legacy.metadata.presentation_timestamp_us, 12_000);
}

#[test]
fn latest_video_slot_preserves_pending_keyframe_from_same_epoch_delta() {
    let mut slot = TrackLatestSlot::new(2);
    let track = VideoOutboundTrackKey::Latest(7);
    assert!(slot.replace_when_with(track, outbound_video(1, true, 4), should_replace_pending_video).is_queued());
    assert!(!slot.replace_when_with(track, outbound_video(2, false, 4), should_replace_pending_video).is_queued());

    let pending = slot.take().unwrap();
    assert_eq!(pending.metadata.frame_id, 1);
    assert!(pending.is_keyframe());
}

#[test]
fn latest_video_slot_isolates_tracks_and_rotates_service() {
    let mut slot = TrackLatestSlot::new(2);
    let track_a = VideoOutboundTrackKey::Latest(7);
    let track_b = VideoOutboundTrackKey::Latest(8);
    assert!(slot
        .replace_when_with(track_a, outbound_video_for_track(7, 1, false, 4), should_replace_pending_video)
        .is_queued());
    assert!(slot
        .replace_when_with(track_b, outbound_video_for_track(8, 1, true, 4), should_replace_pending_video)
        .is_queued());
    assert!(slot
        .replace_when_with(track_a, outbound_video_for_track(7, 2, false, 4), should_replace_pending_video)
        .is_queued());

    let first = slot.take().unwrap();
    assert_eq!(first.track_key, track_a);
    assert_eq!(first.metadata.frame_id, 2);

    assert!(slot
        .replace_when_with(track_a, outbound_video_for_track(7, 3, false, 4), should_replace_pending_video)
        .is_queued());
    let second = slot.take().unwrap();
    assert_eq!(second.track_key, track_b);
    assert!(second.is_keyframe());
}

#[test]
fn pending_video_selection_keeps_latency_and_ordering_semantics() {
    assert!(should_replace_pending_video(&outbound_video(2, false, 4), &outbound_video(3, false, 4)));
    assert!(should_replace_pending_video(&outbound_video(1, true, 4), &outbound_video(4, true, 4)));
    assert!(should_replace_pending_video(&outbound_video(1, true, 4), &outbound_video(5, false, 5)));
    assert!(!should_replace_pending_video(&outbound_video(5, false, 5), &outbound_video(1, true, 4)));
}

fn source_video_for_display(display: i32, stream_id: u64, frame_id: u64, keyframe: bool) -> VideoSourceInfo {
    source_video_for_display_codec(display, stream_id, frame_id, keyframe, VideoCodec::H264)
}

fn source_video_for_display_codec(
    display: i32,
    stream_id: u64,
    frame_id: u64,
    keyframe: bool,
    codec: VideoCodec,
) -> VideoSourceInfo {
    VideoSourceInfo { key: VideoStreamKey { display, stream_id }, frame_id, keyframe, codec }
}

fn source_video(stream_id: u64, frame_id: u64, keyframe: bool) -> VideoSourceInfo {
    source_video_for_display(0, stream_id, frame_id, keyframe)
}

fn source_video_with_codec(stream_id: u64, frame_id: u64, keyframe: bool, codec: VideoCodec) -> VideoSourceInfo {
    source_video_for_display_codec(0, stream_id, frame_id, keyframe, codec)
}

#[test]
fn receiver_suppresses_deltas_after_a_source_gap_until_keyframe() {
    let mut recovery = VideoReceiveRecovery::default();
    assert_eq!(recovery.observe(source_video(7, 1, true), true), VideoReceiveDecision::Accept);
    assert_eq!(recovery.observe(source_video(7, 3, false), true), VideoReceiveDecision::SuppressAfterGap);
    assert_eq!(recovery.observe(source_video(7, 4, false), true), VideoReceiveDecision::Suppress);
    assert_eq!(recovery.observe(source_video(7, 5, true), true), VideoReceiveDecision::Accept);
    assert_eq!(recovery.observe(source_video(7, 6, false), true), VideoReceiveDecision::Accept);
}

#[test]
fn receiver_continues_after_a_source_gap_with_reliable_keyframe_repair() {
    let mut recovery = VideoReceiveRecovery::default();
    assert_eq!(
        recovery.observe(source_video_with_codec(7, 1, true, VideoCodec::Vp9), false),
        VideoReceiveDecision::Accept
    );
    assert_eq!(
        recovery.observe(source_video_with_codec(7, 3, false, VideoCodec::Vp9), false),
        VideoReceiveDecision::AcceptAfterGap
    );
    assert_eq!(
        recovery.observe(source_video_with_codec(7, 4, false, VideoCodec::Vp9), false),
        VideoReceiveDecision::Accept
    );
    assert!(!recovery.stream_awaiting_keyframe(source_video_with_codec(7, 4, false, VideoCodec::Vp9).key));
}

#[test]
fn barrier_suppresses_reference_sensitive_deltas_after_source_gap() {
    for codec in [VideoCodec::H264, VideoCodec::H265, VideoCodec::Av1] {
        let (mut inbound, mut inbound_rx) = inbound_queue(4);
        let mut metrics = QuicApplicationMetrics::default();
        let mut recovery = VideoReceiveRecovery::default();

        let keyframe = deliver_video_payload(
            source_video_with_codec(7, 1, true, codec),
            &Bytes::from_static(b"keyframe"),
            &mut inbound,
            &mut metrics,
            &mut recovery,
            false,
        );
        assert!(keyframe.alive);
        assert!(!keyframe.needs_keyframe);
        assert!(inbound_rx.try_recv().is_ok());

        let gap = deliver_video_payload(
            source_video_with_codec(7, 3, false, codec),
            &Bytes::from_static(b"broken-delta"),
            &mut inbound,
            &mut metrics,
            &mut recovery,
            false,
        );
        assert_eq!(gap, VideoPayloadDelivery { alive: true, needs_keyframe: true, strict_recovery: true });
        assert!(inbound_rx.try_recv().is_err());

        let recovered = deliver_video_payload(
            source_video_with_codec(7, 4, true, codec),
            &Bytes::from_static(b"recovery-keyframe"),
            &mut inbound,
            &mut metrics,
            &mut recovery,
            false,
        );
        assert!(recovered.alive);
        assert!(!recovered.strict_recovery);
        assert!(inbound_rx.try_recv().is_ok());
    }
}

#[test]
fn barrier_keeps_vp9_gap_delivery_lenient() {
    let (mut inbound, mut inbound_rx) = inbound_queue(4);
    let mut metrics = QuicApplicationMetrics::default();
    let mut recovery = VideoReceiveRecovery::default();
    let keyframe = deliver_video_payload(
        source_video_with_codec(7, 1, true, VideoCodec::Vp9),
        &Bytes::from_static(b"keyframe"),
        &mut inbound,
        &mut metrics,
        &mut recovery,
        false,
    );
    assert!(keyframe.alive);
    assert!(inbound_rx.try_recv().is_ok());

    let gap = deliver_video_payload(
        source_video_with_codec(7, 3, false, VideoCodec::Vp9),
        &Bytes::from_static(b"delta"),
        &mut inbound,
        &mut metrics,
        &mut recovery,
        false,
    );
    assert!(gap.alive);
    assert!(gap.needs_keyframe);
    assert!(!gap.strict_recovery);
    assert!(inbound_rx.try_recv().is_ok());
}

#[test]
fn reference_sensitive_gap_serializes_strict_scoped_refresh() {
    let (mut inbound, mut inbound_rx) = inbound_queue(4);
    let (mut control, mut control_rx) = control_queue(1);
    let mut metrics = QuicApplicationMetrics::default();
    let mut recovery = VideoReceiveRecovery::default();
    assert!(
        deliver_video_payload(
            source_video_with_codec(7, 1, true, VideoCodec::H264),
            &Bytes::from_static(b"keyframe"),
            &mut inbound,
            &mut metrics,
            &mut recovery,
            false,
        )
        .alive
    );
    assert!(inbound_rx.try_recv().is_ok());
    let gap = deliver_video_payload(
        source_video_with_codec(7, 3, false, VideoCodec::H264),
        &Bytes::from_static(b"broken-delta"),
        &mut inbound,
        &mut metrics,
        &mut recovery,
        false,
    );
    assert!(gap.strict_recovery);
    assert!(request_video_keyframe(
        &mut control,
        true,
        &mut metrics,
        &mut recovery,
        NOW,
        1,
        gap.strict_recovery,
    ));

    let MiscUnion::VideoReferenceRefresh(refresh) = misc_union(control_rx.try_recv().unwrap()) else {
        panic!("expected scoped video reference refresh");
    };
    assert_eq!(refresh.stream_id, 7);
    assert_eq!(refresh.received_frame_id, 3);
    assert!(refresh.strict_recovery);
}

#[test]
fn full_decode_queue_marks_reference_recovery_strict() {
    let (mut inbound, _inbound_rx) = inbound_queue(1);
    let mut metrics = QuicApplicationMetrics::default();
    let mut recovery = VideoReceiveRecovery::default();
    assert_eq!(inbound.try_send(Ok(BytesMut::from(&b"occupied"[..]))), SendOutcome::Sent);

    let delivery = deliver_video_payload(
        source_video_with_codec(7, 1, true, VideoCodec::H264),
        &Bytes::from_static(b"keyframe"),
        &mut inbound,
        &mut metrics,
        &mut recovery,
        false,
    );
    assert_eq!(delivery, VideoPayloadDelivery { alive: true, needs_keyframe: true, strict_recovery: true });
}

#[test]
fn full_decode_queue_marks_only_the_affected_video_stream() {
    let (mut inbound, _inbound_rx) = inbound_queue(1);
    let mut metrics = QuicApplicationMetrics::default();
    let mut recovery = VideoReceiveRecovery::default();
    let track_a = source_video_for_display(0, 7, 1, true);
    let track_b = source_video_for_display(1, 8, 1, true);
    assert_eq!(recovery.observe(track_a, true), VideoReceiveDecision::Accept);
    assert_eq!(recovery.observe(track_b, true), VideoReceiveDecision::Accept);
    assert_eq!(inbound.try_send(Ok(BytesMut::from(&b"occupied"[..]))), SendOutcome::Sent);

    let delivery = deliver_video_payload(
        source_video_for_display(1, 8, 2, true),
        &Bytes::from_static(b"track-b-keyframe"),
        &mut inbound,
        &mut metrics,
        &mut recovery,
        false,
    );
    assert!(delivery.strict_recovery);
    assert!(!recovery.stream_awaiting_keyframe(track_a.key));
    assert!(recovery.stream_awaiting_keyframe(track_b.key));
}

#[test]
fn receiver_recovery_isolated_per_video_stream() {
    let mut recovery = VideoReceiveRecovery::default();
    assert_eq!(recovery.observe(source_video(1, 1, true), true), VideoReceiveDecision::Accept);
    assert_eq!(
        recovery.observe(source_video_for_display(1, 2, 1, true), true),
        VideoReceiveDecision::Accept
    );
    assert_eq!(recovery.observe(source_video(1, 3, false), true), VideoReceiveDecision::SuppressAfterGap);
    assert_eq!(
        recovery.observe(source_video_for_display(1, 2, 2, false), true),
        VideoReceiveDecision::Accept
    );
}

#[test]
fn receiver_scoped_request_cycles_are_isolated_per_video_stream() {
    let mut recovery = VideoReceiveRecovery::default();
    let track_a = source_video_for_display(0, 7, 1, true);
    let track_b = source_video_for_display(1, 8, 1, true);
    assert_eq!(recovery.observe(track_a, true), VideoReceiveDecision::Accept);
    assert_eq!(recovery.observe(track_b, true), VideoReceiveDecision::Accept);

    assert_eq!(
        recovery.observe(source_video_for_display(0, 7, 3, false), true),
        VideoReceiveDecision::SuppressAfterGap
    );
    let Some(VideoKeyframeRequest::Scoped(request_a)) = recovery.next_keyframe_request(NOW, true, 1) else {
        panic!("expected scoped request for track A");
    };
    assert_eq!((request_a.display, request_a.stream_id), (0, 7));

    assert_eq!(
        recovery.observe(source_video_for_display(1, 8, 3, false), true),
        VideoReceiveDecision::SuppressAfterGap
    );
    let Some(VideoKeyframeRequest::Scoped(request_b)) = recovery.next_keyframe_request(NOW, true, 1) else {
        panic!("expected independent scoped request for track B");
    };
    assert_eq!((request_b.display, request_b.stream_id), (1, 8));
    assert_eq!(recovery.pending_request_count(), 2);

    assert_eq!(
        recovery.observe(source_video_for_display(0, 7, 4, true), true),
        VideoReceiveDecision::Accept
    );
    assert!(!recovery.has_pending_request(Some(track_a.key)));
    assert!(recovery.has_pending_request(Some(track_b.key)));
    assert!(recovery.stream_awaiting_keyframe(track_b.key));
}

#[test]
fn receiver_new_stream_keyframe_retires_previous_stream_on_same_display() {
    let mut recovery = VideoReceiveRecovery::default();
    assert_eq!(recovery.observe(source_video(7, 1, true), true), VideoReceiveDecision::Accept);
    recovery.mark_reference_loss();

    let replacement = source_video(8, 1, true);
    assert_eq!(recovery.observe(replacement, true), VideoReceiveDecision::Accept);
    assert_eq!(recovery.stream_count(), 1);
    assert!(recovery.has_stream(replacement.key));
    assert!(!recovery.stream_awaiting_keyframe(replacement.key));
}

#[test]
fn legacy_unstamped_video_frames_remain_compatible() {
    let mut recovery = VideoReceiveRecovery::default();
    assert_eq!(recovery.observe(source_video(0, 0, false), true), VideoReceiveDecision::Accept);
}

#[test]
fn receiver_keyframe_recovery_uses_bounded_backoff() {
    let mut recovery = VideoReceiveRecovery::default();
    recovery.observe(source_video(7, 4, true), true);

    assert!(matches!(
        recovery.next_keyframe_request(NOW, true, 1),
        Some(VideoKeyframeRequest::Scoped(_))
    ));
    assert!(recovery.next_keyframe_request(after_millis(999), true, 0).is_none());
    assert!(matches!(
        recovery.next_keyframe_request(after_millis(1_000), true, 0),
        Some(VideoKeyframeRequest::Scoped(_))
    ));
    assert!(recovery.next_keyframe_request(after_millis(2_000), true, 0).is_none());
    assert!(matches!(
        recovery.next_keyframe_request(after_millis(3_000), true, 0),
        Some(VideoKeyframeRequest::Scoped(_))
    ));
    assert!(matches!(
        recovery.next_keyframe_request(after_millis(7_000), true, 0),
        Some(VideoKeyframeRequest::Scoped(_))
    ));
    assert!(recovery.next_keyframe_request(after_millis(16_000), true, 0).is_none());
    assert!(matches!(
        recovery.next_keyframe_request(after_millis(17_000), true, 0),
        Some(VideoKeyframeRequest::Scoped(_))
    ));
}

#[test]
fn strict_recovery_flag_survives_scoped_request_retries() {
    let mut recovery = VideoReceiveRecovery::default();
    recovery.observe(source_video(7, 4, true), true);

    let first = recovery.next_keyframe_request_with_recovery(NOW, true, 1, true);
    let Some(VideoKeyframeRequest::Scoped(first)) = first else {
        panic!("expected strict scoped recovery request");
    };
    assert!(first.strict_recovery);

    let retry = recovery.next_keyframe_request_with_recovery(
        after(VIDEO_KEYFRAME_REQUEST_MIN_INTERVAL_NANOS),
        true,
        0,
        false,
    );
    let Some(VideoKeyframeRequest::Scoped(retry)) = retry else {
        panic!("expected strict scoped recovery retry");
    };
    assert!(retry.strict_recovery);
}

#[test]
fn strict_recovery_escalates_pending_advisory_inside_minimum_interval() {
    let mut recovery = VideoReceiveRecovery::default();
    recovery.observe(source_video(7, 4, true), true);

    let advisory = recovery.next_keyframe_request_with_recovery(NOW, true, 1, false);
    let Some(VideoKeyframeRequest::Scoped(advisory)) = advisory else {
        panic!("expected advisory scoped recovery request");
    };
    assert!(!advisory.strict_recovery);

    let strict_at = VIDEO_EPOCH_REORDER_MIN_NANOS;
    let strict = recovery.next_keyframe_request_with_recovery(after(strict_at), true, 0, true);
    let Some(VideoKeyframeRequest::Scoped(strict)) = strict else {
        panic!("expected immediate strict recovery escalation");
    };
    assert!(strict.strict_recovery);

    assert!(recovery
        .next_keyframe_request_with_recovery(after(strict_at + VIDEO_EPOCH_REORDER_MIN_NANOS), true, 0, true)
        .is_none());

    let retry = recovery.next_keyframe_request_with_recovery(
        after(strict_at + VIDEO_KEYFRAME_RETRY_INITIAL_DELAY_NANOS),
        true,
        0,
        false,
    );
    let Some(VideoKeyframeRequest::Scoped(retry)) = retry else {
        panic!("expected strict recovery retry after normal backoff");
    };
    assert!(retry.strict_recovery);
}

#[test]
fn strict_recovery_escalates_after_keyframe_clears_pending_request() {
    let mut recovery = VideoReceiveRecovery::default();
    recovery.observe(source_video(7, 4, true), true);
    assert!(recovery.next_keyframe_request_with_recovery(NOW, true, 1, false).is_some());

    assert_eq!(recovery.observe(source_video(7, 5, true), true), VideoReceiveDecision::Accept);
    assert_eq!(recovery.pending_request_count(), 0);
    assert_eq!(recovery.observe(source_video(7, 7, false), true), VideoReceiveDecision::SuppressAfterGap);

    let strict =
        recovery.next_keyframe_request_with_recovery(after(VIDEO_EPOCH_REORDER_MIN_NANOS), true, 1, true);
    let Some(VideoKeyframeRequest::Scoped(strict)) = strict else {
        panic!("expected strict recovery after the completed advisory cycle");
    };
    assert!(strict.strict_recovery);
}

#[test]
fn receiver_retry_can_advance_received_frame_without_recovery_progress() {
    let mut recovery = VideoReceiveRecovery::default();
    recovery.observe(source_video(7, 4, true), true);
    assert_eq!(recovery.observe(source_video(7, 6, false), true), VideoReceiveDecision::SuppressAfterGap);
    let first = match recovery.next_keyframe_request(NOW, true, 1) {
        Some(VideoKeyframeRequest::Scoped(request)) => request,
        _ => panic!("expected first scoped recovery request"),
    };
    assert_eq!(first.received_frame_id, 6);

    assert_eq!(recovery.observe(source_video(7, 7, false), true), VideoReceiveDecision::Suppress);
    let retry = match recovery.next_keyframe_request(after_millis(1_000), true, 1) {
        Some(VideoKeyframeRequest::Scoped(request)) => request,
        _ => panic!("expected scoped recovery retry"),
    };
    assert_eq!(retry.received_frame_id, 7);
}

#[test]
fn receiver_keyframe_ends_the_pending_recovery_cycle() {
    let mut recovery = VideoReceiveRecovery::default();
    recovery.observe(source_video(7, 4, true), true);
    recovery.observe(source_video(7, 6, false), true);
    assert!(recovery.next_keyframe_request(NOW, true, 1).is_some());
    assert_eq!(recovery.observe(source_video(7, 7, true), true), VideoReceiveDecision::Accept);
    assert_eq!(recovery.pending_request_count(), 0);
    assert_eq!(recovery.observe(source_video(7, 9, false), true), VideoReceiveDecision::SuppressAfterGap);
    assert!(recovery.next_keyframe_request(after_millis(999), true, 1).is_none());
    assert!(recovery
        .next_keyframe_request(after(VIDEO_KEYFRAME_REQUEST_MIN_INTERVAL_NANOS), true, 1)
        .is_some());
}

#[test]
fn keyframe_barrier_new_stream_discards_old_same_display_holdback() {
    let mut holdback = VideoEpochHoldback::default();
    let old = holdback.admit_delta(
        source_video(7, 13, false),
        10,
        Bytes::from_static(b"old-delta"),
        NOW,
        reorder_min(),
    );
    assert_eq!(old.held_frames, 1);

    let replacement = holdback.accept_keyframe(
        source_video(8, 1, true),
        Bytes::from_static(b"new-keyframe"),
        after(VIDEO_EPOCH_HOLDBACK_TIMEOUT_NANOS),
        reorder_min(),
    );
    assert!(!replacement.recovery_required);
    assert_eq!(replacement.timed_out_frames, 0);
    assert_eq!(holdback.stream_count(), 1);
    assert!(holdback.has_stream(source_video(8, 1, true).key));
}

fn frame_ids(outcome: &VideoHoldbackOutcome) -> Vec<u64> {
    outcome.ready.iter().map(|(info, _)| info.frame_id).collect()
}

#[test]
fn keyframe_barrier_holds_future_deltas_and_releases_them_in_order() {
    let mut holdback = VideoEpochHoldback::default();
    let held_11 = holdback.admit_delta(
        source_video(7, 11, false),
        10,
        Bytes::from_static(b"delta-11"),
        NOW,
        reorder_min(),
    );
    let held_13 = holdback.admit_delta(
        source_video(7, 13, false),
        10,
        Bytes::from_static(b"delta-13"),
        NOW,
        reorder_min(),
    );
    assert!(held_11.ready.is_empty());
    assert!(held_13.ready.is_empty());

    let keyframe = holdback.accept_keyframe(
        source_video(7, 10, true),
        Bytes::from_static(b"keyframe-10"),
        NOW,
        reorder_min(),
    );
    assert_eq!(frame_ids(&keyframe), vec![10, 11]);

    let filled_gap = holdback.admit_delta(
        source_video(7, 12, false),
        10,
        Bytes::from_static(b"delta-12"),
        NOW,
        reorder_min(),
    );
    assert_eq!(frame_ids(&filled_gap), vec![12, 13]);
}

#[test]
fn keyframe_barrier_skips_a_missing_delta_after_the_reorder_window() {
    let mut holdback = VideoEpochHoldback::default();
    let keyframe = holdback.accept_keyframe(
        source_video(7, 10, true),
        Bytes::from_static(b"keyframe-10"),
        NOW,
        reorder_min(),
    );
    assert_eq!(keyframe.ready.len(), 1);

    let held = holdback.admit_delta(
        source_video(7, 12, false),
        10,
        Bytes::from_static(b"delta-12"),
        NOW,
        reorder_min(),
    );
    assert!(held.ready.is_empty());
    assert_eq!(held.held_frames, 1);

    let released = holdback.expire(after(VIDEO_EPOCH_REORDER_MIN_NANOS), reorder_min());
    assert_eq!(released.gap_events, 1);
    assert_eq!(released.gap_skipped_frames, 1);
    assert!(released.recovery_required);
    assert!(!released.strict_recovery_required);
    assert_eq!(released.timed_out_frames, 0);
    assert_eq!(frame_ids(&released), vec![12]);
}

#[test]
fn keyframe_barrier_hard_timeout_preserves_fresh_held_frames() {
    let mut holdback = VideoEpochHoldback::default();
    holdback.accept_keyframe(
        source_video(7, 10, true),
        Bytes::from_static(b"keyframe-10"),
        NOW,
        reorder_min(),
    );
    holdback.admit_delta(
        source_video(7, 21, false),
        20,
        Bytes::from_static(b"old-future-delta"),
        NOW,
        reorder_min(),
    );
    holdback.admit_delta(
        source_video(7, 22, false),
        20,
        Bytes::from_static(b"fresh-future-delta"),
        after(VIDEO_EPOCH_HOLDBACK_TIMEOUT_NANOS - 1_000_000),
        reorder_min(),
    );

    let expired = holdback.expire(after(VIDEO_EPOCH_HOLDBACK_TIMEOUT_NANOS), reorder_min());
    assert_eq!(expired.timed_out_frames, 1);
    assert!(expired.strict_recovery_required);
    assert_eq!(holdback.pending_totals().0, 1);
}

#[test]
fn keyframe_barrier_times_out_without_unbounded_holdback() {
    let mut holdback = VideoEpochHoldback::default();
    let held = holdback.admit_delta(
        source_video(7, 11, false),
        10,
        Bytes::from_static(b"delta-11"),
        NOW,
        reorder_min(),
    );
    assert_eq!(held.held_frames, 1);

    let expired = holdback.expire(after(VIDEO_EPOCH_HOLDBACK_TIMEOUT_NANOS), reorder_min());
    assert!(expired.recovery_required);
    assert_eq!(expired.timed_out_frames, 1);
    assert_eq!(holdback.pending_totals(), (0, 0));
}

#[test]
fn keyframe_barrier_timeout_keeps_scoped_recovery_context() {
    let mut recovery = VideoReceiveRecovery::default();
    recovery.note_source_context(source_video(7, 11, false));
    recovery.mark_reference_loss();

    match recovery.next_keyframe_request(NOW, true, 1) {
        Some(VideoKeyframeRequest::Scoped(refresh)) => {
            assert_eq!(refresh.display, 0);
            assert_eq!(refresh.stream_id, 7);
            assert_eq!(refresh.received_frame_id, 11);
            assert_eq!(refresh.dropped_frames, 1);
        }
        _ => panic!("expected scoped recovery for a held delta"),
    }
}

#[test]
fn keyframe_barrier_rejects_unbounded_future_epochs() {
    let mut holdback = VideoEpochHoldback::default();
    let mut overflow = VideoHoldbackOutcome::default();
    for frame_id in 1..=VIDEO_EPOCH_HOLDBACK_MAX_FRAMES + 1 {
        overflow = holdback.admit_delta(
            source_video(7, frame_id as u64, false),
            10,
            Bytes::from_static(b"delta"),
            NOW,
            reorder_min(),
        );
    }
    assert!(overflow.recovery_required);
    assert!(overflow.overflowed_frames > 0);
    assert_eq!(holdback.pending_totals(), (0, 0));
}

#[test]
fn keyframe_barrier_bounds_stream_states_and_evicts_least_recently_used() {
    let mut holdback = VideoEpochHoldback::default();
    for display in 0..MAX_VIDEO_EPOCH_STREAM_STATES {
        let info = source_video_for_display(display as i32, display as u64 + 1, 1, true);
        holdback.accept_keyframe(info, Bytes::from_static(b"keyframe"), NOW, reorder_min());
    }

    let primary = source_video_for_display(0, 1, 2, true);
    holdback.accept_keyframe(primary, Bytes::from_static(b"keyframe"), NOW, reorder_min());
    let newest = source_video_for_display(
        MAX_VIDEO_EPOCH_STREAM_STATES as i32,
        MAX_VIDEO_EPOCH_STREAM_STATES as u64 + 1,
        1,
        true,
    );
    holdback.accept_keyframe(newest, Bytes::from_static(b"keyframe"), NOW, reorder_min());

    assert_eq!(holdback.stream_count(), MAX_VIDEO_EPOCH_STREAM_STATES);
    assert!(holdback.has_stream(primary.key));
    assert!(!holdback.has_stream(VideoStreamKey { display: 1, stream_id: 2 }));
}

fn one_dropped_frame() -> VideoReassemblyOutcome {
    VideoReassemblyOutcome { request_keyframe: true, dropped_frames: 1, frame: None }
}

#[test]
fn receiver_recovery_serializes_scoped_reference_refresh_for_v3() {
    let (mut inbound, _inbound_rx) = inbound_queue(1);
    let (mut control, mut control_rx) = control_queue(1);
    let mut metrics = QuicApplicationMetrics::default();
    let mut recovery = VideoReceiveRecovery::default();
    recovery.observe(source_video(7, 4, true), true);
    assert!(handle_video_outcome(
        one_dropped_frame(),
        &VideoReassemblyStats::default(),
        &mut inbound,
        &mut control,
        true,
        false,
        &mut metrics,
        &mut recovery,
        &mut VideoEpochHoldback::default(),
        NOW,
        reorder_min(),
    ));
    let MiscUnion::VideoReferenceRefresh(refresh) = misc_union(control_rx.try_recv().unwrap()) else {
        panic!("expected scoped video reference refresh");
    };
    assert_eq!(refresh.display, 0);
    assert_eq!(refresh.stream_id, 7);
    assert_eq!(refresh.received_frame_id, 4);
    assert_eq!(refresh.dropped_frames, 1);
    assert!(refresh.strict_recovery);
}

#[test]
fn reference_tolerant_reassembly_drop_remains_advisory() {
    let (mut inbound, _inbound_rx) = inbound_queue(1);
    let (mut control, mut control_rx) = control_queue(1);
    let mut metrics = QuicApplicationMetrics::default();
    let mut recovery = VideoReceiveRecovery::default();
    recovery.observe(source_video_with_codec(7, 4, true, VideoCodec::Vp9), true);
    assert!(handle_video_outcome(
        one_dropped_frame(),
        &VideoReassemblyStats::default(),
        &mut inbound,
        &mut control,
        true,
        true,
        &mut metrics,
        &mut recovery,
        &mut VideoEpochHoldback::default(),
        NOW,
        reorder_min(),
    ));
    let MiscUnion::VideoReferenceRefresh(refresh) = misc_union(control_rx.try_recv().unwrap()) else {
        panic!("expected scoped video reference refresh");
    };
    assert!(!refresh.strict_recovery);
}

#[test]
fn receiver_recovery_keeps_legacy_refresh_for_old_quic_protocols() {
    let (mut inbound, _inbound_rx) = inbound_queue(1);
    let (mut control, mut control_rx) = control_queue(1);
    let mut metrics = QuicApplicationMetrics::default();
    let mut recovery = VideoReceiveRecovery::default();
    recovery.observe(source_video(7, 4, true), true);
    assert!(handle_video_outcome(
        one_dropped_frame(),
        &VideoReassemblyStats::default(),
        &mut inbound,
        &mut control,
        false,
        false,
        &mut metrics,
        &mut recovery,
        &mut VideoEpochHoldback::default(),
        NOW,
        reorder_min(),
    ));
    assert!(matches!(misc_union(control_rx.try_recv().unwrap()), MiscUnion::RefreshVideo(true)));
}

#[test]
fn receiver_recovery_v3_never_falls_back_to_a_global_refresh_without_source_context() {
    let (mut inbound, _inbound_rx) = inbound_queue(1);
    let (mut control, mut control_rx) = control_queue(1);
    let mut metrics = QuicApplicationMetrics::default();
    let mut recovery = VideoReceiveRecovery::default();
    assert!(handle_video_outcome(
        one_dropped_frame(),
        &VideoReassemblyStats::default(),
        &mut inbound,
        &mut control,
        true,
        false,
        &mut metrics,
        &mut recovery,
        &mut VideoEpochHoldback::default(),
        NOW,
        reorder_min(),
    ));
    assert!(control_rx.try_recv().is_err());
}

#[test]
fn sender_waits_for_a_keyframe_newer_than_every_suppressed_delta() {
    let (refresh, mut refresh_rx) = mpsc::channel(1);
    let mut metrics = QuicApplicationMetrics::default();
    let mut recovery = VideoSendRecovery::new(refresh, true);
    let track = VideoOutboundTrackKey::Latest(7);
    recovery.enter(track, Some(source_video(7, 2, false)), 2, &mut metrics);
    recovery.enter(track, Some(source_video(7, 3, false)), 3, &mut metrics);
    match refresh_rx.try_recv() {
        Ok(LocalVideoRefresh::Reference(refresh)) => {
            assert_eq!(refresh.display, 0);
            assert_eq!(refresh.stream_id, 7);
            assert_eq!(refresh.received_frame_id, 2);
        }
        _ => panic!("expected scoped reference refresh"),
    }
    assert!(refresh_rx.try_recv().is_err());

    assert!(recovery.suppress_delta(track, 4, &mut metrics));
    recovery.keyframe_sent(track, 3);
    assert!(recovery.suppress_delta(track, 5, &mut metrics));
    recovery.keyframe_sent(track, 6);
    assert!(!recovery.suppress_delta(track, 7, &mut metrics));
    assert_eq!(metrics.video_sender_reference_resets, 1);
    assert_eq!(metrics.video_recovery_suppressed_frames, 2);
}

#[test]
fn sender_reference_recovery_is_isolated_per_track() {
    let (refresh, mut refresh_rx) = mpsc::channel(2);
    let mut metrics = QuicApplicationMetrics::default();
    let mut recovery = VideoSendRecovery::new(refresh, true);
    let track_a = VideoOutboundTrackKey::Latest(7);
    let track_b = VideoOutboundTrackKey::Latest(8);

    recovery.enter(track_b, Some(source_video_for_display(1, 8, 2, false)), 2, &mut metrics);
    assert!(recovery.suppress_delta(track_b, 3, &mut metrics));
    assert!(!recovery.suppress_delta(track_a, 3, &mut metrics));

    recovery.keyframe_sent(track_a, 4);
    assert!(recovery.suppress_delta(track_b, 5, &mut metrics));
    recovery.keyframe_sent(track_b, 6);
    assert!(!recovery.suppress_delta(track_b, 7, &mut metrics));

    match refresh_rx.try_recv() {
        Ok(LocalVideoRefresh::Reference(refresh)) => {
            assert_eq!(refresh.display, 1);
            assert_eq!(refresh.stream_id, 8);
        }
        _ => panic!("expected a scoped refresh for track B"),
    }
    assert!(refresh_rx.try_recv().is_err());
}

#[test]
fn sender_reference_recovery_keeps_legacy_fallback_for_old_quic_protocols() {
    let (refresh, mut refresh_rx) = mpsc::channel(1);
    let mut metrics = QuicApplicationMetrics::default();
    let mut recovery = VideoSendRecovery::new(refresh, false);
    recovery.enter(
        VideoOutboundTrackKey::Latest(7),
        Some(source_video(7, 2, false)),
        2,
        &mut metrics,
    );
    assert!(matches!(refresh_rx.try_recv(), Ok(LocalVideoRefresh::Legacy)));
}

#[test]
fn sender_reference_recovery_v3_never_falls_back_to_a_global_refresh_without_source_context() {
    let (refresh, mut refresh_rx) = mpsc::channel(1);
    let mut metrics = QuicApplicationMetrics::default();
    let mut recovery = VideoSendRecovery::new(refresh, true);
    recovery.enter(VideoOutboundTrackKey::Latest(7), None, 2, &mut metrics);
    assert!(refresh_rx.try_recv().is_err());
}

#[test]
fn cancelling_video_ordering_epoch_releases_waiter() {
    let mut ordering = VideoOrderingGate::new();
    let epoch = ordering.next_epoch().unwrap();
    assert!(!ordering.is_open(epoch));

    ordering.cancel_epoch(epoch);

    assert!(ordering.is_open(epoch));
}

#[test]
fn v1_keeps_five_channels_and_v2_adds_only_reliable_video() {
    assert_eq!(
        application_channel_kinds(false),
        vec![
            ReliableChannelKind::Control,
            ReliableChannelKind::Input,
            ReliableChannelKind::Clipboard,
            ReliableChannelKind::FileTransfer,
            ReliableChannelKind::Diagnostics,
        ]
    );
    let v2 = application_channel_kinds(true);
    assert_eq!(v2.len(), 6);
    assert_eq!(v2.last(), Some(&ReliableChannelKind::Video));
}

#[test]
fn audio_format_pack_is_bounded() {
    let format = AudioFormat { sample_rate: 48_000, channels: 2 };
    assert_eq!(unpack_audio_format(pack_audio_format(&format)), Some((48_000, 2)));
    assert_eq!(pack_audio_format(&AudioFormat { sample_rate: 0, channels: 0 }), 0);
}
