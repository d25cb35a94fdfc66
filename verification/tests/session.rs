use bytes::Bytes;
use quic_application::message::{
    AudioFormat, EncodedVideoFrame, EncodedVideoFrames, Message, MessageUnion, Misc, MiscUnion, MouseEvent, VideoFrame,
    VideoFrameUnion, VideoReferenceRefresh,
};
use quic_application::time::Timestamp;
use quic_application::transport::application::channels::{outbound_capacity, reliable_route, ChannelSetup};
use quic_application::transport::application::classify::{
    ordered_payload, read_ordering_epoch, reliable_message_start, validate_datagram_application_message,
    validate_reliable_application_message, ApplicationClass, ApplicationClassTag,
};
use quic_application::transport::application::metrics::QuicApplicationMetrics;
use quic_application::transport::application::ordering::VideoOrderingGate;
use quic_application::transport::application::outbound::{
    AudioOutbound, OutboundPayload, ReliableOutbound, VideoOutbound, VideoOutboundTrackKey,
};
use quic_application::transport::application::pacing::{pacing_delay_us, video_epoch_reorder_window};
use quic_application::transport::application::reader::{
    audio_payload_is_delivered, expiry_needs_handling, mouse_payload_is_delivered, next_reliable_action,
    note_reliable_keyframe, ordering_acknowledgement, AudioFormatTracker, ReadFailure, ReliableReadAction,
};
use quic_application::transport::application::receive_recovery::VideoReceiveRecovery;
use quic_application::transport::application::send_recovery::{local_refresh_message, LocalVideoRefresh};
use quic_application::transport::application::session::{
    application_session_offer, check_session_message, next_negotiation_step, session_negotiation_error,
    ApplicationQuicRole, NegotiationState, NegotiationStep, SessionAgreement,
};
use quic_application::transport::application::slots::{LatestSlot, SlotOutcome};
use quic_application::transport::application::stream::{
    confirmation_result, confirmed_control_write, session_plan, ApplicationQueues, Confirmation, EnqueueError,
    QuicApplicationStream,
};
use quic_application::transport::application::video_writer::{
    merge_newer_frame, next_write_step, reliable_keyframe_sent, settle_video_datagrams, VideoWriteAction, VideoWriter,
    WriteStep,
};
use quic_application::transport::datagram::budget::VideoDatagramAdmissionFailure;
use quic_application::transport::datagram::sender::VideoDatagramSendOutcome;
use quic_application::transport::error::QuicTransportError;
use quic_application::transport::protocol::{MessageType, QuicApplicationProtocol, ReliableChannelKind};
use quic_application::transport::video::{VideoCodec, VideoSourceInfo, VideoStreamKey};
use quic_application::udp::{
    direct_destination, proxy_uses_password, socket_plan, AddressFamily, HostAddress, SocketAddress, SocketPlan,
    TargetAddress,
};
use std::time::Duration;
use tokio::sync::{mpsc, oneshot};

const NOW: Timestamp = Timestamp { nanos: 9_000_000_000 };

const AGREEMENT: SessionAgreement = SessionAgreement {
    max_datagram_payload: 1_300,
    max_file_bitrate_kbps: 8_000,
    reliable_keyframes: true,
    reliable_keyframe_barrier: true,
};

struct Ends {
    control: mpsc::Receiver<ReliableOutbound>,
    input: mpsc::Receiver<ReliableOutbound>,
    clipboard: mpsc::Receiver<ReliableOutbound>,
    file: mpsc::Receiver<ReliableOutbound>,
    diagnostics: mpsc::Receiver<ReliableOutbound>,
    audio: mpsc::Receiver<AudioOutbound>,
    video_refresh: mpsc::Receiver<LocalVideoRefresh>,
}

fn stream_with(room: usize) -> (QuicApplicationStream, Ends) {
    let (control, control_rx) = mpsc::channel(room);
    let (input, input_rx) = mpsc::channel(room);
    let (clipboard, clipboard_rx) = mpsc::channel(room);
    let (file, file_rx) = mpsc::channel(room);
    let (diagnostics, diagnostics_rx) = mpsc::channel(room);
    let (audio, audio_rx) = mpsc::channel(room);
    let (video_refresh, video_refresh_rx) = mpsc::channel(room);
    let queues = ApplicationQueues { control, input, clipboard, file, diagnostics, audio, video_refresh };
    let ends = Ends {
        control: control_rx,
        input: input_rx,
        clipboard: clipboard_rx,
        file: file_rx,
        diagnostics: diagnostics_rx,
        audio: audio_rx,
        video_refresh: video_refresh_rx,
    };
    (QuicApplicationStream::establish(queues, AGREEMENT, QuicApplicationProtocol::V4, 1_000_000), ends)
}

fn prepare(
    writer: &mut VideoWriter,
    item: &mut VideoOutbound,
    teardown: bool,
    stream: &mut QuicApplicationStream,
) -> VideoWriteAction {
    writer.prepare(
        item,
        teardown,
        &mut stream.video_ordering,
        &mut stream.video_send_recovery,
        &mut stream.metrics,
    )
}

fn message(union: MessageUnion) -> Result<Message, String> {
    Ok(Message { union: Some(union) })
}

fn misc(union: MiscUnion) -> Result<Message, String> {
    message(MessageUnion::Misc(Misc { union: Some(union) }))
}

fn frame(frame_id: u64, key: bool) -> Result<Message, String> {
    message(MessageUnion::VideoFrame(VideoFrame {
        display: 0,
        stream_id: 7,
        frame_id,
        capture_time_ms: 3,
        union: Some(VideoFrameUnion::H264s(EncodedVideoFrames { frames: vec![EncodedVideoFrame { key }] })),
    }))
}

fn empty_frame() -> Result<Message, String> {
    message(MessageUnion::VideoFrame(VideoFrame {
        display: 0,
        stream_id: 7,
        frame_id: 1,
        capture_time_ms: 0,
        union: None,
    }))
}

fn payload(text: &'static [u8]) -> Bytes {
    Bytes::from_static(text)
}

fn encoded(outbound: ReliableOutbound) -> (MessageType, Bytes) {
    let OutboundPayload::Encoded(bytes) = outbound.payload else {
        panic!("expected bytes of the application");
    };
    assert!(outbound.completion.is_none());
    (outbound.message_type, bytes)
}

fn source(frame_id: u64, keyframe: bool) -> VideoSourceInfo {
    VideoSourceInfo {
        key: VideoStreamKey { display: 0, stream_id: 7 },
        frame_id,
        keyframe,
        codec: VideoCodec::H264,
    }
}

#[test]
fn plan_follows_from_the_agreement() {
    let plan = session_plan(AGREEMENT, QuicApplicationProtocol::V2);
    assert_eq!(plan.channels.len(), 6);
    assert!(!plan.scoped_reference_refresh);
    assert!(plan.keyframe_barrier);
    assert!(!plan.require_initial_keyframe);
    assert_eq!(plan.datagram_size, 1_300);
    assert_eq!(plan.file_bandwidth_limit_kbps, 8_000);
    let plan = session_plan(
        SessionAgreement { reliable_keyframes: false, reliable_keyframe_barrier: false, ..AGREEMENT },
        QuicApplicationProtocol::V3,
    );
    assert_eq!(plan.channels.len(), 5);
    assert!(plan.scoped_reference_refresh);
    assert!(plan.require_initial_keyframe);
}

#[test]
fn messages_travel_on_their_channels() {
    let (mut stream, mut ends) = stream_with(4);
    stream.enqueue(payload(b"key"), &message(MessageUnion::KeyEvent), None, None).unwrap();
    assert_eq!(encoded(ends.input.try_recv().unwrap()), (MessageType::ReliableInput, payload(b"key")));
    stream.enqueue(payload(b"clip"), &message(MessageUnion::Cliprdr), None, None).unwrap();
    assert_eq!(encoded(ends.clipboard.try_recv().unwrap()), (MessageType::Clipboard, payload(b"clip")));
    stream.enqueue(payload(b"file"), &message(MessageUnion::FileAction), None, None).unwrap();
    assert_eq!(encoded(ends.file.try_recv().unwrap()), (MessageType::FileChunk, payload(b"file")));
    stream.enqueue(payload(b"delay"), &misc(MiscUnion::VideoFeedback), None, None).unwrap();
    assert_eq!(encoded(ends.diagnostics.try_recv().unwrap()), (MessageType::Diagnostics, payload(b"delay")));
    stream.enqueue(payload(b"other"), &message(MessageUnion::Other), None, None).unwrap();
    assert_eq!(encoded(ends.control.try_recv().unwrap()), (MessageType::ApplicationControl, payload(b"other")));
    // A mouse event that is more than a movement is input.
    let click = message(MessageUnion::MouseEvent(MouseEvent { mask: 1, x: 0, y: 0 }));
    stream.enqueue(payload(b"click"), &click, None, None).unwrap();
    assert_eq!(encoded(ends.input.try_recv().unwrap()), (MessageType::ReliableInput, payload(b"click")));
}

#[test]
fn only_the_latest_mouse_movement_waits() {
    let (mut stream, _ends) = stream_with(1);
    for x in [1, 2, 3] {
        let event = MouseEvent { mask: 0xfd, x, y: 9 };
        stream.enqueue(payload(b"move"), &message(MessageUnion::MouseEvent(event)), None, None).unwrap();
    }
    assert_eq!(stream.latest_mouse.replacements(), 2);
    let waiting = stream.latest_mouse.take().unwrap();
    assert_eq!((waiting.x, waiting.y, waiting.button_state_mask), (3, 9, 0x1f));
    assert!(stream.latest_mouse.take().is_none());
}

#[test]
fn refusals_say_why() {
    let (mut stream, ends) = stream_with(1);
    let input = message(MessageUnion::KeyEvent);
    stream.enqueue(payload(b"1"), &input, None, None).unwrap();
    assert!(matches!(
        stream.enqueue(payload(b"2"), &input, None, None),
        Err(EnqueueError::WouldBlock(text)) if text == "QUIC reliable application queue is unavailable"
    ));
    drop(ends);
    assert!(matches!(
        stream.enqueue(payload(b"3"), &input, None, None),
        Err(EnqueueError::BrokenPipe(text)) if text == "QUIC reliable application queue is unavailable"
    ));
    assert!(matches!(
        stream.enqueue(payload(b"4"), &input, Some("timed out".to_owned()), None),
        Err(EnqueueError::BrokenPipe(text)) if text == "QUIC application connection closed: timed out"
    ));
    assert!(matches!(
        stream.enqueue(payload(b"5"), &Err("bad tag".to_owned()), None, None),
        Err(EnqueueError::InvalidData(text)) if text == "bad tag"
    ));
    assert!(matches!(
        stream.enqueue(payload(b"6"), &empty_frame(), None, None),
        Err(EnqueueError::Transport(QuicTransportError::ProtocolState(text)))
            if text == "video protobuf has no codec payload"
    ));
}

#[test]
fn audio_waits_for_its_format() {
    let (mut stream, mut ends) = stream_with(1);
    let audio = message(MessageUnion::AudioFrame);
    stream.enqueue(payload(b"early"), &audio, None, Some(1_200)).unwrap();
    assert_eq!(encoded(ends.control.try_recv().unwrap()), (MessageType::ApplicationControl, payload(b"early")));

    let format = misc(MiscUnion::AudioFormat(AudioFormat { sample_rate: 48_000, channels: 2 }));
    stream.enqueue(payload(b"format"), &format, None, Some(1_200)).unwrap();
    assert!(ends.control.try_recv().is_ok());
    stream.enqueue(payload(b"opus"), &audio, None, Some(1_200)).unwrap();
    // The queue has room for one packet; the next one is dropped without an error.
    stream.enqueue(payload(b"lost"), &audio, None, Some(1_200)).unwrap();
    let sent = ends.audio.try_recv().unwrap();
    assert_eq!((sent.channels, sent.sample_rate_hz, sent.payload), (2, 48_000, payload(b"opus")));
    assert!(ends.audio.try_recv().is_err());

    // A packet and its overhead fit exactly, or not at all.
    stream.enqueue(payload(b"12345678"), &audio, None, Some(88)).unwrap();
    assert!(ends.audio.try_recv().is_ok());
    stream.enqueue(payload(b"123456789"), &audio, None, Some(88)).unwrap();
    assert!(ends.audio.try_recv().is_err());
    drop(ends);
    assert!(matches!(
        stream.enqueue(payload(b"late"), &audio, None, Some(1_200)),
        Err(EnqueueError::BrokenPipe(text)) if text == "QUIC audio writer is closed"
    ));
}

#[test]
fn video_waits_for_the_display_switch_before_it() {
    let (mut stream, mut ends) = stream_with(2);
    stream.enqueue(payload(b"switch"), &misc(MiscUnion::SwitchDisplay), None, None).unwrap();
    let (message_type, bytes) = encoded(ends.control.try_recv().unwrap());
    assert_eq!(message_type, MessageType::VideoOrdering);
    assert_eq!(&bytes[..], b"\0\0\0\0\0\0\0\x01switch");

    stream.enqueue(payload(b"frame"), &frame(1, true), None, None).unwrap();
    let waiting = stream.latest_video.take().unwrap();
    assert_eq!(waiting.ordering_epoch, 1);
    assert_eq!(waiting.track_key, VideoOutboundTrackKey::Source(VideoStreamKey { display: 0, stream_id: 7 }));
    assert_eq!((waiting.metadata.frame_id, waiting.metadata.presentation_timestamp_us), (1, 3_000));
    assert!(!stream.video_ordering.is_open(waiting.ordering_epoch));
    assert_eq!(next_write_step(&waiting, false, &mut stream.video_ordering), WriteStep::Wait);
    let mut receiver_gate = VideoOrderingGate::new();
    let action = next_reliable_action(
        ReliableChannelKind::Control,
        MessageType::VideoOrdering,
        &bytes,
        &misc(MiscUnion::SwitchDisplay),
        None,
        &mut receiver_gate,
    );
    assert!(matches!(action, ReliableReadAction::DeliverOrdered(1)));
    let (message_type, bytes) = encoded(ordering_acknowledgement(1, true).unwrap());
    let action = next_reliable_action(
        ReliableChannelKind::Control,
        message_type,
        &bytes,
        &Err(String::new()),
        None,
        &mut stream.video_ordering,
    );
    assert!(matches!(action, ReliableReadAction::Acknowledged));
    assert!(stream.video_ordering.is_open(waiting.ordering_epoch));
    assert_eq!(next_write_step(&waiting, false, &mut stream.video_ordering), WriteStep::Prepare);
}

#[test]
fn unsent_display_switch_holds_up_no_frame() {
    let (mut stream, ends) = stream_with(1);
    drop(ends);
    assert!(matches!(
        stream.enqueue(payload(b"switch"), &misc(MiscUnion::SwitchDisplay), None, None),
        Err(EnqueueError::BrokenPipe(_))
    ));
    assert_eq!(stream.video_ordering.current_epoch(), 1);
    assert!(stream.video_ordering.is_open(1));
}

#[test]
fn replaced_delta_breaks_its_track() {
    let (mut stream, mut ends) = stream_with(2);
    stream.enqueue_latest(5, payload(b"1"), &frame(1, false), None, None).unwrap();
    assert!(ends.video_refresh.try_recv().is_err());
    stream.enqueue_latest(5, payload(b"2"), &frame(2, false), None, None).unwrap();
    match ends.video_refresh.try_recv() {
        Ok(LocalVideoRefresh::Reference(refresh)) => {
            assert_eq!((refresh.stream_id, refresh.received_frame_id, refresh.dropped_frames), (7, 2, 1));
            assert!(!refresh.strict_recovery);
        }
        _ => panic!("expected a request for a keyframe"),
    }
    // From now on only a keyframe is taken.
    stream.enqueue_latest(5, payload(b"3"), &frame(3, false), None, None).unwrap();
    assert_eq!(stream.latest_video.take().unwrap().metadata.frame_id, 2);
    stream.enqueue_latest(5, payload(b"4"), &frame(4, true), None, None).unwrap();
    let keyframe = stream.latest_video.take().unwrap();
    assert_eq!((keyframe.track_key, keyframe.metadata.frame_id), (VideoOutboundTrackKey::Latest(5), 4));
    let stats = stream.stats(NOW);
    assert_eq!(stats.video_sender_replacements, 1);
    assert_eq!(stats.video_sender_reference_resets, 1);
    assert_eq!(stats.video_recovery_suppressed_frames, 1);
}

#[test]
fn raw_messages_go_out_as_they_are() {
    let (mut stream, mut ends) = stream_with(1);
    stream.set_raw();
    stream.enqueue(payload(b"raw"), &Err("unread".to_owned()), None, None).unwrap();
    assert_eq!(encoded(ends.control.try_recv().unwrap()), (MessageType::ApplicationRaw, payload(b"raw")));
}

#[test]
fn late_messages_are_dropped_without_an_error() {
    let (mut stream, mut ends) = stream_with(1);
    assert!(stream.begin_teardown());
    assert!(!stream.begin_teardown());
    stream.enqueue(payload(b"frame"), &frame(1, false), Some("closed".to_owned()), None).unwrap();
    stream.enqueue(payload(b"key"), &message(MessageUnion::KeyEvent), None, None).unwrap();
    assert!(ends.input.try_recv().is_err());
    assert!(stream.latest_video.take().is_none());
    let stats = stream.stats(NOW);
    assert_eq!(stats.video_frames_discarded_teardown, 1);
    assert_eq!(
        stats.video_datagram_frames_rejected_active + stats.video_datagram_frames_rejected_teardown,
        stats.video_datagram_frames_rejected
    );
}

#[test]
fn confirmed_writes_need_a_control_message() {
    let (mut stream, _ends) = stream_with(1);
    let control = misc(MiscUnion::Other);
    assert!(stream.check_control_write(&control, None).is_ok());
    assert!(matches!(
        stream.check_control_write(&message(MessageUnion::KeyEvent), None),
        Err(EnqueueError::InvalidInput(text))
            if text == "confirmed QUIC write requires an application control message"
    ));
    assert!(matches!(
        stream.check_control_write(&Err("bad".to_owned()), None),
        Err(EnqueueError::InvalidData(text)) if text == "bad"
    ));
    assert!(matches!(
        stream.check_control_write(&empty_frame(), None),
        Err(EnqueueError::Transport(QuicTransportError::ProtocolState(_)))
    ));
    assert!(matches!(
        stream.check_control_write(&control, Some("reset".to_owned())),
        Err(EnqueueError::BrokenPipe(text)) if text == "QUIC application connection closed: reset"
    ));
    stream.set_raw();
    assert!(matches!(
        stream.check_control_write(&control, None),
        Err(EnqueueError::InvalidInput(text))
            if text == "confirmed QUIC control writes are unavailable in raw mode"
    ));
    stream.begin_teardown();
    assert!(matches!(
        stream.check_control_write(&control, None),
        Err(EnqueueError::BrokenPipe(text)) if text == "QUIC application is closing"
    ));
    let (completion, mut completed) = oneshot::channel();
    let item = confirmed_control_write(payload(b"confirm"), completion);
    item.completion.unwrap().send(Ok(())).unwrap();
    assert_eq!(completed.try_recv().unwrap(), Ok(()));
    assert_eq!(item.message_type, MessageType::ApplicationControl);
    assert!(matches!(item.payload, OutboundPayload::Encoded(bytes) if bytes == payload(b"confirm")));
    assert!(confirmation_result(Confirmation::Answered(Ok(()))).is_ok());
    assert!(matches!(
        confirmation_result(Confirmation::Answered(Err("lost".to_owned()))),
        Err(EnqueueError::BrokenPipe(text)) if text == "lost"
    ));
    assert!(matches!(
        confirmation_result(Confirmation::WriterClosed),
        Err(EnqueueError::BrokenPipe(text)) if text == "QUIC application control writer is closed"
    ));
    assert!(matches!(
        confirmation_result(Confirmation::WriterStopped),
        Err(EnqueueError::BrokenPipe(text))
            if text == "QUIC application control writer stopped before confirmation"
    ));
}

#[test]
fn stats_show_the_age_of_the_last_keyframe() {
    let (mut stream, _ends) = stream_with(1);
    assert_eq!(stream.stats(NOW).reliable_keyframe_last_mark, None);
    stream.enqueue(payload(b"keyframe"), &frame(11, true), None, None).unwrap();
    let mut item = stream.latest_video.take().unwrap();
    let mut writer = VideoWriter::new(true, true);
    let action = prepare(&mut writer, &mut item, false, &mut stream);
    assert_eq!(action, VideoWriteAction::SendReliable(Some(11)));
    reliable_keyframe_sent(&item, Some(11), NOW, &mut stream.video_send_recovery, &mut stream.metrics);
    let stats = stream.stats(Timestamp { nanos: NOW.nanos + 2_500_900 });
    let mark = stats.reliable_keyframe_last_mark.unwrap();
    assert_eq!((mark.display, mark.stream_id, mark.barrier_epoch, mark.age_us), (0, 7, 11, 2_500));
    assert_eq!((stats.reliable_keyframes_sent, stats.reliable_keyframe_last_bytes), (1, 8));
    assert_eq!((stats.application_protocol, stats.negotiated_datagram_size), (4, Some(1_300)));
    assert!(stats.reliable_keyframes && stats.reliable_keyframe_barrier);
    assert_eq!(stats.video_datagram_queue_target_us, 120_000);
    stream.set_video_datagram_queue_policy(Duration::from_millis(40), 65_536);
    assert_eq!(stream.stats(NOW).video_datagram_queue_target_us, 40_000);
}

fn rejected() -> VideoDatagramSendOutcome {
    VideoDatagramSendOutcome::RejectedNoSpace {
        failure: VideoDatagramAdmissionFailure::VideoQueueBudget,
        datagram_bytes: 1,
        available_bytes: 1,
        queued_bytes: 1,
        video_queue_budget: 0,
        interactive_reserve_bytes: 0,
        queue_delay_us: 0,
        datagram_bytes_p95: 0,
        datagram_bytes_p99: 0,
        required_bytes_p95: 0,
        required_bytes_p99: 0,
    }
}

#[test]
fn rejected_frames_silence_their_track() {
    let (mut stream, mut ends) = stream_with(4);
    let mut writer = VideoWriter::new(true, false);
    stream.enqueue(payload(b"1"), &frame(21, true), None, None).unwrap();
    let mut keyframe = stream.latest_video.take().unwrap();
    assert_eq!(next_write_step(&keyframe, false, &mut stream.video_ordering), WriteStep::Prepare);
    assert_eq!(
        prepare(&mut writer, &mut keyframe, false, &mut stream),
        VideoWriteAction::SendDatagrams
    );
    stream.enqueue(payload(b"2"), &frame(22, false), None, None).unwrap();
    let mut delta = stream.latest_video.take().unwrap();
    prepare(&mut writer, &mut delta, false, &mut stream);
    assert_eq!(delta.metadata.presentation_timestamp_us, 21);
    assert!(settle_video_datagrams(
        &delta,
        rejected(),
        false,
        &mut stream.video_ordering,
        &mut stream.video_send_recovery,
        &mut stream.metrics,
    ));
    assert!(ends.video_refresh.try_recv().is_ok());
    let mut next = delta;
    next.metadata.frame_id = 9;
    assert_eq!(
        prepare(&mut writer, &mut next, false, &mut stream),
        VideoWriteAction::Skip
    );
    keyframe.metadata.frame_id = 10;
    assert!(settle_video_datagrams(
        &keyframe,
        VideoDatagramSendOutcome::Sent { fragment_count: 1 },
        false,
        &mut stream.video_ordering,
        &mut stream.video_send_recovery,
        &mut stream.metrics,
    ));
    next.metadata.frame_id = 11;
    assert_eq!(
        prepare(&mut writer, &mut next, false, &mut stream),
        VideoWriteAction::SendDatagrams
    );

    // While the session is torn down nothing is asked for, and nobody waits any more.
    next.ordering_epoch = stream.video_ordering.next_epoch().unwrap();
    assert!(!settle_video_datagrams(
        &next,
        rejected(),
        true,
        &mut stream.video_ordering,
        &mut stream.video_send_recovery,
        &mut stream.metrics,
    ));
    assert!(stream.video_ordering.is_open(next.ordering_epoch));
    assert!(ends.video_refresh.try_recv().is_err());
    assert_eq!(stream.metrics.video_datagram_frames_rejected_teardown, 1);
    next.ordering_epoch = stream.video_ordering.next_epoch().unwrap();
    let before = stream.metrics;
    assert_eq!(prepare(&mut writer, &mut next, false, &mut stream), VideoWriteAction::Wait);
    assert!(!stream.video_ordering.is_open(next.ordering_epoch));
    assert_eq!(prepare(&mut writer, &mut next, true, &mut stream), VideoWriteAction::Stop);
    assert_eq!(stream.metrics, before);
    assert!(stream.video_ordering.is_open(next.ordering_epoch));
}

#[test]
fn newer_frames_take_the_place_of_older_ones() {
    let (mut stream, mut ends) = stream_with(4);
    stream.enqueue(payload(b"key"), &frame(1, true), None, None).unwrap();
    let keyframe = stream.latest_video.take().unwrap();
    stream.enqueue(payload(b"delta"), &frame(2, false), None, None).unwrap();
    let delta = stream.latest_video.take().unwrap();
    let kept = merge_newer_frame(keyframe, delta, &mut stream.video_send_recovery, &mut stream.metrics);
    assert_eq!(kept.payload, payload(b"key"));
    assert!(ends.video_refresh.try_recv().is_ok());
    stream.enqueue(payload(b"newer"), &frame(3, true), None, None).unwrap();
    let newer = stream.latest_video.take().unwrap();
    let kept = merge_newer_frame(kept, newer, &mut stream.video_send_recovery, &mut stream.metrics);
    assert_eq!(kept.payload, payload(b"newer"));
    assert!(ends.video_refresh.try_recv().is_err());
    assert_eq!(stream.metrics.video_sender_replacements, 2);
}

#[test]
fn slot_keeps_the_latest_value() {
    let mut slot = LatestSlot::new();
    assert_eq!(slot.replace_when(3, |_, _| false), SlotOutcome::Stored);
    assert_eq!(slot.replace_when(4, |old, new| new > old), SlotOutcome::Replaced);
    assert_eq!(slot.replace_when(2, |old, new| new > old), SlotOutcome::Refused);
    assert_eq!(slot.take(), Some(4));
    assert_eq!(slot.take(), None);
    assert_eq!(slot.replacements(), 1);
}

#[test]
fn readers_refuse_what_their_channel_does_not_carry() {
    let check = |kind, message_type, payload: &[u8], parsed: &Result<Message, String>| {
        match validate_reliable_application_message(kind, message_type, payload, parsed) {
            Ok(()) => String::new(),
            Err(QuicTransportError::ProtocolState(text)) => text,
            Err(other) => panic!("unexpected error {:?}", other),
        }
    };
    let unread = Err("unread".to_owned());
    assert_eq!(check(ReliableChannelKind::Control, MessageType::ApplicationRaw, b"", &unread), "");
    assert_eq!(check(ReliableChannelKind::Input, MessageType::ApplicationRaw, b"", &unread), "unread");
    assert_eq!(
        check(ReliableChannelKind::Control, MessageType::VideoOrdering, b"\0\0\0", &unread),
        "QUIC video ordering epoch is truncated"
    );
    assert_eq!(
        check(ReliableChannelKind::Control, MessageType::VideoOrderingAck, &[0; 8], &unread),
        "QUIC video ordering epoch must not be zero"
    );
    assert_eq!(
        check(ReliableChannelKind::Control, MessageType::VideoOrdering, &[1; 9], &misc(MiscUnion::Other)),
        "QUIC video ordering message does not contain SwitchDisplay"
    );
    assert_eq!(
        check(
            ReliableChannelKind::FileTransfer,
            MessageType::FileChunk,
            b"",
            &message(MessageUnion::KeyEvent)
        ),
        "protobuf message is invalid on FileTransfer"
    );
    assert_eq!(
        check(ReliableChannelKind::Video, MessageType::ReliableVideoFrame, b"", &frame(1, false)),
        "protobuf message is invalid on Video"
    );
    assert_eq!(
        check(ReliableChannelKind::Video, MessageType::ReliableVideoFrame, b"", &frame(1, true)),
        ""
    );
    assert_eq!(
        reliable_message_start(ReliableChannelKind::Control, MessageType::VideoOrdering, &[1; 9]).unwrap(),
        Some(8)
    );
    assert_eq!(
        reliable_message_start(ReliableChannelKind::Control, MessageType::VideoOrderingAck, &[1; 9]).unwrap(),
        None
    );
    assert_eq!(
        reliable_message_start(ReliableChannelKind::Input, MessageType::VideoOrdering, &[]).unwrap(),
        Some(0)
    );
}

#[test]
fn routed_messages_are_taken_by_the_reader() {
    for (class, parsed) in [
        (ApplicationClass::Input, message(MessageUnion::KeyEvent)),
        (ApplicationClass::Clipboard, message(MessageUnion::Clipboard)),
        (ApplicationClass::File, message(MessageUnion::FileResponse)),
        (ApplicationClass::Diagnostics, message(MessageUnion::TestDelay)),
        (ApplicationClass::Control, Ok(Message { union: None })),
    ] {
        let (kind, message_type) = reliable_route(class);
        assert!(validate_reliable_application_message(kind, message_type, b"", &parsed).is_ok());
    }
}

#[test]
fn ordered_payloads_are_read_back() {
    for epoch in [1, 0x0102_0304_0506_0708, u64::MAX] {
        let bytes = ordered_payload(epoch, b"behind");
        assert_eq!(read_ordering_epoch(&bytes).unwrap(), epoch);
        assert_eq!(&bytes[8..], b"behind");
    }
    assert_eq!(ordered_payload(0x0102_0304_0506_0708, b""), vec![1, 2, 3, 4, 5, 6, 7, 8]);
}

#[test]
fn keyframes_open_the_barrier_or_are_delivered() {
    let mut gate = VideoOrderingGate::new();
    let mut act = |barrier| {
        next_reliable_action(
            ReliableChannelKind::Video,
            MessageType::ReliableVideoFrame,
            b"",
            &frame(5, true),
            barrier,
            &mut gate,
        )
    };
    assert!(matches!(act(Some(true)), ReliableReadAction::OpenBarrier(info) if info == source(5, true)));
    assert!(matches!(act(Some(false)), ReliableReadAction::DeliverKeyframe(info) if info == source(5, true)));
    assert!(matches!(act(None), ReliableReadAction::DeliverKeyframe(_)));
    let action = next_reliable_action(
        ReliableChannelKind::Control,
        MessageType::VideoOrderingAck,
        &[0, 0, 0, 0, 0, 0, 0, 3],
        &Err(String::new()),
        None,
        &mut gate,
    );
    assert!(matches!(
        action,
        ReliableReadAction::Fail(ReadFailure::Detail(text))
            if text == "invalid QUIC video ordering acknowledgement 3"
    ));
    assert!(matches!(
        ordering_acknowledgement(1, false),
        Err(ReadFailure::Detail(text)) if text == "QUIC video ordering acknowledgement channel is unavailable"
    ));

    let mut metrics = QuicApplicationMetrics::default();
    let mut recovery = VideoReceiveRecovery::default();
    note_reliable_keyframe(source(5, true), &mut metrics, &mut recovery);
    assert_eq!(metrics.reliable_keyframes_received, 1);
    assert!(recovery.has_stream(source(5, true).key));
}

#[test]
fn datagrams_carry_audio_and_mouse_movements_only() {
    let audio = message(MessageUnion::AudioFrame);
    let mouse = message(MessageUnion::MouseEvent(MouseEvent { mask: 0, x: 0, y: 0 }));
    assert!(audio_payload_is_delivered(&audio) && !audio_payload_is_delivered(&mouse));
    assert!(mouse_payload_is_delivered(&mouse) && !mouse_payload_is_delivered(&audio));
    assert!(matches!(
        validate_datagram_application_message(ApplicationClassTag::Audio, &mouse),
        Err(QuicTransportError::ProtocolState(text)) if text == "protobuf message is invalid on QUIC DATAGRAM"
    ));
    assert!(!expiry_needs_handling(false, 0, false));
    assert!(expiry_needs_handling(true, 0, false) && expiry_needs_handling(false, 1, false));

    let mut tracker = AudioFormatTracker::new();
    let told = tracker.announcement(48_000, 2).unwrap();
    assert!(matches!(
        told.union,
        Some(MessageUnion::Misc(Misc {
            union: Some(MiscUnion::AudioFormat(AudioFormat { sample_rate: 48_000, channels: 2 }))
        }))
    ));
    tracker.announced(48_000, 2);
    assert!(tracker.announcement(48_000, 2).is_none());
    assert!(tracker.announcement(48_000, 1).is_some());
}

#[test]
fn channels_make_a_session() {
    let mut setup = ChannelSetup::new();
    for kind in [
        ReliableChannelKind::Video,
        ReliableChannelKind::Diagnostics,
        ReliableChannelKind::FileTransfer,
        ReliableChannelKind::Clipboard,
        ReliableChannelKind::Control,
    ] {
        setup.place(kind, kind.name()).unwrap();
    }
    assert!(matches!(
        setup.place(ReliableChannelKind::Video, "again"),
        Err(QuicTransportError::ProtocolState(text)) if text == "duplicate QUIC application channel"
    ));
    let incomplete = ChannelSetup {
        control: setup.control,
        input: setup.input,
        clipboard: setup.clipboard,
        file: setup.file,
        diagnostics: setup.diagnostics,
        video: setup.video,
    };
    assert!(matches!(
        incomplete.finish(true),
        Err(QuicTransportError::ProtocolState(text)) if text == "missing QUIC input application channel"
    ));
    setup.place(ReliableChannelKind::Input, "Input").unwrap();
    let channels = setup.finish(false).unwrap();
    assert_eq!((channels.control, channels.file, channels.video), ("Control", "FileTransfer", None));
    assert_eq!(outbound_capacity(ReliableChannelKind::Clipboard), Some(16));
    assert_eq!(outbound_capacity(ReliableChannelKind::Video), None);
}

#[test]
fn offers_depend_on_path_and_configuration() {
    let offer = application_session_offer(Ok(0), Some(1_200), QuicApplicationProtocol::V1).unwrap();
    assert_eq!((offer.minimum_protocol_version, offer.maximum_protocol_version), (1, 1));
    assert_eq!((offer.max_datagram_payload, offer.max_file_bitrate_kbps), (1_200, 1_000_000));
    assert!(!offer.capabilities.reliable_keyframes);
    let offer = application_session_offer(Ok(25), Some(1_200), QuicApplicationProtocol::V4).unwrap();
    assert_eq!((offer.max_datagram_payload, offer.max_file_bitrate_kbps), (1_300, 25_000));
    assert!(offer.capabilities.reliable_keyframes && offer.capabilities.reliable_keyframe_barrier);
    let offer = application_session_offer(Ok(u32::MAX), Some(70_000), QuicApplicationProtocol::V2).unwrap();
    assert_eq!((offer.max_datagram_payload, offer.max_file_bitrate_kbps), (65_000, u32::MAX));
    assert!(!offer.capabilities.reliable_keyframe_barrier);
    let offer = application_session_offer(Ok(0), Some(1), QuicApplicationProtocol::V1).unwrap();
    assert_eq!(offer.max_datagram_payload, 256);
    assert!(matches!(
        application_session_offer(Err("no file".to_owned()), None, QuicApplicationProtocol::V1),
        Err(QuicTransportError::Configuration(text)) if text == "no file"
    ));
    assert!(matches!(
        application_session_offer(Ok(0), None, QuicApplicationProtocol::V1),
        Err(QuicTransportError::Datagram(text)) if text == "peer did not negotiate QUIC DATAGRAM"
    ));
}

#[test]
fn negotiation_takes_its_steps() {
    let steps = |role| {
        let mut state = NegotiationState::Start;
        let mut names = Vec::new();
        while state != NegotiationState::Finished {
            let (step, next) = next_negotiation_step(role, state);
            names.push(format!("{:?}", step));
            state = next;
        }
        assert!(matches!(next_negotiation_step(role, state).0, NegotiationStep::Done));
        names
    };
    assert_eq!(steps(ApplicationQuicRole::Client), vec!["SendOffer", "Receive", "CheckAcceptance"]);
    assert_eq!(steps(ApplicationQuicRole::Server), vec!["Receive", "Accept"]);
    assert!(check_session_message(ApplicationQuicRole::Client, MessageType::SessionAccept).is_ok());
    assert!(matches!(
        check_session_message(ApplicationQuicRole::Client, MessageType::SessionOffer),
        Err(QuicTransportError::ProtocolState(text))
            if text == "expected QUIC session acceptance, received SessionOffer"
    ));
    assert!(matches!(
        check_session_message(ApplicationQuicRole::Server, MessageType::AudioPacket),
        Err(QuicTransportError::ProtocolState(text))
            if text == "expected QUIC session offer, received AudioPacket"
    ));
    assert!(matches!(
        session_negotiation_error("no codec"),
        QuicTransportError::ProtocolState(text) if text == "QUIC session negotiation failed: no codec"
    ));
}

#[test]
fn waiting_times_are_bounded() {
    let window = |millis| video_epoch_reorder_window(Duration::from_millis(millis));
    assert_eq!(window(0), Duration::from_millis(40));
    assert_eq!(window(15), Duration::from_millis(40));
    assert_eq!(window(20), Duration::from_millis(50));
    assert_eq!(window(55), Duration::from_millis(120));
    assert_eq!(video_epoch_reorder_window(Duration::MAX), Duration::from_millis(120));
    // A kilobyte at eight megabits a second takes a millisecond; what is left over counts whole.
    assert_eq!(pacing_delay_us(1_000, Some(8_000)), 1_000);
    assert_eq!(pacing_delay_us(1_000, Some(7_999)), 1_001);
    assert_eq!(pacing_delay_us(1_000, Some(0)), 0);
    assert_eq!(pacing_delay_us(1_000, None), 0);
    assert_eq!(pacing_delay_us(usize::MAX, Some(1)), u64::MAX);
}

#[test]
fn sockets_are_planned_by_their_address() {
    let any = SocketAddress { host: HostAddress::V6([0; 16]), port: 21_116 };
    assert_eq!(
        socket_plan(any, true, 4_096),
        SocketPlan { family: AddressFamily::V6, reuse: true, receive_buffer_bytes: Some(4_096), accept_v4: true }
    );
    assert!(!socket_plan(SocketAddress { port: 0, ..any }, true, 0).accept_v4);
    let mut loopback = [0; 16];
    loopback[15] = 1;
    assert!(!socket_plan(SocketAddress { host: HostAddress::V6(loopback), ..any }, true, 0).accept_v4);
    assert_eq!(
        socket_plan(SocketAddress { host: HostAddress::V4([0; 4]), port: 1 }, false, 0),
        SocketPlan { family: AddressFamily::V4, reuse: false, receive_buffer_bytes: None, accept_v4: false }
    );
    assert!(proxy_uses_password(" user "));
    assert!(!proxy_uses_password(" \t\u{2003}\n"));
    assert!(!proxy_uses_password(""));
    assert!(proxy_uses_password("\u{200b}"));
    assert!(direct_destination(&TargetAddress::Domain("example.org".to_owned(), 1)).is_none());
    let found = direct_destination(&TargetAddress::Ip(any)).unwrap();
    assert!(matches!(found, SocketAddress { host: HostAddress::V6(octets), port: 21_116 } if octets == [0; 16]));
}

#[test]
fn blank_user_names_are_those_of_white_space() {
    let blank = [
        '\u{9}', '\u{a}', '\u{b}', '\u{c}', '\u{d}', '\u{20}', '\u{85}', '\u{a0}', '\u{1680}', '\u{2000}', '\u{2001}',
        '\u{2002}', '\u{2003}', '\u{2004}', '\u{2005}', '\u{2006}', '\u{2007}', '\u{2008}', '\u{2009}', '\u{200a}',
        '\u{2028}', '\u{2029}', '\u{202f}', '\u{205f}', '\u{3000}',
    ];
    let mut text = [0; 4];
    for name in '\0'..=char::MAX {
        assert_eq!(proxy_uses_password(name.encode_utf8(&mut text)), !blank.contains(&name), "{name:?}");
    }
}

#[test]
fn session_starts_with_the_default_queue_policy() {
    let (stream, _ends) = stream_with(1);
    assert_eq!(stream.datagram_send.video_queue_target_us, 120_000);
    assert_eq!(stream.datagram_send.min_video_queue_bytes, 196_608);
    assert_eq!(stream.datagram_send.counters.send_buffer_capacity, 1_000_000);
    assert_eq!(stream.datagram_send.counters.send_buffer_space_min, u64::MAX);
    assert_eq!(stream.latest_mouse.replacements(), 0);
}

#[test]
fn local_requests_are_messages() {
    let everything = local_refresh_message(LocalVideoRefresh::Legacy);
    assert!(matches!(
        everything.union,
        Some(MessageUnion::Misc(Misc { union: Some(MiscUnion::RefreshVideo(true)) }))
    ));
    let refresh = VideoReferenceRefresh {
        display: 1,
        stream_id: 7,
        received_frame_id: 21,
        dropped_frames: 1,
        strict_recovery: false,
    };
    let one = local_refresh_message(LocalVideoRefresh::Reference(refresh));
    assert!(matches!(
        one.union,
        Some(MessageUnion::Misc(Misc { union: Some(MiscUnion::VideoReferenceRefresh(asked)) })) if asked == refresh
    ));
}
