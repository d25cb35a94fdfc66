use quic_application::time::Timestamp;
use quic_application::transport::datagram::budget::{
    video_datagram_queue_budget, video_datagram_queue_delay_us, video_frame_admission_failure,
    video_frame_fits_send_budget, VideoDatagramAdmissionFailure, DEFAULT_VIDEO_DATAGRAM_QUEUE_TARGET_US,
    MIN_VIDEO_DATAGRAM_QUEUE_BYTES, MOVIE_MIN_VIDEO_DATAGRAM_QUEUE_BYTES, MOVIE_VIDEO_DATAGRAM_QUEUE_TARGET_US,
};
use quic_application::transport::datagram::coordinator::QuicDatagramSendCoordinator;
use quic_application::transport::datagram::receiver::{DatagramHeader, DatagramRoute, QuicDatagramReceiver};
use quic_application::transport::datagram::sender::{
    elapsed_us, DatagramPath, QuicDatagramSender, VideoAdmission, VideoDatagramSendOutcome,
};
use quic_application::transport::datagram::sizes::{
    nearest_rank_index, record_delta_frame_size, VideoFrameSizeWindow, VIDEO_FRAME_SIZE_WINDOW_IDLE_RESET_NANOS,
};
use quic_application::transport::error::QuicTransportError;
use quic_application::transport::protocol::MessageType;
use quic_application::transport::video::{VideoCodec, VideoFrameMetadata, FLAG_KEYFRAME};
use std::time::Duration;

const START: Timestamp = Timestamp { nanos: 1_000_000_000_000 };

fn later(nanos: u64) -> Timestamp {
    Timestamp { nanos: START.nanos + nanos }
}

fn default_target() -> Duration {
    Duration::from_micros(DEFAULT_VIDEO_DATAGRAM_QUEUE_TARGET_US)
}

fn movie_target() -> Duration {
    Duration::from_micros(MOVIE_VIDEO_DATAGRAM_QUEUE_TARGET_US)
}

#[test]
fn video_frame_size_percentiles_use_filled_nearest_rank_samples() {
    let mut window = VideoFrameSizeWindow::new(START);
    assert_eq!(window.percentiles(), (0, 0, 0, 0));
    for value in 1..=100 {
        window.record(START, value, value + 100);
    }
    assert_eq!(window.percentiles(), (95, 99, 195, 199));
}

#[test]
fn video_frame_size_percentiles_keep_only_the_latest_ring_window() {
    let mut window = VideoFrameSizeWindow::new(START);
    for value in 0..600 {
        window.record(START, value, value + 1_000);
    }
    assert_eq!(window.percentiles(), (574, 594, 1_574, 1_594));
}

#[test]
fn rejected_delta_is_measured_but_keyframe_is_excluded() {
    let mut window = VideoFrameSizeWindow::new(START);
    let delta = VideoFrameMetadata { frame_id: 1, codec: VideoCodec::H264, flags: 0, presentation_timestamp_us: 0 };
    assert!(record_delta_frame_size(&mut window, delta, START, 56_000, 91_000));
    assert!(video_frame_admission_failure(56_000, 512_000, 64_000, 65_537, 65_536).is_some());
    assert_eq!(window.percentiles(), (56_000, 56_000, 91_000, 91_000));

    assert!(!record_delta_frame_size(
        &mut window,
        VideoFrameMetadata {
            frame_id: 2,
            codec: VideoCodec::H264,
            flags: FLAG_KEYFRAME,
            presentation_timestamp_us: 0,
        },
        START,
        80_000,
        115_000,
    ));
    assert_eq!(window.percentiles(), (56_000, 56_000, 91_000, 91_000));
}

#[test]
fn video_frame_size_window_discards_samples_after_idle_gap() {
    let mut window = VideoFrameSizeWindow::new(START);
    window.record(START, 80_000, 120_000);
    window.record(later(VIDEO_FRAME_SIZE_WINDOW_IDLE_RESET_NANOS), 10_000, 20_000);
    assert_eq!(window.percentiles(), (10_000, 10_000, 20_000, 20_000));
}

#[test]
fn video_admission_preserves_the_complete_interactive_reserve() {
    assert!(video_frame_fits_send_budget(128_000, 192_000, 64_000, 0, 192_000));
    assert!(!video_frame_fits_send_budget(128_001, 192_000, 64_000, 0, 192_000));
}

#[test]
fn video_admission_allows_one_complete_frame_at_the_queue_age_boundary() {
    assert!(video_frame_fits_send_budget(64_000, 512_000, 64_000, 192_000, 192_000));
    assert!(!video_frame_fits_send_budget(1, 512_000, 64_000, 192_001, 192_000));
}

#[test]
fn video_admission_rejects_overflowed_size_calculations() {
    assert!(!video_frame_fits_send_budget(usize::MAX, usize::MAX, 1, 0, usize::MAX));
}

#[test]
fn video_queue_budget_scales_with_path_and_is_bounded() {
    assert_eq!(
        video_datagram_queue_budget(
            16 * 1024,
            Duration::from_millis(200),
            2 * 1024 * 1024,
            64 * 1024,
            default_target(),
            MIN_VIDEO_DATAGRAM_QUEUE_BYTES,
        ),
        MIN_VIDEO_DATAGRAM_QUEUE_BYTES,
    );
    assert_eq!(
        video_datagram_queue_budget(
            4 * 1024 * 1024,
            Duration::from_millis(5),
            2 * 1024 * 1024,
            64 * 1024,
            default_target(),
            MIN_VIDEO_DATAGRAM_QUEUE_BYTES,
        ),
        (2 * 1024 * 1024) - (64 * 1024),
    );
    assert_eq!(
        video_datagram_queue_budget(
            128 * 1024,
            Duration::from_millis(80),
            2 * 1024 * 1024,
            64 * 1024,
            default_target(),
            MIN_VIDEO_DATAGRAM_QUEUE_BYTES,
        ),
        192 * 1024,
    );
}

#[test]
fn video_queue_budget_handles_a_buffer_smaller_than_the_preferred_floor() {
    assert_eq!(
        video_datagram_queue_budget(
            16 * 1024,
            Duration::from_millis(200),
            96 * 1024,
            64 * 1024,
            default_target(),
            MIN_VIDEO_DATAGRAM_QUEUE_BYTES,
        ),
        32 * 1024,
    );
}

#[test]
fn high_bandwidth_path_admits_frame_beyond_the_old_static_ceiling() {
    let capacity = 2 * 1024 * 1024;
    let reserve = 64 * 1024;
    let queued = 503_566;
    let frame = 24_348;
    let available = capacity - queued;
    let budget = video_datagram_queue_budget(
        512 * 1024,
        Duration::from_millis(18),
        capacity,
        reserve,
        default_target(),
        MIN_VIDEO_DATAGRAM_QUEUE_BYTES,
    );

    assert!(budget > 512 * 1024);
    assert!(video_frame_fits_send_budget(frame, available, reserve, queued, budget));
}

#[test]
fn video_admission_reports_the_limiting_budget() {
    assert_eq!(
        video_frame_admission_failure(128_001, 192_000, 64_000, 0, 192_000),
        Some(VideoDatagramAdmissionFailure::InteractiveReserve)
    );
    assert_eq!(
        video_frame_admission_failure(1, 512_000, 64_000, 192_001, 192_000),
        Some(VideoDatagramAdmissionFailure::VideoQueueBudget)
    );
}

#[test]
fn video_queue_delay_uses_quic_path_rate_without_wall_clock_time() {
    assert_eq!(video_datagram_queue_delay_us(128 * 1024, 256 * 1024, Duration::from_millis(20)), 10_000);
    assert_eq!(video_datagram_queue_delay_us(128 * 1024, 0, Duration::from_millis(20)), 0);
}

#[test]
fn movie_queue_policy_uses_a_lower_latency_budget_and_floor() {
    let standard = video_datagram_queue_budget(
        512 * 1024,
        Duration::from_millis(40),
        2 * 1024 * 1024,
        64 * 1024,
        default_target(),
        MIN_VIDEO_DATAGRAM_QUEUE_BYTES,
    );
    let movie = video_datagram_queue_budget(
        512 * 1024,
        Duration::from_millis(40),
        2 * 1024 * 1024,
        64 * 1024,
        movie_target(),
        MOVIE_MIN_VIDEO_DATAGRAM_QUEUE_BYTES,
    );

    assert!(movie < standard);
    assert_eq!(movie, 512 * 1024);
}

#[test]
fn coordinator_switches_queue_target_without_recreation() {
    let mut coordinator = QuicDatagramSendCoordinator::new(64 * 1024, 2 * 1024 * 1024);
    assert_eq!(coordinator.stats().video_queue_target_us, default_target().as_micros() as u64);

    coordinator.set_video_queue_policy(movie_target(), MOVIE_MIN_VIDEO_DATAGRAM_QUEUE_BYTES);
    assert_eq!(coordinator.stats().video_queue_target_us, movie_target().as_micros() as u64);
    coordinator.set_video_queue_policy(Duration::from_nanos(999), 1);
    assert_eq!(coordinator.stats().video_queue_target_us, 1);
    coordinator.set_video_queue_policy(Duration::MAX, 1);
    assert_eq!(coordinator.stats().video_queue_target_us, u64::MAX);
}

#[test]
fn queue_delay_stops_at_the_largest_number() {
    assert_eq!(video_datagram_queue_delay_us(usize::MAX, 1, Duration::MAX), u64::MAX);
    assert_eq!(video_datagram_queue_delay_us(0, 1, Duration::MAX), 0);
    // Microseconds are rounded down before anything else.
    assert_eq!(video_datagram_queue_delay_us(1_000, 1, Duration::from_nanos(1_999)), 1_000);
}

#[test]
fn nearest_rank_of_few_values_is_the_last() {
    assert_eq!(nearest_rank_index(0, 95), 0);
    assert_eq!(nearest_rank_index(1, 95), 0);
    assert_eq!(nearest_rank_index(20, 95), 18);
    assert_eq!(nearest_rank_index(512, 99), 506);
    assert_eq!(nearest_rank_index(20, 0), 0);
    assert_eq!(nearest_rank_index(20, 100), 19);
    assert_eq!(nearest_rank_index(20, 200), 19);
    assert_eq!(nearest_rank_index(usize::MAX, 99), usize::MAX / 100 - 1);
}

#[test]
fn failures_have_names() {
    assert_eq!(VideoDatagramAdmissionFailure::InteractiveReserve.as_str(), "interactive-reserve");
    assert_eq!(VideoDatagramAdmissionFailure::VideoQueueBudget.as_str(), "video-queue-budget");
    assert_eq!(
        video_frame_admission_failure(2, 1, 1, 2, 1).map(|failure| failure.as_str()),
        Some("interactive-reserve+video-queue-budget")
    );
}

#[test]
fn space_and_queue_make_up_the_largest_space_ever_seen() {
    let mut coordinator = QuicDatagramSendCoordinator::new(10, 100);
    assert_eq!(coordinator.stats().send_buffer_space_min, 0);
    assert_eq!(coordinator.record_space(70), (30, 100));
    assert_eq!(coordinator.record_space(150), (0, 150));
    assert_eq!(coordinator.record_space(120), (30, 150));
    let stats = coordinator.stats();
    assert_eq!(stats.send_buffer_space, 120);
    assert_eq!(stats.send_buffer_space_min, 70);
    assert_eq!(stats.send_buffer_queued, 30);
}

fn delta() -> VideoFrameMetadata {
    VideoFrameMetadata { frame_id: 1, codec: VideoCodec::H264, flags: 0, presentation_timestamp_us: 0 }
}

#[test]
fn frames_go_out_whole_or_not_at_all() {
    let mut coordinator = QuicDatagramSendCoordinator::new(100, 1_000);
    let mut sender = QuicDatagramSender::new([7; 16], START).with_max_datagram_size(1_200);
    let fragments = vec![vec![0u8; 400], vec![0u8; 100]];
    let path = DatagramPath {
        available_bytes: 1_000,
        congestion_window_bytes: 1_000_000,
        rtt: Duration::from_millis(10),
    };
    assert_eq!(
        sender.send_video_frame(&mut coordinator, delta(), 480, &fragments, &path, later(600_000_000)).unwrap(),
        VideoAdmission::Send { fragment_count: 2 }
    );
    assert_eq!(
        sender.video_frame_sent(&mut coordinator, 2),
        VideoDatagramSendOutcome::Sent { fragment_count: 2 }
    );
    assert_eq!(sender.next_video_sequence(), 3);
    let stats = coordinator.stats();
    assert_eq!(stats.video_frames_sent, 1);
    assert_eq!(stats.video_datagrams_sent, 2);
    assert_eq!(stats.video_frame_bytes, 480);
    assert_eq!(stats.video_frame_fragments_peak, 2);
    assert_eq!(stats.video_frame_datagram_bytes_p95, 500);
    assert_eq!(stats.video_frame_required_bytes_p99, 500);
    assert_eq!(stats.video_queue_budget, 900);

    let full = DatagramPath { available_bytes: 599, ..path };
    let rejected = sender
        .send_video_frame(&mut coordinator, delta(), 480, &fragments, &full, later(600_000_000))
        .unwrap();
    let VideoAdmission::Reject(VideoDatagramSendOutcome::RejectedNoSpace {
        failure,
        datagram_bytes,
        queued_bytes,
        video_queue_budget,
        queue_delay_us,
        ..
    }) = rejected
    else {
        panic!("expected a frame without space to be refused");
    };
    assert_eq!(failure, VideoDatagramAdmissionFailure::InteractiveReserve);
    assert_eq!((datagram_bytes, queued_bytes, video_queue_budget), (500, 401, 900));
    assert_eq!(queue_delay_us, 4);
    assert_eq!(coordinator.stats().video_frames_rejected, 1);
    assert_eq!(sender.next_video_sequence(), 3);
}

#[test]
fn video_numbers_run_out() {
    let mut coordinator = QuicDatagramSendCoordinator::new(0, 1_000);
    let mut sender = QuicDatagramSender::new([7; 16], START);
    let path = DatagramPath { available_bytes: 1_000, congestion_window_bytes: 1, rtt: Duration::ZERO };
    sender.video_frame_sent(&mut coordinator, (u64::MAX - 1) as usize);
    assert_eq!(sender.next_video_sequence(), u64::MAX);
    assert!(matches!(
        sender.send_video_frame(&mut coordinator, delta(), 1, &vec![vec![1u8]], &path, START),
        Err(QuicTransportError::ProtocolState(text)) if text == "video sequence exhausted"
    ));
}

#[test]
fn audio_and_mouse_use_up_their_numbers_without_space() {
    let mut coordinator = QuicDatagramSendCoordinator::new(0, 100);
    let mut sender = QuicDatagramSender::new([7; 16], START);
    assert_eq!(sender.send_audio_packet(&mut coordinator, 100, 100).unwrap(), Some(1));
    assert_eq!(sender.send_audio_packet(&mut coordinator, 101, 100).unwrap(), None);
    assert_eq!(sender.send_audio_packet(&mut coordinator, 1, 100).unwrap(), Some(3));
    assert_eq!(sender.send_mouse_movement(&mut coordinator, 7, 6).unwrap(), None);
    assert_eq!(sender.send_mouse_movement(&mut coordinator, 6, 6).unwrap(), Some(2));
    assert_eq!(sender.next_audio_sequence(), 4);
    assert_eq!(sender.next_mouse_sequence(), 3);
    let stats = coordinator.stats();
    assert_eq!((stats.audio_packets_dropped, stats.mouse_updates_dropped), (1, 1));
    assert_eq!(stats.send_buffer_space, 6);
    assert_eq!(sender.session_id(), [7; 16]);
    assert_eq!(elapsed_us(sender.started(), later(2_999)), 2);
}

#[test]
fn datagram_size_is_the_smaller_of_path_and_agreement() {
    let sender = QuicDatagramSender::new([7; 16], START).with_max_datagram_size(1_300);
    assert_eq!(sender.max_datagram_size(Some(1_200)).unwrap(), 1_200);
    assert_eq!(sender.max_datagram_size(Some(1_400)).unwrap(), 1_300);
    assert!(matches!(
        sender.max_datagram_size(None),
        Err(QuicTransportError::Datagram(text)) if text == "peer does not support QUIC DATAGRAM"
    ));
}

#[test]
fn datagrams_are_routed_by_their_head() {
    let receiver = QuicDatagramReceiver::new([7; 16]).with_max_datagram_size(1_300);
    assert!(receiver.check_length(1_300, 40).is_ok());
    assert!(matches!(
        receiver.check_length(1_301, 40),
        Err(QuicTransportError::ProtocolState(text))
            if text == "QUIC datagram length 1301 exceeds negotiated limit 1300"
    ));
    assert!(matches!(
        receiver.check_length(39, 40),
        Err(QuicTransportError::ProtocolState(text)) if text == "received truncated QUIC datagram"
    ));
    let header = |message_type, payload_length| DatagramHeader { session_id: [7; 16], message_type, payload_length };
    assert_eq!(receiver.route(&header(MessageType::VideoFragment, 9), 24).unwrap(), DatagramRoute::Video);
    assert_eq!(receiver.route(&header(MessageType::AudioPacket, 9), 24).unwrap(), DatagramRoute::Audio);
    assert_eq!(receiver.route(&header(MessageType::MouseMovement, 24), 24).unwrap(), DatagramRoute::Mouse);
    assert_eq!(
        receiver.route(&header(MessageType::MouseMovement, 25), 24).unwrap(),
        DatagramRoute::ApplicationMouse
    );
    assert!(matches!(
        receiver.route(&header(MessageType::Clipboard, 9), 24),
        Err(QuicTransportError::ProtocolState(text)) if text == "message Clipboard is invalid on QUIC DATAGRAM"
    ));
    let stranger = DatagramHeader {
        session_id: [8; 16],
        message_type: MessageType::VideoFragment,
        payload_length: 9,
    };
    assert!(matches!(
        receiver.route(&stranger, 24),
        Err(QuicTransportError::ProtocolState(text)) if text == "QUIC datagram session identifier changed"
    ));
}

#[test]
fn percentile_is_the_least_size_that_suffices() {
    let sizes: [usize; 7] = [40, 10, 10, 70, 20, 20, 20];
    let mut window = VideoFrameSizeWindow::new(Timestamp { nanos: 0 });
    for size in sizes {
        window.record(Timestamp { nanos: 0 }, size, size + 1);
    }
    let (p95, p99, required_p95, required_p99) = window.percentiles();
    assert_eq!((p95, p99, required_p95, required_p99), (70, 70, 71, 71));
    for (percentile, size) in [(95, p95), (99, p99)] {
        let within = |bound: u64| sizes.iter().filter(|size| **size as u64 <= bound).count();
        assert!(100 * within(size) >= sizes.len() * percentile);
        assert!(100 * within(size - 1) < sizes.len() * percentile);
    }
}
