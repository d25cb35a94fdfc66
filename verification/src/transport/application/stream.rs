//! The application's end of a session.

use super::channels::{application_channel_kinds, channel_kinds, reliable_route, spec_reliable_route};
use super::classify::{audio_format, classify_message, epoch_bytes, is_video_ordering_message, message_class,
    messages_travel_with_their_kind, only_movements_travel_as_movements, ordered_payload, pack_audio_format, packed_format, payload_source, switches_display, unpack_audio_format,
    unpacked_format, video_frames_travel_as_video, video_source_info, ApplicationClass};
use super::metrics::{no_metrics, raise, raised, QuicApplicationMetrics, ReliableKeyframeState};
use super::ordering::VideoOrderingGate;
use super::outbound::{outbound, replaces, should_replace_pending_video, AudioOutbound, MouseOutbound, OutboundPayload,
    ReliableOutbound, VideoOutbound, VideoOutboundTrackKey};
use super::receive_recovery::MAX_VIDEO_STREAM_STATES;
use super::send_recovery::{refreshes_for, LocalVideoRefresh, SendRecoveryModel, VideoSendRecovery};
use super::session::SessionAgreement;
use super::slots::{LatestSlot, SlotOutcome, TrackLatestSlot};
use super::video_writer::write_step;
use crate::message::{misc_part, Message, MessageUnion, MiscUnion, MouseEvent, VideoFrame};
use crate::outbox::{bytes_as_slice, bytes_view, Outbox, SendOutcome};
use crate::text::joined;
use crate::time::{duration_nanos, Timestamp};
use crate::transport::datagram::budget::DEFAULT_INTERACTIVE_DATAGRAM_RESERVE_BYTES;
use crate::transport::datagram::coordinator::{target_us, DatagramSendStats, QuicDatagramSendCoordinator};
use crate::transport::error::{is_protocol_state, QuicTransportError};
use crate::transport::protocol::{MessageType, QuicApplicationProtocol, ReliableChannelKind};
use crate::transport::video::{keyframes_have_odd_flags, VideoFrameMetadata, VideoSourceInfo};
use bytes::Bytes;
use std::time::Duration;
use tokio::sync::{mpsc, oneshot};
use vstd::prelude::*;

verus! {

pub const APPLICATION_INBOUND_CAPACITY: usize = 256;

pub const AUDIO_OUTBOUND_CAPACITY: usize = 64;

/// How many tracks may have a frame waiting.
pub const MAX_PENDING_VIDEO_TRACKS: usize = MAX_VIDEO_STREAM_STATES;

/// What an audio datagram holds besides the audio, at most.
pub const AUDIO_DATAGRAM_OVERHEAD_BYTES: usize = 80;

/// How large a datagram may be as long as the connection does not say.
pub const FALLBACK_DATAGRAM_SIZE: usize = 1_200;

/// Why a message was not taken.
#[derive(Debug)]
pub enum EnqueueError {
    /// There is no way to the peer any more.
    BrokenPipe(String),
    /// The queue is full.
    WouldBlock(String),
    /// The message cannot be read.
    InvalidData(String),
    /// The message is not allowed here.
    InvalidInput(String),
    Transport(QuicTransportError),
}

/// The queues that a session sends through.
pub struct ApplicationQueues {
    pub control: mpsc::Sender<ReliableOutbound>,
    pub input: mpsc::Sender<ReliableOutbound>,
    pub clipboard: mpsc::Sender<ReliableOutbound>,
    pub file: mpsc::Sender<ReliableOutbound>,
    pub diagnostics: mpsc::Sender<ReliableOutbound>,
    pub audio: mpsc::Sender<AudioOutbound>,
    pub video_refresh: mpsc::Sender<LocalVideoRefresh>,
}

/// How a session is set up.
pub struct SessionPlan {
    /// The channels, in the order in which they are opened.
    pub channels: Vec<ReliableChannelKind>,
    /// Requests for keyframes name their stream.
    pub scoped_reference_refresh: bool,
    /// Deltas wait for the keyframe they refer to.
    pub keyframe_barrier: bool,
    /// Frames are put together only from the first keyframe on.
    pub require_initial_keyframe: bool,
    pub datagram_size: usize,
    pub file_bandwidth_limit_kbps: u32,
}

/// A session is set up as the peers agreed.
pub open spec fn is_session_plan(
    plan: SessionPlan,
    agreement: SessionAgreement,
    application_protocol: QuicApplicationProtocol,
) -> bool {
    &&& plan.channels@ == channel_kinds(agreement.reliable_keyframes)
    &&& plan.scoped_reference_refresh == (application_protocol.spec_number() >= 3)
    &&& plan.keyframe_barrier == agreement.reliable_keyframe_barrier
    &&& plan.require_initial_keyframe == !agreement.reliable_keyframes
    &&& plan.datagram_size == agreement.max_datagram_payload
    &&& plan.file_bandwidth_limit_kbps == agreement.max_file_bitrate_kbps
}

/// How a session is set up.
pub fn session_plan(agreement: SessionAgreement, application_protocol: QuicApplicationProtocol) -> (plan: SessionPlan)
    ensures
        is_session_plan(plan, agreement, application_protocol),
{
    SessionPlan {
        channels: application_channel_kinds(agreement.reliable_keyframes),
        scoped_reference_refresh: application_protocol.supports_scoped_video_reference_refresh(),
        keyframe_barrier: agreement.reliable_keyframe_barrier,
        // Keyframes that travel on their own channel never pass the place where datagrams are put
        // together, so nothing would open it.
        require_initial_keyframe: !agreement.reliable_keyframes,
        datagram_size: agreement.max_datagram_payload as usize,
        file_bandwidth_limit_kbps: agreement.max_file_bitrate_kbps,
    }
}

/// The error that belongs to what became of handing a message to a queue.
pub open spec fn is_queue_result(result: Result<(), EnqueueError>, outcome: SendOutcome) -> bool {
    let text = "QUIC reliable application queue is unavailable"@;
    match outcome {
        SendOutcome::Sent => result is Ok,
        SendOutcome::Full => result matches Err(EnqueueError::WouldBlock(detail)) && detail@ == text,
        SendOutcome::Closed => result matches Err(EnqueueError::BrokenPipe(detail)) && detail@ == text,
    }
}

/// The error that belongs to what became of handing a message to a queue.
pub fn queue_result(outcome: SendOutcome) -> (result: Result<(), EnqueueError>)
    ensures
        is_queue_result(result, outcome),
{
    match outcome {
        SendOutcome::Sent => Ok(()),
        SendOutcome::Full => Err(
            EnqueueError::WouldBlock("QUIC reliable application queue is unavailable".to_owned()),
        ),
        SendOutcome::Closed => Err(
            EnqueueError::BrokenPipe("QUIC reliable application queue is unavailable".to_owned()),
        ),
    }
}

/// The application's end of a session.
pub struct QuicApplicationStream {
    pub control: Outbox<ReliableOutbound>,
    pub input: Outbox<ReliableOutbound>,
    pub clipboard: Outbox<ReliableOutbound>,
    pub file: Outbox<ReliableOutbound>,
    pub diagnostics: Outbox<ReliableOutbound>,
    pub audio: Outbox<AudioOutbound>,
    pub latest_video: TrackLatestSlot<VideoOutbound>,
    pub video_send_recovery: VideoSendRecovery,
    pub latest_mouse: LatestSlot<MouseOutbound>,
    pub datagram_send: QuicDatagramSendCoordinator,
    /// The format of the audio that is sent, packed; zero as long as it is not known.
    pub audio_format: u64,
    pub next_transport_frame_id: u64,
    pub video_ordering: VideoOrderingGate,
    pub raw_mode: bool,
    pub closing: bool,
    pub agreement: SessionAgreement,
    pub application_protocol: QuicApplicationProtocol,
    pub metrics: QuicApplicationMetrics,
}

/// What becomes of a frame that is offered to the slot of its track.
pub open spec fn offer_outcome(slot: TrackLatestSlot<VideoOutbound>, item: VideoOutbound) -> SlotOutcome {
    let waiting = slot.waiting();
    if waiting.contains_key(item.track_key) {
        if replaces(waiting[item.track_key], item) {
            SlotOutcome::Replaced
        } else {
            SlotOutcome::Refused
        }
    } else if waiting.dom().len() >= slot.room() {
        SlotOutcome::Refused
    } else {
        SlotOutcome::Stored
    }
}

/// A frame that is offered breaks its track: it was not taken, or a delta took the place of a frame.
pub open spec fn offer_breaks_track(slot: TrackLatestSlot<VideoOutbound>, item: VideoOutbound) -> bool {
    let outcome = offer_outcome(slot, item);
    outcome is Refused || (outcome is Replaced && !item.metadata.spec_is_keyframe())
}

/// How a message is dealt with.
pub enum EnqueuePlan {
    /// It is dropped: the session is being torn down.
    Discard { video: bool },
    /// It goes out as it is.
    Raw,
    /// The frames that follow may not overtake it.
    Ordered,
    Video { metadata: VideoFrameMetadata },
    Audio,
    Mouse { class: ApplicationClass },
    Reliable { class: ApplicationClass },
    /// The connection is closed.
    Closed { reason: Seq<char> },
    /// It cannot be read.
    Unreadable { detail: Seq<char> },
    /// It is a video frame without content.
    Empty,
}

impl QuicApplicationStream {
    /// What the session keeps is well formed.
    pub open spec fn wf(&self) -> bool {
        &&& self.latest_video.wf()
        &&& self.video_send_recovery.wf()
        &&& self.video_ordering.wf()
        &&& forall|key: VideoOutboundTrackKey| #[trigger] self.latest_video.waiting().contains_key(key)
            ==> self.latest_video.waiting()[key].ordering_epoch <= self.video_ordering.requested()
    }

    /// The session sends everything through the queue that it is meant for.
    pub open spec fn sends_through(&self, queues: ApplicationQueues) -> bool {
        &&& self.control.queue() == queues.control
        &&& self.input.queue() == queues.input
        &&& self.clipboard.queue() == queues.clipboard
        &&& self.file.queue() == queues.file
        &&& self.diagnostics.queue() == queues.diagnostics
        &&& self.audio.queue() == queues.audio
        &&& self.video_send_recovery.refresh_queue() == queues.video_refresh
    }

    /// The queue of a channel.
    pub open spec fn queue(&self, kind: ReliableChannelKind) -> Outbox<ReliableOutbound> {
        match kind {
            ReliableChannelKind::Input => self.input,
            ReliableChannelKind::Clipboard => self.clipboard,
            ReliableChannelKind::FileTransfer => self.file,
            ReliableChannelKind::Diagnostics => self.diagnostics,
            _ => self.control,
        }
    }

    /// The session with another queue for a channel.
    pub open spec fn with_queue(self, kind: ReliableChannelKind, queue: Outbox<ReliableOutbound>) -> Self {
        match kind {
            ReliableChannelKind::Input => QuicApplicationStream { input: queue, ..self },
            ReliableChannelKind::Clipboard => QuicApplicationStream { clipboard: queue, ..self },
            ReliableChannelKind::FileTransfer => QuicApplicationStream { file: queue, ..self },
            ReliableChannelKind::Diagnostics => QuicApplicationStream { diagnostics: queue, ..self },
            _ => QuicApplicationStream { control: queue, ..self },
        }
    }

    /// How a message is dealt with. `parsed` is what it was read as.
    pub open spec fn plan(self, parsed: Result<Message, String>, close_reason: Option<String>) -> EnqueuePlan {
        if self.closing {
            EnqueuePlan::Discard {
                video: !self.raw_mode && (match parsed {
                    Ok(message) => message_class(message) matches Some(ApplicationClass::Video(_)),
                    Err(_) => false,
                }),
            }
        } else {
            match (close_reason, parsed) {
                (Some(reason), _) => EnqueuePlan::Closed { reason: reason@ },
                (None, parsed) => if self.raw_mode {
                    EnqueuePlan::Raw
                } else {
                    match parsed {
                        Err(detail) => EnqueuePlan::Unreadable { detail: detail@ },
                        Ok(message) => if switches_display(message) {
                            EnqueuePlan::Ordered
                        } else {
                            match message_class(message) {
                                None => EnqueuePlan::Empty,
                                Some(ApplicationClass::Video(metadata)) => EnqueuePlan::Video { metadata },
                                Some(ApplicationClass::Audio) => EnqueuePlan::Audio,
                                Some(class) => if class is Mouse {
                                    EnqueuePlan::Mouse { class }
                                } else {
                                    EnqueuePlan::Reliable { class }
                                },
                            }
                        },
                    }
                },
            }
        }
    }

    /// The audio format that is known once a message was looked at.
    pub open spec fn format_after(self, parsed: Result<Message, String>, close_reason: Option<String>) -> u64 {
        match (self.plan(parsed, close_reason), parsed) {
            (EnqueuePlan::Discard { .. }, _) => self.audio_format,
            (EnqueuePlan::Closed { .. }, _) => self.audio_format,
            (EnqueuePlan::Raw, _) => self.audio_format,
            (_, Ok(message)) => match misc_part(message) {
                Some(MiscUnion::AudioFormat(format)) => packed_format(format),
                _ => self.audio_format,
            },
            (_, Err(_)) => self.audio_format,
        }
    }

    /// Sets up a session over its queues.
    pub fn establish(
        queues: ApplicationQueues,
        agreement: SessionAgreement,
        application_protocol: QuicApplicationProtocol,
        datagram_send_buffer_space: usize,
    ) -> (stream: Self)
        ensures
            stream.wf(),
            stream.sends_through(queues),
            stream.control.handed() == Seq::<ReliableOutbound>::empty(),
            stream.input.handed() == Seq::<ReliableOutbound>::empty(),
            stream.clipboard.handed() == Seq::<ReliableOutbound>::empty(),
            stream.file.handed() == Seq::<ReliableOutbound>::empty(),
            stream.diagnostics.handed() == Seq::<ReliableOutbound>::empty(),
            stream.audio.handed() == Seq::<AudioOutbound>::empty(),
            stream.latest_video.waiting() == Map::<VideoOutboundTrackKey, VideoOutbound>::empty(),
            stream.latest_video.last_served() is None,
            stream.latest_video.room() == MAX_PENDING_VIDEO_TRACKS,
            stream.video_send_recovery@ == (SendRecoveryModel { tracks: Map::empty(), activity_generation: 0 }),
            stream.video_send_recovery.asked() == Seq::<LocalVideoRefresh>::empty(),
            stream.video_send_recovery.scoped() == (application_protocol.spec_number() >= 3),
            stream.latest_mouse.pending() is None,
            stream.latest_mouse.replacement_count() == 0,
            stream.datagram_send == QuicDatagramSendCoordinator::unused(
                DEFAULT_INTERACTIVE_DATAGRAM_RESERVE_BYTES,
                datagram_send_buffer_space,
            ),
            stream.audio_format == 0,
            stream.next_transport_frame_id == 1,
            stream.video_ordering.requested() == 0,
            stream.video_ordering.acknowledged() == 0,
            !stream.raw_mode,
            !stream.closing,
            stream.agreement == agreement,
            stream.application_protocol == application_protocol,
            stream.metrics == no_metrics(),
    {
        QuicApplicationStream {
            control: Outbox::new(queues.control),
            input: Outbox::new(queues.input),
            clipboard: Outbox::new(queues.clipboard),
            file: Outbox::new(queues.file),
            diagnostics: Outbox::new(queues.diagnostics),
            audio: Outbox::new(queues.audio),
            latest_video: TrackLatestSlot::new(MAX_PENDING_VIDEO_TRACKS),
            video_send_recovery: VideoSendRecovery::new(
                queues.video_refresh,
                application_protocol.supports_scoped_video_reference_refresh(),
            ),
            latest_mouse: LatestSlot::new(),
            datagram_send: QuicDatagramSendCoordinator::new(
                DEFAULT_INTERACTIVE_DATAGRAM_RESERVE_BYTES,
                datagram_send_buffer_space,
            ),
            audio_format: 0,
            next_transport_frame_id: 1,
            video_ordering: VideoOrderingGate::new(),
            raw_mode: false,
            closing: false,
            agreement,
            application_protocol,
            metrics: QuicApplicationMetrics::default(),
        }
    }

    /// Hands a message to the queue of its channel.
    fn enqueue_reliable(&mut self, kind: ReliableChannelKind, message_type: MessageType, payload: Bytes) -> (result: Result<
        (),
        EnqueueError,
    >)
        ensures
            reliable_enqueued(*old(self), *final(self), kind, message_type, payload, result),
    {
        let item = ReliableOutbound { message_type, payload: OutboundPayload::Encoded(payload), completion: None };
        let ghost before = self.queue(kind).attempts();
        let outcome = match kind {
            ReliableChannelKind::Input => self.input.try_send(item),
            ReliableChannelKind::Clipboard => self.clipboard.try_send(item),
            ReliableChannelKind::FileTransfer => self.file.try_send(item),
            ReliableChannelKind::Diagnostics => self.diagnostics.try_send(item),
            _ => self.control.try_send(item),
        };
        assert(self.queue(kind).attempts().drop_last() =~= before);
        queue_result(outcome)
    }

    /// Sends a message that the frames that follow may not overtake: it goes out under a new epoch,
    /// and the frames wait until the peer has acknowledged it. If it cannot go out, they do not wait.
    fn enqueue_ordered(&mut self, payload: &Bytes) -> (result: Result<(), EnqueueError>)
        ensures
            old(self).wf() ==> final(self).wf(),
            ordered_enqueued(*old(self), *final(self), *payload, result),
    {
        let epoch: u64 = match self.video_ordering.next_epoch() {
            Ok(epoch) => epoch,
            Err(error) => {
                return Err(EnqueueError::Transport(error));
            },
        };
        let bytes: Vec<u8> = ordered_payload(epoch, bytes_as_slice(payload));
        let ghost before = self.control.attempts();
        let outcome = self.control.try_send(
            ReliableOutbound {
                message_type: MessageType::VideoOrdering,
                payload: OutboundPayload::Encoded(Bytes::copy_from_slice(bytes.as_slice())),
                completion: None,
            },
        );
        assert(self.control.attempts().drop_last() =~= before);
        if outcome != SendOutcome::Sent {
            self.video_ordering.cancel_epoch(epoch);
        }
        queue_result(outcome)
    }

    /// Lets a video frame wait to be sent, unless its track waits for a keyframe. A frame that is not
    /// taken, and a delta that takes the place of another frame, break the track.
    fn enqueue_video(
        &mut self,
        latest_key: Option<u64>,
        metadata: VideoFrameMetadata,
        source_info: Option<VideoSourceInfo>,
        payload: Bytes,
    ) -> (result: Result<(), EnqueueError>)
        requires
            old(self).wf(),
        ensures
            final(self).wf(),
            video_result(
                *old(self),
                *final(self),
                video_item(*old(self), latest_key, metadata, source_info, payload),
                result,
            ),
    {
        let frame_id: u64 = self.next_transport_frame_id;
        match frame_id.checked_add(1) {
            Some(next) => {
                self.next_transport_frame_id = next;
            },
            None => {
                return Err(
                    EnqueueError::Transport(
                        QuicTransportError::ProtocolState("transport video frame identifier exhausted".to_owned()),
                    ),
                );
            },
        }
        let mut metadata = metadata;
        metadata.frame_id = frame_id;
        let keyframe = metadata.is_keyframe();
        let track_key = VideoOutboundTrackKey::resolve(latest_key, source_info);
        if !keyframe && self.video_send_recovery.suppress_delta(track_key, frame_id, &mut self.metrics) {
            return Ok(());
        }
        let item = VideoOutbound {
            track_key,
            metadata,
            source_info,
            payload,
            ordering_epoch: self.video_ordering.current_epoch(),
        };
        let outcome = self.latest_video.replace_when_with(track_key, item, should_replace_pending_video);
        match outcome {
            SlotOutcome::Stored => {},
            SlotOutcome::Replaced => {
                raise(&mut self.metrics.video_sender_replacements, 1);
                if !keyframe {
                    self.video_send_recovery.enter(track_key, source_info, frame_id, &mut self.metrics);
                }
            },
            SlotOutcome::Refused => {
                raise(&mut self.metrics.video_sender_replacements, 1);
                self.video_send_recovery.enter(track_key, source_info, frame_id, &mut self.metrics);
            },
        }
        Ok(())
    }

    /// Hands an audio frame over. As long as the format is not known it travels as a control message;
    /// afterwards one that does not fit into a datagram, or finds the queue full, is dropped.
    fn enqueue_audio(&mut self, payload: Bytes, max_datagram_size: Option<usize>) -> (result: Result<(), EnqueueError>)
        ensures
            audio_enqueued(*old(self), *final(self), payload, max_datagram_size, result),
    {
        let (sample_rate_hz, channels) = match unpack_audio_format(self.audio_format) {
            Some(format) => format,
            None => {
                return self.enqueue_reliable(ReliableChannelKind::Control, MessageType::ApplicationControl, payload);
            },
        };
        let current: usize = match max_datagram_size {
            Some(size) => size,
            None => FALLBACK_DATAGRAM_SIZE,
        };
        let negotiated: usize = self.agreement.max_datagram_payload as usize;
        let max_datagram: usize = if current < negotiated {
            current
        } else {
            negotiated
        };
        if payload.len().saturating_add(AUDIO_DATAGRAM_OVERHEAD_BYTES) > max_datagram {
            return Ok(());
        }
        let ghost before = self.audio.attempts();
        let outcome = self.audio.try_send(AudioOutbound { capture_timestamp_us: 0, channels, sample_rate_hz, payload });
        assert(self.audio.attempts().drop_last() =~= before);
        match outcome {
            SendOutcome::Sent | SendOutcome::Full => Ok(()),
            SendOutcome::Closed => Err(EnqueueError::BrokenPipe("QUIC audio writer is closed".to_owned())),
        }
    }
}

/// A message was handed to the queue of its channel, and nothing else changed.
pub open spec fn reliable_enqueued(
    before: QuicApplicationStream,
    after: QuicApplicationStream,
    kind: ReliableChannelKind,
    message_type: MessageType,
    payload: Bytes,
    result: Result<(), EnqueueError>,
) -> bool {
    let attempts = after.queue(kind).attempts();
    &&& after == before.with_queue(kind, after.queue(kind))
    &&& after.queue(kind).queue() == before.queue(kind).queue()
    &&& attempts.len() > 0
    &&& attempts.drop_last() == before.queue(kind).attempts()
    &&& attempts.last().0 == outbound(message_type, OutboundPayload::Encoded(payload))
    &&& is_queue_result(result, attempts.last().1)
}

/// A message that frames may not overtake was sent under a new epoch, as long as there is one. If the
/// queue did not take it, frames do not wait for the epoch.
pub open spec fn ordered_enqueued(
    before: QuicApplicationStream,
    after: QuicApplicationStream,
    payload: Bytes,
    result: Result<(), EnqueueError>,
) -> bool {
    let gate = after.video_ordering;
    &&& after == (QuicApplicationStream { control: after.control, video_ordering: gate, ..before })
    &&& after.control.queue() == before.control.queue()
    &&& if before.video_ordering.requested() == u64::MAX {
        &&& after.control == before.control
        &&& gate.requested() == before.video_ordering.requested()
        &&& gate.acknowledged() == before.video_ordering.acknowledged()
        &&& result matches Err(EnqueueError::Transport(error)) && is_protocol_state(
            error,
            "video ordering epoch exhausted"@,
        )
    } else {
        let epoch = (before.video_ordering.requested() + 1) as u64;
        let attempts = after.control.attempts();
        &&& gate.requested() == epoch
        &&& attempts.len() > 0
        &&& attempts.drop_last() == before.control.attempts()
        &&& attempts.last().0.message_type is VideoOrdering
        &&& attempts.last().0.completion is None
        &&& attempts.last().0.payload matches OutboundPayload::Encoded(bytes) && bytes_view(bytes) == epoch_bytes(epoch)
            + bytes_view(payload)
        &&& is_queue_result(result, attempts.last().1)
        &&& gate.acknowledged() == if !(attempts.last().1 is Sent) && before.video_ordering.acknowledged() < epoch {
            epoch
        } else {
            before.video_ordering.acknowledged()
        }
    }
}

/// An audio frame travels as a control message as long as the format is not known, and in a datagram
/// afterwards. One that does not fit into a datagram, or finds the queue full, is dropped.
pub open spec fn audio_enqueued(
    before: QuicApplicationStream,
    after: QuicApplicationStream,
    payload: Bytes,
    max_datagram_size: Option<usize>,
    result: Result<(), EnqueueError>,
) -> bool {
    match unpacked_format(before.audio_format) {
        None => reliable_enqueued(
            before,
            after,
            ReliableChannelKind::Control,
            MessageType::ApplicationControl,
            payload,
            result,
        ),
        Some((sample_rate_hz, channels)) => if fits_audio_datagram(before, payload, max_datagram_size) {
            let attempts = after.audio.attempts();
            &&& after == (QuicApplicationStream { audio: after.audio, ..before })
            &&& after.audio.queue() == before.audio.queue()
            &&& attempts.len() > 0
            &&& attempts.drop_last() == before.audio.attempts()
            &&& attempts.last().0 == (AudioOutbound { capture_timestamp_us: 0, channels, sample_rate_hz, payload })
            &&& match attempts.last().1 {
                SendOutcome::Closed => result matches Err(EnqueueError::BrokenPipe(text)) && text@
                    == "QUIC audio writer is closed"@,
                _ => result is Ok,
            }
        } else {
            result is Ok && after == before
        },
    }
}

/// A video frame gets the next number and is offered to the slot of its track, as long as there are
/// numbers.
pub open spec fn video_result(
    before: QuicApplicationStream,
    after: QuicApplicationStream,
    item: VideoOutbound,
    result: Result<(), EnqueueError>,
) -> bool {
    &&& after == (QuicApplicationStream {
        next_transport_frame_id: after.next_transport_frame_id,
        latest_video: after.latest_video,
        video_send_recovery: after.video_send_recovery,
        metrics: after.metrics,
        ..before
    })
    &&& after.video_send_recovery.scoped() == before.video_send_recovery.scoped()
    &&& after.video_send_recovery.refresh_queue() == before.video_send_recovery.refresh_queue()
    &&& if before.next_transport_frame_id == u64::MAX {
        &&& after == before
        &&& result matches Err(EnqueueError::Transport(error)) && is_protocol_state(
            error,
            "transport video frame identifier exhausted"@,
        )
    } else {
        result is Ok && video_enqueued(before, after, item)
    }
}

/// What a message does to a session.
pub open spec fn enqueued(
    before: QuicApplicationStream,
    after: QuicApplicationStream,
    latest_key: Option<u64>,
    payload: Bytes,
    parsed: Result<Message, String>,
    close_reason: Option<String>,
    max_datagram_size: Option<usize>,
    result: Result<(), EnqueueError>,
) -> bool {
    let noted = QuicApplicationStream { audio_format: before.format_after(parsed, close_reason), ..before };
    match before.plan(parsed, close_reason) {
        EnqueuePlan::Discard { video } => {
            &&& result is Ok
            &&& after == (QuicApplicationStream {
                metrics: QuicApplicationMetrics {
                    video_frames_discarded_teardown: if video {
                        raised(before.metrics.video_frames_discarded_teardown, 1)
                    } else {
                        before.metrics.video_frames_discarded_teardown
                    },
                    ..before.metrics
                },
                ..before
            })
        },
        EnqueuePlan::Closed { reason } => {
            &&& after == before
            &&& result matches Err(EnqueueError::BrokenPipe(text)) && text@ == "QUIC application connection closed: "@
                + reason + ""@
        },
        EnqueuePlan::Raw => reliable_enqueued(
            before,
            after,
            ReliableChannelKind::Control,
            MessageType::ApplicationRaw,
            payload,
            result,
        ),
        EnqueuePlan::Unreadable { detail } => {
            &&& after == before
            &&& result matches Err(EnqueueError::InvalidData(text)) && text@ == detail
        },
        EnqueuePlan::Ordered => ordered_enqueued(noted, after, payload, result),
        EnqueuePlan::Empty => {
            &&& after == noted
            &&& result matches Err(EnqueueError::Transport(error)) && is_protocol_state(
                error,
                "video protobuf has no codec payload"@,
            )
        },
        EnqueuePlan::Video { metadata } => video_result(
            noted,
            after,
            video_item(noted, latest_key, metadata, payload_source(parsed), payload),
            result,
        ),
        EnqueuePlan::Audio => audio_enqueued(noted, after, payload, max_datagram_size, result),
        EnqueuePlan::Mouse { class } => {
            &&& result is Ok
            &&& after == (QuicApplicationStream { latest_mouse: after.latest_mouse, ..noted })
            &&& after.latest_mouse.pending() == match class {
                ApplicationClass::Mouse { mode, x, y, button_state_mask } => Some(
                    MouseOutbound { mode, x, y, button_state_mask, payload },
                ),
                _ => None,
            }
            &&& after.latest_mouse.replacement_count() == if noted.latest_mouse.pending() is Some {
                raised(noted.latest_mouse.replacement_count(), 1)
            } else {
                noted.latest_mouse.replacement_count()
            }
        },
        EnqueuePlan::Reliable { class } => reliable_enqueued(
            noted,
            after,
            spec_reliable_route(class).0,
            spec_reliable_route(class).1,
            payload,
            result,
        ),
    }
}

/// The frame as it waits to be sent.
pub open spec fn video_item(
    stream: QuicApplicationStream,
    latest_key: Option<u64>,
    metadata: VideoFrameMetadata,
    source_info: Option<VideoSourceInfo>,
    payload: Bytes,
) -> VideoOutbound {
    VideoOutbound {
        track_key: VideoOutboundTrackKey::spec_resolve(latest_key, source_info),
        metadata: VideoFrameMetadata { frame_id: stream.next_transport_frame_id, ..metadata },
        source_info,
        payload,
        ordering_epoch: stream.video_ordering.requested(),
    }
}

/// The audio frame fits into a datagram.
pub open spec fn fits_audio_datagram(
    stream: QuicApplicationStream,
    payload: Bytes,
    max_datagram_size: Option<usize>,
) -> bool {
    let current = match max_datagram_size {
        Some(size) => size,
        None => FALLBACK_DATAGRAM_SIZE,
    };
    let needed = bytes_view(payload).len() + AUDIO_DATAGRAM_OVERHEAD_BYTES;
    needed <= current && needed <= stream.agreement.max_datagram_payload
}

/// What a video frame does to a session.
pub open spec fn video_enqueued(
    before: QuicApplicationStream,
    after: QuicApplicationStream,
    item: VideoOutbound,
) -> bool {
    let keyframe = item.metadata.spec_is_keyframe();
    let known = before.video_send_recovery@;
    let suppressed = !keyframe && known.suppresses(item.track_key);
    let noted = if keyframe {
        known
    } else {
        known.delta(item.track_key, item.metadata.frame_id)
    };
    let outcome = offer_outcome(before.latest_video, item);
    let lost = !suppressed && offer_breaks_track(before.latest_video, item);
    &&& after.next_transport_frame_id == before.next_transport_frame_id + 1
    &&& after.latest_video.room() == before.latest_video.room()
    &&& after.latest_video.last_served() == before.latest_video.last_served()
    &&& after.latest_video.waiting() == if suppressed || outcome is Refused {
        before.latest_video.waiting()
    } else {
        before.latest_video.waiting().insert(item.track_key, item)
    }
    &&& after.video_send_recovery@ == if lost {
        noted.lose(item.track_key, item.metadata.frame_id)
    } else {
        noted
    }
    &&& after.video_send_recovery.asked() == if lost {
        before.video_send_recovery.asked() + refreshes_for(
            noted,
            before.video_send_recovery.scoped(),
            item.track_key,
            item.source_info,
        )
    } else {
        before.video_send_recovery.asked()
    }
    &&& after.metrics == (QuicApplicationMetrics {
        video_recovery_suppressed_frames: if suppressed {
            raised(before.metrics.video_recovery_suppressed_frames, 1)
        } else {
            before.metrics.video_recovery_suppressed_frames
        },
        video_sender_replacements: if !suppressed && !(outcome is Stored) {
            raised(before.metrics.video_sender_replacements, 1)
        } else {
            before.metrics.video_sender_replacements
        },
        video_sender_reference_resets: if lost && noted.is_first_loss(item.track_key) {
            raised(before.metrics.video_sender_reference_resets, 1)
        } else {
            before.metrics.video_sender_reference_resets
        },
        ..before.metrics
    })
}

impl QuicApplicationStream {
    /// Takes a message of the application. `parsed` is what it was read as, `close_reason` why the
    /// connection was closed, if it was, and `max_datagram_size` what it allows now.
    pub fn enqueue(
        &mut self,
        payload: Bytes,
        parsed: &Result<Message, String>,
        close_reason: Option<String>,
        max_datagram_size: Option<usize>,
    ) -> (result: Result<(), EnqueueError>)
        requires
            old(self).wf(),
        ensures
            final(self).wf(),
            enqueued(
                *old(self),
                *final(self),
                None,
                payload,
                *parsed,
                close_reason,
                max_datagram_size,
                result,
            ),
    {
        self.enqueue_with_latest_key(None, payload, parsed, close_reason, max_datagram_size)
    }

    /// Takes a message of the application; a video frame belongs to the track that `key` names.
    pub fn enqueue_latest(
        &mut self,
        key: u64,
        payload: Bytes,
        parsed: &Result<Message, String>,
        close_reason: Option<String>,
        max_datagram_size: Option<usize>,
    ) -> (result: Result<(), EnqueueError>)
        requires
            old(self).wf(),
        ensures
            final(self).wf(),
            enqueued(
                *old(self),
                *final(self),
                Some(key),
                payload,
                *parsed,
                close_reason,
                max_datagram_size,
                result,
            ),
    {
        self.enqueue_with_latest_key(Some(key), payload, parsed, close_reason, max_datagram_size)
    }

    /// Takes a message of the application.
    fn enqueue_with_latest_key(
        &mut self,
        latest_key: Option<u64>,
        payload: Bytes,
        parsed: &Result<Message, String>,
        close_reason: Option<String>,
        max_datagram_size: Option<usize>,
    ) -> (result: Result<(), EnqueueError>)
        requires
            old(self).wf(),
        ensures
            final(self).wf(),
            enqueued(
                *old(self),
                *final(self),
                latest_key,
                payload,
                *parsed,
                close_reason,
                max_datagram_size,
                result,
            ),
    {
        if self.closing {
            if !self.raw_mode {
                if let Ok(message) = parsed {
                    if let Ok(ApplicationClass::Video(_)) = classify_message(message) {
                        raise(&mut self.metrics.video_frames_discarded_teardown, 1);
                    }
                }
            }
            return Ok(());
        }
        if let Some(reason) = close_reason {
            return Err(
                EnqueueError::BrokenPipe(joined("QUIC application connection closed: ", reason.as_str(), "")),
            );
        }
        if self.raw_mode {
            return self.enqueue_reliable(ReliableChannelKind::Control, MessageType::ApplicationRaw, payload);
        }
        let message = match parsed {
            Ok(message) => message,
            Err(detail) => {
                return Err(EnqueueError::InvalidData(detail.as_str().to_owned()));
            },
        };
        if let Some(format) = audio_format(message) {
            self.audio_format = pack_audio_format(format);
        }
        if is_video_ordering_message(message) {
            return self.enqueue_ordered(&payload);
        }
        let class = match classify_message(message) {
            Ok(class) => class,
            Err(error) => {
                return Err(EnqueueError::Transport(error));
            },
        };
        match class {
            ApplicationClass::Video(metadata) => {
                let source_info = match video_source_info(parsed) {
                    Ok(info) => Some(info),
                    Err(_) => None,
                };
                self.enqueue_video(latest_key, metadata, source_info, payload)
            },
            ApplicationClass::Audio => self.enqueue_audio(payload, max_datagram_size),
            ApplicationClass::Mouse { mode, x, y, button_state_mask } => {
                self.latest_mouse.replace(MouseOutbound { mode, x, y, button_state_mask, payload });
                Ok(())
            },
            class => {
                let (kind, message_type) = reliable_route(class);
                self.enqueue_reliable(kind, message_type, payload)
            },
        }
    }
}

/// Why a control message whose sending is to be confirmed is refused; none if it is not.
pub enum ControlWriteFault {
    Closing,
    Closed { reason: Seq<char> },
    RawMode,
    Unreadable { detail: Seq<char> },
    Empty,
    NoControlMessage,
}

/// The error that belongs to a fault.
pub open spec fn is_control_write_error(error: EnqueueError, fault: ControlWriteFault) -> bool {
    match fault {
        ControlWriteFault::Closing => error matches EnqueueError::BrokenPipe(text) && text@
            == "QUIC application is closing"@,
        ControlWriteFault::Closed { reason } => error matches EnqueueError::BrokenPipe(text) && text@
            == "QUIC application connection closed: "@ + reason + ""@,
        ControlWriteFault::RawMode => error matches EnqueueError::InvalidInput(text) && text@
            == "confirmed QUIC control writes are unavailable in raw mode"@,
        ControlWriteFault::Unreadable { detail } => error matches EnqueueError::InvalidData(text) && text@ == detail,
        ControlWriteFault::Empty => error matches EnqueueError::Transport(inner) && is_protocol_state(
            inner,
            "video protobuf has no codec payload"@,
        ),
        ControlWriteFault::NoControlMessage => error matches EnqueueError::InvalidInput(text) && text@
            == "confirmed QUIC write requires an application control message"@,
    }
}

/// What became of waiting for a confirmation.
pub enum Confirmation {
    /// The message could not be handed to the writer.
    WriterClosed,
    /// The writer stopped without an answer.
    WriterStopped,
    /// The writer's answer.
    Answered(Result<(), String>),
}

/// The result that belongs to a confirmation.
pub fn confirmation_result(confirmation: Confirmation) -> (result: Result<(), EnqueueError>)
    ensures
        match confirmation {
            Confirmation::WriterClosed => result matches Err(EnqueueError::BrokenPipe(text)) && text@
                == "QUIC application control writer is closed"@,
            Confirmation::WriterStopped => result matches Err(EnqueueError::BrokenPipe(text)) && text@
                == "QUIC application control writer stopped before confirmation"@,
            Confirmation::Answered(Ok(_)) => result is Ok,
            Confirmation::Answered(Err(detail)) => result matches Err(EnqueueError::BrokenPipe(text)) && text@
                == detail@,
        },
{
    match confirmation {
        Confirmation::WriterClosed => Err(
            EnqueueError::BrokenPipe("QUIC application control writer is closed".to_owned()),
        ),
        Confirmation::WriterStopped => Err(
            EnqueueError::BrokenPipe("QUIC application control writer stopped before confirmation".to_owned()),
        ),
        Confirmation::Answered(Ok(_)) => Ok(()),
        Confirmation::Answered(Err(detail)) => Err(EnqueueError::BrokenPipe(detail)),
    }
}

/// The control message that is handed to the writer when its sending is to be confirmed.
pub fn confirmed_control_write(payload: Bytes, completion: oneshot::Sender<Result<(), String>>) -> (item: ReliableOutbound)
    ensures
        item == (ReliableOutbound {
            message_type: MessageType::ApplicationControl,
            payload: OutboundPayload::Encoded(payload),
            completion: Some(completion),
        }),
{
    ReliableOutbound {
        message_type: MessageType::ApplicationControl,
        payload: OutboundPayload::Encoded(payload),
        completion: Some(completion),
    }
}

/// The last keyframe that went out on the reliable channel, as it is shown.
#[derive(Clone, Copy, Debug, PartialEq, Eq, Structural)]
pub struct ReliableKeyframeMark {
    pub display: i32,
    pub stream_id: u64,
    pub barrier_epoch: u64,
    pub age_us: u64,
}

/// What a session shows of itself.
#[derive(Clone, Copy, Debug, PartialEq, Eq, Structural)]
pub struct QuicConnectionStats {
    pub application_protocol: u16,
    pub negotiated_datagram_size: Option<usize>,
    pub reliable_keyframes: bool,
    pub reliable_keyframe_barrier: bool,
    pub video_reassembly_drops: u64,
    pub video_reassembly_expired: u64,
    pub video_reassembly_evicted: u64,
    pub video_reassembly_obsolete: u64,
    pub video_reassembly_pre_keyframe: u64,
    pub video_reassembly_expired_keyframes: u64,
    pub video_reassembly_missing_fragments: u64,
    pub video_reassembly_last_us: u64,
    pub video_reassembly_max_us: u64,
    pub video_reassembly_max_gap_us: u64,
    pub video_reassembly_last_frame_bytes: u64,
    pub video_reassembly_last_frame_fragments: u64,
    pub video_keyframe_requests: u64,
    pub reliable_keyframes_sent: u64,
    pub reliable_keyframe_last_bytes: u64,
    pub reliable_keyframe_last_mark: Option<ReliableKeyframeMark>,
    pub reliable_keyframes_received: u64,
    pub video_source_frame_gaps: u64,
    pub video_recovery_suppressed_frames: u64,
    pub video_sender_replacements: u64,
    pub video_sender_reference_resets: u64,
    pub video_keyframe_barrier_held: u64,
    pub video_keyframe_barrier_released: u64,
    pub video_keyframe_barrier_timeouts: u64,
    pub video_keyframe_barrier_overflows: u64,
    pub video_keyframe_barrier_gap_events: u64,
    pub video_keyframe_barrier_gap_skipped_frames: u64,
    pub video_datagram_frames_sent: u64,
    pub video_datagram_frames_rejected: u64,
    pub video_datagram_frames_rejected_teardown: u64,
    pub video_datagram_frames_rejected_active: u64,
    pub video_frames_discarded_teardown: u64,
    pub video_datagrams_sent: u64,
    pub video_datagram_frame_bytes: u64,
    pub video_datagram_frame_bytes_peak: u64,
    pub video_datagram_frame_fragments: u64,
    pub video_datagram_frame_fragments_peak: u64,
    pub video_datagram_frame_bytes_p95: u64,
    pub video_datagram_frame_bytes_p99: u64,
    pub video_datagram_required_bytes_p95: u64,
    pub video_datagram_required_bytes_p99: u64,
    pub datagram_send_buffer_space: u64,
    pub datagram_send_buffer_space_min: u64,
    pub datagram_send_buffer_queued: u64,
    pub video_datagram_queue_budget: u64,
    pub video_datagram_queue_delay_us: u64,
    pub video_datagram_queue_target_us: u64,
    pub audio_datagram_drops: u64,
    pub mouse_datagram_drops: u64,
}

/// The last reliable keyframe with its age.
pub open spec fn keyframe_mark(state: Option<ReliableKeyframeState>, now: Timestamp) -> Option<ReliableKeyframeMark> {
    match state {
        Some(state) => Some(
            ReliableKeyframeMark {
                display: state.display,
                stream_id: state.stream_id,
                barrier_epoch: state.barrier_epoch,
                age_us: (now.spec_since(state.sent_at) / 1_000) as u64,
            },
        ),
        None => None,
    }
}

/// The frames that were refused while the session was torn down, as far as they were refused at all.
pub open spec fn rejected_in_teardown(metrics: QuicApplicationMetrics, sent: DatagramSendStats) -> u64 {
    if metrics.video_datagram_frames_rejected_teardown < sent.video_frames_rejected {
        metrics.video_datagram_frames_rejected_teardown
    } else {
        sent.video_frames_rejected
    }
}

/// What a session shows of itself.
pub open spec fn stats_of(stream: QuicApplicationStream, now: Timestamp) -> QuicConnectionStats {
    let metrics = stream.metrics;
    let sent = stream.datagram_send.spec_stats();
    QuicConnectionStats {
        application_protocol: stream.application_protocol.spec_number(),
        negotiated_datagram_size: Some(stream.agreement.max_datagram_payload as usize),
        reliable_keyframes: stream.agreement.reliable_keyframes,
        reliable_keyframe_barrier: stream.agreement.reliable_keyframe_barrier,
        video_reassembly_drops: metrics.video_reassembly_drops,
        video_reassembly_expired: metrics.video_reassembly_expired,
        video_reassembly_evicted: metrics.video_reassembly_evicted,
        video_reassembly_obsolete: metrics.video_reassembly_obsolete,
        video_reassembly_pre_keyframe: metrics.video_reassembly_pre_keyframe,
        video_reassembly_expired_keyframes: metrics.video_reassembly_expired_keyframes,
        video_reassembly_missing_fragments: metrics.video_reassembly_missing_fragments,
        video_reassembly_last_us: metrics.video_reassembly_last_us,
        video_reassembly_max_us: metrics.video_reassembly_max_us,
        video_reassembly_max_gap_us: metrics.video_reassembly_max_gap_us,
        video_reassembly_last_frame_bytes: metrics.video_reassembly_last_frame_bytes,
        video_reassembly_last_frame_fragments: metrics.video_reassembly_last_frame_fragments,
        video_keyframe_requests: metrics.video_keyframe_requests,
        reliable_keyframes_sent: metrics.reliable_keyframes_sent,
        reliable_keyframe_last_bytes: metrics.reliable_keyframe_last_bytes,
        reliable_keyframe_last_mark: keyframe_mark(metrics.reliable_keyframe_last_state, now),
        reliable_keyframes_received: metrics.reliable_keyframes_received,
        video_source_frame_gaps: metrics.video_source_frame_gaps,
        video_recovery_suppressed_frames: metrics.video_recovery_suppressed_frames,
        video_sender_replacements: metrics.video_sender_replacements,
        video_sender_reference_resets: metrics.video_sender_reference_resets,
        video_keyframe_barrier_held: metrics.video_keyframe_barrier_held,
        video_keyframe_barrier_released: metrics.video_keyframe_barrier_released,
        video_keyframe_barrier_timeouts: metrics.video_keyframe_barrier_timeouts,
        video_keyframe_barrier_overflows: metrics.video_keyframe_barrier_overflows,
        video_keyframe_barrier_gap_events: metrics.video_keyframe_barrier_gap_events,
        video_keyframe_barrier_gap_skipped_frames: metrics.video_keyframe_barrier_gap_skipped_frames,
        video_datagram_frames_sent: sent.video_frames_sent,
        video_datagram_frames_rejected: sent.video_frames_rejected,
        video_datagram_frames_rejected_teardown: rejected_in_teardown(metrics, sent),
        video_datagram_frames_rejected_active: (sent.video_frames_rejected - rejected_in_teardown(metrics, sent)) as u64,
        video_frames_discarded_teardown: metrics.video_frames_discarded_teardown,
        video_datagrams_sent: sent.video_datagrams_sent,
        video_datagram_frame_bytes: sent.video_frame_bytes,
        video_datagram_frame_bytes_peak: sent.video_frame_bytes_peak,
        video_datagram_frame_fragments: sent.video_frame_fragments,
        video_datagram_frame_fragments_peak: sent.video_frame_fragments_peak,
        video_datagram_frame_bytes_p95: sent.video_frame_datagram_bytes_p95,
        video_datagram_frame_bytes_p99: sent.video_frame_datagram_bytes_p99,
        video_datagram_required_bytes_p95: sent.video_frame_required_bytes_p95,
        video_datagram_required_bytes_p99: sent.video_frame_required_bytes_p99,
        datagram_send_buffer_space: sent.send_buffer_space,
        datagram_send_buffer_space_min: sent.send_buffer_space_min,
        datagram_send_buffer_queued: sent.send_buffer_queued,
        video_datagram_queue_budget: sent.video_queue_budget,
        video_datagram_queue_delay_us: sent.video_queue_delay_us,
        video_datagram_queue_target_us: sent.video_queue_target_us,
        audio_datagram_drops: sent.audio_packets_dropped,
        mouse_datagram_drops: sent.mouse_updates_dropped,
    }
}

impl QuicApplicationStream {
    /// Why a control message whose sending is to be confirmed is refused; none if it is not.
    pub open spec fn control_write_fault(self, parsed: Result<Message, String>, close_reason: Option<String>) -> Option<
        ControlWriteFault,
    > {
        if self.closing {
            Some(ControlWriteFault::Closing)
        } else {
            match (close_reason, parsed) {
                (Some(reason), _) => Some(ControlWriteFault::Closed { reason: reason@ }),
                (None, parsed) => if self.raw_mode {
                    Some(ControlWriteFault::RawMode)
                } else {
                    match parsed {
                        Err(detail) => Some(ControlWriteFault::Unreadable { detail: detail@ }),
                        Ok(message) => match message_class(message) {
                            None => Some(ControlWriteFault::Empty),
                            Some(class) => if class is Control {
                                None
                            } else {
                                Some(ControlWriteFault::NoControlMessage)
                            },
                        },
                    }
                },
            }
        }
    }

    /// Refuses a message whose sending is to be confirmed, unless it is a control message and the
    /// session can still send it.
    pub fn check_control_write(&self, parsed: &Result<Message, String>, close_reason: Option<String>) -> (result: Result<
        (),
        EnqueueError,
    >)
        ensures
            match (self.control_write_fault(*parsed, close_reason), result) {
                (None, Ok(_)) => true,
                (Some(fault), Err(error)) => is_control_write_error(error, fault),
                _ => false,
            },
    {
        if self.closing {
            return Err(EnqueueError::BrokenPipe("QUIC application is closing".to_owned()));
        }
        if let Some(reason) = close_reason {
            return Err(
                EnqueueError::BrokenPipe(joined("QUIC application connection closed: ", reason.as_str(), "")),
            );
        }
        if self.raw_mode {
            return Err(
                EnqueueError::InvalidInput("confirmed QUIC control writes are unavailable in raw mode".to_owned()),
            );
        }
        let message = match parsed {
            Ok(message) => message,
            Err(detail) => {
                return Err(EnqueueError::InvalidData(detail.as_str().to_owned()));
            },
        };
        match classify_message(message) {
            Ok(ApplicationClass::Control) => Ok(()),
            Ok(_) => Err(
                EnqueueError::InvalidInput("confirmed QUIC write requires an application control message".to_owned()),
            ),
            Err(error) => Err(EnqueueError::Transport(error)),
        }
    }

    /// What the session shows of itself.
    pub fn stats(&self, now: Timestamp) -> (stats: QuicConnectionStats)
        ensures
            stats == stats_of(*self, now),
    {
        let metrics = self.metrics;
        let sent = self.datagram_send.stats();
        let rejected_teardown: u64 = if metrics.video_datagram_frames_rejected_teardown < sent.video_frames_rejected {
            metrics.video_datagram_frames_rejected_teardown
        } else {
            sent.video_frames_rejected
        };
        let reliable_keyframe_last_mark = match metrics.reliable_keyframe_last_state {
            Some(state) => Some(
                ReliableKeyframeMark {
                    display: state.display,
                    stream_id: state.stream_id,
                    barrier_epoch: state.barrier_epoch,
                    age_us: now.since(state.sent_at) / 1_000,
                },
            ),
            None => None,
        };
        QuicConnectionStats {
            application_protocol: self.application_protocol.number(),
            negotiated_datagram_size: Some(self.agreement.max_datagram_payload as usize),
            reliable_keyframes: self.agreement.reliable_keyframes,
            reliable_keyframe_barrier: self.agreement.reliable_keyframe_barrier,
            video_reassembly_drops: metrics.video_reassembly_drops,
            video_reassembly_expired: metrics.video_reassembly_expired,
            video_reassembly_evicted: metrics.video_reassembly_evicted,
            video_reassembly_obsolete: metrics.video_reassembly_obsolete,
            video_reassembly_pre_keyframe: metrics.video_reassembly_pre_keyframe,
            video_reassembly_expired_keyframes: metrics.video_reassembly_expired_keyframes,
            video_reassembly_missing_fragments: metrics.video_reassembly_missing_fragments,
            video_reassembly_last_us: metrics.video_reassembly_last_us,
            video_reassembly_max_us: metrics.video_reassembly_max_us,
            video_reassembly_max_gap_us: metrics.video_reassembly_max_gap_us,
            video_reassembly_last_frame_bytes: metrics.video_reassembly_last_frame_bytes,
            video_reassembly_last_frame_fragments: metrics.video_reassembly_last_frame_fragments,
            video_keyframe_requests: metrics.video_keyframe_requests,
            reliable_keyframes_sent: metrics.reliable_keyframes_sent,
            reliable_keyframe_last_bytes: metrics.reliable_keyframe_last_bytes,
            reliable_keyframe_last_mark,
            reliable_keyframes_received: metrics.reliable_keyframes_received,
            video_source_frame_gaps: metrics.video_source_frame_gaps,
            video_recovery_suppressed_frames: metrics.video_recovery_suppressed_frames,
            video_sender_replacements: metrics.video_sender_replacements,
            video_sender_reference_resets: metrics.video_sender_reference_resets,
            video_keyframe_barrier_held: metrics.video_keyframe_barrier_held,
            video_keyframe_barrier_released: metrics.video_keyframe_barrier_released,
            video_keyframe_barrier_timeouts: metrics.video_keyframe_barrier_timeouts,
            video_keyframe_barrier_overflows: metrics.video_keyframe_barrier_overflows,
            video_keyframe_barrier_gap_events: metrics.video_keyframe_barrier_gap_events,
            video_keyframe_barrier_gap_skipped_frames: metrics.video_keyframe_barrier_gap_skipped_frames,
            video_datagram_frames_sent: sent.video_frames_sent,
            video_datagram_frames_rejected: sent.video_frames_rejected,
            video_datagram_frames_rejected_teardown: rejected_teardown,
            video_datagram_frames_rejected_active: sent.video_frames_rejected - rejected_teardown,
            video_frames_discarded_teardown: metrics.video_frames_discarded_teardown,
            video_datagrams_sent: sent.video_datagrams_sent,
            video_datagram_frame_bytes: sent.video_frame_bytes,
            video_datagram_frame_bytes_peak: sent.video_frame_bytes_peak,
            video_datagram_frame_fragments: sent.video_frame_fragments,
            video_datagram_frame_fragments_peak: sent.video_frame_fragments_peak,
            video_datagram_frame_bytes_p95: sent.video_frame_datagram_bytes_p95,
            video_datagram_frame_bytes_p99: sent.video_frame_datagram_bytes_p99,
            video_datagram_required_bytes_p95: sent.video_frame_required_bytes_p95,
            video_datagram_required_bytes_p99: sent.video_frame_required_bytes_p99,
            datagram_send_buffer_space: sent.send_buffer_space,
            datagram_send_buffer_space_min: sent.send_buffer_space_min,
            datagram_send_buffer_queued: sent.send_buffer_queued,
            video_datagram_queue_budget: sent.video_queue_budget,
            video_datagram_queue_delay_us: sent.video_queue_delay_us,
            video_datagram_queue_target_us: sent.video_queue_target_us,
            audio_datagram_drops: sent.audio_packets_dropped,
            mouse_datagram_drops: sent.mouse_updates_dropped,
        }
    }

    /// From now on video may wait this long and fill at least this much of the send queue.
    pub fn set_video_datagram_queue_policy(&mut self, target: Duration, minimum_bytes: usize)
        ensures
            *final(self) == (QuicApplicationStream {
                datagram_send: QuicDatagramSendCoordinator {
                    video_queue_target_us: target_us(duration_nanos(target)),
                    min_video_queue_bytes: minimum_bytes as u64,
                    ..old(self).datagram_send
                },
                ..*old(self)
            }),
    {
        self.datagram_send.set_video_queue_policy(target, minimum_bytes);
    }

    /// From now on messages go out as they are.
    pub fn set_raw(&mut self)
        ensures
            *final(self) == (QuicApplicationStream { raw_mode: true, ..*old(self) }),
    {
        self.raw_mode = true;
    }

    /// Begins to tear the session down. Says whether the connection is to be closed, which is so only
    /// the first time.
    pub fn begin_teardown(&mut self) -> (first: bool)
        ensures
            first == !old(self).closing,
            *final(self) == (QuicApplicationStream { closing: true, ..*old(self) }),
    {
        let first = !self.closing;
        self.closing = true;
        first
    }
}

/// Once a session is being torn down a message is dropped without an error, and nothing but the count
/// of dropped video frames changes.
pub proof fn late_messages_change_nothing(
    before: QuicApplicationStream,
    after: QuicApplicationStream,
    latest_key: Option<u64>,
    payload: Bytes,
    parsed: Result<Message, String>,
    close_reason: Option<String>,
    max_datagram_size: Option<usize>,
    result: Result<(), EnqueueError>,
)
    requires
        before.closing,
        enqueued(before, after, latest_key, payload, parsed, close_reason, max_datagram_size, result),
    ensures
        result is Ok,
        after == (QuicApplicationStream {
            metrics: QuicApplicationMetrics {
                video_frames_discarded_teardown: after.metrics.video_frames_discarded_teardown,
                ..before.metrics
            },
            ..before
        }),
{
}

/// Whatever message comes, a session goes on sending through the queues that it was set up with.
pub proof fn session_keeps_its_queues(
    queues: ApplicationQueues,
    before: QuicApplicationStream,
    after: QuicApplicationStream,
    latest_key: Option<u64>,
    payload: Bytes,
    parsed: Result<Message, String>,
    close_reason: Option<String>,
    max_datagram_size: Option<usize>,
    result: Result<(), EnqueueError>,
)
    requires
        before.sends_through(queues),
        enqueued(before, after, latest_key, payload, parsed, close_reason, max_datagram_size, result),
    ensures
        after.sends_through(queues),
{
}

/// A video frame that follows a display switch does not go out before the peer has acknowledged the
/// switch: until then the writer waits.
pub proof fn video_does_not_overtake_a_display_switch(
    before: QuicApplicationStream,
    switched: QuicApplicationStream,
    switch_payload: Bytes,
    result: Result<(), EnqueueError>,
    latest_key: Option<u64>,
    metadata: VideoFrameMetadata,
    source_info: Option<VideoSourceInfo>,
    payload: Bytes,
)
    requires
        before.wf(),
        ordered_enqueued(before, switched, switch_payload, result),
        result is Ok,
    ensures
        ({
            let item = video_item(switched, latest_key, metadata, source_info, payload);
            &&& !switched.video_ordering.opens(item.ordering_epoch)
            &&& write_step(item, false, switched.video_ordering) is Wait
        }),
{
}

/// A display switch that cannot be sent holds no frame up.
pub proof fn unsent_display_switch_holds_nothing_up(
    before: QuicApplicationStream,
    after: QuicApplicationStream,
    payload: Bytes,
    result: Result<(), EnqueueError>,
)
    requires
        ordered_enqueued(before, after, payload, result),
        result is Err,
        before.video_ordering.opens(before.video_ordering.requested()),
    ensures
        after.video_ordering.opens(after.video_ordering.requested()),
{
}

/// Every frame that was refused was refused either while the session was torn down or before.
pub proof fn rejected_frames_are_told_apart(stream: QuicApplicationStream, now: Timestamp)
    ensures
        ({
            let stats = stats_of(stream, now);
            stats.video_datagram_frames_rejected_active + stats.video_datagram_frames_rejected_teardown
                == stats.video_datagram_frames_rejected
        }),
{
}

/// One more message was handed to a queue, under this type and to be sent as it is. The result says what became of
/// it: it was taken, or the queue was full, or nobody reads it any more.
pub open spec fn is_handed_over(
    before: Outbox<ReliableOutbound>,
    after: Outbox<ReliableOutbound>,
    message_type: MessageType,
    payload: Bytes,
    result: Result<(), EnqueueError>,
) -> bool {
    let attempts = after.attempts();
    &&& after.queue() == before.queue()
    &&& attempts.len() == before.attempts().len() + 1
    &&& attempts.drop_last() == before.attempts()
    &&& attempts.last().0.message_type == message_type
    &&& attempts.last().0.payload == OutboundPayload::Encoded(payload)
    &&& attempts.last().0.completion is None
    &&& attempts.last().1 is Sent <==> result is Ok
    &&& attempts.last().1 is Full <==> (result matches Err(EnqueueError::WouldBlock(_)))
    &&& attempts.last().1 is Closed <==> (result matches Err(EnqueueError::BrokenPipe(_)))
}

/// Every mouse event that is no movement, releases and turns of the wheel among them, and every key and pointer
/// event is handed to the queue of input, which loses nothing and keeps the order. No other queue is touched, and
/// no movement that waits is replaced.
pub proof fn input_is_handed_to_the_reliable_queue(
    before: QuicApplicationStream,
    after: QuicApplicationStream,
    latest_key: Option<u64>,
    payload: Bytes,
    message: Message,
    max_datagram_size: Option<usize>,
    result: Result<(), EnqueueError>,
)
    requires
        !before.closing,
        !before.raw_mode,
        enqueued(before, after, latest_key, payload, Ok(message), None, max_datagram_size, result),
        ({
            ||| (message.union matches Some(MessageUnion::MouseEvent(event)) && event.mask % 8 != 0 && event.mask % 8 != 5)
            ||| (message.union matches Some(MessageUnion::KeyEvent))
            ||| (message.union matches Some(MessageUnion::KeyboardInput(_)))
            ||| (message.union matches Some(MessageUnion::PointerDeviceEvent))
        }),
    ensures
        after == (QuicApplicationStream { input: after.input, ..before }),
        after.latest_mouse == before.latest_mouse,
        after.input.queue() == before.input.queue(),
        after.input.attempts().len() == before.input.attempts().len() + 1,
        after.input.attempts().drop_last() == before.input.attempts(),
        after.input.attempts().last().0.message_type is ReliableInput,
        after.input.attempts().last().0.payload == OutboundPayload::Encoded(payload),
        after.input.attempts().last().0.completion is None,
        after.input.attempts().last().1 is Sent <==> result is Ok,
{
    if let Some(MessageUnion::MouseEvent(event)) = message.union {
        only_movements_travel_as_movements(message, event);
    } else {
        messages_travel_with_their_kind(message);
    }
}

/// A movement of the mouse waits for the next datagram with its place, its mode and the buttons that are down, in
/// place of the one that waited before. No queue is touched.
pub proof fn movements_wait_for_a_datagram(
    before: QuicApplicationStream,
    after: QuicApplicationStream,
    latest_key: Option<u64>,
    payload: Bytes,
    message: Message,
    event: MouseEvent,
    max_datagram_size: Option<usize>,
    result: Result<(), EnqueueError>,
)
    requires
        !before.closing,
        !before.raw_mode,
        enqueued(before, after, latest_key, payload, Ok(message), None, max_datagram_size, result),
        message.union == Some(MessageUnion::MouseEvent(event)),
        event.mask % 8 == 0 || event.mask % 8 == 5,
    ensures
        result is Ok,
        after == (QuicApplicationStream { latest_mouse: after.latest_mouse, ..before }),
        after.latest_mouse.pending() matches Some(movement) && {
            &&& movement.mode is Absolute <==> event.mask % 8 == 0
            &&& movement.x == event.x
            &&& movement.y == event.y
            &&& movement.button_state_mask == (event.mask as int / 8) % 32
            &&& movement.payload == payload
        },
        before.latest_mouse.pending() is None ==> after.latest_mouse.replacement_count()
            == before.latest_mouse.replacement_count(),
        before.latest_mouse.pending() is Some && before.latest_mouse.replacement_count() < u64::MAX
            ==> after.latest_mouse.replacement_count() == before.latest_mouse.replacement_count() + 1,
{
    only_movements_travel_as_movements(message, event);
}

/// What is copied is handed to the queue of the clipboard, files to that of files, delay tests and feedback to that
/// of diagnostics, and everything else that is neither picture nor sound nor input to that of control. Only a
/// message with an audio format is looked into on the way: the format counts from then on.
pub proof fn messages_are_handed_to_the_queue_of_their_kind(
    before: QuicApplicationStream,
    after: QuicApplicationStream,
    latest_key: Option<u64>,
    payload: Bytes,
    message: Message,
    max_datagram_size: Option<usize>,
    result: Result<(), EnqueueError>,
)
    requires
        !before.closing,
        !before.raw_mode,
        enqueued(before, after, latest_key, payload, Ok(message), None, max_datagram_size, result),
    ensures
        match message.union {
            Some(MessageUnion::Clipboard) | Some(MessageUnion::MultiClipboards) | Some(MessageUnion::Cliprdr) => {
                &&& after == (QuicApplicationStream { clipboard: after.clipboard, ..before })
                &&& is_handed_over(before.clipboard, after.clipboard, MessageType::Clipboard, payload, result)
            },
            Some(MessageUnion::FileAction) | Some(MessageUnion::FileResponse) => {
                &&& after == (QuicApplicationStream { file: after.file, ..before })
                &&& is_handed_over(before.file, after.file, MessageType::FileChunk, payload, result)
            },
            Some(MessageUnion::TestDelay) => {
                &&& after == (QuicApplicationStream { diagnostics: after.diagnostics, ..before })
                &&& is_handed_over(before.diagnostics, after.diagnostics, MessageType::Diagnostics, payload, result)
            },
            None | Some(MessageUnion::Other) => {
                &&& after == (QuicApplicationStream { control: after.control, ..before })
                &&& is_handed_over(before.control, after.control, MessageType::ApplicationControl, payload, result)
            },
            Some(MessageUnion::Misc(misc)) => match misc.union {
                Some(MiscUnion::VideoFeedback) => {
                    &&& after == (QuicApplicationStream { diagnostics: after.diagnostics, ..before })
                    &&& is_handed_over(before.diagnostics, after.diagnostics, MessageType::Diagnostics, payload, result)
                },
                Some(MiscUnion::AudioFormat(format)) => {
                    &&& after == (QuicApplicationStream {
                        control: after.control,
                        audio_format: packed_format(format),
                        ..before
                    })
                    &&& is_handed_over(before.control, after.control, MessageType::ApplicationControl, payload, result)
                },
                Some(MiscUnion::SwitchDisplay) => after.audio_format == before.audio_format,
                _ => {
                    &&& after == (QuicApplicationStream { control: after.control, ..before })
                    &&& is_handed_over(before.control, after.control, MessageType::ApplicationControl, payload, result)
                },
            },
            _ => after.audio_format == before.audio_format,
        },
{
    if !(message.union matches Some(MessageUnion::VideoFrame(_))) {
        messages_travel_with_their_kind(message);
    }
}

/// In raw mode every message is handed to the queue of control as it is, whatever it can be read as.
pub proof fn raw_messages_are_handed_to_control(
    before: QuicApplicationStream,
    after: QuicApplicationStream,
    latest_key: Option<u64>,
    payload: Bytes,
    parsed: Result<Message, String>,
    max_datagram_size: Option<usize>,
    result: Result<(), EnqueueError>,
)
    requires
        !before.closing,
        before.raw_mode,
        enqueued(before, after, latest_key, payload, parsed, None, max_datagram_size, result),
    ensures
        after == (QuicApplicationStream { control: after.control, ..before }),
        is_handed_over(before.control, after.control, MessageType::ApplicationRaw, payload, result),
{
}

/// A message that cannot be sent is refused and changes nothing: the connection is closed, or the message cannot be
/// read and would have to be, or it is a video frame without content.
pub proof fn refused_messages_change_nothing(
    before: QuicApplicationStream,
    after: QuicApplicationStream,
    latest_key: Option<u64>,
    payload: Bytes,
    parsed: Result<Message, String>,
    close_reason: Option<String>,
    max_datagram_size: Option<usize>,
    result: Result<(), EnqueueError>,
)
    requires
        !before.closing,
        enqueued(before, after, latest_key, payload, parsed, close_reason, max_datagram_size, result),
    ensures
        close_reason matches Some(reason) ==> after == before && (result matches Err(EnqueueError::BrokenPipe(text))
            && text@ == "QUIC application connection closed: "@ + reason@ + ""@),
        close_reason is None && !before.raw_mode ==> match parsed {
            Err(detail) => after == before && (result matches Err(EnqueueError::InvalidData(text)) && text@ == detail@),
            Ok(message) => match message.union {
                Some(MessageUnion::VideoFrame(frame)) => frame.union is None ==> after == before && (result matches Err(
                    EnqueueError::Transport(_),
                )),
                _ => true,
            },
        },
{
    if let Ok(message) = parsed {
        if let Some(MessageUnion::VideoFrame(frame)) = message.union {
            video_frames_travel_as_video(message, frame);
        }
    }
}

/// A display switch is handed to the queue of control behind a new number, one above the last. Frames wait for it
/// if and only if the queue took it.
pub proof fn display_switches_are_numbered(
    before: QuicApplicationStream,
    after: QuicApplicationStream,
    latest_key: Option<u64>,
    payload: Bytes,
    message: Message,
    max_datagram_size: Option<usize>,
    result: Result<(), EnqueueError>,
)
    requires
        before.wf(),
        !before.closing,
        !before.raw_mode,
        before.video_ordering.requested() < u64::MAX,
        misc_part(message) == Some(MiscUnion::SwitchDisplay),
        enqueued(before, after, latest_key, payload, Ok(message), None, max_datagram_size, result),
    ensures
        ({
            let attempts = after.control.attempts();
            let epoch = after.video_ordering.requested();
            &&& after == (QuicApplicationStream {
                control: after.control,
                video_ordering: after.video_ordering,
                ..before
            })
            &&& epoch == before.video_ordering.requested() + 1
            &&& attempts.len() == before.control.attempts().len() + 1
            &&& attempts.drop_last() == before.control.attempts()
            &&& attempts.last().0.message_type is VideoOrdering
            &&& attempts.last().0.completion is None
            &&& attempts.last().0.payload matches OutboundPayload::Encoded(bytes) && bytes_view(bytes).len() == 8
                + bytes_view(payload).len() && bytes_view(bytes).skip(8) == bytes_view(payload)
                && super::classify::payload_epoch(bytes_view(bytes)) == Some(epoch)
            &&& attempts.last().1 is Sent <==> result is Ok
            &&& result is Ok ==> after.video_ordering.acknowledged() < epoch
            &&& result is Ok ==> after.video_ordering.acknowledged() == before.video_ordering.acknowledged()
            &&& result is Err ==> after.video_ordering.acknowledged() == epoch
        }),
{
    let epoch = after.video_ordering.requested();
    super::classify::ordered_payload_survives(epoch, bytes_view(payload));
    super::classify::epoch_survives_its_bytes(epoch);
    assert((epoch_bytes(epoch) + bytes_view(payload)).skip(8) =~= bytes_view(payload));
}

/// Sound whose format is known is handed to the queue of sound with that format if it leaves eighty bytes of a
/// datagram free, and dropped otherwise. Without a word from the connection a datagram holds twelve hundred bytes,
/// and never more than was agreed. Sound whose format is not known goes the way of control messages. A full queue
/// is no error.
pub proof fn sound_is_sent_as_far_as_it_fits(
    before: QuicApplicationStream,
    after: QuicApplicationStream,
    latest_key: Option<u64>,
    payload: Bytes,
    message: Message,
    max_datagram_size: Option<usize>,
    result: Result<(), EnqueueError>,
)
    requires
        !before.closing,
        !before.raw_mode,
        message.union matches Some(MessageUnion::AudioFrame),
        enqueued(before, after, latest_key, payload, Ok(message), None, max_datagram_size, result),
    ensures
        ({
            let limit = match max_datagram_size {
                Some(size) => size as int,
                None => 1_200int,
            };
            let needed = bytes_view(payload).len() + 80;
            let fits = needed <= limit && needed <= before.agreement.max_datagram_payload;
            &&& before.audio_format == 0 ==> after == (QuicApplicationStream { control: after.control, ..before })
                && is_handed_over(before.control, after.control, MessageType::ApplicationControl, payload, result)
            &&& before.audio_format != 0 && !fits ==> after == before && result is Ok
            &&& before.audio_format != 0 && fits ==> {
                let attempts = after.audio.attempts();
                &&& after == (QuicApplicationStream { audio: after.audio, ..before })
                &&& attempts.len() == before.audio.attempts().len() + 1
                &&& attempts.drop_last() == before.audio.attempts()
                &&& attempts.last().0.payload == payload
                &&& attempts.last().0.sample_rate_hz == before.audio_format % 0x1_0000_0000
                &&& attempts.last().0.channels == (before.audio_format / 0x1_0000_0000) % 0x100
                &&& attempts.last().1 is Closed <==> result is Err
            }
        }),
{
}

/// A video frame with content is given the next number. A keyframe, and a delta of a track that does not wait for a
/// keyframe, is offered to the slot of its track; a delta of a track that waits is dropped. Frames of other tracks
/// stay as they are, and so does every queue.
pub proof fn frames_wait_in_the_slot_of_their_track(
    before: QuicApplicationStream,
    after: QuicApplicationStream,
    latest_key: Option<u64>,
    payload: Bytes,
    message: Message,
    frame: VideoFrame,
    max_datagram_size: Option<usize>,
    result: Result<(), EnqueueError>,
    other: VideoOutboundTrackKey,
)
    requires
        !before.closing,
        !before.raw_mode,
        before.next_transport_frame_id < u64::MAX,
        message.union == Some(MessageUnion::VideoFrame(frame)),
        frame.union is Some,
        enqueued(before, after, latest_key, payload, Ok(message), None, max_datagram_size, result),
    ensures
        ({
            let metadata = message_class(message)->0->Video_0;
            let track = VideoOutboundTrackKey::spec_resolve(latest_key, payload_source(Ok(message)));
            let waiting = before.latest_video.waiting();
            let now = after.latest_video.waiting();
            let number = before.next_transport_frame_id;
            let keyframe = metadata.flags % 2 == 1;
            let dropped = !keyframe && before.video_send_recovery@.tracks.contains_key(track)
                && before.video_send_recovery@.tracks[track].awaiting_keyframe;
            let pushed_aside = waiting.contains_key(track) && waiting[track].ordering_epoch
                == before.video_ordering.requested() && waiting[track].metadata.flags % 2 == 1 && !keyframe;
            let newer_waits = waiting.contains_key(track) && waiting[track].ordering_epoch
                > before.video_ordering.requested();
            let no_room = !waiting.contains_key(track) && waiting.dom().len() >= before.latest_video.room();
            &&& result is Ok
            &&& after.next_transport_frame_id == number + 1
            &&& after.video_send_recovery.scoped() == before.video_send_recovery.scoped()
            &&& after == (QuicApplicationStream {
                next_transport_frame_id: after.next_transport_frame_id,
                latest_video: after.latest_video,
                video_send_recovery: after.video_send_recovery,
                metrics: after.metrics,
                ..before
            })
            &&& other != track ==> now.contains_key(other) == waiting.contains_key(other)
            &&& other != track && waiting.contains_key(other) ==> now[other] == waiting[other]
            &&& dropped || pushed_aside || newer_waits || no_room ==> now == waiting
            &&& !dropped && !pushed_aside && !newer_waits && !no_room ==> {
                &&& now.contains_key(track)
                &&& now[track].track_key == track
                &&& now[track].metadata.frame_id == number
                &&& now[track].metadata.flags == metadata.flags
                &&& now[track].metadata.codec == metadata.codec
                &&& now[track].metadata.presentation_timestamp_us == metadata.presentation_timestamp_us
                &&& now[track].source_info == payload_source(Ok(message))
                &&& now[track].payload == payload
                &&& now[track].ordering_epoch == before.video_ordering.requested()
            }
        }),
{
    video_frames_travel_as_video(message, frame);
    let metadata = message_class(message)->0->Video_0;
    let track = VideoOutboundTrackKey::spec_resolve(latest_key, payload_source(Ok(message)));
    keyframes_have_odd_flags(metadata);
    keyframes_have_odd_flags(VideoFrameMetadata { frame_id: before.next_transport_frame_id, ..metadata });
    if before.latest_video.waiting().contains_key(track) {
        keyframes_have_odd_flags(before.latest_video.waiting()[track].metadata);
    }
}

/// A frame that is not taken into the slot of its track makes the track wait for a keyframe, and so does a delta
/// that takes the place of another frame; the deltas behind it would refer to a picture that was never sent. A frame
/// that is simply taken, and a keyframe that takes the place of another frame, make no track wait.
pub proof fn frames_that_go_missing_break_their_track(
    before: QuicApplicationStream,
    after: QuicApplicationStream,
    item: VideoOutbound,
)
    requires
        before.wf(),
        video_enqueued(before, after, item),
        !before.video_send_recovery@.tracks.contains_key(item.track_key),
        before.video_send_recovery@.tracks.dom().len() < 16,
    ensures
        ({
            let waiting = before.latest_video.waiting();
            let taken = after.latest_video.waiting().contains_key(item.track_key)
                && after.latest_video.waiting()[item.track_key] == item;
            let keyframe = item.metadata.flags % 2 == 1;
            let waits = after.video_send_recovery@.tracks.contains_key(item.track_key);
            &&& !waiting.contains_key(item.track_key) ==> (waits <==> !taken)
            &&& waiting.contains_key(item.track_key) && waiting[item.track_key] != item ==> (waits <==> (!taken
                || !keyframe))
            &&& waits ==> after.video_send_recovery@.tracks[item.track_key].minimum_keyframe_id >= item.metadata.frame_id
            &&& before.metrics.video_sender_reference_resets < u64::MAX ==> (waits
                <==> after.metrics.video_sender_reference_resets == before.metrics.video_sender_reference_resets + 1)
            &&& !waits ==> after.video_send_recovery.asked() == before.video_send_recovery.asked()
        }),
{
    keyframes_have_odd_flags(item.metadata);
    if before.latest_video.waiting().contains_key(item.track_key) {
        keyframes_have_odd_flags(before.latest_video.waiting()[item.track_key].metadata);
    }
}

/// Only a control message can be confirmed, and only while the session goes on, the connection is open and messages
/// are looked into.
pub proof fn only_control_messages_are_confirmed(
    stream: QuicApplicationStream,
    parsed: Result<Message, String>,
    close_reason: Option<String>,
)
    ensures
        stream.control_write_fault(parsed, close_reason) is None <==> {
            &&& !stream.closing
            &&& close_reason is None
            &&& !stream.raw_mode
            &&& parsed matches Ok(message) && match message.union {
                None | Some(MessageUnion::Other) => true,
                Some(MessageUnion::Misc(misc)) => misc.union != Some(MiscUnion::VideoFeedback),
                _ => false,
            }
        },
        stream.closing ==> stream.control_write_fault(parsed, close_reason) == Some(ControlWriteFault::Closing),
        !stream.closing ==> (close_reason matches Some(reason) ==> stream.control_write_fault(parsed, close_reason)
            == Some(ControlWriteFault::Closed { reason: reason@ })),
        !stream.closing && close_reason is None && stream.raw_mode ==> stream.control_write_fault(parsed, close_reason)
            == Some(ControlWriteFault::RawMode),
{
    if let Ok(message) = parsed {
        if let Some(MessageUnion::VideoFrame(frame)) = message.union {
            video_frames_travel_as_video(message, frame);
        } else {
            messages_travel_with_their_kind(message);
            if let Some(MessageUnion::MouseEvent(event)) = message.union {
                only_movements_travel_as_movements(message, event);
            }
        }
    }
}

/// The age of the last reliable keyframe is told in whole microseconds since it went out.
pub proof fn keyframes_grow_older(state: ReliableKeyframeState, now: Timestamp)
    requires
        state.sent_at.nanos <= now.nanos,
    ensures
        keyframe_mark(None, now) is None,
        keyframe_mark(Some(state), now) matches Some(mark) && {
            &&& mark.display == state.display
            &&& mark.stream_id == state.stream_id
            &&& mark.barrier_epoch == state.barrier_epoch
            &&& mark.age_us * 1_000 <= now.nanos - state.sent_at.nanos < (mark.age_us + 1) * 1_000
        },
{
}

/// A session has a channel for keyframes if and only if they travel reliably. Exactly then frames are put together
/// from the first one on, for the first keyframe comes by the other way. The first two protocols ask for every
/// stream at once, the later ones for one.
pub proof fn sessions_are_set_up_as_agreed(
    plan: SessionPlan,
    agreement: SessionAgreement,
    application_protocol: QuicApplicationProtocol,
)
    requires
        is_session_plan(plan, agreement, application_protocol),
    ensures
        plan.channels@.contains(ReliableChannelKind::Video) <==> agreement.reliable_keyframes,
        plan.channels@.contains(ReliableChannelKind::Video) <==> !plan.require_initial_keyframe,
        plan.channels@.contains(ReliableChannelKind::Control),
        plan.channels@.contains(ReliableChannelKind::Input),
        plan.scoped_reference_refresh <==> !(application_protocol.spec_number() == 1
            || application_protocol.spec_number() == 2),
        plan.keyframe_barrier <==> agreement.reliable_keyframe_barrier,
        plan.datagram_size == agreement.max_datagram_payload,
{
    let kinds = plan.channels@;
    assert(kinds[0] is Control && kinds[1] is Input);
    if agreement.reliable_keyframes {
        assert(kinds[5] is Video);
    }
}

/// While a session is torn down, a video frame with content that is dropped is counted, unless messages are not looked
/// into; nothing else is.
pub proof fn late_frames_are_counted(
    before: QuicApplicationStream,
    after: QuicApplicationStream,
    latest_key: Option<u64>,
    payload: Bytes,
    parsed: Result<Message, String>,
    close_reason: Option<String>,
    max_datagram_size: Option<usize>,
    result: Result<(), EnqueueError>,
)
    requires
        before.closing,
        before.metrics.video_frames_discarded_teardown < u64::MAX,
        enqueued(before, after, latest_key, payload, parsed, close_reason, max_datagram_size, result),
    ensures
        ({
            let counts = !before.raw_mode && (parsed matches Ok(message) && (message.union matches Some(
                MessageUnion::VideoFrame(frame),
            ) && frame.union is Some));
            &&& counts ==> after.metrics.video_frames_discarded_teardown
                == before.metrics.video_frames_discarded_teardown + 1
            &&& !counts ==> after == before
        }),
{
    if let Ok(message) = parsed {
        if let Some(MessageUnion::VideoFrame(frame)) = message.union {
            video_frames_travel_as_video(message, frame);
        } else {
            messages_travel_with_their_kind(message);
        }
    }
}

/// Each queue of a session is the one that was given for its purpose.
pub proof fn every_queue_has_its_purpose(stream: QuicApplicationStream, queues: ApplicationQueues)
    ensures
        stream.sends_through(queues) <==> {
            &&& stream.control.queue() == queues.control
            &&& stream.input.queue() == queues.input
            &&& stream.clipboard.queue() == queues.clipboard
            &&& stream.file.queue() == queues.file
            &&& stream.diagnostics.queue() == queues.diagnostics
            &&& stream.audio.queue() == queues.audio
            &&& stream.video_send_recovery.refresh_queue() == queues.video_refresh
        },
{
}

/// Who may try again is told so: a full queue would block, a closed one and a closed connection break the pipe. A
/// message that is not allowed, or cannot be read, is told apart from both.
pub proof fn refused_writes_are_told_why(error: EnqueueError, fault: ControlWriteFault)
    requires
        is_control_write_error(error, fault),
    ensures
        (error matches EnqueueError::BrokenPipe(_)) <==> (fault is Closing || fault is Closed),
        (error matches EnqueueError::InvalidInput(_)) <==> (fault is RawMode || fault is NoControlMessage),
        (error matches EnqueueError::InvalidData(_)) <==> fault is Unreadable,
        (error matches EnqueueError::Transport(_)) <==> fault is Empty,
        error matches EnqueueError::BrokenPipe(text) ==> fault is Closing ==> text@ == "QUIC application is closing"@,
        error matches EnqueueError::InvalidInput(text) ==> text@ == if fault is RawMode {
            "confirmed QUIC control writes are unavailable in raw mode"@
        } else {
            "confirmed QUIC write requires an application control message"@
        },
        error matches EnqueueError::InvalidData(text) ==> text@ == fault->detail,
{
}

/// Of the frames that were refused, those count as refused in the teardown that were counted there, but never more than
/// were refused at all; the others were refused before.
pub proof fn refusals_are_not_counted_twice(stream: QuicApplicationStream, now: Timestamp)
    ensures
        ({
            let stats = stats_of(stream, now);
            let counted = stream.metrics.video_datagram_frames_rejected_teardown;
            let refused = stream.datagram_send.counters.video_frames_rejected;
            &&& stats.video_datagram_frames_rejected == refused
            &&& counted <= refused ==> stats.video_datagram_frames_rejected_teardown == counted
            &&& counted <= refused ==> stats.video_datagram_frames_rejected_active == refused - counted
            &&& counted > refused ==> stats.video_datagram_frames_rejected_teardown == refused
            &&& counted > refused ==> stats.video_datagram_frames_rejected_active == 0
        }),
{
}

} // verus!
