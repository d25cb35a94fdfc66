//! The sender's part of recovery: after a frame was lost on the way out, the deltas of its track
//! are dropped until a newer keyframe went out.

use super::classify::{reference_refresh, refresh_video_message, video_reference_refresh, video_reference_refresh_message};
use super::metrics::{raise, raised, QuicApplicationMetrics};
use super::outbound::VideoOutboundTrackKey;
use super::receive_recovery::MAX_VIDEO_STREAM_STATES;
use crate::message::{misc_message, Message, MiscUnion, VideoReferenceRefresh};
use crate::numbers::{larger_u64, next_u64};
use crate::ordered::{is_least, least_of, lemma_least_exists, lemma_least_of, OrderedKey, OrderedMap};
use crate::outbox::Outbox;
use crate::transport::video::VideoSourceInfo;
use tokio::sync::mpsc;
use vstd::prelude::*;

verus! {

/// A request to the local encoder for a fresh keyframe.
#[derive(Clone, Copy, Debug, PartialEq, Eq, Structural)]
pub enum LocalVideoRefresh {
    /// Of everything.
    Legacy,
    /// Of one stream.
    Reference(VideoReferenceRefresh),
}

/// What the sender knows of a track that lost a frame.
#[derive(Clone, Copy, Debug, PartialEq, Eq, Structural)]
pub struct VideoSendTrackRecoveryState {
    pub awaiting_keyframe: bool,
    /// The keyframe that ends the recovery has a higher number.
    pub minimum_keyframe_id: u64,
    /// When the track was last touched, counted in touches of any track.
    pub last_activity: u64,
}

/// What the sender knows.
#[verifier::ext_equal]
pub struct SendRecoveryModel {
    pub tracks: Map<VideoOutboundTrackKey, VideoSendTrackRecoveryState>,
    pub activity_generation: u64,
}

/// When a track was last touched.
pub open spec fn track_activity() -> spec_fn(VideoSendTrackRecoveryState) -> u64 {
    |track: VideoSendTrackRecoveryState| track.last_activity
}

impl SendRecoveryModel {
    /// Few tracks are remembered, and each of them waits for a keyframe.
    pub open spec fn sound(self) -> bool {
        &&& self.tracks.dom().finite()
        &&& self.tracks.dom().len() <= MAX_VIDEO_STREAM_STATES
        &&& forall|key: VideoOutboundTrackKey| #[trigger] self.tracks.contains_key(key)
            ==> self.tracks[key].awaiting_keyframe
    }

    /// No track was touched before this one; of two touched at once it is the one whose key comes
    /// first.
    pub open spec fn is_oldest(self, key: VideoOutboundTrackKey) -> bool {
        is_least(self.tracks, track_activity(), key)
    }

    /// The track that was not touched for the longest time.
    pub open spec fn oldest(self) -> VideoOutboundTrackKey {
        least_of(self.tracks, track_activity())
    }

    /// The tracks that stay when a track loses a frame: if it is new and there is no room for it,
    /// the oldest one goes.
    pub open spec fn kept_for(self, key: VideoOutboundTrackKey) -> Map<
        VideoOutboundTrackKey,
        VideoSendTrackRecoveryState,
    > {
        if !self.tracks.contains_key(key) && self.tracks.dom().len() >= MAX_VIDEO_STREAM_STATES {
            self.tracks.remove(self.oldest())
        } else {
            self.tracks
        }
    }

    /// The track is not waiting for a keyframe yet.
    pub open spec fn is_first_loss(self, key: VideoOutboundTrackKey) -> bool {
        !(self.tracks.contains_key(key) && self.tracks[key].awaiting_keyframe)
    }

    /// A track loses a frame.
    pub open spec fn lose(self, key: VideoOutboundTrackKey, frame_id: u64) -> SendRecoveryModel {
        let generation = next_u64(self.activity_generation);
        let minimum = if self.tracks.contains_key(key) {
            self.tracks[key].minimum_keyframe_id
        } else {
            0
        };
        SendRecoveryModel {
            tracks: self.kept_for(key).insert(
                key,
                VideoSendTrackRecoveryState {
                    awaiting_keyframe: true,
                    minimum_keyframe_id: larger_u64(minimum, frame_id),
                    last_activity: generation,
                },
            ),
            activity_generation: generation,
        }
    }

    /// Deltas of the track are dropped.
    pub open spec fn suppresses(self, key: VideoOutboundTrackKey) -> bool {
        self.tracks.contains_key(key) && self.tracks[key].awaiting_keyframe
    }

    /// A delta comes on a track.
    pub open spec fn delta(self, key: VideoOutboundTrackKey, frame_id: u64) -> SendRecoveryModel {
        let generation = next_u64(self.activity_generation);
        SendRecoveryModel {
            tracks: if self.tracks.contains_key(key) {
                let track = self.tracks[key];
                self.tracks.insert(
                    key,
                    VideoSendTrackRecoveryState {
                        awaiting_keyframe: track.awaiting_keyframe,
                        minimum_keyframe_id: if track.awaiting_keyframe {
                            larger_u64(track.minimum_keyframe_id, frame_id)
                        } else {
                            track.minimum_keyframe_id
                        },
                        last_activity: generation,
                    },
                )
            } else {
                self.tracks
            },
            activity_generation: generation,
        }
    }

    /// A keyframe went out on a track.
    pub open spec fn keyframe(self, key: VideoOutboundTrackKey, frame_id: u64) -> SendRecoveryModel {
        if self.tracks.contains_key(key) && frame_id > self.tracks[key].minimum_keyframe_id {
            SendRecoveryModel { tracks: self.tracks.remove(key), ..self }
        } else {
            self
        }
    }
}

/// What the local encoder is asked for when a track loses a frame for the first time. Where
/// requests name their stream, a frame that does not tell its stream asks for nothing.
pub open spec fn refresh_for(scoped: bool, source_info: Option<VideoSourceInfo>) -> Option<LocalVideoRefresh> {
    if scoped {
        match source_info {
            Some(info) => match reference_refresh(info, 1, false) {
                Some(refresh) => Some(LocalVideoRefresh::Reference(refresh)),
                None => None,
            },
            None => None,
        }
    } else {
        Some(LocalVideoRefresh::Legacy)
    }
}

/// The message that makes a request to the local encoder.
pub fn local_refresh_message(refresh: LocalVideoRefresh) -> (message: Message)
    ensures
        message == misc_message(
            match refresh {
                LocalVideoRefresh::Legacy => MiscUnion::RefreshVideo(true),
                LocalVideoRefresh::Reference(refresh) => MiscUnion::VideoReferenceRefresh(refresh),
            },
        ),
{
    match refresh {
        LocalVideoRefresh::Legacy => refresh_video_message(),
        LocalVideoRefresh::Reference(refresh) => video_reference_refresh_message(refresh),
    }
}

/// What is handed to the local encoder when a track loses a frame.
pub open spec fn refreshes_for(
    recovery: SendRecoveryModel,
    scoped: bool,
    key: VideoOutboundTrackKey,
    source_info: Option<VideoSourceInfo>,
) -> Seq<LocalVideoRefresh> {
    match refresh_for(scoped, source_info) {
        Some(refresh) => if recovery.is_first_loss(key) {
            seq![refresh]
        } else {
            Seq::empty()
        },
        None => Seq::empty(),
    }
}

/// The sender's part of recovery.
pub struct VideoSendRecovery {
    tracks: OrderedMap<VideoOutboundTrackKey, VideoSendTrackRecoveryState>,
    activity_generation: u64,
    refresh: Outbox<LocalVideoRefresh>,
    scoped_reference_refresh: bool,
}

impl View for VideoSendRecovery {
    type V = SendRecoveryModel;

    closed spec fn view(&self) -> SendRecoveryModel {
        SendRecoveryModel { tracks: self.tracks@, activity_generation: self.activity_generation }
    }
}

impl VideoSendRecovery {
    /// The map stands in the order of its keys, and what it holds is sound.
    pub closed spec fn wf(&self) -> bool {
        &&& self.tracks.wf()
        &&& self@.sound()
    }

    /// What is well formed is sound.
    pub proof fn lemma_wf(&self)
        requires
            self.wf(),
        ensures
            self@.sound(),
    {
    }

    /// The queue on which the local encoder is asked for keyframes.
    pub closed spec fn refresh_queue(&self) -> mpsc::Sender<LocalVideoRefresh> {
        self.refresh.queue()
    }

    /// What was handed to the local encoder.
    pub closed spec fn asked(&self) -> Seq<LocalVideoRefresh> {
        self.refresh.handed()
    }

    /// Requests name their stream.
    pub closed spec fn scoped(&self) -> bool {
        self.scoped_reference_refresh
    }

    /// No frame was lost yet.
    pub fn new(refresh: mpsc::Sender<LocalVideoRefresh>, scoped_reference_refresh: bool) -> (recovery: Self)
        ensures
            recovery.wf(),
            recovery@ == (SendRecoveryModel { tracks: Map::empty(), activity_generation: 0 }),
            recovery.refresh_queue() == refresh,
            recovery.asked() == Seq::<LocalVideoRefresh>::empty(),
            recovery.scoped() == scoped_reference_refresh,
    {
        VideoSendRecovery {
            tracks: OrderedMap::new(),
            activity_generation: 0,
            refresh: Outbox::new(refresh),
            scoped_reference_refresh,
        }
    }

    /// The track that was not touched for the longest time.
    fn oldest_track(&self) -> (oldest: Option<VideoOutboundTrackKey>)
        requires
            self.tracks.wf(),
        ensures
            match oldest {
                Some(key) => self@.is_oldest(key),
                None => self@.tracks.dom().len() == 0,
            },
    {
        let activity = |track: &VideoSendTrackRecoveryState| -> (last: u64)
            ensures
                last == track.last_activity,
        {
            track.last_activity
        };
        self.tracks.least_key(activity, Ghost(track_activity()))
    }

    /// A track lost a frame. The first time a keyframe is asked for.
    pub fn enter(
        &mut self,
        track_key: VideoOutboundTrackKey,
        source_info: Option<VideoSourceInfo>,
        dropped_frame_id: u64,
        metrics: &mut QuicApplicationMetrics,
    )
        requires
            old(self).wf(),
        ensures
            final(self).wf(),
            final(self)@ == old(self)@.lose(track_key, dropped_frame_id),
            final(self).scoped() == old(self).scoped(),
            final(self).refresh_queue() == old(self).refresh_queue(),
            final(self).asked() == old(self).asked() + refreshes_for(
                old(self)@,
                old(self).scoped(),
                track_key,
                source_info,
            ),
            *final(metrics) == (QuicApplicationMetrics {
                video_sender_reference_resets: if old(self)@.is_first_loss(track_key) {
                    raised(old(metrics).video_sender_reference_resets, 1)
                } else {
                    old(metrics).video_sender_reference_resets
                },
                ..*old(metrics)
            }),
    {
        let ghost before = *self;
        proof {
            self.tracks.lemma_keys();
            lemma_lose(self@, track_key, dropped_frame_id);
        }
        self.activity_generation = self.activity_generation.saturating_add(1);
        if !self.tracks.contains_key(&track_key) && self.tracks.len() >= MAX_VIDEO_STREAM_STATES {
            if let Some(oldest) = self.oldest_track() {
                proof {
                    assert(before@.is_oldest(oldest));
                    lemma_least_of(before@.tracks, track_activity(), oldest);
                }
                let _track = self.tracks.remove(&oldest);
            }
        }
        let ghost kept = self.tracks@;
        let activity_generation: u64 = self.activity_generation;
        let mut track = match self.tracks.get(&track_key) {
            Some(track) => *track,
            None => VideoSendTrackRecoveryState {
                awaiting_keyframe: false,
                minimum_keyframe_id: 0,
                last_activity: activity_generation,
            },
        };
        if track.minimum_keyframe_id < dropped_frame_id {
            track.minimum_keyframe_id = dropped_frame_id;
        }
        track.last_activity = activity_generation;
        let first_loss = !track.awaiting_keyframe;
        track.awaiting_keyframe = true;
        self.tracks.insert(track_key, track);
        assert(self@ =~= before@.lose(track_key, dropped_frame_id));
        assert(first_loss == before@.is_first_loss(track_key));
        if first_loss {
            raise(&mut metrics.video_sender_reference_resets, 1);
            if self.scoped_reference_refresh {
                if let Some(info) = source_info {
                    if let Some(refresh) = video_reference_refresh(info, 1, false) {
                        let _outcome = self.refresh.try_send(LocalVideoRefresh::Reference(refresh));
                    }
                }
            } else {
                let _outcome = self.refresh.try_send(LocalVideoRefresh::Legacy);
            }
        }
        assert(self.asked() =~= before.asked() + refreshes_for(before@, before.scoped(), track_key, source_info));
    }

    /// Whether a delta is to be dropped because its track waits for a keyframe.
    pub fn suppress_delta(
        &mut self,
        track_key: VideoOutboundTrackKey,
        frame_id: u64,
        metrics: &mut QuicApplicationMetrics,
    ) -> (suppressed: bool)
        requires
            old(self).wf(),
        ensures
            final(self).wf(),
            suppressed == old(self)@.suppresses(track_key),
            final(self)@ == old(self)@.delta(track_key, frame_id),
            final(self).asked() == old(self).asked(),
            final(self).scoped() == old(self).scoped(),
            final(self).refresh_queue() == old(self).refresh_queue(),
            *final(metrics) == (QuicApplicationMetrics {
                video_recovery_suppressed_frames: if suppressed {
                    raised(old(metrics).video_recovery_suppressed_frames, 1)
                } else {
                    old(metrics).video_recovery_suppressed_frames
                },
                ..*old(metrics)
            }),
    {
        let ghost before = *self;
        proof {
            self.tracks.lemma_keys();
        }
        self.activity_generation = self.activity_generation.saturating_add(1);
        let activity_generation: u64 = self.activity_generation;
        let mut suppressed = false;
        if let Some(track) = self.tracks.get_mut(&track_key) {
            track.last_activity = activity_generation;
            if track.awaiting_keyframe {
                if track.minimum_keyframe_id < frame_id {
                    track.minimum_keyframe_id = frame_id;
                }
                suppressed = true;
            }
        }
        proof {
            if before@.tracks.contains_key(track_key) {
                assert(self@.tracks.dom() =~= before@.tracks.dom());
            }
            assert(self@ =~= before@.delta(track_key, frame_id));
        }
        if !suppressed {
            return false;
        }
        raise(&mut metrics.video_recovery_suppressed_frames, 1);
        true
    }

    /// A keyframe went out on a track.
    pub fn keyframe_sent(&mut self, track_key: VideoOutboundTrackKey, frame_id: u64)
        requires
            old(self).wf(),
        ensures
            final(self).wf(),
            final(self)@ == old(self)@.keyframe(track_key, frame_id),
            final(self).asked() == old(self).asked(),
            final(self).scoped() == old(self).scoped(),
            final(self).refresh_queue() == old(self).refresh_queue(),
    {
        proof {
            self.tracks.lemma_keys();
        }
        let newer = match self.tracks.get(&track_key) {
            Some(track) => frame_id > track.minimum_keyframe_id,
            None => false,
        };
        if newer {
            let _track = self.tracks.remove(&track_key);
        }
    }
}

proof fn lemma_lose(recovery: SendRecoveryModel, key: VideoOutboundTrackKey, frame_id: u64)
    requires
        recovery.sound(),
    ensures
        recovery.lose(key, frame_id).sound(),
{
    if !recovery.tracks.contains_key(key) && recovery.tracks.dom().len() >= MAX_VIDEO_STREAM_STATES {
        lemma_least_exists(recovery.tracks, track_activity());
    }
    if recovery.tracks.contains_key(key) {
        assert(recovery.lose(key, frame_id).tracks.dom() =~= recovery.tracks.dom());
    }
}

/// Whatever is lost or sent, few tracks are remembered, and each of them waits for a keyframe.
pub proof fn sender_state_stays_bounded(recovery: SendRecoveryModel, key: VideoOutboundTrackKey, frame_id: u64)
    requires
        recovery.sound(),
    ensures
        recovery.lose(key, frame_id).sound(),
        recovery.delta(key, frame_id).sound(),
        recovery.keyframe(key, frame_id).sound(),
{
    lemma_lose(recovery, key, frame_id);
    if recovery.tracks.contains_key(key) {
        assert(recovery.delta(key, frame_id).tracks.dom() =~= recovery.tracks.dom());
    }
}

/// A track that lost a frame drops its deltas until a keyframe goes out that is newer than the lost
/// frame and than every delta that was dropped.
pub proof fn recovery_ends_with_a_newer_keyframe(
    recovery: SendRecoveryModel,
    key: VideoOutboundTrackKey,
    lost_frame_id: u64,
    dropped_frame_id: u64,
    keyframe_id: u64,
)
    requires
        recovery.sound(),
    ensures
        ({
            let lost = recovery.lose(key, lost_frame_id);
            let dropped = lost.delta(key, dropped_frame_id);
            let sent = dropped.keyframe(key, keyframe_id);
            &&& lost.suppresses(key)
            &&& dropped.suppresses(key)
            &&& keyframe_id <= larger_u64(lost_frame_id, dropped_frame_id) ==> sent.suppresses(key)
            &&& keyframe_id > dropped.tracks[key].minimum_keyframe_id ==> !sent.suppresses(key)
        }),
{
}

/// What happens on one track changes nothing for another, as long as no track has to be forgotten.
pub proof fn tracks_recover_independently(
    recovery: SendRecoveryModel,
    key: VideoOutboundTrackKey,
    other: VideoOutboundTrackKey,
    frame_id: u64,
)
    requires
        other != key,
        recovery.tracks.contains_key(key) || recovery.tracks.dom().len() < MAX_VIDEO_STREAM_STATES,
    ensures
        recovery.lose(key, frame_id).suppresses(other) == recovery.suppresses(other),
        recovery.delta(key, frame_id).suppresses(other) == recovery.suppresses(other),
        recovery.keyframe(key, frame_id).suppresses(other) == recovery.suppresses(other),
{
}

/// A track that loses a frame waits for a keyframe that is newer than this frame and than every frame it had to be
/// newer than before. The other tracks stay as they are, as long as fewer than sixteen wait or this one does.
pub proof fn lost_frames_make_their_track_wait(
    recovery: SendRecoveryModel,
    key: VideoOutboundTrackKey,
    frame_id: u64,
    other: VideoOutboundTrackKey,
)
    requires
        recovery.tracks.contains_key(key) || recovery.tracks.dom().len() < 16,
        other != key,
    ensures
        ({
            let after = recovery.lose(key, frame_id);
            &&& after.tracks.dom() == recovery.tracks.dom().insert(key)
            &&& after.tracks[key].awaiting_keyframe
            &&& after.tracks[key].minimum_keyframe_id >= frame_id
            &&& recovery.tracks.contains_key(key) ==> after.tracks[key].minimum_keyframe_id
                >= recovery.tracks[key].minimum_keyframe_id
            &&& after.tracks[key].minimum_keyframe_id == frame_id || (recovery.tracks.contains_key(key)
                && after.tracks[key].minimum_keyframe_id == recovery.tracks[key].minimum_keyframe_id)
            &&& recovery.tracks.contains_key(other) ==> after.tracks[other] == recovery.tracks[other]
            &&& recovery.activity_generation < u64::MAX ==> {
                &&& after.activity_generation == recovery.activity_generation + 1
                &&& after.tracks[key].last_activity == after.activity_generation
            }
            &&& after.suppresses(key)
            &&& after.suppresses(other) == recovery.suppresses(other)
        }),
{
    assert(recovery.lose(key, frame_id).tracks.dom() =~= recovery.tracks.dom().insert(key));
}

/// When sixteen tracks wait and another one loses a frame, the one is forgotten that was not touched for the longest
/// time, of several such the first in the order, and no other.
pub proof fn sixteen_tracks_wait_at_most(recovery: SendRecoveryModel, key: VideoOutboundTrackKey, frame_id: u64)
    requires
        recovery.sound(),
        recovery.tracks.dom().len() == 16,
        !recovery.tracks.contains_key(key),
    ensures
        exists|gone: VideoOutboundTrackKey| #[trigger]
            recovery.tracks.contains_key(gone) && {
                &&& forall|other: VideoOutboundTrackKey| #[trigger]
                    recovery.tracks.contains_key(other) ==> recovery.tracks[gone].last_activity
                        < recovery.tracks[other].last_activity || (recovery.tracks[gone].last_activity
                        == recovery.tracks[other].last_activity && gone.rank() <= other.rank())
                &&& recovery.lose(key, frame_id).tracks.dom() == recovery.tracks.dom().remove(gone).insert(key)
            },
{
    lemma_least_exists(recovery.tracks, track_activity());
    let gone = recovery.oldest();
    assert(recovery.tracks.contains_key(gone));
    assert(recovery.lose(key, frame_id).tracks.dom() =~= recovery.tracks.dom().remove(gone).insert(key));
}

/// A delta on a track that waits is not sent, and the keyframe that ends the waiting has to be newer than it too.
/// On a track that does not wait it is sent, and no track begins or stops to wait for it.
pub proof fn deltas_of_waiting_tracks_are_not_sent(
    recovery: SendRecoveryModel,
    key: VideoOutboundTrackKey,
    frame_id: u64,
    other: VideoOutboundTrackKey,
)
    requires
        recovery.sound(),
        other != key,
    ensures
        ({
            let after = recovery.delta(key, frame_id);
            &&& recovery.suppresses(key) <==> recovery.tracks.contains_key(key)
            &&& after.tracks.dom() == recovery.tracks.dom()
            &&& recovery.tracks.contains_key(key) ==> {
                &&& after.tracks[key].awaiting_keyframe
                &&& after.tracks[key].minimum_keyframe_id >= frame_id
                &&& after.tracks[key].minimum_keyframe_id >= recovery.tracks[key].minimum_keyframe_id
                &&& after.tracks[key].minimum_keyframe_id == frame_id || after.tracks[key].minimum_keyframe_id
                    == recovery.tracks[key].minimum_keyframe_id
            }
            &&& recovery.tracks.contains_key(other) ==> after.tracks[other] == recovery.tracks[other]
        }),
{
    assert(recovery.delta(key, frame_id).tracks.dom() =~= recovery.tracks.dom());
}

/// A keyframe ends the waiting of its track if and only if it is newer than every frame it has to be newer than; no
/// other track is touched.
pub proof fn newer_keyframes_end_the_waiting(
    recovery: SendRecoveryModel,
    key: VideoOutboundTrackKey,
    frame_id: u64,
    other: VideoOutboundTrackKey,
)
    requires
        other != key,
    ensures
        ({
            let after = recovery.keyframe(key, frame_id);
            &&& after.tracks.contains_key(key) <==> (recovery.tracks.contains_key(key) && frame_id
                <= recovery.tracks[key].minimum_keyframe_id)
            &&& after.tracks.contains_key(key) ==> after.tracks[key] == recovery.tracks[key]
            &&& after.tracks.contains_key(other) == recovery.tracks.contains_key(other)
            &&& recovery.tracks.contains_key(other) ==> after.tracks[other] == recovery.tracks[other]
            &&& after.activity_generation == recovery.activity_generation
        }),
{
}

/// The local encoder is asked exactly once for each time that a track begins to wait: for everything, or, where
/// requests name their stream, for the stream of the frame that was lost, which does not have to be dark
/// meanwhile. A frame that does not tell its stream and number is not asked for by name.
pub proof fn first_losses_ask_the_encoder(
    recovery: SendRecoveryModel,
    scoped: bool,
    key: VideoOutboundTrackKey,
    source_info: Option<VideoSourceInfo>,
)
    requires
        recovery.sound(),
    ensures
        ({
            let asked = refreshes_for(recovery, scoped, key, source_info);
            &&& asked.len() <= 1
            &&& recovery.tracks.contains_key(key) ==> asked.len() == 0
            &&& !recovery.tracks.contains_key(key) && !scoped ==> asked == seq![LocalVideoRefresh::Legacy]
            &&& !recovery.tracks.contains_key(key) && scoped ==> match source_info {
                Some(info) => if info.key.display >= 0 && info.key.stream_id > 0 && info.frame_id > 0 {
                    asked == seq![
                        LocalVideoRefresh::Reference(
                            VideoReferenceRefresh {
                                display: info.key.display,
                                stream_id: info.key.stream_id,
                                received_frame_id: info.frame_id,
                                dropped_frames: 1,
                                strict_recovery: false,
                            },
                        ),
                    ]
                } else {
                    asked.len() == 0
                },
                None => asked.len() == 0,
            }
        }),
{
}

} // verus!
