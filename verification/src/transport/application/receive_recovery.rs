//! Which received frames may be shown, and when the receiver asks for a fresh keyframe.

use super::classify::{reference_refresh, video_reference_refresh};
use crate::message::VideoReferenceRefresh;
use crate::ordered::{first_of, is_last, kept_entries, last_of, lemma_first_exists, lemma_last_of, OrderedKey,
    OrderedMap};
use crate::time::Timestamp;
use crate::transport::video::{streams_stand_in_order, VideoCodec, VideoSourceInfo, VideoStreamKey};
use vstd::prelude::*;

verus! {

/// How many streams are remembered.
pub const MAX_VIDEO_STREAM_STATES: usize = 16;

/// The least time between two requests.
pub const VIDEO_KEYFRAME_REQUEST_MIN_INTERVAL_NANOS: u64 = 1_000_000_000;

/// How long the first retry waits. Each further one waits twice as long.
pub const VIDEO_KEYFRAME_RETRY_INITIAL_DELAY_NANOS: u64 = 1_000_000_000;

/// How many retries follow a request.
pub const VIDEO_KEYFRAME_RETRY_MAX_ATTEMPTS: u8 = 3;

/// How long the receiver waits after the last retry before it starts over.
pub const VIDEO_KEYFRAME_RECOVERY_CYCLE_COOLDOWN_NANOS: u64 = 10_000_000_000;

/// What the receiver knows of a stream.
#[derive(Clone, Copy, Debug, PartialEq, Eq, Structural)]
pub struct VideoReceiveState {
    /// The number of the last frame that was shown, zero before the first.
    pub last_frame_id: u64,
    /// Nothing is shown until a keyframe comes.
    pub awaiting_keyframe: bool,
    pub codec: Option<VideoCodec>,
}

/// What happens to a received frame.
#[derive(Clone, Copy, Debug, PartialEq, Eq, Structural)]
pub enum VideoReceiveDecision {
    Accept,
    AcceptAfterGap,
    Suppress,
    SuppressAfterGap,
}

/// A request for a keyframe that was not answered yet.
#[derive(Clone, Copy, Debug, PartialEq, Eq, Structural)]
pub struct PendingVideoRecovery {
    pub source: Option<VideoSourceInfo>,
    pub requested_at: Timestamp,
    pub retries: u8,
    pub strict_recovery: bool,
}

/// A request for a keyframe.
#[derive(Clone, Copy, Debug, PartialEq, Eq, Structural)]
pub enum VideoKeyframeRequest {
    /// Of everything.
    Legacy,
    /// Of one stream.
    Scoped(VideoReferenceRefresh),
}

/// A stream nothing was received of.
pub open spec fn unseen_stream() -> VideoReceiveState {
    VideoReceiveState { last_frame_id: 0, awaiting_keyframe: false, codec: None }
}

/// The frame says which stream it belongs to and where it stands in it.
pub open spec fn is_stamped(info: VideoSourceInfo) -> bool {
    info.key.stream_id != 0 && info.frame_id != 0
}

/// `other` is another stream of the display of `key`.
pub open spec fn is_rival(other: VideoStreamKey, key: VideoStreamKey) -> bool {
    other.display == key.display && other != key
}

/// What the receiver knows.
#[verifier::ext_equal]
pub struct RecoveryModel {
    pub streams: Map<VideoStreamKey, VideoReceiveState>,
    pub last_observed: Option<VideoSourceInfo>,
    /// The unanswered requests, by the stream they are for; a request for everything stands under none.
    pub pending_requests: Map<Option<VideoStreamKey>, PendingVideoRecovery>,
    pub last_keyframe_request_at: Map<Option<VideoStreamKey>, Timestamp>,
}

/// What happens to a delta on a stream.
pub open spec fn delta_decision(
    state: VideoReceiveState,
    frame_id: u64,
    strict_gap_recovery: bool,
) -> VideoReceiveDecision {
    if state.awaiting_keyframe || state.last_frame_id == 0 || frame_id <= state.last_frame_id {
        VideoReceiveDecision::Suppress
    } else if frame_id == state.last_frame_id + 1 {
        VideoReceiveDecision::Accept
    } else if strict_gap_recovery {
        VideoReceiveDecision::SuppressAfterGap
    } else {
        VideoReceiveDecision::AcceptAfterGap
    }
}

/// A stream after a delta.
pub open spec fn after_delta(state: VideoReceiveState, info: VideoSourceInfo, strict_gap_recovery: bool) -> VideoReceiveState {
    let decision = delta_decision(state, info.frame_id, strict_gap_recovery);
    VideoReceiveState {
        last_frame_id: if decision is Accept || decision is AcceptAfterGap {
            info.frame_id
        } else {
            state.last_frame_id
        },
        awaiting_keyframe: state.awaiting_keyframe || state.last_frame_id == 0 || decision is SuppressAfterGap,
        codec: Some(info.codec),
    }
}

/// A stream after a keyframe.
pub open spec fn after_keyframe(info: VideoSourceInfo) -> VideoReceiveState {
    VideoReceiveState { last_frame_id: info.frame_id, awaiting_keyframe: false, codec: Some(info.codec) }
}

/// How long the receiver waits after a request before it asks again.
pub open spec fn retry_delay(retries: u8) -> nat {
    if retries == 0 {
        VIDEO_KEYFRAME_RETRY_INITIAL_DELAY_NANOS as nat
    } else if retries == 1 {
        2 * VIDEO_KEYFRAME_RETRY_INITIAL_DELAY_NANOS as nat
    } else if retries == 2 {
        4 * VIDEO_KEYFRAME_RETRY_INITIAL_DELAY_NANOS as nat
    } else {
        VIDEO_KEYFRAME_RECOVERY_CYCLE_COOLDOWN_NANOS as nat
    }
}

impl RecoveryModel {
    /// Few streams are known. Requests are remembered for known streams only, each under its own
    /// stream, and count few retries.
    pub open spec fn tidy(self) -> bool {
        &&& self.streams.dom().finite()
        &&& self.streams.dom().len() <= MAX_VIDEO_STREAM_STATES
        &&& forall|request: Option<VideoStreamKey>| #[trigger] self.pending_requests.contains_key(request) ==> {
            &&& self.pending_requests[request].retries <= VIDEO_KEYFRAME_RETRY_MAX_ATTEMPTS
            &&& request matches Some(key) ==> {
                &&& self.streams.contains_key(key)
                &&& self.pending_requests[request].source matches Some(source) && source.key == key
            }
        }
        &&& forall|key: VideoStreamKey| #[trigger] self.last_keyframe_request_at.contains_key(Some(key))
            ==> self.streams.contains_key(key)
    }

    /// What is remembered is tidy, and the last frame received belongs to a known stream.
    pub open spec fn sound(self) -> bool {
        &&& self.tidy()
        &&& match self.last_observed {
            Some(info) => is_stamped(info) && self.streams.contains_key(info.key),
            None => self.streams.dom() == Set::<VideoStreamKey>::empty(),
        }
    }

    /// The stream under this key, unseen if there is none.
    pub open spec fn stream(self, key: VideoStreamKey) -> VideoReceiveState {
        if self.streams.contains_key(key) {
            self.streams[key]
        } else {
            unseen_stream()
        }
    }

    /// A stream that is not known yet finds no room.
    pub open spec fn is_full_for(self, key: VideoStreamKey) -> bool {
        !self.streams.contains_key(key) && self.streams.dom().len() >= MAX_VIDEO_STREAM_STATES
    }

    /// Makes room for a stream that is new: the first stream in the order is forgotten.
    pub open spec fn prepare(self, key: VideoStreamKey) -> RecoveryModel {
        if self.is_full_for(key) {
            let evicted = first_of(self.streams.dom());
            RecoveryModel {
                streams: self.streams.remove(evicted),
                pending_requests: self.pending_requests.remove(Some(evicted)),
                last_keyframe_request_at: self.last_keyframe_request_at.remove(Some(evicted)),
                ..self
            }
        } else {
            self
        }
    }

    /// A frame was received that is held back for now.
    pub open spec fn note(self, info: VideoSourceInfo) -> RecoveryModel {
        if is_stamped(info) {
            let prepared = self.prepare(info.key);
            RecoveryModel {
                streams: prepared.streams.insert(
                    info.key,
                    VideoReceiveState { codec: Some(info.codec), ..prepared.stream(info.key) },
                ),
                last_observed: Some(info),
                ..prepared
            }
        } else {
            self
        }
    }

    /// The display starts over with the stream of `info`: its other streams are forgotten.
    pub open spec fn retire_rivals(self, info: VideoSourceInfo) -> RecoveryModel {
        let kept_at = kept_entries(
            self.last_keyframe_request_at,
            |request: Option<VideoStreamKey>, at: Timestamp|
                match request {
                    Some(key) => !is_rival(key, info.key),
                    None => true,
                },
        );
        RecoveryModel {
            streams: kept_entries(
                self.streams,
                |key: VideoStreamKey, state: VideoReceiveState| !is_rival(key, info.key),
            ),
            pending_requests: kept_entries(
                self.pending_requests,
                |request: Option<VideoStreamKey>, pending: PendingVideoRecovery|
                    match pending.source {
                        Some(source) => !is_rival(source.key, info.key),
                        None => true,
                    },
            ),
            last_keyframe_request_at: if exists|key: VideoStreamKey| #[trigger]
                self.streams.contains_key(key) && is_rival(key, info.key) {
                kept_at.remove(None)
            } else {
                kept_at
            },
            ..self
        }
    }

    /// The requests that a keyframe answers are no longer pending.
    pub open spec fn answered(self, info: VideoSourceInfo) -> RecoveryModel {
        RecoveryModel {
            pending_requests: kept_entries(
                self.pending_requests,
                |request: Option<VideoStreamKey>, pending: PendingVideoRecovery|
                    match pending.source {
                        Some(source) => !(source.key == info.key && info.frame_id > source.frame_id),
                        None => true,
                    },
            ),
            ..self
        }
    }

    /// A frame was received that may be shown now.
    pub open spec fn observe(self, info: VideoSourceInfo, strict_gap_recovery: bool) -> (
        RecoveryModel,
        VideoReceiveDecision,
    ) {
        if !is_stamped(info) {
            (self, VideoReceiveDecision::Accept)
        } else if info.keyframe {
            let prepared = self.retire_rivals(info).prepare(info.key).answered(info);
            (
                RecoveryModel {
                    streams: prepared.streams.insert(info.key, after_keyframe(info)),
                    last_observed: Some(info),
                    ..prepared
                },
                VideoReceiveDecision::Accept,
            )
        } else {
            let prepared = self.prepare(info.key);
            let state = prepared.stream(info.key);
            (
                RecoveryModel {
                    streams: prepared.streams.insert(info.key, after_delta(state, info, strict_gap_recovery)),
                    last_observed: Some(info),
                    ..prepared
                },
                delta_decision(state, info.frame_id, strict_gap_recovery),
            )
        }
    }

    /// No stream shows anything until a keyframe comes.
    pub open spec fn lose_all(self) -> RecoveryModel {
        RecoveryModel {
            streams: self.streams.map_values(
                |state: VideoReceiveState| VideoReceiveState { awaiting_keyframe: true, ..state },
            ),
            ..self
        }
    }

    /// One stream shows nothing until a keyframe comes.
    pub open spec fn lose(self, key: VideoStreamKey) -> RecoveryModel {
        if self.streams.contains_key(key) {
            RecoveryModel {
                streams: self.streams.insert(
                    key,
                    VideoReceiveState { awaiting_keyframe: true, ..self.streams[key] },
                ),
                ..self
            }
        } else {
            self
        }
    }

    /// The streams of which something was shown.
    pub open spec fn shown_streams(self) -> Set<VideoStreamKey> {
        Set::new(|key: VideoStreamKey| self.streams.contains_key(key) && self.streams[key].last_frame_id > 0)
    }

    /// The frame a request speaks of: the last one received, or the last one shown of the last
    /// stream in the order.
    pub open spec fn latest_source(self) -> Option<VideoSourceInfo> {
        if self.last_observed is Some {
            self.last_observed
        } else if exists|key: VideoStreamKey| self.shown_streams().contains(key) {
            let key = last_of(self.shown_streams());
            Some(
                VideoSourceInfo {
                    key,
                    frame_id: self.streams[key].last_frame_id,
                    keyframe: false,
                    codec: match self.streams[key].codec {
                        Some(codec) => codec,
                        None => VideoCodec::Raw,
                    },
                },
            )
        } else {
            None
        }
    }

    /// Where the pending request stands that a request now would follow.
    pub open spec fn request_key(self, scoped: bool) -> Option<VideoStreamKey> {
        if scoped {
            match self.latest_source() {
                Some(source) => Some(source.key),
                None => None,
            }
        } else {
            None
        }
    }

    /// The pending request that a request now would follow.
    pub open spec fn pending(self, scoped: bool) -> Option<PendingVideoRecovery> {
        if self.pending_requests.contains_key(self.request_key(scoped)) {
            Some(self.pending_requests[self.request_key(scoped)])
        } else {
            None
        }
    }

    /// The pending request is about another stream than the one that needs a keyframe now.
    pub open spec fn is_new_stream(self, scoped: bool) -> bool {
        match (self.pending(scoped), self.latest_source()) {
            (Some(pending), Some(source)) => match pending.source {
                Some(asked) => asked.key != source.key,
                None => false,
            },
            _ => false,
        }
    }

    /// Nothing may be shown any more, and no pending request says so yet.
    pub open spec fn is_escalation(self, scoped: bool, strict_recovery: bool) -> bool {
        scoped && strict_recovery && !(match self.pending(scoped) {
            Some(pending) => pending.strict_recovery,
            None => false,
        })
    }

    /// The last request was made too short a time ago.
    pub open spec fn is_too_soon(self, now: Timestamp, scoped: bool) -> bool {
        let key = self.request_key(scoped);
        self.last_keyframe_request_at.contains_key(key) && now.spec_since(self.last_keyframe_request_at[key])
            < VIDEO_KEYFRAME_REQUEST_MIN_INTERVAL_NANOS
    }

    /// It is time to ask, for the first time or again.
    pub open spec fn is_due(self, now: Timestamp, scoped: bool) -> bool {
        match self.pending(scoped) {
            None => true,
            Some(pending) => self.is_new_stream(scoped) || now.spec_since(pending.requested_at) >= retry_delay(
                pending.retries,
            ),
        }
    }

    /// A request is made now.
    pub open spec fn asks(self, now: Timestamp, scoped: bool, strict_recovery: bool) -> bool {
        &&& scoped ==> self.latest_source() is Some
        &&& self.is_escalation(scoped, strict_recovery) || (self.is_due(now, scoped) && (self.is_new_stream(scoped)
            || !self.is_too_soon(now, scoped)))
    }

    /// How many retries the request that is made now counts.
    pub open spec fn next_retries(self, scoped: bool, strict_recovery: bool) -> u8 {
        match self.pending(scoped) {
            None => 0,
            Some(pending) => if self.is_escalation(scoped, strict_recovery) {
                pending.retries
            } else if !self.is_new_stream(scoped) && pending.retries < VIDEO_KEYFRAME_RETRY_MAX_ATTEMPTS {
                (pending.retries + 1) as u8
            } else {
                0
            },
        }
    }

    /// The request that is made now, as it stays pending. Once strict, a request stays strict.
    pub open spec fn next_pending(self, now: Timestamp, scoped: bool, strict_recovery: bool) -> PendingVideoRecovery {
        PendingVideoRecovery {
            source: self.latest_source(),
            requested_at: now,
            retries: self.next_retries(scoped, strict_recovery),
            strict_recovery: strict_recovery || (!self.is_new_stream(scoped) && (match self.pending(scoped) {
                Some(pending) => pending.strict_recovery,
                None => false,
            })),
        }
    }

    /// A keyframe is wanted: asks for it if it is time to.
    pub open spec fn request(self, now: Timestamp, scoped: bool, dropped_frames: u64, strict_recovery: bool) -> (
        RecoveryModel,
        Option<VideoKeyframeRequest>,
    ) {
        if self.asks(now, scoped, strict_recovery) {
            let key = self.request_key(scoped);
            let pending = self.next_pending(now, scoped, strict_recovery);
            (
                RecoveryModel {
                    pending_requests: self.pending_requests.insert(key, pending),
                    last_keyframe_request_at: self.last_keyframe_request_at.insert(key, now),
                    ..self
                },
                if scoped {
                    match reference_refresh(self.latest_source()->0, dropped_frames, pending.strict_recovery) {
                        Some(refresh) => Some(VideoKeyframeRequest::Scoped(refresh)),
                        None => None,
                    }
                } else {
                    Some(VideoKeyframeRequest::Legacy)
                },
            )
        } else {
            (self, None)
        }
    }
}

/// The receiver's part of recovery.
pub struct VideoReceiveRecovery {
    streams: OrderedMap<VideoStreamKey, VideoReceiveState>,
    last_observed: Option<VideoSourceInfo>,
    pending_requests: OrderedMap<Option<VideoStreamKey>, PendingVideoRecovery>,
    last_keyframe_request_at: OrderedMap<Option<VideoStreamKey>, Timestamp>,
}

impl View for VideoReceiveRecovery {
    type V = RecoveryModel;

    closed spec fn view(&self) -> RecoveryModel {
        RecoveryModel {
            streams: self.streams@,
            last_observed: self.last_observed,
            pending_requests: self.pending_requests@,
            last_keyframe_request_at: self.last_keyframe_request_at@,
        }
    }
}

impl Default for VideoReceiveRecovery {
    /// Nothing was received.
    fn default() -> (recovery: Self)
        ensures
            recovery.wf(),
            recovery@ == (RecoveryModel {
                streams: Map::empty(),
                last_observed: None,
                pending_requests: Map::empty(),
                last_keyframe_request_at: Map::empty(),
            }),
    {
        VideoReceiveRecovery {
            streams: OrderedMap::new(),
            last_observed: None,
            pending_requests: OrderedMap::new(),
            last_keyframe_request_at: OrderedMap::new(),
        }
    }
}

impl VideoReceiveRecovery {
    /// The maps stand in the order of their keys.
    spec fn ordered(&self) -> bool {
        &&& self.streams.wf()
        &&& self.pending_requests.wf()
        &&& self.last_keyframe_request_at.wf()
    }

    /// The maps stand in the order of their keys, and what they hold is sound.
    pub closed spec fn wf(&self) -> bool {
        &&& self.ordered()
        &&& self@.sound()
    }

    /// What is well formed is sound.
    pub proof fn lemma_wf(&self)
        requires
            self.wf(),
        ensures
            self@.sound(),
    {
    }

    /// How many streams are known.
    pub fn stream_count(&self) -> (count: usize)
        requires
            self.wf(),
        ensures
            count == self@.streams.dom().len(),
    {
        self.streams.len()
    }

    /// Whether the stream is known.
    pub fn has_stream(&self, key: VideoStreamKey) -> (known: bool)
        requires
            self.wf(),
        ensures
            known == self@.streams.contains_key(key),
    {
        self.streams.contains_key(&key)
    }

    /// How many requests are pending.
    pub fn pending_request_count(&self) -> (count: usize)
        requires
            self.wf(),
        ensures
            count == self@.pending_requests.dom().len(),
    {
        self.pending_requests.len()
    }

    /// Whether a request for the stream, or for everything, is pending.
    pub fn has_pending_request(&self, key: Option<VideoStreamKey>) -> (pending: bool)
        requires
            self.wf(),
        ensures
            pending == self@.pending_requests.contains_key(key),
    {
        self.pending_requests.contains_key(&key)
    }

    /// Makes room for a stream that is new.
    fn prepare_stream(&mut self, key: VideoStreamKey)
        requires
            old(self).ordered(),
        ensures
            final(self).ordered(),
            final(self)@ == old(self)@.prepare(key),
    {
        if !self.streams.contains_key(&key) && self.streams.len() >= MAX_VIDEO_STREAM_STATES {
            proof {
                self.streams.lemma_keys();
            }
            if let Some(evicted) = self.streams.first_key() {
                let _state = self.streams.remove(&evicted);
                let _pending = self.pending_requests.remove(&Some(evicted));
                let _at = self.last_keyframe_request_at.remove(&Some(evicted));
            }
        }
    }

    /// The stream under this key, unseen if there is none.
    fn stream_state(&self, key: VideoStreamKey) -> (state: VideoReceiveState)
        requires
            self.ordered(),
        ensures
            state == self@.stream(key),
    {
        match self.streams.get(&key) {
            Some(state) => *state,
            None => VideoReceiveState { last_frame_id: 0, awaiting_keyframe: false, codec: None },
        }
    }

    /// A frame was received that is held back for now.
    pub fn note_source_context(&mut self, info: VideoSourceInfo)
        requires
            old(self).wf(),
        ensures
            final(self).wf(),
            final(self)@ == old(self)@.note(info),
    {
        if info.key.stream_id == 0 || info.frame_id == 0 {
            return;
        }
        proof {
            lemma_note(self@, info);
        }
        self.prepare_stream(info.key);
        self.last_observed = Some(info);
        let mut state = self.stream_state(info.key);
        state.codec = Some(info.codec);
        self.streams.insert(info.key, state);
    }

    /// Whether another stream of the display of `key` is known.
    fn has_rival(&self, key: VideoStreamKey) -> (found: bool)
        requires
            self.ordered(),
        ensures
            found == (exists|other: VideoStreamKey| #[trigger] self@.streams.contains_key(other) && is_rival(other, key)),
    {
        proof {
            self.streams.lemma_keys();
        }
        let mut index: usize = 0;
        while index < self.streams.len()
            invariant
                self.ordered(),
                index <= self.streams.keys().len(),
                forall|i: int| 0 <= i < index ==> !is_rival(#[trigger] self.streams.keys()[i], key),
            decreases self.streams.keys().len() - index,
        {
            let other = self.streams.key_at(index);
            if other.display == key.display && other != key {
                assert(self@.streams.contains_key(other) && is_rival(other, key));
                return true;
            }
            index += 1;
        }
        proof {
            assert forall|other: VideoStreamKey| #[trigger] self@.streams.contains_key(other) implies !is_rival(
                other,
                key,
            ) by {
                assert(self.streams.keys().to_set().contains(other));
                let i = choose|i: int| 0 <= i < self.streams.keys().len() && self.streams.keys()[i] == other;
                assert(!is_rival(self.streams.keys()[i], key));
            }
        }
        false
    }

    /// The display starts over with the stream of `info`.
    fn retire_rivals(&mut self, info: VideoSourceInfo)
        requires
            old(self).ordered(),
        ensures
            final(self).ordered(),
            final(self)@ == old(self)@.retire_rivals(info),
    {
        let replaced_stream = self.has_rival(info.key);
        let keep_stream = |key: &VideoStreamKey, _state: &VideoReceiveState| -> (stays: bool)
            ensures
                stays == !is_rival(*key, info.key),
        {
            key.display != info.key.display || key.stream_id == info.key.stream_id
        };
        self.streams.retain(
            keep_stream,
            Ghost(|key: VideoStreamKey, state: VideoReceiveState| !is_rival(key, info.key)),
        );
        let keep_pending = |_request: &Option<VideoStreamKey>, pending: &PendingVideoRecovery| -> (stays: bool)
            ensures
                stays == match pending.source {
                    Some(source) => !is_rival(source.key, info.key),
                    None => true,
                },
        {
            match pending.source {
                Some(source) => !(source.key.display == info.key.display && source.key != info.key),
                None => true,
            }
        };
        self.pending_requests.retain(
            keep_pending,
            Ghost(
                |request: Option<VideoStreamKey>, pending: PendingVideoRecovery|
                    match pending.source {
                        Some(source) => !is_rival(source.key, info.key),
                        None => true,
                    },
            ),
        );
        let keep_at = |request: &Option<VideoStreamKey>, _at: &Timestamp| -> (stays: bool)
            ensures
                stays == match *request {
                    Some(key) => !is_rival(key, info.key),
                    None => true,
                },
        {
            match *request {
                Some(key) => key.display != info.key.display || key.stream_id == info.key.stream_id,
                None => true,
            }
        };
        self.last_keyframe_request_at.retain(
            keep_at,
            Ghost(
                |request: Option<VideoStreamKey>, at: Timestamp|
                    match request {
                        Some(key) => !is_rival(key, info.key),
                        None => true,
                    },
            ),
        );
        if replaced_stream {
            let _at = self.last_keyframe_request_at.remove(&None);
        }
    }

    /// Drops the pending requests that a keyframe answers.
    fn drop_answered(&mut self, info: VideoSourceInfo)
        requires
            old(self).ordered(),
        ensures
            final(self).ordered(),
            final(self)@ == old(self)@.answered(info),
    {
        let keep = |_request: &Option<VideoStreamKey>, pending: &PendingVideoRecovery| -> (stays: bool)
            ensures
                stays == match pending.source {
                    Some(source) => !(source.key == info.key && info.frame_id > source.frame_id),
                    None => true,
                },
        {
            match pending.source {
                Some(source) => !(source.key == info.key && info.frame_id > source.frame_id),
                None => true,
            }
        };
        self.pending_requests.retain(
            keep,
            Ghost(
                |request: Option<VideoStreamKey>, pending: PendingVideoRecovery|
                    match pending.source {
                        Some(source) => !(source.key == info.key && info.frame_id > source.frame_id),
                        None => true,
                    },
            ),
        );
    }

    /// A frame was received that may be shown now.
    pub fn observe(&mut self, info: VideoSourceInfo, strict_gap_recovery: bool) -> (decision: VideoReceiveDecision)
        requires
            old(self).wf(),
        ensures
            final(self).wf(),
            (final(self)@, decision) == old(self)@.observe(info, strict_gap_recovery),
    {
        if info.key.stream_id == 0 || info.frame_id == 0 {
            return VideoReceiveDecision::Accept;
        }
        proof {
            lemma_observe(self@, info, strict_gap_recovery);
        }
        if info.keyframe {
            self.retire_rivals(info);
        }
        self.prepare_stream(info.key);
        self.last_observed = Some(info);
        if info.keyframe {
            self.drop_answered(info);
            let state = VideoReceiveState {
                last_frame_id: info.frame_id,
                awaiting_keyframe: false,
                codec: Some(info.codec),
            };
            self.streams.insert(info.key, state);
            return VideoReceiveDecision::Accept;
        }
        let mut state = self.stream_state(info.key);
        state.codec = Some(info.codec);
        let decision = if state.awaiting_keyframe || state.last_frame_id == 0 {
            state.awaiting_keyframe = true;
            VideoReceiveDecision::Suppress
        } else if info.frame_id <= state.last_frame_id {
            VideoReceiveDecision::Suppress
        } else if info.frame_id != state.last_frame_id.saturating_add(1) {
            if strict_gap_recovery {
                state.awaiting_keyframe = true;
                VideoReceiveDecision::SuppressAfterGap
            } else {
                state.last_frame_id = info.frame_id;
                VideoReceiveDecision::AcceptAfterGap
            }
        } else {
            state.last_frame_id = info.frame_id;
            VideoReceiveDecision::Accept
        };
        self.streams.insert(info.key, state);
        decision
    }

    /// From now on no stream shows anything until a keyframe comes.
    pub fn mark_reference_loss(&mut self)
        requires
            old(self).wf(),
        ensures
            final(self).wf(),
            final(self)@ == old(self)@.lose_all(),
    {
        let ghost before = *self;
        let ghost keys = self.streams.keys();
        let ghost lost = |state: VideoReceiveState| VideoReceiveState { awaiting_keyframe: true, ..state };
        let mut index: usize = 0;
        while index < self.streams.len()
            invariant
                before.wf(),
                self.ordered(),
                keys == self.streams.keys(),
                keys == before.streams.keys(),
                index <= keys.len(),
                lost == (|state: VideoReceiveState| VideoReceiveState { awaiting_keyframe: true, ..state }),
                self@ == (RecoveryModel { streams: self@.streams, ..before@ }),
                self.streams@.dom() == before.streams@.dom(),
                forall|i: int| 0 <= i < index ==> self.streams@[#[trigger] keys[i]] == lost(before.streams@[keys[i]]),
                forall|i: int| index <= i < keys.len() ==> self.streams@[#[trigger] keys[i]] == before.streams@[keys[i]],
            decreases keys.len() - index,
        {
            proof {
                self.streams.lemma_keys();
            }
            let ghost streams = self.streams@;
            let mut state = *self.streams.value_at(index);
            state.awaiting_keyframe = true;
            self.streams.set_at(index, state);
            proof {
                assert(self.streams@.dom() =~= streams.dom());
                assert forall|i: int| 0 <= i < keys.len() && i != index implies self.streams@[#[trigger] keys[i]]
                    == streams[keys[i]] by {
                    assert(keys[i] != keys[index as int]);
                }
            }
            index += 1;
        }
        proof {
            before.streams.lemma_keys();
            let expected = before@.lose_all();
            assert forall|key: VideoStreamKey| #[trigger] self@.streams.contains_key(key) implies self@.streams[key]
                == expected.streams[key] by {
                assert(keys.to_set().contains(key));
                let i = choose|i: int| 0 <= i < keys.len() && keys[i] == key;
                assert(self.streams@[keys[i]] == lost(before.streams@[keys[i]]));
            }
            assert(self@.streams =~= expected.streams);
            lemma_lose(before@, VideoStreamKey { display: 0, stream_id: 0 });
        }
    }

    /// From now on one stream shows nothing until a keyframe comes.
    pub fn mark_stream_reference_loss(&mut self, key: VideoStreamKey)
        requires
            old(self).wf(),
        ensures
            final(self).wf(),
            final(self)@ == old(self)@.lose(key),
    {
        proof {
            lemma_lose(self@, key);
        }
        if let Some(state) = self.streams.get_mut(&key) {
            state.awaiting_keyframe = true;
        }
    }

    /// The frame a request speaks of.
    pub fn latest_source(&self) -> (source: Option<VideoSourceInfo>)
        requires
            self.wf(),
        ensures
            source == self@.latest_source(),
    {
        if self.last_observed.is_some() {
            return self.last_observed;
        }
        let mut index: usize = self.streams.len();
        let ghost keys = self.streams.keys();
        proof {
            self.streams.lemma_keys();
        }
        while index > 0
            invariant
                self.wf(),
                self.last_observed is None,
                keys == self.streams.keys(),
                index <= keys.len(),
                forall|i: int| index <= i < keys.len() ==> self.streams@[#[trigger] keys[i]].last_frame_id == 0,
            decreases index,
        {
            index -= 1;
            let key = self.streams.key_at(index);
            let state = *self.streams.value_at(index);
            if state.last_frame_id > 0 {
                proof {
                    self.streams.lemma_keys();
                    let shown = self@.shown_streams();
                    assert(shown.contains(key));
                    assert forall|other: VideoStreamKey| #[trigger] shown.contains(other) implies other.rank()
                        <= key.rank() by {
                        assert(keys.to_set().contains(other));
                        let i = choose|i: int| 0 <= i < keys.len() && keys[i] == other;
                        assert(self.streams@[keys[i]].last_frame_id > 0);
                        if i < index {
                            assert(keys[i].rank() < keys[index as int].rank());
                        }
                    }
                    assert(is_last(shown, key));
                    lemma_last_of(shown, key);
                }
                let codec = match state.codec {
                    Some(codec) => codec,
                    None => VideoCodec::Raw,
                };
                return Some(VideoSourceInfo { key, frame_id: state.last_frame_id, keyframe: false, codec });
            }
        }
        proof {
            self.streams.lemma_keys();
            assert forall|key: VideoStreamKey| !self@.shown_streams().contains(key) by {
                if self@.shown_streams().contains(key) {
                    assert(keys.to_set().contains(key));
                    let i = choose|i: int| 0 <= i < keys.len() && keys[i] == key;
                    assert(self.streams@[keys[i]].last_frame_id == 0);
                }
            }
        }
        None
    }

    /// Whether the stream is known and shows nothing until a keyframe comes.
    pub fn stream_awaiting_keyframe(&self, key: VideoStreamKey) -> (awaiting: bool)
        requires
            self.wf(),
        ensures
            awaiting == (self@.streams.contains_key(key) && self@.streams[key].awaiting_keyframe),
    {
        match self.streams.get(&key) {
            Some(state) => state.awaiting_keyframe,
            None => false,
        }
    }

    /// A keyframe is wanted, though something may still be shown.
    pub fn next_keyframe_request(
        &mut self,
        now: Timestamp,
        scoped_reference_refresh: bool,
        dropped_frames: u64,
    ) -> (request: Option<VideoKeyframeRequest>)
        requires
            old(self).wf(),
        ensures
            final(self).wf(),
            (final(self)@, request) == old(self)@.request(now, scoped_reference_refresh, dropped_frames, false),
    {
        self.next_keyframe_request_with_recovery(now, scoped_reference_refresh, dropped_frames, false)
    }

    /// A keyframe is wanted: asks for it if it is time to.
    pub fn next_keyframe_request_with_recovery(
        &mut self,
        now: Timestamp,
        scoped_reference_refresh: bool,
        dropped_frames: u64,
        strict_recovery: bool,
    ) -> (request: Option<VideoKeyframeRequest>)
        requires
            old(self).wf(),
        ensures
            final(self).wf(),
            (final(self)@, request) == old(self)@.request(
                now,
                scoped_reference_refresh,
                dropped_frames,
                strict_recovery,
            ),
    {
        proof {
            lemma_request(self@, now, scoped_reference_refresh, dropped_frames, strict_recovery);
        }
        let source = self.latest_source();
        let request_key = if scoped_reference_refresh {
            match source {
                Some(source) => Some(source.key),
                None => {
                    return None;
                },
            }
        } else {
            None
        };
        let pending_request = match self.pending_requests.get(&request_key) {
            Some(pending) => Some(*pending),
            None => None,
        };
        let last_keyframe_request_at = match self.last_keyframe_request_at.get(&request_key) {
            Some(at) => Some(*at),
            None => None,
        };
        let is_new_stream = match (pending_request, source) {
            (Some(pending), Some(source)) => match pending.source {
                Some(asked) => asked.key != source.key,
                None => false,
            },
            _ => false,
        };
        let pending_is_strict = match pending_request {
            Some(pending) => pending.strict_recovery,
            None => false,
        };
        // A request that was made before the reference gap was certain does not say that nothing
        // may be shown. It becomes strict at once: within the least interval the decoder would
        // otherwise stay suppressed with nobody asked for a way out.
        let strict_escalation = scoped_reference_refresh && strict_recovery && !pending_is_strict;
        let too_soon = match last_keyframe_request_at {
            Some(last) => now.since(last) < VIDEO_KEYFRAME_REQUEST_MIN_INTERVAL_NANOS,
            None => false,
        };
        if !is_new_stream && !strict_escalation && too_soon {
            return None;
        }
        let due = match pending_request {
            None => true,
            Some(pending) => {
                if is_new_stream {
                    true
                } else if pending.retries < VIDEO_KEYFRAME_RETRY_MAX_ATTEMPTS {
                    let multiplier: u64 = if pending.retries == 0 {
                        1
                    } else if pending.retries == 1 {
                        2
                    } else {
                        4
                    };
                    now.since(pending.requested_at) >= VIDEO_KEYFRAME_RETRY_INITIAL_DELAY_NANOS * multiplier
                } else {
                    now.since(pending.requested_at) >= VIDEO_KEYFRAME_RECOVERY_CYCLE_COOLDOWN_NANOS
                }
            },
        };
        if !due && !strict_escalation {
            return None;
        }
        let retries: u8 = match pending_request {
            None => 0,
            Some(pending) => {
                if strict_escalation {
                    pending.retries
                } else if !is_new_stream && pending.retries < VIDEO_KEYFRAME_RETRY_MAX_ATTEMPTS {
                    pending.retries + 1
                } else {
                    0
                }
            },
        };
        let strict_recovery = strict_recovery || (!is_new_stream && pending_is_strict);
        self.pending_requests.insert(
            request_key,
            PendingVideoRecovery { source, requested_at: now, retries, strict_recovery },
        );
        self.last_keyframe_request_at.insert(request_key, now);
        match (scoped_reference_refresh, source) {
            (true, Some(source)) => match video_reference_refresh(source, dropped_frames, strict_recovery) {
                Some(refresh) => Some(VideoKeyframeRequest::Scoped(refresh)),
                None => None,
            },
            (true, None) => None,
            (false, _) => Some(VideoKeyframeRequest::Legacy),
        }
    }
}

/// Making room leaves room.
proof fn lemma_prepare(recovery: RecoveryModel, key: VideoStreamKey)
    requires
        recovery.tidy(),
    ensures
        recovery.prepare(key).tidy(),
        recovery.prepare(key).streams.dom().insert(key).len() <= MAX_VIDEO_STREAM_STATES,
{
    let prepared = recovery.prepare(key);
    if recovery.is_full_for(key) {
        lemma_first_exists(recovery.streams.dom());
        let evicted = first_of(recovery.streams.dom());
        assert forall|request: Option<VideoStreamKey>| #[trigger] prepared.pending_requests.contains_key(request) implies {
            &&& prepared.pending_requests[request].retries <= VIDEO_KEYFRAME_RETRY_MAX_ATTEMPTS
            &&& request matches Some(key) ==> {
                &&& prepared.streams.contains_key(key)
                &&& prepared.pending_requests[request].source matches Some(source) && source.key == key
            }
        } by {
            assert(recovery.pending_requests.contains_key(request));
        }
        assert forall|other: VideoStreamKey| #[trigger] prepared.last_keyframe_request_at.contains_key(
            Some(other),
        ) implies prepared.streams.contains_key(other) by {
            assert(recovery.last_keyframe_request_at.contains_key(Some(other)));
        }
    } else if recovery.streams.contains_key(key) {
        assert(recovery.streams.dom().insert(key) =~= recovery.streams.dom());
    }
}

/// Forgetting the other streams of a display forgets their requests too.
proof fn lemma_retire(recovery: RecoveryModel, info: VideoSourceInfo)
    requires
        recovery.tidy(),
    ensures
        recovery.retire_rivals(info).tidy(),
{
    let retired = recovery.retire_rivals(info);
    vstd::set_lib::lemma_len_subset(retired.streams.dom(), recovery.streams.dom());
    assert forall|request: Option<VideoStreamKey>| #[trigger] retired.pending_requests.contains_key(request) implies {
        &&& retired.pending_requests[request].retries <= VIDEO_KEYFRAME_RETRY_MAX_ATTEMPTS
        &&& request matches Some(key) ==> {
            &&& retired.streams.contains_key(key)
            &&& retired.pending_requests[request].source matches Some(source) && source.key == key
        }
    } by {
        assert(recovery.pending_requests.contains_key(request));
    }
    assert forall|key: VideoStreamKey| #[trigger] retired.last_keyframe_request_at.contains_key(
        Some(key),
    ) implies retired.streams.contains_key(key) by {
        assert(recovery.last_keyframe_request_at.contains_key(Some(key)));
    }
}

/// Writing the stream of the last frame makes the receiver's knowledge sound.
proof fn lemma_written(recovery: RecoveryModel, info: VideoSourceInfo, state: VideoReceiveState)
    requires
        recovery.tidy(),
        recovery.streams.dom().insert(info.key).len() <= MAX_VIDEO_STREAM_STATES,
        is_stamped(info),
    ensures
        (RecoveryModel {
            streams: recovery.streams.insert(info.key, state),
            last_observed: Some(info),
            ..recovery
        }).sound(),
{
    let written = RecoveryModel {
        streams: recovery.streams.insert(info.key, state),
        last_observed: Some(info),
        ..recovery
    };
    assert(written.streams.dom() =~= recovery.streams.dom().insert(info.key));
}

/// Noting a frame keeps the receiver's knowledge sound.
pub proof fn lemma_note(recovery: RecoveryModel, info: VideoSourceInfo)
    requires
        recovery.sound(),
    ensures
        recovery.note(info).sound(),
{
    if is_stamped(info) {
        let prepared = recovery.prepare(info.key);
        lemma_prepare(recovery, info.key);
        lemma_written(prepared, info, VideoReceiveState { codec: Some(info.codec), ..prepared.stream(info.key) });
    }
}

/// Observing a frame keeps the receiver's knowledge sound.
pub proof fn lemma_observe(recovery: RecoveryModel, info: VideoSourceInfo, strict_gap_recovery: bool)
    requires
        recovery.sound(),
    ensures
        recovery.observe(info, strict_gap_recovery).0.sound(),
{
    if is_stamped(info) {
        if info.keyframe {
            let retired = recovery.retire_rivals(info);
            lemma_retire(recovery, info);
            let prepared = retired.prepare(info.key);
            lemma_prepare(retired, info.key);
            let answered = prepared.answered(info);
            assert forall|request: Option<VideoStreamKey>| #[trigger] answered.pending_requests.contains_key(
                request,
            ) implies {
                &&& answered.pending_requests[request].retries <= VIDEO_KEYFRAME_RETRY_MAX_ATTEMPTS
                &&& request matches Some(key) ==> {
                    &&& answered.streams.contains_key(key)
                    &&& answered.pending_requests[request].source matches Some(source) && source.key == key
                }
            } by {
                assert(prepared.pending_requests.contains_key(request));
            }
            assert(answered.tidy());
            lemma_written(answered, info, after_keyframe(info));
        } else {
            let prepared = recovery.prepare(info.key);
            lemma_prepare(recovery, info.key);
            lemma_written(prepared, info, after_delta(prepared.stream(info.key), info, strict_gap_recovery));
        }
    }
}

/// Losing references keeps the receiver's knowledge sound.
pub proof fn lemma_lose(recovery: RecoveryModel, key: VideoStreamKey)
    requires
        recovery.sound(),
    ensures
        recovery.lose_all().sound(),
        recovery.lose(key).sound(),
{
    assert(recovery.lose_all().streams.dom() =~= recovery.streams.dom());
    if recovery.streams.contains_key(key) {
        assert(recovery.lose(key).streams.dom() =~= recovery.streams.dom());
    }
}

/// Asking for a keyframe keeps the receiver's knowledge sound.
pub proof fn lemma_request(
    recovery: RecoveryModel,
    now: Timestamp,
    scoped: bool,
    dropped_frames: u64,
    strict_recovery: bool,
)
    requires
        recovery.sound(),
    ensures
        recovery.request(now, scoped, dropped_frames, strict_recovery).0.sound(),
{
    if recovery.last_observed is None {
        assert forall|key: VideoStreamKey| !recovery.shown_streams().contains(key) by {
            if recovery.shown_streams().contains(key) {
                assert(recovery.streams.dom().contains(key));
            }
        }
    }
}

/// Whatever is received or asked for, few streams are known, requests are remembered for known
/// streams only, and no request counts more than the allowed retries.
pub proof fn receiver_state_stays_bounded(
    recovery: RecoveryModel,
    info: VideoSourceInfo,
    strict_gap_recovery: bool,
    now: Timestamp,
    scoped: bool,
    dropped_frames: u64,
    strict_recovery: bool,
)
    requires
        recovery.sound(),
    ensures
        recovery.note(info).sound(),
        recovery.observe(info, strict_gap_recovery).0.sound(),
        recovery.lose_all().sound(),
        recovery.lose(info.key).sound(),
        recovery.request(now, scoped, dropped_frames, strict_recovery).0.sound(),
{
    lemma_note(recovery, info);
    lemma_observe(recovery, info, strict_gap_recovery);
    lemma_lose(recovery, info.key);
    lemma_request(recovery, now, scoped, dropped_frames, strict_recovery);
}

/// A keyframe is shown, and its stream waits for none any more. It is the only stream left on its
/// display, and the requests it answers are no longer pending.
pub proof fn keyframe_ends_recovery(recovery: RecoveryModel, info: VideoSourceInfo, strict_gap_recovery: bool)
    requires
        is_stamped(info),
        info.keyframe,
    ensures
        ({
            let (after, decision) = recovery.observe(info, strict_gap_recovery);
            &&& decision is Accept
            &&& after.streams.contains_key(info.key)
            &&& !after.streams[info.key].awaiting_keyframe
            &&& forall|key: VideoStreamKey| #[trigger] after.streams.contains_key(key) ==> !is_rival(key, info.key)
            &&& forall|request: Option<VideoStreamKey>| #[trigger] after.pending_requests.contains_key(request) ==> (
            after.pending_requests[request].source matches Some(source) ==> !(source.key == info.key && info.frame_id
                > source.frame_id))
        }),
{
}

/// A stream that waits for a keyframe shows no delta, and goes on waiting.
pub proof fn delta_is_suppressed_until_keyframe(
    recovery: RecoveryModel,
    info: VideoSourceInfo,
    strict_gap_recovery: bool,
)
    requires
        is_stamped(info),
        !info.keyframe,
        recovery.streams.contains_key(info.key),
        recovery.streams[info.key].awaiting_keyframe,
    ensures
        ({
            let (after, decision) = recovery.observe(info, strict_gap_recovery);
            decision is Suppress && after.streams.contains_key(info.key)
                && after.streams[info.key].awaiting_keyframe
        }),
{
}

/// With strict recovery a delta is shown only right after the frame before it; a gap silences the
/// stream.
pub proof fn strict_recovery_shows_no_delta_after_a_gap(recovery: RecoveryModel, info: VideoSourceInfo)
    requires
        is_stamped(info),
        !info.keyframe,
        recovery.streams.contains_key(info.key),
    ensures
        ({
            let before = recovery.streams[info.key];
            let (after, decision) = recovery.observe(info, true);
            &&& !(decision is AcceptAfterGap)
            &&& decision is Accept ==> !before.awaiting_keyframe && info.frame_id == before.last_frame_id + 1
            &&& decision is SuppressAfterGap ==> after.streams[info.key].awaiting_keyframe
        }),
{
}

/// What a stream shows never goes back: the number of the last frame shown only rises with deltas.
pub proof fn shown_frames_only_advance(recovery: RecoveryModel, info: VideoSourceInfo, strict_gap_recovery: bool)
    requires
        is_stamped(info),
        !info.keyframe,
        recovery.streams.contains_key(info.key),
    ensures
        ({
            let before = recovery.streams[info.key].last_frame_id;
            let (after, decision) = recovery.observe(info, strict_gap_recovery);
            if decision is Accept || decision is AcceptAfterGap {
                after.streams[info.key].last_frame_id == info.frame_id && info.frame_id > before
            } else {
                after.streams[info.key].last_frame_id == before
            }
        }),
{
}

/// A delta changes nothing for the other streams and the requests, as long as no stream has to be
/// forgotten for it.
pub proof fn streams_recover_independently(
    recovery: RecoveryModel,
    info: VideoSourceInfo,
    strict_gap_recovery: bool,
    other: VideoStreamKey,
)
    requires
        !info.keyframe,
        !recovery.is_full_for(info.key),
        other != info.key,
    ensures
        ({
            let after = recovery.observe(info, strict_gap_recovery).0;
            &&& after.streams.contains_key(other) == recovery.streams.contains_key(other)
            &&& after.streams.contains_key(other) ==> after.streams[other] == recovery.streams[other]
            &&& after.pending_requests == recovery.pending_requests
            &&& after.last_keyframe_request_at == recovery.last_keyframe_request_at
        }),
{
}

/// A keyframe changes nothing for the streams of other displays, as long as no stream has to be
/// forgotten for it.
pub proof fn keyframes_leave_other_displays_alone(
    recovery: RecoveryModel,
    info: VideoSourceInfo,
    strict_gap_recovery: bool,
    other: VideoStreamKey,
)
    requires
        info.keyframe,
        !recovery.retire_rivals(info).is_full_for(info.key),
        other.display != info.key.display,
    ensures
        ({
            let after = recovery.observe(info, strict_gap_recovery).0;
            &&& after.streams.contains_key(other) == recovery.streams.contains_key(other)
            &&& after.streams.contains_key(other) ==> after.streams[other] == recovery.streams[other]
        }),
{
}

/// Losing the references of one stream silences that stream alone.
pub proof fn loss_silences_one_stream(recovery: RecoveryModel, key: VideoStreamKey, other: VideoStreamKey)
    requires
        recovery.streams.contains_key(key),
        recovery.streams.contains_key(other),
        other != key,
    ensures
        recovery.lose(key).streams[key].awaiting_keyframe,
        recovery.lose(key).streams[other] == recovery.streams[other],
        recovery.lose_all().streams[other].awaiting_keyframe,
{
}

/// A frame that does not say which stream it belongs to is shown, and changes nothing.
pub proof fn unstamped_frames_are_shown(recovery: RecoveryModel, info: VideoSourceInfo, strict_gap_recovery: bool)
    requires
        !is_stamped(info),
    ensures
        recovery.observe(info, strict_gap_recovery) == (recovery, VideoReceiveDecision::Accept),
{
}

/// Between two requests for the same stream, or for everything, lies the least interval, unless the
/// second is the first to say that nothing of the stream may be shown.
pub proof fn requests_keep_their_distance(
    recovery: RecoveryModel,
    now: Timestamp,
    scoped: bool,
    dropped_frames: u64,
    strict_recovery: bool,
    later: Timestamp,
    later_dropped_frames: u64,
    later_strict_recovery: bool,
)
    requires
        recovery.sound(),
        recovery.request(now, scoped, dropped_frames, strict_recovery).1 is Some,
        later.spec_since(now) < VIDEO_KEYFRAME_REQUEST_MIN_INTERVAL_NANOS,
    ensures
        ({
            let asked = recovery.request(now, scoped, dropped_frames, strict_recovery).0;
            let key = recovery.request_key(scoped);
            let (again, request) = asked.request(later, scoped, later_dropped_frames, later_strict_recovery);
            request is Some ==> scoped && later_strict_recovery && !asked.pending_requests[key].strict_recovery
                && again.pending_requests[key].strict_recovery
        }),
{
    lemma_request(recovery, now, scoped, dropped_frames, strict_recovery);
    let asked = recovery.request(now, scoped, dropped_frames, strict_recovery).0;
    assert(asked.latest_source() == recovery.latest_source()) by {
        assert(asked.shown_streams() =~= recovery.shown_streams());
    }
}

/// An unanswered request is not repeated before its delay is over, which doubles with each retry and
/// after the last one is the time in which the receiver gives up, unless another stream needs a
/// keyframe now or nothing may be shown any more.
pub proof fn retries_back_off(
    recovery: RecoveryModel,
    now: Timestamp,
    scoped: bool,
    dropped_frames: u64,
    strict_recovery: bool,
)
    requires
        !recovery.is_new_stream(scoped),
        !recovery.is_escalation(scoped, strict_recovery),
        recovery.pending(scoped) matches Some(pending) && now.spec_since(pending.requested_at) < retry_delay(
            pending.retries,
        ),
    ensures
        recovery.request(now, scoped, dropped_frames, strict_recovery) == (recovery, None::<VideoKeyframeRequest>),
{
}

/// Once a pending request says that nothing may be shown, every retry says so too.
pub proof fn strict_request_stays_strict(
    recovery: RecoveryModel,
    now: Timestamp,
    dropped_frames: u64,
    strict_recovery: bool,
)
    requires
        recovery.sound(),
        recovery.pending(true) matches Some(pending) && pending.strict_recovery,
    ensures
        recovery.request(now, true, dropped_frames, strict_recovery).1 matches Some(request) ==> (
        request matches VideoKeyframeRequest::Scoped(refresh) && refresh.strict_recovery),
{
    let key = recovery.request_key(true);
    assert(recovery.pending_requests.contains_key(key));
}

/// Where requests name their stream, no request for everything is made; without a frame to speak of
/// none is made at all, and nothing changes.
pub proof fn scoped_requests_never_fall_back(
    recovery: RecoveryModel,
    now: Timestamp,
    dropped_frames: u64,
    strict_recovery: bool,
)
    ensures
        ({
            let (after, request) = recovery.request(now, true, dropped_frames, strict_recovery);
            &&& request != Some(VideoKeyframeRequest::Legacy)
            &&& recovery.latest_source() is None ==> request is None && after == recovery
        }),
{
}

/// A delta of a stream that has shown a frame and waits for no keyframe is shown if it is the next one.
/// One that is further ahead, by however much, is shown without strict recovery, and the stream goes on;
/// with strict recovery it is not, and the stream waits for a keyframe. One that is behind is not shown
/// and changes nothing of that.
pub proof fn picture_goes_on_over_gaps_unless_strict(
    recovery: RecoveryModel,
    info: VideoSourceInfo,
    strict_gap_recovery: bool,
)
    requires
        info.key.stream_id != 0,
        info.frame_id != 0,
        !info.keyframe,
        recovery.streams.contains_key(info.key),
        recovery.streams[info.key].last_frame_id > 0,
        !recovery.streams[info.key].awaiting_keyframe,
    ensures
        ({
            let last = recovery.streams[info.key].last_frame_id;
            let (after, decision) = recovery.observe(info, strict_gap_recovery);
            let state = after.streams[info.key];
            &&& after.streams.contains_key(info.key)
            &&& after.last_observed == Some(info)
            &&& state.codec == Some(info.codec)
            &&& info.frame_id == last + 1 ==> {
                &&& decision == VideoReceiveDecision::Accept
                &&& state.last_frame_id == info.frame_id
                &&& !state.awaiting_keyframe
            }
            &&& info.frame_id > last + 1 && !strict_gap_recovery ==> {
                &&& decision == VideoReceiveDecision::AcceptAfterGap
                &&& state.last_frame_id == info.frame_id
                &&& !state.awaiting_keyframe
            }
            &&& info.frame_id > last + 1 && strict_gap_recovery ==> {
                &&& decision == VideoReceiveDecision::SuppressAfterGap
                &&& state.last_frame_id == last
                &&& state.awaiting_keyframe
            }
            &&& info.frame_id <= last ==> {
                &&& decision == VideoReceiveDecision::Suppress
                &&& state.last_frame_id == last
                &&& !state.awaiting_keyframe
            }
        }),
{
}

/// A delta of a stream of which nothing was shown yet is not shown, and the stream waits for a keyframe
/// from then on. A stream that waits goes on waiting, with whatever it has shown.
pub proof fn streams_begin_with_a_keyframe(recovery: RecoveryModel, info: VideoSourceInfo, strict_gap_recovery: bool)
    requires
        info.key.stream_id != 0,
        info.frame_id != 0,
        !info.keyframe,
        recovery.streams.contains_key(info.key) ==> recovery.streams[info.key].last_frame_id == 0
            || recovery.streams[info.key].awaiting_keyframe,
    ensures
        ({
            let (after, decision) = recovery.observe(info, strict_gap_recovery);
            &&& decision == VideoReceiveDecision::Suppress
            &&& after.streams.contains_key(info.key)
            &&& after.streams[info.key].awaiting_keyframe
            &&& after.streams[info.key].last_frame_id == if recovery.streams.contains_key(info.key) {
                recovery.streams[info.key].last_frame_id
            } else {
                0
            }
            &&& after.streams[info.key].codec == Some(info.codec)
            &&& after.last_observed == Some(info)
        }),
{
}

/// A keyframe is always shown, whatever its number, and its stream goes on from it. The other streams of
/// its display are forgotten, those of other displays stay as they are. A request stays pending unless it
/// was for a forgotten stream or for an earlier frame of this one. When a stream was forgotten, the time
/// of the last request for everything is forgotten too.
pub proof fn keyframe_starts_its_display_over(recovery: RecoveryModel, info: VideoSourceInfo, strict_gap_recovery: bool)
    requires
        recovery.sound(),
        info.key.stream_id != 0,
        info.frame_id != 0,
        info.keyframe,
        recovery.streams.contains_key(info.key) || recovery.streams.dom().len() < 16,
    ensures
        ({
            let (after, decision) = recovery.observe(info, strict_gap_recovery);
            &&& decision == VideoReceiveDecision::Accept
            &&& after.last_observed == Some(info)
            &&& after.streams.contains_key(info.key)
            &&& after.streams[info.key] == (VideoReceiveState {
                last_frame_id: info.frame_id,
                awaiting_keyframe: false,
                codec: Some(info.codec),
            })
            &&& forall|other: VideoStreamKey|
                other != info.key ==> (#[trigger] after.streams.contains_key(other) <==> (
                recovery.streams.contains_key(other) && other.display != info.key.display))
            &&& forall|other: VideoStreamKey|
                other != info.key && #[trigger] after.streams.contains_key(other) ==> after.streams[other]
                    == recovery.streams[other]
            &&& forall|request: Option<VideoStreamKey>| #[trigger]
                after.pending_requests.contains_key(request) <==> {
                    &&& recovery.pending_requests.contains_key(request)
                    &&& recovery.pending_requests[request].source matches Some(source) ==> if source.key == info.key {
                        info.frame_id <= source.frame_id
                    } else {
                        source.key.display != info.key.display
                    }
                }
            &&& forall|request: Option<VideoStreamKey>| #[trigger]
                after.pending_requests.contains_key(request) ==> after.pending_requests[request]
                    == recovery.pending_requests[request]
            &&& forall|other: VideoStreamKey| #[trigger]
                after.last_keyframe_request_at.contains_key(Some(other)) <==> {
                    &&& recovery.last_keyframe_request_at.contains_key(Some(other))
                    &&& other == info.key || other.display != info.key.display
                }
            &&& after.last_keyframe_request_at.contains_key(None) <==> {
                &&& recovery.last_keyframe_request_at.contains_key(None)
                &&& forall|other: VideoStreamKey| #[trigger]
                    recovery.streams.contains_key(other) ==> other == info.key || other.display != info.key.display
            }
            &&& forall|request: Option<VideoStreamKey>| #[trigger]
                after.last_keyframe_request_at.contains_key(request) ==> after.last_keyframe_request_at[request]
                    == recovery.last_keyframe_request_at[request]
        }),
{
    let retired = recovery.retire_rivals(info);
    vstd::set_lib::lemma_len_subset(retired.streams.dom(), recovery.streams.dom());
    assert(retired.streams.contains_key(info.key) == recovery.streams.contains_key(info.key));
    assert(!retired.is_full_for(info.key));
    assert((exists|key: VideoStreamKey| #[trigger]
        recovery.streams.contains_key(key) && is_rival(key, info.key)) <==> !(forall|other: VideoStreamKey| #[trigger]
        recovery.streams.contains_key(other) ==> other == info.key || other.display != info.key.display)) by {
        if exists|key: VideoStreamKey| #[trigger] recovery.streams.contains_key(key) && is_rival(key, info.key) {
            let key = choose|key: VideoStreamKey| #[trigger]
                recovery.streams.contains_key(key) && is_rival(key, info.key);
            assert(recovery.streams.contains_key(key));
        }
    }
}

/// When sixteen streams are known and a frame of another one comes, exactly one is forgotten, with its
/// requests: the one of the lowest display, and there the one with the lowest number. Everything else stays.
pub proof fn lowest_stream_is_forgotten(recovery: RecoveryModel, info: VideoSourceInfo, strict_gap_recovery: bool)
    requires
        recovery.sound(),
        info.key.stream_id != 0,
        info.frame_id != 0,
        !info.keyframe,
        recovery.streams.dom().len() == 16,
        !recovery.streams.contains_key(info.key),
    ensures
        ({
            let after = recovery.observe(info, strict_gap_recovery).0;
            let noted = recovery.note(info);
            exists|gone: VideoStreamKey| #[trigger]
                recovery.streams.contains_key(gone) && {
                    &&& forall|other: VideoStreamKey|
                        recovery.streams.contains_key(other) ==> gone == other || gone.display < other.display || (
                        gone.display == other.display && gone.stream_id < other.stream_id)
                    &&& after.streams.dom() == recovery.streams.dom().remove(gone).insert(info.key)
                    &&& noted.streams.dom() == after.streams.dom()
                    &&& forall|other: VideoStreamKey|
                        other != info.key && #[trigger] after.streams.contains_key(other) ==> after.streams[other]
                            == recovery.streams[other] && noted.streams[other] == recovery.streams[other]
                    &&& after.pending_requests == recovery.pending_requests.remove(Some(gone))
                    &&& after.last_keyframe_request_at == recovery.last_keyframe_request_at.remove(Some(gone))
                    &&& noted.pending_requests == after.pending_requests
                    &&& noted.last_keyframe_request_at == after.last_keyframe_request_at
                }
        }),
{
    lemma_first_exists(recovery.streams.dom());
    let gone = first_of(recovery.streams.dom());
    let after = recovery.observe(info, strict_gap_recovery).0;
    let noted = recovery.note(info);
    assert(recovery.streams.contains_key(gone));
    assert forall|other: VideoStreamKey| recovery.streams.contains_key(other) implies gone == other || gone.display
        < other.display || (gone.display == other.display && gone.stream_id < other.stream_id) by {
        assert(recovery.streams.dom().contains(other));
        assert(gone.rank() <= other.rank());
    }
    assert(after.streams.dom() =~= recovery.streams.dom().remove(gone).insert(info.key));
    assert(noted.streams.dom() =~= after.streams.dom());
}

/// A frame that is held back is remembered as the last one received, with the codec of its stream; what
/// its stream has shown, whether it waits, the other streams and the requests stay as they are. A frame
/// that does not tell its stream or its number is not remembered at all.
pub proof fn held_frames_are_only_remembered(recovery: RecoveryModel, info: VideoSourceInfo)
    requires
        recovery.streams.contains_key(info.key) || recovery.streams.dom().len() < 16,
    ensures
        ({
            let after = recovery.note(info);
            &&& info.key.stream_id == 0 || info.frame_id == 0 ==> after == recovery
            &&& info.key.stream_id != 0 && info.frame_id != 0 ==> {
                &&& after.last_observed == Some(info)
                &&& after.streams.dom() == recovery.streams.dom().insert(info.key)
                &&& after.streams[info.key].codec == Some(info.codec)
                &&& recovery.streams.contains_key(info.key) ==> {
                    &&& after.streams[info.key].last_frame_id == recovery.streams[info.key].last_frame_id
                    &&& after.streams[info.key].awaiting_keyframe == recovery.streams[info.key].awaiting_keyframe
                }
                &&& !recovery.streams.contains_key(info.key) ==> {
                    &&& after.streams[info.key].last_frame_id == 0
                    &&& !after.streams[info.key].awaiting_keyframe
                }
                &&& forall|other: VideoStreamKey|
                    other != info.key && #[trigger] recovery.streams.contains_key(other) ==> after.streams[other]
                        == recovery.streams[other]
                &&& after.pending_requests == recovery.pending_requests
                &&& after.last_keyframe_request_at == recovery.last_keyframe_request_at
            }
        }),
{
    assert(info.key.stream_id != 0 && info.frame_id != 0 ==> recovery.note(info).streams.dom()
        =~= recovery.streams.dom().insert(info.key));
}

/// Losing references makes the streams wait that are known, and touches nothing else: they keep what they
/// have shown, and no request is made or dropped.
pub proof fn losses_only_make_streams_wait(recovery: RecoveryModel, key: VideoStreamKey)
    ensures
        ({
            let one = recovery.lose(key);
            let all = recovery.lose_all();
            &&& one.streams.dom() == recovery.streams.dom()
            &&& all.streams.dom() == recovery.streams.dom()
            &&& forall|other: VideoStreamKey| #[trigger]
                recovery.streams.contains_key(other) ==> {
                    &&& all.streams[other].awaiting_keyframe
                    &&& all.streams[other].last_frame_id == recovery.streams[other].last_frame_id
                    &&& all.streams[other].codec == recovery.streams[other].codec
                    &&& one.streams[other].awaiting_keyframe == (recovery.streams[other].awaiting_keyframe || other == key)
                    &&& one.streams[other].last_frame_id == recovery.streams[other].last_frame_id
                    &&& one.streams[other].codec == recovery.streams[other].codec
                }
            &&& one.last_observed == recovery.last_observed && all.last_observed == recovery.last_observed
            &&& one.pending_requests == recovery.pending_requests && all.pending_requests == recovery.pending_requests
            &&& one.last_keyframe_request_at == recovery.last_keyframe_request_at
            &&& all.last_keyframe_request_at == recovery.last_keyframe_request_at
        }),
{
    assert(recovery.lose_all().streams.dom() =~= recovery.streams.dom());
    assert(recovery.lose(key).streams.dom() =~= recovery.streams.dom());
}

/// What a request leaves behind: it is pending since now, with the frame that it speaks of, and everything
/// else stays as it was. A request for everything says no more; one that names its stream says which frame
/// was received last, how many were dropped, and whether nothing may be shown.
pub open spec fn is_request_made(
    before: RecoveryModel,
    after: RecoveryModel,
    request: Option<VideoKeyframeRequest>,
    source: VideoSourceInfo,
    now: Timestamp,
    scoped: bool,
    dropped_frames: u64,
    strict_recovery: bool,
    retries: u8,
) -> bool {
    let key = if scoped {
        Some(source.key)
    } else {
        None
    };
    &&& after == (RecoveryModel {
        pending_requests: before.pending_requests.insert(
            key,
            PendingVideoRecovery { source: Some(source), requested_at: now, retries, strict_recovery },
        ),
        last_keyframe_request_at: before.last_keyframe_request_at.insert(key, now),
        ..before
    })
    &&& !scoped ==> request == Some(VideoKeyframeRequest::Legacy)
    &&& scoped && source.key.display >= 0 ==> request == Some(
        VideoKeyframeRequest::Scoped(
            VideoReferenceRefresh {
                display: source.key.display,
                stream_id: source.key.stream_id,
                received_frame_id: source.frame_id,
                dropped_frames,
                strict_recovery,
            },
        ),
    )
    &&& scoped && source.key.display < 0 ==> request is None
}

/// The first time a keyframe is wanted it is asked for at once.
pub proof fn first_request_is_made_at_once(
    recovery: RecoveryModel,
    source: VideoSourceInfo,
    now: Timestamp,
    scoped: bool,
    dropped_frames: u64,
    strict_recovery: bool,
)
    requires
        recovery.sound(),
        recovery.last_observed == Some(source),
        ({
            let key = if scoped {
                Some(source.key)
            } else {
                None
            };
            !recovery.pending_requests.contains_key(key) && !recovery.last_keyframe_request_at.contains_key(key)
        }),
    ensures
        ({
            let (after, request) = recovery.request(now, scoped, dropped_frames, strict_recovery);
            is_request_made(recovery, after, request, source, now, scoped, dropped_frames, strict_recovery, 0)
        }),
{
}

/// A request that was answered by nothing is made again after one second, then after two, after four, and
/// then after ten, from where it starts over; and not before. It is as strict as it was asked to be at any
/// time.
pub proof fn requests_are_repeated_on_time(
    recovery: RecoveryModel,
    source: VideoSourceInfo,
    pending: PendingVideoRecovery,
    now: Timestamp,
    scoped: bool,
    dropped_frames: u64,
    strict_recovery: bool,
)
    requires
        recovery.sound(),
        recovery.last_observed == Some(source),
        ({
            let key = if scoped {
                Some(source.key)
            } else {
                None
            };
            &&& recovery.pending_requests.contains_key(key)
            &&& recovery.pending_requests[key] == pending
            &&& recovery.last_keyframe_request_at.contains_key(key)
            &&& recovery.last_keyframe_request_at[key] == pending.requested_at
        }),
        pending.source matches Some(asked) && asked.key == source.key,
        !scoped || !strict_recovery || pending.strict_recovery,
    ensures
        ({
            let (after, request) = recovery.request(now, scoped, dropped_frames, strict_recovery);
            let waited = now.spec_since(pending.requested_at);
            let seconds = if pending.retries == 0 {
                1int
            } else if pending.retries == 1 {
                2
            } else if pending.retries == 2 {
                4
            } else {
                10
            };
            if waited >= seconds * 1_000_000_000 {
                is_request_made(
                    recovery,
                    after,
                    request,
                    source,
                    now,
                    scoped,
                    dropped_frames,
                    strict_recovery || pending.strict_recovery,
                    if pending.retries >= 3 {
                        0
                    } else {
                        (pending.retries + 1) as u8
                    },
                )
            } else {
                request is None && after == recovery
            }
        }),
{
}

/// As soon as nothing may be shown any more a pending request that does not say so is made again, without
/// waiting, and without counting as a retry.
pub proof fn strictness_does_not_wait(
    recovery: RecoveryModel,
    source: VideoSourceInfo,
    now: Timestamp,
    dropped_frames: u64,
)
    requires
        recovery.sound(),
        recovery.last_observed == Some(source),
        recovery.pending_requests.contains_key(Some(source.key)),
        !recovery.pending_requests[Some(source.key)].strict_recovery,
    ensures
        ({
            let (after, request) = recovery.request(now, true, dropped_frames, true);
            is_request_made(
                recovery,
                after,
                request,
                source,
                now,
                true,
                dropped_frames,
                true,
                recovery.pending_requests[Some(source.key)].retries,
            )
        }),
{
}

/// Without a pending request a second still has to pass since the last one, unless nothing may be shown.
pub proof fn answered_requests_keep_their_distance(
    recovery: RecoveryModel,
    source: VideoSourceInfo,
    now: Timestamp,
    scoped: bool,
    dropped_frames: u64,
    strict_recovery: bool,
)
    requires
        recovery.sound(),
        recovery.last_observed == Some(source),
        !scoped || !strict_recovery,
        ({
            let key = if scoped {
                Some(source.key)
            } else {
                None
            };
            !recovery.pending_requests.contains_key(key) && recovery.last_keyframe_request_at.contains_key(key)
        }),
    ensures
        ({
            let key = if scoped {
                Some(source.key)
            } else {
                None
            };
            let (after, request) = recovery.request(now, scoped, dropped_frames, strict_recovery);
            if now.spec_since(recovery.last_keyframe_request_at[key]) >= 1_000_000_000 {
                is_request_made(recovery, after, request, source, now, scoped, dropped_frames, strict_recovery, 0)
            } else {
                request is None && after == recovery
            }
        }),
{
}

/// Where requests are for everything, another stream that needs a keyframe is asked for at once, and its
/// retries are counted anew.
pub proof fn another_stream_does_not_wait(
    recovery: RecoveryModel,
    source: VideoSourceInfo,
    now: Timestamp,
    dropped_frames: u64,
    strict_recovery: bool,
)
    requires
        recovery.sound(),
        recovery.last_observed == Some(source),
        recovery.pending_requests.contains_key(None),
        recovery.pending_requests[None].source matches Some(asked) && asked.key != source.key,
    ensures
        ({
            let (after, request) = recovery.request(now, false, dropped_frames, strict_recovery);
            is_request_made(recovery, after, request, source, now, false, dropped_frames, strict_recovery, 0)
        }),
{
}

/// A request speaks of the frame that was received last. Before one was received it speaks of the last frame of the
/// last stream, in the order, of which one was shown; and of none if none was.
pub proof fn requests_speak_of_the_last_frame(recovery: RecoveryModel, other: VideoStreamKey)
    requires
        recovery.streams.dom().finite(),
    ensures
        recovery.last_observed is Some ==> recovery.latest_source() == recovery.last_observed,
        recovery.last_observed is None && recovery.streams.contains_key(other) && recovery.streams[other].last_frame_id > 0
            ==> (recovery.latest_source() matches Some(info) && {
            &&& recovery.streams.contains_key(info.key)
            &&& info.frame_id == recovery.streams[info.key].last_frame_id
            &&& info.frame_id > 0
            &&& info.key == other || other.display < info.key.display || (other.display == info.key.display
                && other.stream_id < info.key.stream_id)
        }),
        recovery.last_observed is None ==> (recovery.latest_source() matches Some(info) ==> recovery.streams.contains_key(
            info.key,
        ) && info.frame_id > 0),
{
    let shown = recovery.shown_streams();
    assert(recovery.streams.contains_key(other) && recovery.streams[other].last_frame_id > 0 ==> shown.contains(other));
    if exists|key: VideoStreamKey| shown.contains(key) {
        assert(shown.subset_of(recovery.streams.dom()));
        vstd::set_lib::lemma_len_subset(shown, recovery.streams.dom());
        lemma_last_exists(shown);
        if shown.contains(other) {
            let last = last_of(shown);
            streams_stand_in_order(other, last);
            if other.rank() == last.rank() {
                VideoStreamKey::rank_is_injective(other, last);
            }
        }
    }
}

/// Of the members of a finite set that is not empty one comes last.
proof fn lemma_last_exists(keys: Set<VideoStreamKey>)
    requires
        keys.finite(),
        exists|key: VideoStreamKey| keys.contains(key),
    ensures
        is_last(keys, last_of(keys)),
    decreases keys.len(),
{
    let key = keys.choose();
    let rest = keys.remove(key);
    if exists|other: VideoStreamKey| rest.contains(other) {
        lemma_last_exists(rest);
        let last = last_of(rest);
        if last.rank() <= key.rank() {
            assert(is_last(keys, key));
        } else {
            assert(is_last(keys, last));
        }
    } else {
        assert forall|other: VideoStreamKey| #[trigger] keys.contains(other) implies other.rank() <= key.rank() by {
            if other != key {
                assert(rest.contains(other));
            }
        }
        assert(is_last(keys, key));
    }
}

} // verus!
