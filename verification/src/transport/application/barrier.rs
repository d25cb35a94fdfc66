//! The keyframe barrier, as a mathematical model: deltas wait until the keyframe they refer to has
//! arrived, and leave in the order of their numbers.

use crate::numbers::{at_most_u64, at_most_usize, next_u64};
use crate::ordered::{is_least, kept_entries, least_of, lemma_least_exists, lemma_total_insert, lemma_total_monotone,
    lemma_total_remove, lemma_total_zero, ordered_keys, total};
use crate::outbox::bytes_view;
use crate::time::Timestamp;
use crate::transport::video::{HeldFrameKey, VideoSourceInfo, VideoStreamKey};
use bytes::Bytes;
use vstd::prelude::*;

verus! {

/// How long a delta may wait.
pub const VIDEO_EPOCH_HOLDBACK_TIMEOUT_NANOS: u64 = 2_000_000_000;

/// How many deltas may wait at once, over all streams.
pub const VIDEO_EPOCH_HOLDBACK_MAX_FRAMES: usize = 120;

/// How many bytes may wait at once, over all streams.
pub const VIDEO_EPOCH_HOLDBACK_MAX_BYTES: usize = 16_777_216;

/// How many streams are remembered.
pub const MAX_VIDEO_EPOCH_STREAM_STATES: usize = 8;

/// A delta that waits.
pub struct HeldVideoFrame {
    pub info: VideoSourceInfo,
    pub payload: Bytes,
    pub received_at: Timestamp,
    pub counted_held: bool,
}

impl HeldVideoFrame {
    /// The delta has not yet waited too long.
    pub open spec fn spec_is_fresh(self, now: Timestamp) -> bool {
        now.spec_since(self.received_at) < VIDEO_EPOCH_HOLDBACK_TIMEOUT_NANOS
    }

    /// Whether the delta has not yet waited too long.
    pub fn is_fresh(&self, now: Timestamp) -> (fresh: bool)
        ensures
            fresh == self.spec_is_fresh(now),
    {
        now.since(self.received_at) < VIDEO_EPOCH_HOLDBACK_TIMEOUT_NANOS
    }
}

/// How many bytes a waiting delta takes.
pub open spec fn frame_bytes() -> spec_fn(HeldVideoFrame) -> nat {
    |frame: HeldVideoFrame| bytes_view(frame.payload).len()
}

/// A stream, as far as the barrier knows it.
#[verifier::ext_equal]
pub struct StreamModel {
    /// The number of the last keyframe, zero before the first.
    pub current_epoch: u64,
    /// The number of the frame that is due, zero before the first keyframe.
    pub next_frame_id: u64,
    /// The deltas that wait.
    pub pending: Map<HeldFrameKey, HeldVideoFrame>,
    /// Since when the frame that is due has been missed.
    pub gap_started_at: Option<Timestamp>,
    /// When the stream was last touched, counted in touches of any stream.
    pub last_activity: u64,
}

/// A stream nothing is known of.
pub open spec fn new_stream() -> StreamModel {
    StreamModel {
        current_epoch: 0,
        next_frame_id: 0,
        pending: Map::empty(),
        gap_started_at: None,
        last_activity: 0,
    }
}

impl StreamModel {
    /// The place of the frame that is due.
    pub open spec fn due(self) -> HeldFrameKey {
        HeldFrameKey { reference_epoch: self.current_epoch, frame_id: self.next_frame_id }
    }

    /// A delta of the current keyframe with this number waits, and it comes after the one that is due.
    pub open spec fn waits_later(self, frame_id: u64) -> bool {
        &&& self.pending.contains_key(HeldFrameKey { reference_epoch: self.current_epoch, frame_id })
        &&& frame_id > self.next_frame_id
    }

    /// The smallest number that waits later.
    pub open spec fn is_next_available(self, frame_id: u64) -> bool {
        &&& self.waits_later(frame_id)
        &&& forall|other: u64| #[trigger] self.waits_later(other) ==> frame_id <= other
    }

    /// The number of the delta of the current keyframe that waits right after the gap.
    pub open spec fn next_available(self) -> Option<u64> {
        if exists|frame_id: u64| self.waits_later(frame_id) {
            Some(choose|frame_id: u64| self.is_next_available(frame_id))
        } else {
            None
        }
    }

    /// The frame at this place is one that the stream has already moved past.
    pub open spec fn is_stale(self, key: HeldFrameKey) -> bool {
        ||| key.reference_epoch < self.current_epoch
        ||| key.reference_epoch == self.current_epoch && self.next_frame_id != 0 && key.frame_id < self.next_frame_id
    }

    /// The frame at this place is exactly the one that is due.
    pub open spec fn is_in_turn(self, key: HeldFrameKey) -> bool {
        self.next_frame_id != 0 && key == self.due()
    }

    /// Each delta waits under its own stream and number, refers to a keyframe, and is not stale.
    pub open spec fn consistent(self, stream: VideoStreamKey) -> bool {
        &&& self.pending.dom().finite()
        &&& forall|key: HeldFrameKey| #[trigger] self.pending.contains_key(key) ==> {
            &&& self.pending[key].info.key == stream
            &&& self.pending[key].info.frame_id == key.frame_id
            &&& key.reference_epoch != 0
            &&& !self.is_stale(key)
        }
    }
}

/// If some number waits later, there is a smallest one.
pub proof fn lemma_next_available(stream: StreamModel, witness: u64)
    requires
        stream.waits_later(witness),
    ensures
        stream.next_available() matches Some(frame_id) && stream.is_next_available(frame_id),
    decreases witness,
{
    if !stream.is_next_available(witness) {
        let smaller = choose|other: u64| #[trigger] stream.waits_later(other) && other < witness;
        lemma_next_available(stream, smaller);
    }
}

/// What leaves a stream, and the stream that is left.
#[verifier::ext_equal]
pub struct Drained {
    pub stream: StreamModel,
    /// The frames that may be shown, in order.
    pub ready: Seq<(VideoSourceInfo, Bytes)>,
    /// How many of them had been counted as held.
    pub released: nat,
    /// How many missing frames were given up.
    pub skipped: nat,
}

/// Lets out the deltas that are due. The due one leaves as soon as it is there; a missing one is
/// given up once it has been missed for the reorder window, and the next one that waits is due.
pub open spec fn drain(stream: StreamModel, now: Timestamp, window: nat) -> Drained
    decreases
            stream.pending.dom().len(),
            (if stream.pending.contains_key(stream.due()) {
                0nat
            } else {
                1nat
            }),
    when stream.pending.dom().finite()
{
    if stream.current_epoch == 0 || stream.next_frame_id == 0 {
        Drained { stream, ready: Seq::empty(), released: 0, skipped: 0 }
    } else if stream.pending.contains_key(stream.due()) {
        let frame = stream.pending[stream.due()];
        let rest = drain(
            StreamModel {
                next_frame_id: next_u64(stream.next_frame_id),
                pending: stream.pending.remove(stream.due()),
                gap_started_at: None,
                ..stream
            },
            now,
            window,
        );
        Drained {
            stream: rest.stream,
            ready: seq![(frame.info, frame.payload)] + rest.ready,
            released: rest.released + (if frame.counted_held {
                1nat
            } else {
                0nat
            }),
            skipped: rest.skipped,
        }
    } else {
        match stream.next_available() {
            None => Drained {
                stream: StreamModel { gap_started_at: None, ..stream },
                ready: Seq::empty(),
                released: 0,
                skipped: 0,
            },
            Some(next) => {
                let missed_since = match stream.gap_started_at {
                    Some(started) => started,
                    None => now,
                };
                if now.spec_since(missed_since) < window {
                    Drained {
                        stream: StreamModel { gap_started_at: Some(missed_since), ..stream },
                        ready: Seq::empty(),
                        released: 0,
                        skipped: 0,
                    }
                } else {
                    proof {
                        let witness = choose|frame_id: u64| stream.waits_later(frame_id);
                        lemma_next_available(stream, witness);
                    }
                    let rest = drain(StreamModel { next_frame_id: next, gap_started_at: None, ..stream }, now, window);
                    Drained { skipped: (rest.skipped + (next - stream.next_frame_id)) as nat, ..rest }
                }
            },
        }
    }
}

/// A stream after deltas that are due have left and deltas that waited too long were dropped.
#[verifier::ext_equal]
pub struct StreamExpiry {
    pub drained: Drained,
    pub stream: StreamModel,
    pub timed_out: nat,
}

/// The deltas of `pending` that have not yet waited too long.
pub open spec fn fresh_frames(pending: Map<HeldFrameKey, HeldVideoFrame>, now: Timestamp) -> Map<
    HeldFrameKey,
    HeldVideoFrame,
> {
    kept_entries(pending, |key: HeldFrameKey, frame: HeldVideoFrame| frame.spec_is_fresh(now))
}

/// Lets out what is due and drops what waited too long.
pub open spec fn expire_stream(stream: StreamModel, now: Timestamp, window: nat) -> StreamExpiry {
    let drained = drain(stream, now, window);
    let fresh = fresh_frames(drained.stream.pending, now);
    StreamExpiry {
        drained,
        stream: StreamModel { pending: fresh, ..drained.stream },
        timed_out: (drained.stream.pending.dom().len() - fresh.dom().len()) as nat,
    }
}

/// What one step of the barrier hands out and reports.
#[verifier::ext_equal]
pub struct OutcomeModel {
    pub ready: Seq<(VideoSourceInfo, Bytes)>,
    pub held_frames: nat,
    pub released_frames: nat,
    pub recovery_required: bool,
    pub strict_recovery_required: bool,
    pub gap_events: nat,
    pub gap_skipped_frames: nat,
    pub timed_out_frames: nat,
    pub overflowed_frames: nat,
}

/// Nothing is handed out and nothing is reported.
pub open spec fn no_outcome() -> OutcomeModel {
    OutcomeModel {
        ready: Seq::empty(),
        held_frames: 0,
        released_frames: 0,
        recovery_required: false,
        strict_recovery_required: false,
        gap_events: 0,
        gap_skipped_frames: 0,
        timed_out_frames: 0,
        overflowed_frames: 0,
    }
}

impl OutcomeModel {
    /// With what a stream let out. Given-up frames ask for a keyframe.
    pub open spec fn absorb(self, drained: Drained) -> OutcomeModel {
        let gap = drained.skipped > 0;
        OutcomeModel {
            ready: self.ready + drained.ready,
            released_frames: at_most_usize(self.released_frames + drained.released),
            recovery_required: self.recovery_required || gap,
            gap_events: if gap {
                at_most_usize(self.gap_events + 1)
            } else {
                self.gap_events
            },
            gap_skipped_frames: if gap {
                at_most_u64(self.gap_skipped_frames + drained.skipped)
            } else {
                self.gap_skipped_frames
            },
            ..self
        }
    }

    /// With what a stream let out and with the deltas that waited too long. Those call for a
    /// keyframe without which nothing may be shown.
    pub open spec fn absorb_expiry(self, expiry: StreamExpiry) -> OutcomeModel {
        let drained = self.absorb(expiry.drained);
        let timed_out_frames = at_most_usize(drained.timed_out_frames + expiry.timed_out);
        OutcomeModel {
            timed_out_frames,
            recovery_required: drained.recovery_required || timed_out_frames > 0,
            strict_recovery_required: drained.strict_recovery_required || timed_out_frames > 0,
            ..drained
        }
    }

    /// With so many waiting deltas dropped for want of room.
    pub open spec fn overflow(self, frames: nat) -> OutcomeModel {
        OutcomeModel {
            overflowed_frames: at_most_usize(self.overflowed_frames + frames),
            recovery_required: true,
            strict_recovery_required: true,
            ..self
        }
    }
}

/// All streams behind the barrier.
#[verifier::ext_equal]
pub struct HoldbackModel {
    pub streams: Map<VideoStreamKey, StreamModel>,
    /// How often a stream was touched.
    pub activity_generation: u64,
}

/// How many deltas of a stream wait.
pub open spec fn stream_frames() -> spec_fn(StreamModel) -> nat {
    |stream: StreamModel| stream.pending.dom().len()
}

/// When a stream was last touched.
pub open spec fn stream_activity() -> spec_fn(StreamModel) -> u64 {
    |stream: StreamModel| stream.last_activity
}

/// How many bytes of a stream wait.
pub open spec fn stream_bytes() -> spec_fn(StreamModel) -> nat {
    |stream: StreamModel| total(stream.pending, frame_bytes())
}

/// What expiring the streams reports, taken in the order of `keys`.
pub open spec fn expiry_outcome(
    streams: Map<VideoStreamKey, StreamModel>,
    keys: Seq<VideoStreamKey>,
    now: Timestamp,
    window: nat,
) -> OutcomeModel
    decreases keys.len(),
{
    if keys.len() == 0 {
        no_outcome()
    } else {
        expiry_outcome(streams, keys.drop_last(), now, window).absorb_expiry(
            expire_stream(streams[keys.last()], now, window),
        )
    }
}

impl HoldbackModel {
    /// How many deltas wait.
    pub open spec fn frames(self) -> nat {
        total(self.streams, stream_frames())
    }

    /// How many bytes wait.
    pub open spec fn bytes(self) -> nat {
        total(self.streams, stream_bytes())
    }

    /// The stream under this key, new if there is none.
    pub open spec fn stream(self, key: VideoStreamKey) -> StreamModel {
        if self.streams.contains_key(key) {
            self.streams[key]
        } else {
            new_stream()
        }
    }

    /// The same streams, with one written.
    pub open spec fn with_stream(self, key: VideoStreamKey, stream: StreamModel) -> HoldbackModel {
        HoldbackModel { streams: self.streams.insert(key, stream), ..self }
    }

    /// Few streams are known, and little waits.
    pub open spec fn bounded(self) -> bool {
        &&& self.streams.dom().finite()
        &&& self.streams.dom().len() <= MAX_VIDEO_EPOCH_STREAM_STATES
        &&& self.frames() <= VIDEO_EPOCH_HOLDBACK_MAX_FRAMES
        &&& self.bytes() <= VIDEO_EPOCH_HOLDBACK_MAX_BYTES
    }

    /// Every stream is consistent.
    pub open spec fn consistent(self) -> bool {
        forall|key: VideoStreamKey| #[trigger] self.streams.contains_key(key) ==> self.streams[key].consistent(key)
    }

    /// Every stream lets out what is due and drops what waited too long, in the order of the keys.
    pub open spec fn expire(self, now: Timestamp, window: nat) -> (HoldbackModel, OutcomeModel) {
        (
            HoldbackModel {
                streams: self.streams.map_values(|stream: StreamModel| expire_stream(stream, now, window).stream),
                ..self
            },
            expiry_outcome(self.streams, ordered_keys(self.streams.dom()), now, window),
        )
    }

    /// No stream was touched before this one; of two touched at once it is the one whose key comes
    /// first.
    pub open spec fn is_oldest(self, key: VideoStreamKey) -> bool {
        is_least(self.streams, stream_activity(), key)
    }

    /// The stream that was not touched for the longest time.
    pub open spec fn oldest(self) -> VideoStreamKey {
        least_of(self.streams, stream_activity())
    }

    /// A stream that is not known yet finds no room.
    pub open spec fn is_full_for(self, key: VideoStreamKey) -> bool {
        !self.streams.contains_key(key) && self.streams.dom().len() >= MAX_VIDEO_EPOCH_STREAM_STATES
    }

    /// Makes room for the stream if it is new and there is none, and marks it as touched.
    pub open spec fn prepare(self, key: VideoStreamKey) -> HoldbackModel {
        let generation = next_u64(self.activity_generation);
        let kept = HoldbackModel {
            streams: if self.is_full_for(key) {
                self.streams.remove(self.oldest())
            } else {
                self.streams
            },
            activity_generation: generation,
        };
        kept.with_stream(key, StreamModel { last_activity: generation, ..kept.stream(key) })
    }

    /// What making room reports: the deltas of the stream that had to go.
    pub open spec fn prepare_outcome(self, key: VideoStreamKey, outcome: OutcomeModel) -> OutcomeModel {
        let lost = self.streams[self.oldest()].pending.dom().len();
        if self.is_full_for(key) && lost > 0 {
            outcome.overflow(lost)
        } else {
            outcome
        }
    }

    /// No stream holds a delta back.
    pub open spec fn cleared(self) -> HoldbackModel {
        HoldbackModel {
            streams: self.streams.map_values(
                |stream: StreamModel| StreamModel { pending: Map::empty(), gap_started_at: None, ..stream },
            ),
            ..self
        }
    }

    /// The streams that stay when `key` starts over: all but the others on its display.
    pub open spec fn without_rivals(self, key: VideoStreamKey) -> HoldbackModel {
        HoldbackModel {
            streams: kept_entries(
                self.streams,
                |other: VideoStreamKey, stream: StreamModel|
                    other.display != key.display || other.stream_id == key.stream_id,
            ),
            ..self
        }
    }

    /// One stream lets out what is due.
    pub open spec fn drain_stream(
        self,
        outcome: OutcomeModel,
        key: VideoStreamKey,
        now: Timestamp,
        window: nat,
    ) -> (HoldbackModel, OutcomeModel) {
        let drained = drain(self.streams[key], now, window);
        (self.with_stream(key, drained.stream), outcome.absorb(drained))
    }

    /// A delta arrives for a touched stream. One that comes too late or comes twice is dropped. If
    /// too much would wait, everything that waits is dropped.
    pub open spec fn with_prepared_delta(
        self,
        outcome: OutcomeModel,
        info: VideoSourceInfo,
        reference_epoch: u64,
        payload: Bytes,
        now: Timestamp,
        window: nat,
    ) -> (HoldbackModel, OutcomeModel) {
        let stream = self.streams[info.key];
        let place = HeldFrameKey { reference_epoch, frame_id: info.frame_id };
        if stream.is_stale(place) || stream.pending.contains_key(place) {
            (self, outcome)
        } else {
            let held = held_delta(self, info, reference_epoch, payload, now);
            let counted = OutcomeModel {
                held_frames: if !stream.is_in_turn(place) {
                    at_most_usize(outcome.held_frames + 1)
                } else {
                    outcome.held_frames
                },
                ..outcome
            };
            if held.frames() > VIDEO_EPOCH_HOLDBACK_MAX_FRAMES || held.bytes() > VIDEO_EPOCH_HOLDBACK_MAX_BYTES {
                (held.cleared(), counted.overflow(held.frames()))
            } else {
                held.drain_stream(counted, info.key, now, window)
            }
        }
    }

    /// A delta arrives that refers to the keyframe `reference_epoch`. One that refers to none
    /// calls for a keyframe.
    pub open spec fn with_delta(
        self,
        info: VideoSourceInfo,
        reference_epoch: u64,
        payload: Bytes,
        now: Timestamp,
        window: nat,
    ) -> (HoldbackModel, OutcomeModel) {
        let (expired, reported) = self.expire(now, window);
        if reference_epoch == 0 {
            (expired, OutcomeModel { recovery_required: true, strict_recovery_required: true, ..reported })
        } else {
            expired.prepare(info.key).with_prepared_delta(
                expired.prepare_outcome(info.key, reported),
                info,
                reference_epoch,
                payload,
                now,
                window,
            )
        }
    }

    /// A keyframe arrives for a touched stream: it leaves at once, and the deltas that refer to it
    /// follow as they are due.
    pub open spec fn with_prepared_keyframe(
        self,
        outcome: OutcomeModel,
        info: VideoSourceInfo,
        payload: Bytes,
        now: Timestamp,
        window: nat,
    ) -> (HoldbackModel, OutcomeModel) {
        self.with_stream(info.key, restarted(self.streams[info.key], info)).drain_stream(
            OutcomeModel { ready: outcome.ready.push((info, payload)), ..outcome },
            info.key,
            now,
            window,
        )
    }

    /// A keyframe arrives. The other streams of its display are forgotten.
    pub open spec fn with_keyframe(
        self,
        info: VideoSourceInfo,
        payload: Bytes,
        now: Timestamp,
        window: nat,
    ) -> (HoldbackModel, OutcomeModel) {
        let (expired, reported) = self.without_rivals(info.key).expire(now, window);
        expired.prepare(info.key).with_prepared_keyframe(
            expired.prepare_outcome(info.key, reported),
            info,
            payload,
            now,
            window,
        )
    }
}

/// The barrier with one more delta waiting.
pub open spec fn held_delta(
    prepared: HoldbackModel,
    info: VideoSourceInfo,
    reference_epoch: u64,
    payload: Bytes,
    now: Timestamp,
) -> HoldbackModel {
    let stream = prepared.streams[info.key];
    let place = HeldFrameKey { reference_epoch, frame_id: info.frame_id };
    let frame = HeldVideoFrame { info, payload, received_at: now, counted_held: !stream.is_in_turn(place) };
    prepared.with_stream(info.key, StreamModel { pending: stream.pending.insert(place, frame), ..stream })
}

/// The deltas that may still leave after the keyframe `epoch`.
pub open spec fn follows(epoch: u64) -> spec_fn(HeldFrameKey, HeldVideoFrame) -> bool {
    |key: HeldFrameKey, frame: HeldVideoFrame| key.reference_epoch >= epoch && key.frame_id > epoch
}

/// A stream that starts over at a keyframe.
pub open spec fn restarted(stream: StreamModel, info: VideoSourceInfo) -> StreamModel {
    StreamModel {
        current_epoch: info.frame_id,
        next_frame_id: next_u64(info.frame_id),
        gap_started_at: None,
        pending: kept_entries(stream.pending, follows(info.frame_id)),
        ..stream
    }
}

/// What draining does to a stream: it gives up no more frames than it moves past, it only takes
/// deltas out, and it lets out at most as many as waited.
pub proof fn lemma_drain(stream: StreamModel, now: Timestamp, window: nat)
    requires
        stream.pending.dom().finite(),
    ensures
        ({
            let drained = drain(stream, now, window);
            &&& stream.next_frame_id + drained.skipped <= drained.stream.next_frame_id
            &&& drained.stream.pending.dom().subset_of(stream.pending.dom())
            &&& drained.stream.pending.dom().finite()
            &&& forall|key: HeldFrameKey| #[trigger] drained.stream.pending.contains_key(key)
                ==> drained.stream.pending[key] == stream.pending[key]
            &&& drained.ready.len() + drained.stream.pending.dom().len() == stream.pending.dom().len()
            &&& drained.released <= drained.ready.len()
            &&& drained.stream.current_epoch == stream.current_epoch
            &&& drained.stream.last_activity == stream.last_activity
        }),
    decreases
            stream.pending.dom().len(),
            (if stream.pending.contains_key(stream.due()) {
                0nat
            } else {
                1nat
            }),
{
    if stream.current_epoch == 0 || stream.next_frame_id == 0 {
    } else if stream.pending.contains_key(stream.due()) {
        let next = StreamModel {
            next_frame_id: next_u64(stream.next_frame_id),
            pending: stream.pending.remove(stream.due()),
            gap_started_at: None,
            ..stream
        };
        lemma_drain(next, now, window);
    } else if exists|frame_id: u64| stream.waits_later(frame_id) {
        let witness = choose|frame_id: u64| stream.waits_later(frame_id);
        lemma_next_available(stream, witness);
        let next = StreamModel {
            next_frame_id: stream.next_available()->0,
            gap_started_at: None,
            ..stream
        };
        let missed_since = match stream.gap_started_at {
            Some(started) => started,
            None => now,
        };
        if now.spec_since(missed_since) >= window {
            lemma_drain(next, now, window);
        }
    }
}

/// Draining keeps a stream consistent.
pub proof fn lemma_drain_consistent(stream: StreamModel, now: Timestamp, window: nat, key: VideoStreamKey)
    requires
        stream.consistent(key),
    ensures
        drain(stream, now, window).stream.consistent(key),
    decreases
            stream.pending.dom().len(),
            (if stream.pending.contains_key(stream.due()) {
                0nat
            } else {
                1nat
            }),
{
    if stream.current_epoch == 0 || stream.next_frame_id == 0 {
    } else if stream.pending.contains_key(stream.due()) {
        let next = StreamModel {
            next_frame_id: next_u64(stream.next_frame_id),
            pending: stream.pending.remove(stream.due()),
            gap_started_at: None,
            ..stream
        };
        assert(next.consistent(key)) by {
            assert forall|other: HeldFrameKey| #[trigger] next.pending.contains_key(other) implies !next.is_stale(
                other,
            ) by {
                assert(stream.pending.contains_key(other));
                assert(other != stream.due());
            }
        }
        lemma_drain_consistent(next, now, window, key);
    } else if exists|frame_id: u64| stream.waits_later(frame_id) {
        let witness = choose|frame_id: u64| stream.waits_later(frame_id);
        lemma_next_available(stream, witness);
        let next = StreamModel {
            next_frame_id: stream.next_available()->0,
            gap_started_at: None,
            ..stream
        };
        assert(next.consistent(key)) by {
            assert forall|other: HeldFrameKey| #[trigger] next.pending.contains_key(other) implies !next.is_stale(
                other,
            ) by {
                assert(stream.pending.contains_key(other));
                if other.reference_epoch == stream.current_epoch {
                    assert(other != stream.due());
                    assert(stream.waits_later(other.frame_id));
                }
            }
        }
        let missed_since = match stream.gap_started_at {
            Some(started) => started,
            None => now,
        };
        if now.spec_since(missed_since) >= window {
            lemma_drain_consistent(next, now, window, key);
        }
    }
}

/// A stream that holds back a part of what another one holds back holds back no more.
proof fn lemma_lighter_stream(part: StreamModel, whole: StreamModel)
    requires
        whole.pending.dom().finite(),
        part.pending.dom().subset_of(whole.pending.dom()),
        forall|key: HeldFrameKey| #[trigger] part.pending.contains_key(key) ==> part.pending[key] == whole.pending[key],
    ensures
        part.pending.dom().finite(),
        stream_frames()(part) <= stream_frames()(whole),
        stream_bytes()(part) <= stream_bytes()(whole),
{
    vstd::set_lib::lemma_len_subset(part.pending.dom(), whole.pending.dom());
    lemma_total_monotone(part.pending, whole.pending, frame_bytes());
}

/// What expiring does to a stream: some deltas leave or are dropped, the others stay.
pub proof fn lemma_expire_stream(stream: StreamModel, now: Timestamp, window: nat, key: VideoStreamKey)
    requires
        stream.consistent(key),
    ensures
        ({
            let expired = expire_stream(stream, now, window);
            &&& expired.stream.consistent(key)
            &&& stream_frames()(expired.stream) <= stream_frames()(stream)
            &&& stream_bytes()(expired.stream) <= stream_bytes()(stream)
            &&& expired.drained.ready.len() + expired.timed_out + expired.stream.pending.dom().len()
                == stream.pending.dom().len()
            &&& expired.stream.current_epoch == stream.current_epoch
            &&& expired.stream.last_activity == stream.last_activity
        }),
{
    lemma_drain(stream, now, window);
    lemma_drain_consistent(stream, now, window, key);
    let expired = expire_stream(stream, now, window);
    vstd::set_lib::lemma_len_subset(expired.stream.pending.dom(), expired.drained.stream.pending.dom());
    assert forall|place: HeldFrameKey| #[trigger] expired.stream.pending.contains_key(
        place,
    ) implies !expired.stream.is_stale(place) && expired.stream.pending[place] == stream.pending[place] by {
        assert(expired.drained.stream.pending.contains_key(place));
    }
    lemma_lighter_stream(expired.stream, stream);
}

/// Streams that hold back no more than the streams of a bounded barrier are bounded.
proof fn lemma_lighter(part: HoldbackModel, whole: HoldbackModel)
    requires
        whole.bounded(),
        part.streams.dom().subset_of(whole.streams.dom()),
        forall|key: VideoStreamKey| #[trigger] part.streams.contains_key(key) ==> {
            &&& stream_frames()(part.streams[key]) <= stream_frames()(whole.streams[key])
            &&& stream_bytes()(part.streams[key]) <= stream_bytes()(whole.streams[key])
        },
    ensures
        part.bounded(),
{
    vstd::set_lib::lemma_len_subset(part.streams.dom(), whole.streams.dom());
    lemma_total_monotone(part.streams, whole.streams, stream_frames());
    lemma_total_monotone(part.streams, whole.streams, stream_bytes());
}

/// Expiring keeps the barrier bounded and consistent.
pub proof fn lemma_expire(holdback: HoldbackModel, now: Timestamp, window: nat)
    requires
        holdback.bounded(),
        holdback.consistent(),
    ensures
        holdback.expire(now, window).0.bounded(),
        holdback.expire(now, window).0.consistent(),
{
    let expired = holdback.expire(now, window).0;
    assert forall|key: VideoStreamKey| #[trigger] expired.streams.contains_key(key) implies {
        &&& expired.streams[key].consistent(key)
        &&& stream_frames()(expired.streams[key]) <= stream_frames()(holdback.streams[key])
        &&& stream_bytes()(expired.streams[key]) <= stream_bytes()(holdback.streams[key])
    } by {
        assert(holdback.streams.contains_key(key));
        lemma_expire_stream(holdback.streams[key], now, window, key);
    }
    lemma_lighter(expired, holdback);
}

/// Touching a stream keeps the barrier bounded and consistent.
pub proof fn lemma_prepare(holdback: HoldbackModel, key: VideoStreamKey)
    requires
        holdback.bounded(),
        holdback.consistent(),
    ensures
        holdback.prepare(key).bounded(),
        holdback.prepare(key).consistent(),
        holdback.prepare(key).streams.contains_key(key),
        holdback.is_full_for(key) ==> holdback.is_oldest(holdback.oldest()),
{
    let full = holdback.is_full_for(key);
    if full {
        lemma_least_exists(holdback.streams, stream_activity());
    }
    let kept = HoldbackModel {
        streams: if full {
            holdback.streams.remove(holdback.oldest())
        } else {
            holdback.streams
        },
        activity_generation: next_u64(holdback.activity_generation),
    };
    lemma_lighter(kept, holdback);
    let touched = StreamModel { last_activity: kept.activity_generation, ..kept.stream(key) };
    let prepared = holdback.prepare(key);
    assert(prepared == kept.with_stream(key, touched));
    lemma_total_insert(kept.streams, key, touched, stream_frames());
    lemma_total_insert(kept.streams, key, touched, stream_bytes());
    if kept.streams.contains_key(key) {
        lemma_total_remove(kept.streams, key, stream_frames());
        lemma_total_remove(kept.streams, key, stream_bytes());
        assert(prepared.streams.dom() =~= kept.streams.dom());
    } else {
        assert(touched.pending.dom().len() == 0);
        lemma_total_zero(touched.pending, frame_bytes());
    }
    assert forall|other: VideoStreamKey| #[trigger] prepared.streams.contains_key(
        other,
    ) implies prepared.streams[other].consistent(other) by {
        if other != key {
            assert(holdback.streams.contains_key(other));
        } else if kept.streams.contains_key(key) {
            assert(holdback.streams.contains_key(key));
            assert(holdback.streams[key].consistent(key));
            assert(touched.consistent(key)) by {
                assert forall|place: HeldFrameKey| #[trigger] touched.pending.contains_key(place) implies {
                    &&& touched.pending[place].info.key == key
                    &&& touched.pending[place].info.frame_id == place.frame_id
                    &&& place.reference_epoch != 0
                    &&& !touched.is_stale(place)
                } by {
                    assert(holdback.streams[key].pending.contains_key(place));
                }
            }
        }
    }
}

/// With nothing held back, the barrier is bounded and consistent.
pub proof fn lemma_cleared(holdback: HoldbackModel)
    requires
        holdback.streams.dom().finite(),
        holdback.streams.dom().len() <= MAX_VIDEO_EPOCH_STREAM_STATES,
    ensures
        holdback.cleared().bounded(),
        holdback.cleared().consistent(),
        holdback.cleared().frames() == 0,
        holdback.cleared().bytes() == 0,
{
    let cleared = holdback.cleared();
    assert(cleared.streams.dom() =~= holdback.streams.dom());
    assert forall|key: VideoStreamKey| #[trigger] cleared.streams.contains_key(key) implies stream_frames()(
        cleared.streams[key],
    ) == 0 && stream_bytes()(cleared.streams[key]) == 0 by {
        assert(holdback.streams.contains_key(key));
        lemma_total_zero(cleared.streams[key].pending, frame_bytes());
    }
    lemma_total_zero(cleared.streams, stream_frames());
    lemma_total_zero(cleared.streams, stream_bytes());
}

/// Writing a lighter, consistent stream in place of another keeps the barrier bounded and consistent.
pub proof fn lemma_with_lighter_stream(holdback: HoldbackModel, key: VideoStreamKey, stream: StreamModel)
    requires
        holdback.bounded(),
        holdback.consistent(),
        holdback.streams.contains_key(key),
        stream.consistent(key),
        stream_frames()(stream) <= stream_frames()(holdback.streams[key]),
        stream_bytes()(stream) <= stream_bytes()(holdback.streams[key]),
    ensures
        holdback.with_stream(key, stream).bounded(),
        holdback.with_stream(key, stream).consistent(),
{
    let written = holdback.with_stream(key, stream);
    assert forall|other: VideoStreamKey| #[trigger] written.streams.contains_key(other) implies {
        &&& written.streams[other].consistent(other)
        &&& stream_frames()(written.streams[other]) <= stream_frames()(holdback.streams[other])
        &&& stream_bytes()(written.streams[other]) <= stream_bytes()(holdback.streams[other])
    } by {
        assert(holdback.streams.contains_key(other));
    }
    lemma_lighter(written, holdback);
}

/// Letting out what is due keeps the barrier bounded and consistent.
pub proof fn lemma_drain_stream(
    holdback: HoldbackModel,
    outcome: OutcomeModel,
    key: VideoStreamKey,
    now: Timestamp,
    window: nat,
)
    requires
        holdback.bounded(),
        holdback.consistent(),
        holdback.streams.contains_key(key),
    ensures
        holdback.drain_stream(outcome, key, now, window).0.bounded(),
        holdback.drain_stream(outcome, key, now, window).0.consistent(),
{
    let stream = holdback.streams[key];
    lemma_drain(stream, now, window);
    lemma_drain_consistent(stream, now, window, key);
    lemma_lighter_stream(drain(stream, now, window).stream, stream);
    lemma_with_lighter_stream(holdback, key, drain(stream, now, window).stream);
}

/// Forgetting the other streams of a display keeps the barrier bounded and consistent.
pub proof fn lemma_without_rivals(holdback: HoldbackModel, key: VideoStreamKey)
    requires
        holdback.bounded(),
        holdback.consistent(),
    ensures
        holdback.without_rivals(key).bounded(),
        holdback.without_rivals(key).consistent(),
{
    let alone = holdback.without_rivals(key);
    assert forall|other: VideoStreamKey| #[trigger] alone.streams.contains_key(
        other,
    ) implies alone.streams[other].consistent(other) by {
        assert(holdback.streams.contains_key(other));
    }
    lemma_lighter(alone, holdback);
}

/// The barrier stays bounded and consistent when time passes, when a delta arrives and when a
/// keyframe arrives.
pub proof fn barrier_stays_bounded(
    holdback: HoldbackModel,
    info: VideoSourceInfo,
    reference_epoch: u64,
    payload: Bytes,
    now: Timestamp,
    window: nat,
)
    requires
        holdback.bounded(),
        holdback.consistent(),
    ensures
        holdback.expire(now, window).0.bounded(),
        holdback.expire(now, window).0.consistent(),
        holdback.with_delta(info, reference_epoch, payload, now, window).0.bounded(),
        holdback.with_delta(info, reference_epoch, payload, now, window).0.consistent(),
        holdback.with_keyframe(info, payload, now, window).0.bounded(),
        holdback.with_keyframe(info, payload, now, window).0.consistent(),
{
    lemma_expire(holdback, now, window);
    let (expired, reported) = holdback.expire(now, window);
    lemma_prepare(expired, info.key);
    if reference_epoch != 0 {
        lemma_with_delta_prepared(
            expired.prepare(info.key),
            expired.prepare_outcome(info.key, reported),
            info,
            reference_epoch,
            payload,
            now,
            window,
        );
    }
    let alone = holdback.without_rivals(info.key);
    lemma_without_rivals(holdback, info.key);
    lemma_expire(alone, now, window);
    let (expired, reported) = alone.expire(now, window);
    lemma_prepare(expired, info.key);
    lemma_with_keyframe_prepared(
        expired.prepare(info.key),
        expired.prepare_outcome(info.key, reported),
        info,
        payload,
        now,
        window,
    );
}

/// Letting a delta wait adds one frame and its bytes, and keeps the barrier consistent.
pub proof fn lemma_held_delta(
    prepared: HoldbackModel,
    info: VideoSourceInfo,
    reference_epoch: u64,
    payload: Bytes,
    now: Timestamp,
)
    requires
        prepared.bounded(),
        prepared.consistent(),
        prepared.streams.contains_key(info.key),
        reference_epoch != 0,
        ({
            let place = HeldFrameKey { reference_epoch, frame_id: info.frame_id };
            !prepared.streams[info.key].is_stale(place) && !prepared.streams[info.key].pending.contains_key(place)
        }),
    ensures
        ({
            let held = held_delta(prepared, info, reference_epoch, payload, now);
            &&& held.consistent()
            &&& held.streams.dom() == prepared.streams.dom()
            &&& held.frames() == prepared.frames() + 1
            &&& held.bytes() == prepared.bytes() + bytes_view(payload).len()
        }),
{
    let stream = prepared.streams[info.key];
    assert(stream.consistent(info.key));
    let place = HeldFrameKey { reference_epoch, frame_id: info.frame_id };
    let frame = HeldVideoFrame { info, payload, received_at: now, counted_held: !stream.is_in_turn(place) };
    let longer = StreamModel { pending: stream.pending.insert(place, frame), ..stream };
    let held = held_delta(prepared, info, reference_epoch, payload, now);
    assert(held.streams.dom() =~= prepared.streams.dom());
    lemma_total_insert(stream.pending, place, frame, frame_bytes());
    lemma_total_remove(prepared.streams, info.key, stream_frames());
    lemma_total_remove(prepared.streams, info.key, stream_bytes());
    lemma_total_insert(prepared.streams, info.key, longer, stream_frames());
    lemma_total_insert(prepared.streams, info.key, longer, stream_bytes());
    assert(longer.consistent(info.key)) by {
        assert forall|other: HeldFrameKey| #[trigger] longer.pending.contains_key(other) implies {
            &&& longer.pending[other].info.key == info.key
            &&& longer.pending[other].info.frame_id == other.frame_id
            &&& other.reference_epoch != 0
            &&& !longer.is_stale(other)
        } by {
            if other != place {
                assert(stream.pending.contains_key(other));
            }
        }
    }
    assert forall|other: VideoStreamKey| #[trigger] held.streams.contains_key(other) implies held.streams[other].consistent(
        other,
    ) by {
        assert(prepared.streams.contains_key(other));
    }
}

proof fn lemma_with_delta_prepared(
    prepared: HoldbackModel,
    outcome: OutcomeModel,
    info: VideoSourceInfo,
    reference_epoch: u64,
    payload: Bytes,
    now: Timestamp,
    window: nat,
)
    requires
        prepared.bounded(),
        prepared.consistent(),
        prepared.streams.contains_key(info.key),
        reference_epoch != 0,
    ensures
        prepared.with_prepared_delta(outcome, info, reference_epoch, payload, now, window).0.bounded(),
        prepared.with_prepared_delta(outcome, info, reference_epoch, payload, now, window).0.consistent(),
{
    let stream = prepared.streams[info.key];
    let place = HeldFrameKey { reference_epoch, frame_id: info.frame_id };
    if !stream.is_stale(place) && !stream.pending.contains_key(place) {
        lemma_held_delta(prepared, info, reference_epoch, payload, now);
        let held = held_delta(prepared, info, reference_epoch, payload, now);
        if held.frames() > VIDEO_EPOCH_HOLDBACK_MAX_FRAMES || held.bytes() > VIDEO_EPOCH_HOLDBACK_MAX_BYTES {
            lemma_cleared(held);
        } else {
            lemma_drain_stream(held, outcome, info.key, now, window);
        }
    }
}

/// A stream that starts over at a keyframe is consistent and holds back no more than before.
pub proof fn lemma_restarted(stream: StreamModel, info: VideoSourceInfo)
    requires
        stream.consistent(info.key),
    ensures
        restarted(stream, info).consistent(info.key),
        stream_frames()(restarted(stream, info)) <= stream_frames()(stream),
        stream_bytes()(restarted(stream, info)) <= stream_bytes()(stream),
{
    let started = restarted(stream, info);
    lemma_lighter_stream(started, stream);
    assert forall|place: HeldFrameKey| #[trigger] started.pending.contains_key(place) implies {
        &&& started.pending[place].info.key == info.key
        &&& started.pending[place].info.frame_id == place.frame_id
        &&& place.reference_epoch != 0
        &&& !started.is_stale(place)
    } by {
        assert(stream.pending.contains_key(place));
    }
}

proof fn lemma_with_keyframe_prepared(
    prepared: HoldbackModel,
    outcome: OutcomeModel,
    info: VideoSourceInfo,
    payload: Bytes,
    now: Timestamp,
    window: nat,
)
    requires
        prepared.bounded(),
        prepared.consistent(),
        prepared.streams.contains_key(info.key),
    ensures
        prepared.with_prepared_keyframe(outcome, info, payload, now, window).0.bounded(),
        prepared.with_prepared_keyframe(outcome, info, payload, now, window).0.consistent(),
{
    let stream = prepared.streams[info.key];
    lemma_restarted(stream, info);
    lemma_with_lighter_stream(prepared, info.key, restarted(stream, info));
    lemma_drain_stream(
        prepared.with_stream(info.key, restarted(stream, info)),
        OutcomeModel { ready: outcome.ready.push((info, payload)), ..outcome },
        info.key,
        now,
        window,
    );
}

/// Deltas leave a stream in ascending order of their numbers, none before the one that is due, and
/// only deltas that refer to the stream's current keyframe leave.
pub proof fn deltas_leave_in_order(stream: StreamModel, key: VideoStreamKey, now: Timestamp, window: nat)
    requires
        stream.consistent(key),
    ensures
        ({
            let ready = drain(stream, now, window).ready;
            &&& forall|i: int| 0 <= i < ready.len() ==> {
                let place = HeldFrameKey {
                    reference_epoch: stream.current_epoch,
                    frame_id: (#[trigger] ready[i]).0.frame_id,
                };
                &&& ready[i].0.key == key
                &&& ready[i].0.frame_id >= stream.next_frame_id
                &&& stream.pending.contains_key(place)
                &&& ready[i] == (stream.pending[place].info, stream.pending[place].payload)
            }
            &&& forall|i: int, j: int| 0 <= i < j < ready.len() ==> (#[trigger] ready[i]).0.frame_id < (#[trigger]
                ready[j]).0.frame_id
        }),
    decreases
            stream.pending.dom().len(),
            (if stream.pending.contains_key(stream.due()) {
                0nat
            } else {
                1nat
            }),
{
    let ready = drain(stream, now, window).ready;
    if stream.current_epoch == 0 || stream.next_frame_id == 0 {
    } else if stream.pending.contains_key(stream.due()) {
        let next = StreamModel {
            next_frame_id: next_u64(stream.next_frame_id),
            pending: stream.pending.remove(stream.due()),
            gap_started_at: None,
            ..stream
        };
        assert(next.consistent(key)) by {
            assert forall|other: HeldFrameKey| #[trigger] next.pending.contains_key(other) implies !next.is_stale(
                other,
            ) by {
                assert(stream.pending.contains_key(other));
            }
        }
        deltas_leave_in_order(next, key, now, window);
        let rest = drain(next, now, window).ready;
        let frame = stream.pending[stream.due()];
        assert(ready == seq![(frame.info, frame.payload)] + rest);
        assert forall|i: int| 0 <= i < ready.len() implies {
            let place = HeldFrameKey {
                reference_epoch: stream.current_epoch,
                frame_id: (#[trigger] ready[i]).0.frame_id,
            };
            &&& ready[i].0.key == key
            &&& ready[i].0.frame_id >= stream.next_frame_id
            &&& i > 0 ==> ready[i].0.frame_id > stream.next_frame_id
            &&& stream.pending.contains_key(place)
            &&& ready[i] == (stream.pending[place].info, stream.pending[place].payload)
        } by {
            if i > 0 {
                assert(ready[i] == rest[i - 1]);
                let place = HeldFrameKey { reference_epoch: stream.current_epoch, frame_id: rest[i - 1].0.frame_id };
                assert(next.pending.contains_key(place));
            }
        }
        assert forall|i: int, j: int| 0 <= i < j < ready.len() implies (#[trigger] ready[i]).0.frame_id < (#[trigger]
        ready[j]).0.frame_id by {
            if i > 0 {
                assert(ready[i] == rest[i - 1]);
                assert(ready[j] == rest[j - 1]);
            }
        }
    } else if exists|frame_id: u64| stream.waits_later(frame_id) {
        let witness = choose|frame_id: u64| stream.waits_later(frame_id);
        lemma_next_available(stream, witness);
        let next = StreamModel { next_frame_id: stream.next_available()->0, gap_started_at: None, ..stream };
        let missed_since = match stream.gap_started_at {
            Some(started) => started,
            None => now,
        };
        if now.spec_since(missed_since) >= window {
            assert(next.consistent(key)) by {
                assert forall|other: HeldFrameKey| #[trigger] next.pending.contains_key(other) implies !next.is_stale(
                    other,
                ) by {
                    assert(stream.pending.contains_key(other));
                    if other.reference_epoch == stream.current_epoch {
                        assert(other != stream.due());
                        assert(stream.waits_later(other.frame_id));
                    }
                }
            }
            deltas_leave_in_order(next, key, now, window);
        }
    }
}

/// The delta that is due leaves as soon as it is there.
pub proof fn due_delta_leaves_at_once(stream: StreamModel, now: Timestamp, window: nat)
    requires
        stream.pending.dom().finite(),
        stream.current_epoch != 0,
        stream.next_frame_id != 0,
        stream.pending.contains_key(stream.due()),
    ensures
        ({
            let ready = drain(stream, now, window).ready;
            let frame = stream.pending[stream.due()];
            ready.len() > 0 && ready[0] == (frame.info, frame.payload)
        }),
{
}

/// A missing delta is given up only once it has been missed for the whole reorder window.
pub proof fn gap_is_given_up_only_after_the_window(stream: StreamModel, now: Timestamp, window: nat)
    requires
        stream.pending.dom().finite(),
        window > 0,
        drain(stream, now, window).skipped > 0,
    ensures
        stream.gap_started_at matches Some(started) && now.spec_since(started) >= window,
        !stream.pending.contains_key(stream.due()),
{
    lemma_fresh_gap_is_kept(
        StreamModel {
            next_frame_id: next_u64(stream.next_frame_id),
            pending: stream.pending.remove(stream.due()),
            gap_started_at: None,
            ..stream
        },
        now,
        window,
    );
}

/// Where no gap was noticed before, none is given up.
proof fn lemma_fresh_gap_is_kept(stream: StreamModel, now: Timestamp, window: nat)
    requires
        stream.pending.dom().finite(),
        window > 0,
        stream.gap_started_at is None,
    ensures
        drain(stream, now, window).skipped == 0,
    decreases stream.pending.dom().len(),
{
    if stream.current_epoch != 0 && stream.next_frame_id != 0 && stream.pending.contains_key(stream.due()) {
        lemma_fresh_gap_is_kept(
            StreamModel {
                next_frame_id: next_u64(stream.next_frame_id),
                pending: stream.pending.remove(stream.due()),
                gap_started_at: None,
                ..stream
            },
            now,
            window,
        );
    }
}

/// No delta waits longer than the timeout: what is still held back after a step was held back for
/// less.
pub proof fn held_deltas_are_fresh(
    holdback: HoldbackModel,
    now: Timestamp,
    window: nat,
    key: VideoStreamKey,
    place: HeldFrameKey,
)
    requires
        holdback.expire(now, window).0.streams.contains_key(key),
        holdback.expire(now, window).0.streams[key].pending.contains_key(place),
    ensures
        holdback.expire(now, window).0.streams[key].pending[place].spec_is_fresh(now),
{
}

/// A keyframe leaves in the step in which it arrives, and after it only deltas of its stream with
/// higher numbers, in ascending order.
pub proof fn keyframe_leaves_before_its_deltas(
    holdback: HoldbackModel,
    info: VideoSourceInfo,
    payload: Bytes,
    now: Timestamp,
    window: nat,
) -> (place: int)
    requires
        holdback.bounded(),
        holdback.consistent(),
    ensures
        ({
            let ready = holdback.with_keyframe(info, payload, now, window).1.ready;
            &&& 0 <= place < ready.len()
            &&& ready[place] == (info, payload)
            &&& forall|i: int| place < i < ready.len() ==> (#[trigger] ready[i]).0.key == info.key && ready[i].0.frame_id
                > info.frame_id
            &&& forall|i: int, j: int| place < i < j < ready.len() ==> (#[trigger] ready[i]).0.frame_id < (#[trigger]
                ready[j]).0.frame_id
        }),
{
    let alone = holdback.without_rivals(info.key);
    lemma_without_rivals(holdback, info.key);
    lemma_expire(alone, now, window);
    let (expired, reported) = alone.expire(now, window);
    lemma_prepare(expired, info.key);
    let prepared = expired.prepare(info.key);
    let outcome = expired.prepare_outcome(info.key, reported);
    let stream = prepared.streams[info.key];
    lemma_restarted(stream, info);
    let started = restarted(stream, info);
    deltas_leave_in_order(started, info.key, now, window);
    let drained = drain(started, now, window);
    let ready = holdback.with_keyframe(info, payload, now, window).1.ready;
    let place = outcome.ready.len() as int;
    assert(prepared.with_stream(info.key, started).streams[info.key] == started);
    assert(ready == outcome.ready.push((info, payload)) + drained.ready);
    assert forall|i: int| place < i < ready.len() implies (#[trigger] ready[i]) == drained.ready[i - place - 1] && ready[i].0.frame_id
        > info.frame_id by {
        let after = drained.ready[i - place - 1];
        assert(started.pending.contains_key(
            HeldFrameKey { reference_epoch: started.current_epoch, frame_id: after.0.frame_id },
        ));
    }
    place
}

/// Making room drops one stream, and never one that was touched after another.
pub proof fn least_recently_used_stream_goes(holdback: HoldbackModel, key: VideoStreamKey)
    requires
        holdback.bounded(),
        holdback.is_full_for(key),
    ensures
        holdback.streams.contains_key(holdback.oldest()),
        holdback.prepare(key).streams.dom() == holdback.streams.dom().remove(holdback.oldest()).insert(key),
        forall|other: VideoStreamKey| #[trigger] holdback.streams.contains_key(other)
            ==> holdback.streams[holdback.oldest()].last_activity <= holdback.streams[other].last_activity,
{
    lemma_least_exists(holdback.streams, stream_activity());
    assert(holdback.prepare(key).streams.dom() =~= holdback.streams.dom().remove(holdback.oldest()).insert(key));
}

/// Before the first keyframe nothing leaves a stream and nothing changes there.
pub proof fn nothing_leaves_before_the_first_keyframe(stream: StreamModel, now: Timestamp, window: nat)
    requires
        stream.pending.dom().finite(),
        stream.current_epoch == 0 || stream.next_frame_id == 0,
    ensures
        drain(stream, now, window).stream == stream,
        drain(stream, now, window).ready.len() == 0,
        drain(stream, now, window).skipped == 0,
        drain(stream, now, window).released == 0,
{
}

/// Every delta that waits either leaves or goes on waiting as it is, and one that refers to another
/// keyframe than the current one goes on waiting.
pub proof fn deltas_leave_or_stay(stream: StreamModel, now: Timestamp, window: nat, place: HeldFrameKey)
    requires
        stream.pending.dom().finite(),
        stream.pending.contains_key(place),
    ensures
        ({
            let drained = drain(stream, now, window);
            let frame = stream.pending[place];
            &&& drained.stream.pending.contains_key(place) || drained.ready.contains((frame.info, frame.payload))
            &&& drained.stream.pending.contains_key(place) ==> drained.stream.pending[place] == frame
            &&& place.reference_epoch != stream.current_epoch ==> drained.stream.pending.contains_key(place)
        }),
    decreases
            stream.pending.dom().len(),
            (if stream.pending.contains_key(stream.due()) {
                0nat
            } else {
                1nat
            }),
{
    let drained = drain(stream, now, window);
    let frame = stream.pending[place];
    if stream.current_epoch == 0 || stream.next_frame_id == 0 {
    } else if stream.pending.contains_key(stream.due()) {
        let next = StreamModel {
            next_frame_id: next_u64(stream.next_frame_id),
            pending: stream.pending.remove(stream.due()),
            gap_started_at: None,
            ..stream
        };
        let rest = drain(next, now, window);
        let due = stream.pending[stream.due()];
        assert(drained.ready == seq![(due.info, due.payload)] + rest.ready);
        lemma_drain(next, now, window);
        if place == stream.due() {
            assert(drained.ready[0] == (frame.info, frame.payload));
            assert(!next.pending.dom().contains(place));
            assert(!rest.stream.pending.dom().contains(place));
        } else {
            deltas_leave_or_stay(next, now, window, place);
            if !rest.stream.pending.contains_key(place) {
                let i = choose|i: int| 0 <= i < rest.ready.len() && rest.ready[i] == (frame.info, frame.payload);
                assert(drained.ready[i + 1] == (frame.info, frame.payload));
            }
        }
    } else if exists|frame_id: u64| stream.waits_later(frame_id) {
        let witness = choose|frame_id: u64| stream.waits_later(frame_id);
        lemma_next_available(stream, witness);
        let next = StreamModel { next_frame_id: stream.next_available()->0, gap_started_at: None, ..stream };
        let missed_since = match stream.gap_started_at {
            Some(started) => started,
            None => now,
        };
        if now.spec_since(missed_since) >= window {
            deltas_leave_or_stay(next, now, window, place);
        }
    }
}

/// Once a stream has let out what it can, the delta that is due next is not there. What it moved past either
/// left or was given up.
pub proof fn streams_stop_at_what_is_missing(stream: StreamModel, now: Timestamp, window: nat)
    requires
        stream.pending.dom().finite(),
        stream.current_epoch != 0,
        stream.next_frame_id != 0,
    ensures
        ({
            let drained = drain(stream, now, window);
            &&& drained.stream.next_frame_id >= stream.next_frame_id
            &&& drained.stream.next_frame_id < u64::MAX ==> !drained.stream.pending.contains_key(
                HeldFrameKey {
                    reference_epoch: stream.current_epoch,
                    frame_id: drained.stream.next_frame_id,
                },
            )
            &&& drained.stream.next_frame_id < u64::MAX ==> drained.stream.next_frame_id - stream.next_frame_id
                == drained.ready.len() + drained.skipped
        }),
    decreases
            stream.pending.dom().len(),
            (if stream.pending.contains_key(stream.due()) {
                0nat
            } else {
                1nat
            }),
{
    lemma_drain(stream, now, window);
    if stream.pending.contains_key(stream.due()) {
        let next = StreamModel {
            next_frame_id: next_u64(stream.next_frame_id),
            pending: stream.pending.remove(stream.due()),
            gap_started_at: None,
            ..stream
        };
        streams_stop_at_what_is_missing(next, now, window);
        lemma_drain(next, now, window);
        let due = stream.pending[stream.due()];
        assert(drain(stream, now, window).ready == seq![(due.info, due.payload)] + drain(next, now, window).ready);
    } else if exists|frame_id: u64| stream.waits_later(frame_id) {
        let witness = choose|frame_id: u64| stream.waits_later(frame_id);
        lemma_next_available(stream, witness);
        let next = StreamModel { next_frame_id: stream.next_available()->0, gap_started_at: None, ..stream };
        let missed_since = match stream.gap_started_at {
            Some(started) => started,
            None => now,
        };
        if now.spec_since(missed_since) >= window {
            streams_stop_at_what_is_missing(next, now, window);
        }
    }
}

/// Where the delta that is due is missing and later ones of the keyframe wait: nothing leaves before the
/// gap has lasted for the window, which is counted from the step that noticed it. Once it has, the next one
/// that waits leaves, and those in between are given up. Where none waits there is no gap.
pub proof fn gaps_last_for_the_window(stream: StreamModel, now: Timestamp, window: nat, later: u64)
    requires
        stream.pending.dom().finite(),
        stream.current_epoch != 0,
        stream.next_frame_id != 0,
        window > 0,
        !stream.pending.contains_key(
            HeldFrameKey { reference_epoch: stream.current_epoch, frame_id: stream.next_frame_id },
        ),
        later > stream.next_frame_id,
        stream.pending.contains_key(HeldFrameKey { reference_epoch: stream.current_epoch, frame_id: later }),
        forall|other: u64|
            stream.next_frame_id < other < later ==> !#[trigger] stream.pending.contains_key(
                HeldFrameKey { reference_epoch: stream.current_epoch, frame_id: other },
            ),
    ensures
        ({
            let drained = drain(stream, now, window);
            let frame = stream.pending[HeldFrameKey { reference_epoch: stream.current_epoch, frame_id: later }];
            match stream.gap_started_at {
                None => {
                    &&& drained.ready.len() == 0
                    &&& drained.skipped == 0
                    &&& drained.stream == (StreamModel { gap_started_at: Some(now), ..stream })
                },
                Some(started) => if now.nanos < started.nanos + window {
                    &&& drained.ready.len() == 0
                    &&& drained.skipped == 0
                    &&& drained.stream == stream
                } else {
                    &&& drained.ready.len() > 0
                    &&& drained.ready[0] == (frame.info, frame.payload)
                    &&& drained.skipped == later - stream.next_frame_id
                },
            }
        }),
{
    assert(stream.waits_later(later));
    lemma_next_available(stream, later);
    let next_id = stream.next_available()->0;
    assert(stream.waits_later(next_id));
    assert(next_id <= later);
    assert(next_id == later);
    let next = StreamModel { next_frame_id: later, gap_started_at: None, ..stream };
    lemma_fresh_gap_is_kept(next, now, window);
}

/// A step drops a delta that still waits if and only if it was received two seconds ago or earlier, and
/// counts each; the others wait on as they are.
pub proof fn deltas_wait_for_two_seconds(stream: StreamModel, now: Timestamp, window: nat, place: HeldFrameKey)
    requires
        stream.pending.dom().finite(),
    ensures
        ({
            let drained = drain(stream, now, window);
            let expired = expire_stream(stream, now, window);
            &&& expired.stream.pending.contains_key(place) <==> (drained.stream.pending.contains_key(place)
                && now.nanos < drained.stream.pending[place].received_at.nanos + 2_000_000_000)
            &&& expired.stream.pending.contains_key(place) ==> expired.stream.pending[place]
                == drained.stream.pending[place]
            &&& expired.timed_out + expired.stream.pending.dom().len() == drained.stream.pending.dom().len()
            &&& expired.drained == drained
            &&& expired.stream.next_frame_id == drained.stream.next_frame_id
            &&& expired.stream.current_epoch == stream.current_epoch
        }),
{
    lemma_drain(stream, now, window);
    let drained = drain(stream, now, window);
    let fresh = fresh_frames(drained.stream.pending, now);
    vstd::set_lib::lemma_len_subset(fresh.dom(), drained.stream.pending.dom());
}

/// A delta that comes twice, that refers to an earlier keyframe than the last one, or that was moved past,
/// is dropped without a trace.
pub proof fn late_deltas_leave_no_trace(
    holdback: HoldbackModel,
    outcome: OutcomeModel,
    info: VideoSourceInfo,
    reference_epoch: u64,
    payload: Bytes,
    now: Timestamp,
    window: nat,
)
    requires
        ({
            let stream = holdback.streams[info.key];
            ||| reference_epoch < stream.current_epoch
            ||| reference_epoch == stream.current_epoch && 0 < stream.next_frame_id && info.frame_id < stream.next_frame_id
            ||| stream.pending.contains_key(HeldFrameKey { reference_epoch, frame_id: info.frame_id })
        }),
    ensures
        holdback.with_prepared_delta(outcome, info, reference_epoch, payload, now, window) == (holdback, outcome),
{
}

/// The delta that is due leaves in the step in which it comes, right behind what leaves before it, and is not
/// counted as held back, as long as there is room for it.
pub proof fn delta_in_turn_leaves_at_once(
    holdback: HoldbackModel,
    outcome: OutcomeModel,
    info: VideoSourceInfo,
    reference_epoch: u64,
    payload: Bytes,
    now: Timestamp,
    window: nat,
)
    requires
        holdback.bounded(),
        holdback.consistent(),
        holdback.streams.contains_key(info.key),
        reference_epoch != 0,
        info.frame_id != 0,
        holdback.streams[info.key].current_epoch == reference_epoch,
        holdback.streams[info.key].next_frame_id == info.frame_id,
        !holdback.streams[info.key].pending.contains_key(HeldFrameKey { reference_epoch, frame_id: info.frame_id }),
        holdback.frames() < 120,
        holdback.bytes() + bytes_view(payload).len() <= 16_777_216,
    ensures
        ({
            let (after, reported) = holdback.with_prepared_delta(outcome, info, reference_epoch, payload, now, window);
            &&& reported.ready.len() > outcome.ready.len()
            &&& reported.ready.take(outcome.ready.len() as int) == outcome.ready
            &&& reported.ready[outcome.ready.len() as int] == (info, payload)
            &&& reported.held_frames == outcome.held_frames
            &&& reported.strict_recovery_required == outcome.strict_recovery_required
            &&& info.frame_id < u64::MAX ==> after.streams[info.key].next_frame_id > info.frame_id
        }),
{
    let place = HeldFrameKey { reference_epoch, frame_id: info.frame_id };
    lemma_held_delta(holdback, info, reference_epoch, payload, now);
    let held = held_delta(holdback, info, reference_epoch, payload, now);
    let stream = held.streams[info.key];
    assert(stream.due() == place);
    assert(stream.pending.dom().finite());
    due_delta_leaves_at_once(stream, now, window);
    let next = StreamModel {
        next_frame_id: next_u64(stream.next_frame_id),
        pending: stream.pending.remove(stream.due()),
        gap_started_at: None,
        ..stream
    };
    lemma_drain(next, now, window);
    let (after, reported) = holdback.with_prepared_delta(outcome, info, reference_epoch, payload, now, window);
    assert(reported.ready == outcome.ready + drain(stream, now, window).ready);
    assert(reported.ready.take(outcome.ready.len() as int) =~= outcome.ready);
}

/// A delta whose keyframe has not come yet waits for it, with everything it carries, and is counted as held
/// back, as long as there is room for it.
pub proof fn delta_waits_for_its_keyframe(
    holdback: HoldbackModel,
    outcome: OutcomeModel,
    info: VideoSourceInfo,
    reference_epoch: u64,
    payload: Bytes,
    now: Timestamp,
    window: nat,
)
    requires
        holdback.bounded(),
        holdback.consistent(),
        holdback.streams.contains_key(info.key),
        outcome.held_frames < usize::MAX,
        reference_epoch > holdback.streams[info.key].current_epoch,
        !holdback.streams[info.key].pending.contains_key(HeldFrameKey { reference_epoch, frame_id: info.frame_id }),
        holdback.frames() < 120,
        holdback.bytes() + bytes_view(payload).len() <= 16_777_216,
    ensures
        ({
            let place = HeldFrameKey { reference_epoch, frame_id: info.frame_id };
            let (after, reported) = holdback.with_prepared_delta(outcome, info, reference_epoch, payload, now, window);
            &&& after.streams[info.key].pending.contains_key(place)
            &&& after.streams[info.key].pending[place] == (HeldVideoFrame {
                info,
                payload,
                received_at: now,
                counted_held: true,
            })
            &&& reported.held_frames == outcome.held_frames + 1
        }),
{
    let place = HeldFrameKey { reference_epoch, frame_id: info.frame_id };
    lemma_held_delta(holdback, info, reference_epoch, payload, now);
    let held = held_delta(holdback, info, reference_epoch, payload, now);
    deltas_leave_or_stay(held.streams[info.key], now, window, place);
}

/// Where more than a hundred and twenty deltas or sixteen mebibytes would wait, everything that waits is
/// dropped and counted, and nothing may be shown before a keyframe.
pub proof fn too_much_is_dropped_at_once(
    holdback: HoldbackModel,
    outcome: OutcomeModel,
    info: VideoSourceInfo,
    reference_epoch: u64,
    payload: Bytes,
    now: Timestamp,
    window: nat,
)
    requires
        holdback.bounded(),
        holdback.consistent(),
        holdback.streams.contains_key(info.key),
        reference_epoch > holdback.streams[info.key].current_epoch,
        !holdback.streams[info.key].pending.contains_key(HeldFrameKey { reference_epoch, frame_id: info.frame_id }),
        holdback.frames() >= 120 || holdback.bytes() + bytes_view(payload).len() > 16_777_216,
    ensures
        ({
            let (after, reported) = holdback.with_prepared_delta(outcome, info, reference_epoch, payload, now, window);
            &&& after.streams.dom() == holdback.streams.dom()
            &&& forall|key: VideoStreamKey| #[trigger]
                after.streams.contains_key(key) ==> {
                    &&& after.streams[key].pending.dom().len() == 0
                    &&& after.streams[key].gap_started_at is None
                    &&& after.streams[key].current_epoch == holdback.streams[key].current_epoch
                    &&& after.streams[key].next_frame_id == holdback.streams[key].next_frame_id
                }
            &&& reported.ready == outcome.ready
            &&& reported.recovery_required
            &&& reported.strict_recovery_required
            &&& outcome.overflowed_frames + holdback.frames() + 1 <= usize::MAX ==> reported.overflowed_frames
                == outcome.overflowed_frames + holdback.frames() + 1
        }),
{
    lemma_held_delta(holdback, info, reference_epoch, payload, now);
    let held = held_delta(holdback, info, reference_epoch, payload, now);
    assert(held.cleared().streams.dom() =~= holdback.streams.dom());
}

/// A delta that refers to no keyframe is not kept, and nothing may be shown before a keyframe.
pub proof fn deltas_without_a_keyframe_call_for_one(
    holdback: HoldbackModel,
    info: VideoSourceInfo,
    payload: Bytes,
    now: Timestamp,
    window: nat,
)
    ensures
        ({
            let (after, reported) = holdback.with_delta(info, 0, payload, now, window);
            let (expired, before) = holdback.expire(now, window);
            &&& after == expired
            &&& reported.ready == before.ready
            &&& reported.recovery_required
            &&& reported.strict_recovery_required
        }),
{
}

/// A keyframe makes its stream go on from it: the next delta is due, and of those that wait the ones go on
/// that refer to it or to a later keyframe and come after it.
pub proof fn keyframe_keeps_the_deltas_that_follow_it(stream: StreamModel, info: VideoSourceInfo, place: HeldFrameKey)
    ensures
        ({
            let started = restarted(stream, info);
            &&& started.current_epoch == info.frame_id
            &&& info.frame_id < u64::MAX ==> started.next_frame_id == info.frame_id + 1
            &&& started.gap_started_at is None
            &&& started.last_activity == stream.last_activity
            &&& started.pending.contains_key(place) <==> (stream.pending.contains_key(place) && place.reference_epoch
                >= info.frame_id && place.frame_id > info.frame_id)
            &&& started.pending.contains_key(place) ==> started.pending[place] == stream.pending[place]
        }),
{
}

/// After a keyframe its display has its stream alone, which goes on from the keyframe. A stream of another
/// display lets out what is due and drops what waited too long, as in any step, and is otherwise left alone,
/// as long as no stream has to be forgotten.
pub proof fn keyframe_concerns_its_display_alone(
    holdback: HoldbackModel,
    info: VideoSourceInfo,
    payload: Bytes,
    now: Timestamp,
    window: nat,
    other: VideoStreamKey,
)
    requires
        holdback.bounded(),
        holdback.consistent(),
        holdback.streams.contains_key(info.key) || holdback.streams.dom().len() < 8,
        other != info.key,
    ensures
        ({
            let after = holdback.with_keyframe(info, payload, now, window).0;
            &&& after.streams.contains_key(info.key)
            &&& after.streams[info.key].current_epoch == info.frame_id
            &&& after.streams.contains_key(other) <==> (holdback.streams.contains_key(other) && other.display
                != info.key.display)
            &&& after.streams.contains_key(other) ==> after.streams[other] == expire_stream(
                holdback.streams[other],
                now,
                window,
            ).stream
        }),
{
    let alone = holdback.without_rivals(info.key);
    lemma_without_rivals(holdback, info.key);
    vstd::set_lib::lemma_len_subset(alone.streams.dom(), holdback.streams.dom());
    let (expired, reported) = alone.expire(now, window);
    lemma_expire(alone, now, window);
    assert(expired.streams.dom() =~= alone.streams.dom());
    assert(!expired.is_full_for(info.key));
    let prepared = expired.prepare(info.key);
    lemma_prepare(expired, info.key);
    lemma_restarted(prepared.streams[info.key], info);
    lemma_drain(restarted(prepared.streams[info.key], info), now, window);
}

/// A delta concerns its stream alone: another stream lets out what is due and drops what waited too long, as
/// in any step, as long as no stream has to be forgotten and there is room.
pub proof fn delta_concerns_its_stream_alone(
    holdback: HoldbackModel,
    info: VideoSourceInfo,
    reference_epoch: u64,
    payload: Bytes,
    now: Timestamp,
    window: nat,
    other: VideoStreamKey,
)
    requires
        holdback.bounded(),
        holdback.consistent(),
        reference_epoch != 0,
        holdback.streams.contains_key(info.key) || holdback.streams.dom().len() < 8,
        holdback.frames() < 120,
        holdback.bytes() + bytes_view(payload).len() <= 16_777_216,
        other != info.key,
    ensures
        ({
            let after = holdback.with_delta(info, reference_epoch, payload, now, window).0;
            &&& after.streams.contains_key(other) == holdback.streams.contains_key(other)
            &&& after.streams.contains_key(other) ==> after.streams[other] == expire_stream(
                holdback.streams[other],
                now,
                window,
            ).stream
        }),
{
    let (expired, reported) = holdback.expire(now, window);
    lemma_expire(holdback, now, window);
    assert(expired.streams.dom() =~= holdback.streams.dom());
    assert forall|key: VideoStreamKey| #[trigger] expired.streams.contains_key(key) implies stream_frames()(
        expired.streams[key],
    ) <= stream_frames()(holdback.streams[key]) && stream_bytes()(expired.streams[key]) <= stream_bytes()(
        holdback.streams[key],
    ) by {
        assert(holdback.streams.contains_key(key));
        lemma_expire_stream(holdback.streams[key], now, window, key);
    }
    lemma_total_monotone(expired.streams, holdback.streams, stream_frames());
    lemma_total_monotone(expired.streams, holdback.streams, stream_bytes());
    let prepared = expired.prepare(info.key);
    lemma_prepare(expired, info.key);
    let touched = prepared.streams[info.key];
    lemma_total_insert(expired.streams, info.key, touched, stream_frames());
    lemma_total_insert(expired.streams, info.key, touched, stream_bytes());
    if expired.streams.contains_key(info.key) {
        lemma_total_remove(expired.streams, info.key, stream_frames());
        lemma_total_remove(expired.streams, info.key, stream_bytes());
    } else {
        assert(touched.pending.dom().len() == 0);
        lemma_total_zero(touched.pending, frame_bytes());
    }
    let place = HeldFrameKey { reference_epoch, frame_id: info.frame_id };
    if !touched.is_stale(place) && !touched.pending.contains_key(place) {
        lemma_held_delta(prepared, info, reference_epoch, payload, now);
    }
}

/// Nine streams are never known: for a new one beside eight the one goes that was not touched for the longest
/// time, and the deltas that waited there count as dropped. The new one counts as touched last.
pub proof fn eight_streams_are_known_at_most(holdback: HoldbackModel, key: VideoStreamKey, outcome: OutcomeModel)
    requires
        holdback.bounded(),
    ensures
        ({
            let after = holdback.prepare(key);
            let reported = holdback.prepare_outcome(key, outcome);
            &&& after.streams.dom().len() <= 8
            &&& after.streams.contains_key(key)
            &&& after.activity_generation >= holdback.activity_generation
            &&& holdback.activity_generation < u64::MAX ==> after.activity_generation == holdback.activity_generation + 1
            &&& after.streams[key].last_activity == after.activity_generation
            &&& holdback.streams.contains_key(key) ==> {
                &&& after.streams[key] == (StreamModel {
                    last_activity: after.activity_generation,
                    ..holdback.streams[key]
                })
            }
            &&& !holdback.streams.contains_key(key) ==> after.streams[key] == (StreamModel {
                current_epoch: 0,
                next_frame_id: 0,
                pending: Map::empty(),
                gap_started_at: None,
                last_activity: after.activity_generation,
            })
            &&& holdback.streams.contains_key(key) || holdback.streams.dom().len() < 8 ==> {
                &&& after.streams.dom() == holdback.streams.dom().insert(key)
                &&& reported == outcome
            }
            &&& !holdback.streams.contains_key(key) && holdback.streams.dom().len() == 8 ==> exists|gone: VideoStreamKey|
                #[trigger]
                holdback.streams.contains_key(gone) && {
                    &&& forall|other: VideoStreamKey| #[trigger]
                        holdback.streams.contains_key(other) ==> gone == other || holdback.streams[gone].last_activity
                            < holdback.streams[other].last_activity || (holdback.streams[gone].last_activity
                            == holdback.streams[other].last_activity && (gone.display < other.display || (gone.display
                            == other.display && gone.stream_id < other.stream_id)))
                    &&& after.streams.dom() == holdback.streams.dom().remove(gone).insert(key)
                    &&& reported.strict_recovery_required == (outcome.strict_recovery_required
                        || holdback.streams[gone].pending.dom().len() > 0)
                    &&& reported.ready == outcome.ready
                }
            &&& forall|other: VideoStreamKey|
                other != key && #[trigger] after.streams.contains_key(other) ==> holdback.streams.contains_key(other)
                    && after.streams[other] == holdback.streams[other]
        }),
{
    let after = holdback.prepare(key);
    if holdback.is_full_for(key) {
        lemma_least_exists(holdback.streams, stream_activity());
        let gone = holdback.oldest();
        assert(holdback.streams.contains_key(gone));
        assert(after.streams.dom() =~= holdback.streams.dom().remove(gone).insert(key));
    } else {
        assert(after.streams.dom() =~= holdback.streams.dom().insert(key));
        if holdback.streams.contains_key(key) {
            assert(after.streams.dom() =~= holdback.streams.dom());
        }
    }
}

/// What a stream lets out follows what others let out. Frames that were given up call for a keyframe, but the
/// picture goes on; deltas that waited too long call for one without which nothing may be shown.
pub proof fn losses_call_for_a_keyframe(outcome: OutcomeModel, expiry: StreamExpiry)
    requires
        outcome.timed_out_frames == 0,
    ensures
        ({
            let reported = outcome.absorb_expiry(expiry);
            &&& reported.ready == outcome.ready + expiry.drained.ready
            &&& reported.recovery_required == (outcome.recovery_required || expiry.drained.skipped > 0
                || expiry.timed_out > 0)
            &&& reported.strict_recovery_required == (outcome.strict_recovery_required || expiry.timed_out > 0)
            &&& outcome.released_frames + expiry.drained.released <= usize::MAX ==> reported.released_frames
                == outcome.released_frames + expiry.drained.released
            &&& expiry.timed_out <= usize::MAX ==> reported.timed_out_frames == expiry.timed_out
            &&& outcome.gap_skipped_frames + expiry.drained.skipped <= u64::MAX ==> reported.gap_skipped_frames
                == outcome.gap_skipped_frames + expiry.drained.skipped
            &&& outcome.gap_events < usize::MAX ==> reported.gap_events == outcome.gap_events + (
            if expiry.drained.skipped > 0 {
                1int
            } else {
                0
            })
            &&& reported.held_frames == outcome.held_frames
            &&& reported.overflowed_frames == outcome.overflowed_frames
        }),
{
}

/// Whatever leaves a stream in a step is handed out in that step, and what one stream drops for waiting too
/// long is never passed over in silence.
pub proof fn steps_hand_out_what_leaves(
    streams: Map<VideoStreamKey, StreamModel>,
    keys: Seq<VideoStreamKey>,
    now: Timestamp,
    window: nat,
    place: int,
)
    requires
        0 <= place < keys.len(),
    ensures
        ({
            let reported = expiry_outcome(streams, keys, now, window);
            let expired = expire_stream(streams[keys[place]], now, window);
            &&& forall|i: int|
                0 <= i < expired.drained.ready.len() ==> reported.ready.contains(#[trigger] expired.drained.ready[i])
            &&& expired.timed_out > 0 ==> reported.strict_recovery_required && reported.recovery_required
                && reported.timed_out_frames > 0
            &&& expired.drained.skipped > 0 ==> reported.recovery_required && reported.gap_events > 0
        }),
    decreases keys.len(),
{
    let rest = expiry_outcome(streams, keys.drop_last(), now, window);
    let reported = expiry_outcome(streams, keys, now, window);
    let last = expire_stream(streams[keys.last()], now, window);
    let expired = expire_stream(streams[keys[place]], now, window);
    assert(reported == rest.absorb_expiry(last));
    assert(reported.ready == rest.ready + last.drained.ready);
    if place < keys.len() - 1 {
        steps_hand_out_what_leaves(streams, keys.drop_last(), now, window, place);
        assert forall|i: int| 0 <= i < expired.drained.ready.len() implies reported.ready.contains(
            #[trigger] expired.drained.ready[i],
        ) by {
            let item = expired.drained.ready[i];
            assert(rest.ready.contains(item));
            let j = choose|j: int| 0 <= j < rest.ready.len() && rest.ready[j] == item;
            assert(reported.ready[j] == item);
        }
    } else {
        assert forall|i: int| 0 <= i < expired.drained.ready.len() implies reported.ready.contains(
            #[trigger] expired.drained.ready[i],
        ) by {
            assert(reported.ready[rest.ready.len() + i] == expired.drained.ready[i]);
        }
    }
}

/// An outcome begins with nothing to hand out and nothing to report.
pub proof fn outcomes_begin_empty()
    ensures
        ({
            let outcome = no_outcome();
            &&& outcome.ready.len() == 0
            &&& outcome.held_frames == 0 && outcome.released_frames == 0
            &&& !outcome.recovery_required && !outcome.strict_recovery_required
            &&& outcome.gap_events == 0 && outcome.gap_skipped_frames == 0
            &&& outcome.timed_out_frames == 0 && outcome.overflowed_frames == 0
        }),
{
}

} // verus!
