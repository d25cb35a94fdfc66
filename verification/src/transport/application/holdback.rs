//! The keyframe barrier.

use super::barrier::{drain, expire_stream, expiry_outcome, follows, frame_bytes, held_delta, lemma_cleared,
    lemma_drain, lemma_drain_stream, lemma_expire, lemma_held_delta, lemma_next_available, lemma_prepare,
    lemma_restarted, lemma_with_lighter_stream, lemma_without_rivals, new_stream, no_outcome, restarted,
    stream_activity, stream_bytes, stream_frames, Drained, HeldVideoFrame, HoldbackModel, OutcomeModel, StreamModel,
    MAX_VIDEO_EPOCH_STREAM_STATES, VIDEO_EPOCH_HOLDBACK_MAX_BYTES,
    VIDEO_EPOCH_HOLDBACK_MAX_FRAMES};
use crate::numbers::{at_most_usize, next_u64};
use crate::ordered::{kept_entries, lemma_least_of, lemma_total_along, lemma_total_insert, lemma_total_remove, total, total_along,
    OrderedKey, OrderedMap};
use crate::time::{duration_nanos, Timestamp};
use crate::transport::video::{HeldFrameKey, VideoSourceInfo, VideoStreamKey};
use bytes::Bytes;
use std::time::Duration;
use vstd::prelude::*;

verus! {

/// One stream behind the barrier.
pub struct VideoEpochStreamState {
    current_epoch: u64,
    next_frame_id: u64,
    pending: OrderedMap<HeldFrameKey, HeldVideoFrame>,
    pending_bytes: usize,
    gap_started_at: Option<Timestamp>,
    last_activity: u64,
}

impl View for VideoEpochStreamState {
    type V = StreamModel;

    closed spec fn view(&self) -> StreamModel {
        StreamModel {
            current_epoch: self.current_epoch,
            next_frame_id: self.next_frame_id,
            pending: self.pending@,
            gap_started_at: self.gap_started_at,
            last_activity: self.last_activity,
        }
    }
}

impl VideoEpochStreamState {
    /// The byte count is the sum over the deltas that wait.
    pub closed spec fn wf(&self) -> bool {
        &&& self.pending.wf()
        &&& self.pending_bytes == total(self.pending@, frame_bytes())
    }

    /// The byte count is the sum over the deltas that wait, as far as it fits.
    spec fn counted(&self) -> bool {
        &&& self.pending.wf()
        &&& self.pending_bytes == at_most_usize(total(self.pending@, frame_bytes()))
    }

    /// A stream nothing is known of.
    fn new() -> (state: Self)
        ensures
            state.wf(),
            state@ == new_stream(),
    {
        VideoEpochStreamState {
            current_epoch: 0,
            next_frame_id: 0,
            pending: OrderedMap::new(),
            pending_bytes: 0,
            gap_started_at: None,
            last_activity: 0,
        }
    }

    /// Takes out a delta and takes its bytes off the count.
    fn take_pending(&mut self, key: HeldFrameKey) -> (frame: Option<HeldVideoFrame>)
        requires
            old(self).wf(),
        ensures
            final(self).wf(),
            final(self)@ == (StreamModel { pending: old(self)@.pending.remove(key), ..old(self)@ }),
            match frame {
                Some(frame) => old(self)@.pending.contains_key(key) && frame == old(self)@.pending[key],
                None => !old(self)@.pending.contains_key(key),
            },
    {
        proof {
            self.pending.lemma_keys();
            if self.pending@.contains_key(key) {
                lemma_total_remove(self.pending@, key, frame_bytes());
            } else {
                assert(self.pending@.remove(key) =~= self.pending@);
            }
        }
        let taken = self.pending.remove(&key);
        if let Some(frame) = &taken {
            self.pending_bytes = self.pending_bytes.saturating_sub(frame.payload.len());
        }
        taken
    }

    /// The number of the delta of the current keyframe that waits right after the gap.
    fn next_available(&self) -> (next: Option<u64>)
        requires
            self.wf(),
        ensures
            next == self@.next_available(),
    {
        proof {
            self.pending.lemma_keys();
        }
        let mut index: usize = 0;
        let len: usize = self.pending.len();
        while index < len
            invariant
                self.wf(),
                len == self.pending.keys().len(),
                crate::ordered::ascending(self.pending.keys()),
                self.pending.keys().to_set() == self.pending@.dom(),
                forall|i: int| 0 <= i < index ==> !((#[trigger] self.pending.keys()[i]).reference_epoch
                    == self.current_epoch && self.pending.keys()[i].frame_id > self.next_frame_id),
            decreases len - index,
        {
            let key = self.pending.key_at(index);
            if key.reference_epoch == self.current_epoch && key.frame_id > self.next_frame_id {
                proof {
                    assert(self@.waits_later(key.frame_id));
                    assert forall|other: u64| #[trigger] self@.waits_later(other) implies key.frame_id <= other by {
                        let place = HeldFrameKey { reference_epoch: self.current_epoch, frame_id: other };
                        assert(self.pending.keys().to_set().contains(place));
                        let i = choose|i: int| 0 <= i < self.pending.keys().len() && self.pending.keys()[i] == place;
                        assert(i >= index);
                        if i > index {
                            assert(self.pending.keys()[index as int].rank() < self.pending.keys()[i].rank());
                        }
                    }
                    assert(self@.is_next_available(key.frame_id));
                    lemma_next_available(self@, key.frame_id);
                }
                return Some(key.frame_id);
            }
            index += 1;
        }
        proof {
            assert forall|frame_id: u64| !self@.waits_later(frame_id) by {
                if self@.waits_later(frame_id) {
                    let place = HeldFrameKey { reference_epoch: self.current_epoch, frame_id };
                    assert(self.pending.keys().to_set().contains(place));
                    let i = choose|i: int| 0 <= i < self.pending.keys().len() && self.pending.keys()[i] == place;
                    assert(self.pending.keys()[i] == place);
                }
            }
        }
        None
    }

    /// Lets out the deltas that are due, and says how many of them had been held and how many
    /// missing frames were given up.
    fn drain_ready(&mut self, now: Timestamp, reorder_window: Duration) -> (drained: (
        Vec<(VideoSourceInfo, Bytes)>,
        usize,
        u64,
    ))
        requires
            old(self).wf(),
        ensures
            final(self).wf(),
            ({
                let expected = drain(old(self)@, now, duration_nanos(reorder_window));
                &&& final(self)@ == expected.stream
                &&& drained.0@ == expected.ready
                &&& drained.1 == expected.released
                &&& drained.2 == expected.skipped
            }),
    {
        let window: u128 = reorder_window.as_nanos();
        let mut ready: Vec<(VideoSourceInfo, Bytes)> = Vec::new();
        let mut released_frames: usize = 0;
        let mut skipped_frames: u64 = 0;
        let ghost expected = drain(self@, now, window as nat);
        proof {
            self.pending.lemma_keys();
            lemma_drain(self@, now, window as nat);
            assert(expected.ready =~= ready@ + expected.ready);
        }
        loop
            invariant_except_break
                self.wf(),
                ready@ + drain(self@, now, window as nat).ready == expected.ready,
                released_frames + drain(self@, now, window as nat).released == expected.released,
                skipped_frames + drain(self@, now, window as nat).skipped == expected.skipped,
                drain(self@, now, window as nat).stream == expected.stream,
                expected.skipped <= u64::MAX,
                expected.released <= usize::MAX,
            ensures
                self.wf(),
                self@ == expected.stream,
                ready@ == expected.ready,
                released_frames == expected.released,
                skipped_frames == expected.skipped,
            decreases
                    self@.pending.dom().len(),
                    (if self@.pending.contains_key(self@.due()) {
                        0nat
                    } else {
                        1nat
                    }),
        {
            proof {
                self.pending.lemma_keys();
                assert(ready@ + Seq::<(VideoSourceInfo, Bytes)>::empty() =~= ready@);
            }
            if self.current_epoch == 0 || self.next_frame_id == 0 {
                break ;
            }
            proof {
                lemma_drain(self@, now, window as nat);
            }
            let ghost before = self@;
            let ghost ready_before = ready@;
            let key = HeldFrameKey { reference_epoch: self.current_epoch, frame_id: self.next_frame_id };
            assert(key == self@.due());
            match self.take_pending(key) {
                Some(frame) => {
                    self.gap_started_at = None;
                    self.next_frame_id = self.next_frame_id.saturating_add(1);
                    if frame.counted_held {
                        released_frames = released_frames.saturating_add(1);
                    }
                    ready.push((frame.info, frame.payload));
                    proof {
                        assert(self@ == (StreamModel {
                            next_frame_id: next_u64(before.next_frame_id),
                            pending: before.pending.remove(before.due()),
                            gap_started_at: None,
                            ..before
                        }));
                        let rest = drain(self@, now, window as nat).ready;
                        assert(ready@ + rest =~= ready_before + (seq![(frame.info, frame.payload)] + rest));
                    }
                },
                None => {
                    assert(self@.pending =~= before.pending);
                    match self.next_available() {
                        None => {
                            self.gap_started_at = None;
                            break ;
                        },
                        Some(next) => {
                            let missed_since: Timestamp = match self.gap_started_at {
                                Some(started) => started,
                                None => now,
                            };
                            if (now.since(missed_since) as u128) < window {
                                self.gap_started_at = Some(missed_since);
                                break ;
                            }
                            proof {
                                let witness = choose|frame_id: u64| before.waits_later(frame_id);
                                lemma_next_available(before, witness);
                            }
                            skipped_frames = skipped_frames.saturating_add(next.saturating_sub(self.next_frame_id));
                            self.next_frame_id = next;
                            self.gap_started_at = None;
                            assert(self@ == (StreamModel { next_frame_id: next, gap_started_at: None, ..before }));
                        },
                    }
                },
            }
        }
        (ready, released_frames, skipped_frames)
    }

    /// Drops the deltas that are not to be kept, and says how many they were.
    fn drop_pending<F: Fn(&HeldFrameKey, &HeldVideoFrame) -> bool>(
        &mut self,
        keep: F,
        Ghost(kept): Ghost<spec_fn(HeldFrameKey, HeldVideoFrame) -> bool>,
    ) -> (dropped: usize)
        requires
            old(self).wf(),
            forall|key: HeldFrameKey, frame: HeldVideoFrame| #[trigger] keep.requires((&key, &frame)),
            forall|key: HeldFrameKey, frame: HeldVideoFrame, answer: bool| #[trigger]
                keep.ensures((&key, &frame), answer) ==> answer == kept(key, frame),
        ensures
            final(self).wf(),
            final(self)@ == (StreamModel { pending: kept_entries(old(self)@.pending, kept), ..old(self)@ }),
            dropped + kept_entries(old(self)@.pending, kept).dom().len() == old(self)@.pending.dom().len(),
    {
        let mut dropped: usize = 0;
        let mut index: usize = 0;
        let ghost before = self@;
        proof {
            self.pending.lemma_keys();
        }
        while index < self.pending.len()
            invariant
                self.wf(),
                before.pending.dom().len() <= usize::MAX,
                index <= self.pending.keys().len(),
                forall|key: HeldFrameKey, frame: HeldVideoFrame| #[trigger] keep.requires((&key, &frame)),
                forall|key: HeldFrameKey, frame: HeldVideoFrame, answer: bool| #[trigger]
                    keep.ensures((&key, &frame), answer) ==> answer == kept(key, frame),
                self@ == (StreamModel { pending: self@.pending, ..before }),
                kept_entries(self@.pending, kept) == kept_entries(before.pending, kept),
                forall|i: int| 0 <= i < index ==> kept(#[trigger] self.pending.keys()[i], self@.pending[self.pending.keys()[i]]),
                dropped + self@.pending.dom().len() == before.pending.dom().len(),
            decreases self.pending.keys().len() - index,
        {
            let key = self.pending.key_at(index);
            proof {
                self.pending.lemma_keys();
            }
            if keep(&key, self.pending.value_at(index)) {
                index += 1;
            } else {
                let ghost pending = self.pending;
                proof {
                    lemma_total_remove(self.pending@, key, frame_bytes());
                }
                let entry = self.pending.remove_at(index);
                self.pending_bytes = self.pending_bytes.saturating_sub(entry.1.payload.len());
                dropped += 1;
                proof {
                    assert(kept_entries(self@.pending, kept) =~= kept_entries(pending@, kept));
                    assert forall|i: int| 0 <= i < index implies kept(
                        #[trigger] self.pending.keys()[i],
                        self@.pending[self.pending.keys()[i]],
                    ) by {
                        assert(self.pending.keys()[i] == pending.keys()[i]);
                        assert(pending.keys()[i].rank() < pending.keys()[index as int].rank());
                    }
                }
            }
        }
        proof {
            self.pending.lemma_keys();
            assert forall|key: HeldFrameKey| self@.pending.contains_key(key) implies kept(key, self@.pending[key]) by {
                assert(self.pending.keys().to_set().contains(key));
                let i = choose|i: int| 0 <= i < self.pending.keys().len() && self.pending.keys()[i] == key;
                assert(kept(self.pending.keys()[i], self@.pending[self.pending.keys()[i]]));
            }
            assert(kept_entries(self@.pending, kept) =~= self@.pending);
        }
        dropped
    }

    /// Lets out the deltas that are due and drops those that waited too long.
    fn expire(&mut self, now: Timestamp, reorder_window: Duration) -> (expired: (
        Vec<(VideoSourceInfo, Bytes)>,
        usize,
        u64,
        usize,
    ))
        requires
            old(self).wf(),
        ensures
            final(self).wf(),
            ({
                let expected = expire_stream(old(self)@, now, duration_nanos(reorder_window));
                &&& final(self)@ == expected.stream
                &&& expired.0@ == expected.drained.ready
                &&& expired.1 == expected.drained.released
                &&& expired.2 == expected.drained.skipped
                &&& expired.3 == expected.timed_out
            }),
    {
        let (ready, released_frames, skipped_frames) = self.drain_ready(now, reorder_window);
        let ghost kept = |key: HeldFrameKey, frame: HeldVideoFrame| frame.spec_is_fresh(now);
        let keep = |_key: &HeldFrameKey, frame: &HeldVideoFrame| -> (fresh: bool)
            ensures
                fresh == frame.spec_is_fresh(now),
        {
            frame.is_fresh(now)
        };
        let timed_out: usize = self.drop_pending(keep, Ghost(kept));
        (ready, released_frames, skipped_frames, timed_out)
    }

    /// Whether the frame at this place is one that the stream has already moved past.
    fn is_stale(&self, key: HeldFrameKey) -> (stale: bool)
        ensures
            stale == self@.is_stale(key),
    {
        key.reference_epoch < self.current_epoch || (key.reference_epoch == self.current_epoch && self.next_frame_id
            != 0 && key.frame_id < self.next_frame_id)
    }

    /// Lets a delta wait.
    fn hold(&mut self, key: HeldFrameKey, frame: HeldVideoFrame)
        requires
            old(self).wf(),
            !old(self)@.pending.contains_key(key),
        ensures
            final(self).counted(),
            final(self)@ == (StreamModel { pending: old(self)@.pending.insert(key, frame), ..old(self)@ }),
    {
        proof {
            self.pending.lemma_keys();
            lemma_total_insert(self.pending@, key, frame, frame_bytes());
        }
        self.pending_bytes = self.pending_bytes.saturating_add(frame.payload.len());
        self.pending.insert(key, frame);
    }
}

/// What one step of the barrier hands out and reports.
pub struct VideoHoldbackOutcome {
    /// The frames that may be shown, in order.
    pub ready: Vec<(VideoSourceInfo, Bytes)>,
    /// How many deltas began to wait.
    pub held_frames: usize,
    /// How many deltas had waited and are now ready.
    pub released_frames: usize,
    /// A fresh keyframe is wanted.
    pub recovery_required: bool,
    /// Nothing may be shown without a fresh keyframe.
    pub strict_recovery_required: bool,
    /// On how many streams missing frames were given up.
    pub gap_events: usize,
    /// How many missing frames were given up.
    pub gap_skipped_frames: u64,
    /// How many deltas were dropped because they waited too long.
    pub timed_out_frames: usize,
    /// How many deltas were dropped for want of room.
    pub overflowed_frames: usize,
}

impl View for VideoHoldbackOutcome {
    type V = OutcomeModel;

    open spec fn view(&self) -> OutcomeModel {
        OutcomeModel {
            ready: self.ready@,
            held_frames: self.held_frames as nat,
            released_frames: self.released_frames as nat,
            recovery_required: self.recovery_required,
            strict_recovery_required: self.strict_recovery_required,
            gap_events: self.gap_events as nat,
            gap_skipped_frames: self.gap_skipped_frames as nat,
            timed_out_frames: self.timed_out_frames as nat,
            overflowed_frames: self.overflowed_frames as nat,
        }
    }
}

impl Default for VideoHoldbackOutcome {
    /// Nothing is handed out and nothing is reported.
    fn default() -> (outcome: Self)
        ensures
            outcome@ == no_outcome(),
    {
        VideoHoldbackOutcome {
            ready: Vec::new(),
            held_frames: 0,
            released_frames: 0,
            recovery_required: false,
            strict_recovery_required: false,
            gap_events: 0,
            gap_skipped_frames: 0,
            timed_out_frames: 0,
            overflowed_frames: 0,
        }
    }
}

impl VideoHoldbackOutcome {
    /// Adds what a stream let out.
    fn absorb(&mut self, mut ready: Vec<(VideoSourceInfo, Bytes)>, released_frames: usize, skipped_frames: u64)
        ensures
            forall|drained: Drained|
                drained.ready == ready@ && drained.released == released_frames && drained.skipped == skipped_frames
                    ==> final(self)@ == #[trigger] old(self)@.absorb(drained),
    {
        self.released_frames = self.released_frames.saturating_add(released_frames);
        if skipped_frames > 0 {
            self.gap_events = self.gap_events.saturating_add(1);
            self.gap_skipped_frames = self.gap_skipped_frames.saturating_add(skipped_frames);
            self.recovery_required = true;
        }
        self.ready.append(&mut ready);
    }

    /// Counts waiting deltas that were dropped for want of room.
    fn overflow(&mut self, frames: usize)
        ensures
            final(self)@ == old(self)@.overflow(frames as nat),
    {
        self.overflowed_frames = self.overflowed_frames.saturating_add(frames);
        self.recovery_required = true;
        self.strict_recovery_required = true;
    }
}

/// The keyframe barrier of all streams.
pub struct VideoEpochHoldback {
    streams: OrderedMap<VideoStreamKey, VideoEpochStreamState>,
    activity_generation: u64,
}

impl View for VideoEpochHoldback {
    type V = HoldbackModel;

    closed spec fn view(&self) -> HoldbackModel {
        HoldbackModel {
            streams: self.streams@.map_values(|state: VideoEpochStreamState| state@),
            activity_generation: self.activity_generation,
        }
    }
}

impl Default for VideoEpochHoldback {
    /// No stream is known.
    fn default() -> (holdback: Self)
        ensures
            holdback.wf(),
            holdback@ == (HoldbackModel { streams: Map::empty(), activity_generation: 0 }),
    {
        let holdback = VideoEpochHoldback { streams: OrderedMap::new(), activity_generation: 0 };
        assert(holdback@.streams =~= Map::empty());
        holdback
    }
}

impl VideoEpochHoldback {
    /// Each stream's byte count is right.
    spec fn sound(&self) -> bool {
        &&& self.streams.wf()
        &&& forall|key: VideoStreamKey| #[trigger] self.streams@.contains_key(key) ==> self.streams@[key].wf()
    }

    /// Each stream's byte count is right, the barrier is bounded, and every stream is consistent.
    pub closed spec fn wf(&self) -> bool {
        &&& self.sound()
        &&& self@.bounded()
        &&& self@.consistent()
    }

    /// A well-formed barrier is bounded and consistent.
    pub proof fn lemma_wf(&self)
        requires
            self.wf(),
        ensures
            self@.bounded(),
            self@.consistent(),
    {
    }

    proof fn lemma_view(&self)
        ensures
            self@.streams.dom() == self.streams@.dom(),
            forall|key: VideoStreamKey| #[trigger] self.streams@.contains_key(key) ==> self@.streams[key]
                == self.streams@[key]@,
    {
        assert(self@.streams.dom() =~= self.streams@.dom());
    }

    /// How many streams are known.
    pub fn stream_count(&self) -> (count: usize)
        requires
            self.wf(),
        ensures
            count == self@.streams.dom().len(),
    {
        proof {
            self.lemma_view();
        }
        self.streams.len()
    }

    /// Whether the stream is known.
    pub fn has_stream(&self, key: VideoStreamKey) -> (known: bool)
        requires
            self.wf(),
        ensures
            known == self@.streams.contains_key(key),
    {
        proof {
            self.lemma_view();
        }
        self.streams.contains_key(&key)
    }

    /// Lets out what is due and drops what waited too long.
    pub fn expire(&mut self, now: Timestamp, reorder_window: Duration) -> (outcome: VideoHoldbackOutcome)
        requires
            old(self).wf(),
        ensures
            final(self).wf(),
            (final(self)@, outcome@) == old(self)@.expire(now, duration_nanos(reorder_window)),
    {
        let ghost window = duration_nanos(reorder_window);
        let ghost before = *self;
        let ghost keys = self.streams.keys();
        let mut outcome = VideoHoldbackOutcome::default();
        let mut index: usize = 0;
        proof {
            self.streams.lemma_keys();
            self.lemma_view();
            assert(keys.take(0) =~= Seq::empty());
        }
        while index < self.streams.len()
            invariant
                before.wf(),
                window == duration_nanos(reorder_window),
                index <= keys.len(),
                keys == self.streams.keys(),
                keys == before.streams.keys(),
                self.sound(),
                self.streams@.dom() == before.streams@.dom(),
                self.activity_generation == before.activity_generation,
                forall|i: int| 0 <= i < index ==> self.streams@[#[trigger] keys[i]]@ == expire_stream(
                    before@.streams[keys[i]],
                    now,
                    window,
                ).stream,
                forall|i: int| index <= i < keys.len() ==> self.streams@[#[trigger] keys[i]] == before.streams@[keys[i]],
                outcome@ == expiry_outcome(before@.streams, keys.take(index as int), now, window),
            decreases keys.len() - index,
        {
            let ghost outcome_before = outcome@;
            let ghost streams_before = self.streams@;
            proof {
                self.streams.lemma_keys();
                before.streams.lemma_keys();
                before.lemma_view();
                assert(keys.take(index + 1).drop_last() =~= keys.take(index as int));
                assert(keys.take(index + 1).last() == keys[index as int]);
                assert(self.streams@.contains_key(keys[index as int]));
            }
            let ghost expiry = expire_stream(before@.streams[keys[index as int]], now, window);
            let state = self.streams.value_at_mut(index);
            let (ready, released_frames, skipped_frames, timed_out) = state.expire(now, reorder_window);
            outcome.absorb(ready, released_frames, skipped_frames);
            assert(outcome@ == outcome_before.absorb(expiry.drained));
            outcome.timed_out_frames = outcome.timed_out_frames.saturating_add(timed_out);
            if outcome.timed_out_frames > 0 {
                outcome.recovery_required = true;
                outcome.strict_recovery_required = true;
            }
            proof {
                assert(outcome@ =~= outcome_before.absorb_expiry(expiry));
                assert(self.streams@.dom() =~= streams_before.dom());
                assert(self.sound());
                assert forall|i: int| 0 <= i < index implies self.streams@[#[trigger] keys[i]]@ == expire_stream(
                    before@.streams[keys[i]],
                    now,
                    window,
                ).stream by {
                    assert(keys[i] != keys[index as int]);
                }
                assert forall|i: int| index < i < keys.len() implies self.streams@[#[trigger] keys[i]]
                    == before.streams@[keys[i]] by {
                    assert(keys[i] != keys[index as int]);
                }
            }
            index += 1;
        }
        proof {
            before.streams.lemma_keys();
            before.lemma_view();
            self.lemma_view();
            assert(keys.take(index as int) =~= keys);
            let expected = before@.expire(now, window).0;
            assert forall|key: VideoStreamKey| #[trigger] self@.streams.contains_key(key) implies self@.streams[key]
                == expected.streams[key] by {
                assert(keys.to_set().contains(key));
                let i = choose|i: int| 0 <= i < keys.len() && keys[i] == key;
                assert(self.streams@[keys[i]]@ == expire_stream(before@.streams[keys[i]], now, window).stream);
            }
            assert(self@.streams =~= expected.streams);
            lemma_expire(before@, now, window);
        }
        outcome
    }

    /// The stream that was not touched for the longest time.
    fn oldest_stream(&self) -> (oldest: Option<VideoStreamKey>)
        requires
            self.sound(),
        ensures
            match oldest {
                Some(key) => self@.is_oldest(key),
                None => self@.streams.dom().len() == 0,
            },
    {
        proof {
            self.lemma_view();
        }
        let activity = |state: &VideoEpochStreamState| -> (last: u64)
            ensures
                last == state.last_activity,
        {
            state.last_activity
        };
        let oldest = self.streams.least_key(activity, Ghost(|state: VideoEpochStreamState| state.last_activity));
        proof {
            if let Some(key) = oldest {
                assert forall|other: VideoStreamKey| #[trigger] self@.streams.contains_key(other) implies {
                    ||| self@.streams[key].last_activity < self@.streams[other].last_activity
                    ||| self@.streams[key].last_activity == self@.streams[other].last_activity && key.rank()
                        <= other.rank()
                } by {
                    assert(self.streams@.contains_key(other));
                }
            }
        }
        oldest
    }

    /// Makes room for a stream that is new, and marks the stream as touched.
    fn prepare_stream(&mut self, key: VideoStreamKey, outcome: &mut VideoHoldbackOutcome)
        requires
            old(self).wf(),
        ensures
            final(self).wf(),
            final(self)@ == old(self)@.prepare(key),
            final(outcome)@ == old(self)@.prepare_outcome(key, old(outcome)@),
    {
        let ghost before = *self;
        proof {
            lemma_prepare(self@, key);
            self.lemma_view();
            self.streams.lemma_keys();
        }
        self.activity_generation = self.activity_generation.saturating_add(1);
        if !self.streams.contains_key(&key) && self.streams.len() >= MAX_VIDEO_EPOCH_STREAM_STATES {
            let ghost aged = *self;
            proof {
                aged.lemma_view();
                assert(aged@.streams == before@.streams);
            }
            if let Some(oldest) = self.oldest_stream() {
                proof {
                    assert(before@.is_oldest(oldest));
                    lemma_least_of(before@.streams, stream_activity(), oldest);
                }
                if let Some(state) = self.streams.remove(&oldest) {
                    proof {
                        state.pending.lemma_keys();
                    }
                    if state.pending.len() > 0 {
                        outcome.overflow(state.pending.len());
                    }
                }
            }
        }
        let ghost kept = *self;
        let activity_generation: u64 = self.activity_generation;
        match self.streams.get_mut(&key) {
            Some(state) => {
                state.last_activity = activity_generation;
            },
            None => {
                let mut state = VideoEpochStreamState::new();
                state.last_activity = activity_generation;
                self.streams.insert(key, state);
            },
        }
        proof {
            kept.lemma_view();
            self.lemma_view();
            assert(kept@.streams =~= (if before@.is_full_for(key) {
                before@.streams.remove(before@.oldest())
            } else {
                before@.streams
            }));
            assert(self.streams@.dom() =~= kept.streams@.dom().insert(key));
            assert(self@.streams =~= before@.prepare(key).streams);
        }
    }

    /// How many deltas wait, and how many bytes they take.
    fn totals(&self) -> (totals: (usize, usize))
        requires
            self.streams.wf(),
            forall|key: VideoStreamKey| #[trigger] self.streams@.contains_key(key) ==> self.streams@[key].counted(),
        ensures
            totals.0 == at_most_usize(self@.frames()),
            totals.1 == at_most_usize(self@.bytes()),
    {
        let mut frames: usize = 0;
        let mut bytes: usize = 0;
        let mut index: usize = 0;
        let ghost keys = self.streams.keys();
        proof {
            self.streams.lemma_keys();
            self.lemma_view();
            assert(keys.take(0) =~= Seq::empty());
        }
        while index < self.streams.len()
            invariant
                self.streams.wf(),
                forall|key: VideoStreamKey| #[trigger] self.streams@.contains_key(key) ==> self.streams@[key].counted(),
                keys == self.streams.keys(),
                index <= keys.len(),
                frames == at_most_usize(total_along(self@.streams, keys.take(index as int), stream_frames())),
                bytes == at_most_usize(total_along(self@.streams, keys.take(index as int), stream_bytes())),
            decreases keys.len() - index,
        {
            let state = self.streams.value_at(index);
            proof {
                self.lemma_view();
                state.pending.lemma_keys();
                assert(keys.take(index + 1).drop_last() =~= keys.take(index as int));
                assert(keys.take(index + 1).last() == keys[index as int]);
                assert(self@.streams[keys[index as int]] == state@);
            }
            frames = frames.saturating_add(state.pending.len());
            bytes = bytes.saturating_add(state.pending_bytes);
            index += 1;
        }
        proof {
            assert(keys.take(index as int) =~= keys);
            lemma_total_along(self@.streams, keys, stream_frames());
            lemma_total_along(self@.streams, keys, stream_bytes());
        }
        (frames, bytes)
    }

    /// How many deltas wait, and how many bytes they take.
    pub fn pending_totals(&self) -> (totals: (usize, usize))
        requires
            self.wf(),
        ensures
            totals.0 == self@.frames(),
            totals.1 == self@.bytes(),
    {
        self.totals()
    }

    /// Drops every delta that waits.
    fn clear_pending(&mut self)
        requires
            old(self).streams.wf(),
            old(self)@.streams.dom().len() <= MAX_VIDEO_EPOCH_STREAM_STATES,
        ensures
            final(self).wf(),
            final(self)@ == old(self)@.cleared(),
    {
        let ghost before = *self;
        let ghost keys = self.streams.keys();
        let ghost clear = |stream: StreamModel| StreamModel { pending: Map::empty(), gap_started_at: None, ..stream };
        let mut index: usize = 0;
        proof {
            self.streams.lemma_keys();
            self.lemma_view();
        }
        while index < self.streams.len()
            invariant
                index <= keys.len(),
                keys == self.streams.keys(),
                keys == before.streams.keys(),
                self.streams.wf(),
                before.streams.wf(),
                clear == (|stream: StreamModel| StreamModel { pending: Map::empty(), gap_started_at: None, ..stream }),
                self.streams@.dom() == before.streams@.dom(),
                self.activity_generation == before.activity_generation,
                forall|i: int| 0 <= i < index ==> {
                    &&& self.streams@[#[trigger] keys[i]]@ == clear(before.streams@[keys[i]]@)
                    &&& self.streams@[keys[i]].wf()
                },
                forall|i: int| index <= i < keys.len() ==> self.streams@[#[trigger] keys[i]] == before.streams@[keys[i]],
            decreases keys.len() - index,
        {
            let ghost streams_before = self.streams@;
            proof {
                self.streams.lemma_keys();
            }
            let state = self.streams.value_at_mut(index);
            state.pending.clear();
            state.pending_bytes = 0;
            state.gap_started_at = None;
            proof {
                assert(self.streams@.dom() =~= streams_before.dom());
                assert forall|i: int| 0 <= i < index implies {
                    &&& self.streams@[#[trigger] keys[i]]@ == clear(before.streams@[keys[i]]@)
                    &&& self.streams@[keys[i]].wf()
                } by {
                    assert(keys[i] != keys[index as int]);
                }
                assert forall|i: int| index < i < keys.len() implies self.streams@[#[trigger] keys[i]]
                    == before.streams@[keys[i]] by {
                    assert(keys[i] != keys[index as int]);
                }
            }
            index += 1;
        }
        proof {
            before.streams.lemma_keys();
            before.lemma_view();
            self.lemma_view();
            let expected = before@.cleared();
            assert forall|key: VideoStreamKey| #[trigger] self.streams@.contains_key(key) implies self@.streams[key]
                == expected.streams[key] && self.streams@[key].wf() by {
                assert(keys.to_set().contains(key));
                let i = choose|i: int| 0 <= i < keys.len() && keys[i] == key;
                assert(self.streams@[keys[i]]@ == clear(before.streams@[keys[i]]@));
            }
            assert(self@.streams =~= expected.streams);
            lemma_cleared(before@);
        }
    }

    /// Lets one stream give out what is due.
    fn drain_stream(&mut self, key: VideoStreamKey, outcome: &mut VideoHoldbackOutcome, now: Timestamp, reorder_window: Duration)
        requires
            old(self).wf(),
            old(self)@.streams.contains_key(key),
        ensures
            final(self).wf(),
            (final(self)@, final(outcome)@) == old(self)@.drain_stream(
                old(outcome)@,
                key,
                now,
                duration_nanos(reorder_window),
            ),
    {
        let ghost before = *self;
        let ghost window = duration_nanos(reorder_window);
        proof {
            self.lemma_view();
            lemma_drain_stream(self@, outcome@, key, now, window);
        }
        let ghost drained = drain(before@.streams[key], now, window);
        if let Some(state) = self.streams.get_mut(&key) {
            let (ready, released_frames, skipped_frames) = state.drain_ready(now, reorder_window);
            outcome.absorb(ready, released_frames, skipped_frames);
            assert(outcome@ == old(outcome)@.absorb(drained));
        }
        proof {
            self.lemma_view();
            assert(self.streams@.dom() =~= before.streams@.dom());
            assert(self@.streams =~= before@.streams.insert(key, drained.stream));
        }
    }

    /// A delta arrives that refers to the keyframe `reference_epoch`.
    pub fn admit_delta(
        &mut self,
        info: VideoSourceInfo,
        reference_epoch: u64,
        payload: Bytes,
        now: Timestamp,
        reorder_window: Duration,
    ) -> (outcome: VideoHoldbackOutcome)
        requires
            old(self).wf(),
        ensures
            final(self).wf(),
            (final(self)@, outcome@) == old(self)@.with_delta(
                info,
                reference_epoch,
                payload,
                now,
                duration_nanos(reorder_window),
            ),
    {
        let mut outcome = self.expire(now, reorder_window);
        if reference_epoch == 0 {
            outcome.recovery_required = true;
            outcome.strict_recovery_required = true;
            return outcome;
        }
        proof {
            lemma_prepare(self@, info.key);
        }
        self.prepare_stream(info.key, &mut outcome);
        let ghost prepared = *self;
        proof {
            self.lemma_view();
        }
        let place = HeldFrameKey { reference_epoch, frame_id: info.frame_id };
        if let Some(state) = self.streams.get_mut(&info.key) {
            if state.is_stale(place) || state.pending.contains_key(&place) {
                assert(self.streams@ =~= prepared.streams@);
                return outcome;
            }
            let counted_held = reference_epoch != state.current_epoch || state.next_frame_id == 0 || info.frame_id
                != state.next_frame_id;
            if counted_held {
                outcome.held_frames = outcome.held_frames.saturating_add(1);
            }
            state.hold(place, HeldVideoFrame { info, payload, received_at: now, counted_held });
        }
        proof {
            self.lemma_view();
            lemma_held_delta(prepared@, info, reference_epoch, payload, now);
            assert(self.streams@.dom() =~= prepared.streams@.dom());
            assert(self@.streams =~= held_delta(prepared@, info, reference_epoch, payload, now).streams);
            assert forall|key: VideoStreamKey| #[trigger] self.streams@.contains_key(
                key,
            ) implies self.streams@[key].counted() by {
                if key != info.key {
                    assert(prepared.streams@.contains_key(key));
                }
            }
        }
        let (frames, bytes) = self.totals();
        if frames > VIDEO_EPOCH_HOLDBACK_MAX_FRAMES || bytes > VIDEO_EPOCH_HOLDBACK_MAX_BYTES {
            outcome.overflow(frames);
            self.clear_pending();
            return outcome;
        }
        proof {
            assert forall|key: VideoStreamKey| #[trigger] self.streams@.contains_key(
                key,
            ) implies self.streams@[key].wf() by {
                lemma_total_remove(self@.streams, key, stream_bytes());
            }
        }
        self.drain_stream(info.key, &mut outcome, now, reorder_window);
        outcome
    }

    /// A keyframe arrives.
    pub fn accept_keyframe(
        &mut self,
        info: VideoSourceInfo,
        payload: Bytes,
        now: Timestamp,
        reorder_window: Duration,
    ) -> (outcome: VideoHoldbackOutcome)
        requires
            old(self).wf(),
        ensures
            final(self).wf(),
            (final(self)@, outcome@) == old(self)@.with_keyframe(info, payload, now, duration_nanos(reorder_window)),
    {
        let ghost before = *self;
        let ghost kept = |other: VideoStreamKey, state: VideoEpochStreamState|
            other.display != info.key.display || other.stream_id == info.key.stream_id;
        let keep = |other: &VideoStreamKey, _state: &VideoEpochStreamState| -> (stays: bool)
            ensures
                stays == (other.display != info.key.display || other.stream_id == info.key.stream_id),
        {
            other.display != info.key.display || other.stream_id == info.key.stream_id
        };
        self.streams.retain(keep, Ghost(kept));
        proof {
            before.lemma_view();
            self.lemma_view();
            assert(self@.streams =~= before@.without_rivals(info.key).streams);
            lemma_without_rivals(before@, info.key);
        }
        let mut outcome = self.expire(now, reorder_window);
        proof {
            lemma_prepare(self@, info.key);
        }
        self.prepare_stream(info.key, &mut outcome);
        let ghost prepared = *self;
        proof {
            self.lemma_view();
            lemma_restarted(self@.streams[info.key], info);
        }
        if let Some(state) = self.streams.get_mut(&info.key) {
            state.current_epoch = info.frame_id;
            state.next_frame_id = info.frame_id.saturating_add(1);
            state.gap_started_at = None;
            let keep = |key: &HeldFrameKey, _frame: &HeldVideoFrame| -> (stays: bool)
                ensures
                    stays == (key.reference_epoch >= info.frame_id && key.frame_id > info.frame_id),
            {
                key.reference_epoch >= info.frame_id && key.frame_id > info.frame_id
            };
            let _obsolete: usize = state.drop_pending(keep, Ghost(follows(info.frame_id)));
        }
        outcome.ready.push((info, payload));
        proof {
            self.lemma_view();
            let started = restarted(prepared@.streams[info.key], info);
            assert(self.streams@.dom() =~= prepared.streams@.dom());
            assert(self@.streams =~= prepared@.streams.insert(info.key, started));
            lemma_with_lighter_stream(prepared@, info.key, started);
        }
        self.drain_stream(info.key, &mut outcome, now, reorder_window);
        outcome
    }
}

} // verus!
