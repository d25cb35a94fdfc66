//! Places where only the latest value waits.

use super::metrics::{raise, raised};
use super::outbound::VideoOutboundTrackKey;
use crate::ordered::{first_of, lemma_first_exists, lemma_first_of, OrderedKey, OrderedMap};
use vstd::prelude::*;

verus! {

/// What became of a value that was offered to a slot.
#[derive(Clone, Copy, Debug, PartialEq, Eq, Structural)]
pub enum SlotOutcome {
    /// It waits, and nothing had to go for it.
    Stored,
    /// It waits in place of another value.
    Replaced,
    /// It was dropped.
    Refused,
}

impl SlotOutcome {
    /// Whether the value waits.
    pub fn is_queued(self) -> (queued: bool)
        ensures
            queued == !(self is Refused),
    {
        !matches!(self, SlotOutcome::Refused)
    }
}

/// A place for one value.
pub struct LatestSlot<T> {
    value: Option<T>,
    replacements: u64,
}

impl<T> LatestSlot<T> {
    /// The value that waits.
    pub closed spec fn pending(&self) -> Option<T> {
        self.value
    }

    /// How many values were replaced.
    pub closed spec fn replacement_count(&self) -> u64 {
        self.replacements
    }

    /// Nothing waits.
    pub fn new() -> (slot: Self)
        ensures
            slot.pending() is None,
            slot.replacement_count() == 0,
    {
        LatestSlot { value: None, replacements: 0 }
    }

    /// How many values were replaced.
    pub fn replacements(&self) -> (count: u64)
        ensures
            count == self.replacement_count(),
    {
        self.replacements
    }

    /// Lets the value wait, in place of what waited.
    pub fn replace(&mut self, value: T)
        ensures
            final(self).pending() == Some(value),
            final(self).replacement_count() == if old(self).pending() is Some {
                raised(old(self).replacement_count(), 1)
            } else {
                old(self).replacement_count()
            },
    {
        if self.value.is_some() {
            raise(&mut self.replacements, 1);
        }
        self.value = Some(value);
    }

    /// Lets the value wait if nothing waits, or if it is to replace what waits.
    pub fn replace_when<F: Fn(&T, &T) -> bool>(&mut self, value: T, should_replace: F) -> (outcome: SlotOutcome)
        requires
            old(self).pending() matches Some(pending) ==> should_replace.requires((&pending, &value)),
        ensures
            match old(self).pending() {
                None => {
                    &&& outcome is Stored
                    &&& final(self).pending() == Some(value)
                    &&& final(self).replacement_count() == old(self).replacement_count()
                },
                Some(pending) => {
                    ||| {
                        &&& should_replace.ensures((&pending, &value), true)
                        &&& outcome is Replaced
                        &&& final(self).pending() == Some(value)
                        &&& final(self).replacement_count() == raised(old(self).replacement_count(), 1)
                    }
                    ||| {
                        &&& should_replace.ensures((&pending, &value), false)
                        &&& outcome is Refused
                        &&& final(self).pending() == Some(pending)
                        &&& final(self).replacement_count() == old(self).replacement_count()
                    }
                },
            },
    {
        let mut outcome = SlotOutcome::Stored;
        if let Some(pending) = &self.value {
            if !should_replace(pending, &value) {
                return SlotOutcome::Refused;
            }
            outcome = SlotOutcome::Replaced;
        }
        if matches!(outcome, SlotOutcome::Replaced) {
            raise(&mut self.replacements, 1);
        }
        self.value = Some(value);
        outcome
    }

    /// Takes out what waits.
    pub fn take(&mut self) -> (value: Option<T>)
        ensures
            value == old(self).pending(),
            final(self).pending() is None,
            final(self).replacement_count() == old(self).replacement_count(),
    {
        self.value.take()
    }
}

/// The tracks of `pending` that come after `last`.
pub open spec fn later_tracks(pending: Set<VideoOutboundTrackKey>, last: VideoOutboundTrackKey) -> Set<
    VideoOutboundTrackKey,
> {
    Set::new(|key: VideoOutboundTrackKey| pending.contains(key) && key.rank() > last.rank())
}

/// The track that is served next: the first one after the one that was served last, or else the
/// first one.
pub open spec fn next_track(
    pending: Set<VideoOutboundTrackKey>,
    last_taken: Option<VideoOutboundTrackKey>,
) -> VideoOutboundTrackKey {
    match last_taken {
        Some(last) => if exists|key: VideoOutboundTrackKey| later_tracks(pending, last).contains(key) {
            first_of(later_tracks(pending, last))
        } else {
            first_of(pending)
        },
        None => first_of(pending),
    }
}

/// A place for one value of each track.
pub struct TrackLatestSlot<T> {
    pending: OrderedMap<VideoOutboundTrackKey, T>,
    last_taken: Option<VideoOutboundTrackKey>,
    max_tracks: usize,
}

impl<T> TrackLatestSlot<T> {
    /// The values that wait, by track.
    pub closed spec fn waiting(&self) -> Map<VideoOutboundTrackKey, T> {
        self.pending@
    }

    /// The track that was served last.
    pub closed spec fn last_served(&self) -> Option<VideoOutboundTrackKey> {
        self.last_taken
    }

    /// For how many tracks there is room.
    pub closed spec fn room(&self) -> nat {
        self.max_tracks as nat
    }

    /// No more tracks wait than there is room for.
    pub closed spec fn wf(&self) -> bool {
        &&& self.pending.wf()
        &&& self.pending@.dom().len() <= self.max_tracks
        &&& self.max_tracks >= 1
    }

    /// What well-formedness says of the tracks.
    pub proof fn lemma_wf(&self)
        requires
            self.wf(),
        ensures
            self.waiting().dom().finite(),
            self.waiting().dom().len() <= self.room(),
            self.room() >= 1,
    {
        self.pending.lemma_keys();
    }

    /// Nothing waits. There is room for one track at least.
    pub fn new(max_tracks: usize) -> (slot: Self)
        ensures
            slot.wf(),
            slot.waiting() == Map::<VideoOutboundTrackKey, T>::empty(),
            slot.last_served() is None,
            slot.room() == if max_tracks == 0 {
                1
            } else {
                max_tracks as nat
            },
    {
        TrackLatestSlot {
            pending: OrderedMap::new(),
            last_taken: None,
            max_tracks: if max_tracks == 0 {
                1
            } else {
                max_tracks
            },
        }
    }

    /// Lets the value wait on its track, if nothing waits there and there is room for the track, or
    /// if it is to replace what waits there.
    pub fn replace_when_with<F: Fn(&T, &T) -> bool>(
        &mut self,
        key: VideoOutboundTrackKey,
        value: T,
        should_replace: F,
    ) -> (outcome: SlotOutcome)
        requires
            old(self).wf(),
            old(self).waiting().contains_key(key) ==> should_replace.requires((&old(self).waiting()[key], &value)),
        ensures
            final(self).wf(),
            final(self).last_served() == old(self).last_served(),
            final(self).room() == old(self).room(),
            if old(self).waiting().contains_key(key) {
                ||| {
                    &&& should_replace.ensures((&old(self).waiting()[key], &value), true)
                    &&& outcome is Replaced
                    &&& final(self).waiting() == old(self).waiting().insert(key, value)
                }
                ||| {
                    &&& should_replace.ensures((&old(self).waiting()[key], &value), false)
                    &&& outcome is Refused
                    &&& final(self).waiting() == old(self).waiting()
                }
            } else if old(self).waiting().dom().len() >= old(self).room() {
                outcome is Refused && final(self).waiting() == old(self).waiting()
            } else {
                outcome is Stored && final(self).waiting() == old(self).waiting().insert(key, value)
            },
    {
        proof {
            self.pending.lemma_keys();
            if self.pending@.contains_key(key) {
                assert(self.pending@.insert(key, value).dom() =~= self.pending@.dom());
            }
        }
        if let Some(pending) = self.pending.get(&key) {
            if !should_replace(pending, &value) {
                return SlotOutcome::Refused;
            }
            self.pending.insert(key, value);
            SlotOutcome::Replaced
        } else {
            if self.pending.len() >= self.max_tracks {
                return SlotOutcome::Refused;
            }
            self.pending.insert(key, value);
            SlotOutcome::Stored
        }
    }

    /// Takes out the value of the track that is served next.
    pub fn take(&mut self) -> (value: Option<T>)
        requires
            old(self).wf(),
        ensures
            final(self).wf(),
            final(self).room() == old(self).room(),
            match value {
                Some(value) => {
                    let key = next_track(old(self).waiting().dom(), old(self).last_served());
                    &&& old(self).waiting().contains_key(key)
                    &&& value == old(self).waiting()[key]
                    &&& final(self).waiting() == old(self).waiting().remove(key)
                    &&& final(self).last_served() == Some(key)
                },
                None => {
                    &&& old(self).waiting().dom() == Set::<VideoOutboundTrackKey>::empty()
                    &&& final(self).waiting() == old(self).waiting()
                    &&& final(self).last_served() == old(self).last_served()
                },
            },
    {
        proof {
            self.pending.lemma_keys();
        }
        match self.next_key() {
            Some(key) => {
                self.last_taken = Some(key);
                self.pending.remove(&key)
            },
            None => None,
        }
    }

    /// The track that is served next.
    fn next_key(&self) -> (key: Option<VideoOutboundTrackKey>)
        requires
            self.wf(),
        ensures
            match key {
                Some(key) => {
                    &&& self.waiting().contains_key(key)
                    &&& key == next_track(self.waiting().dom(), self.last_served())
                },
                None => self.waiting().dom() == Set::<VideoOutboundTrackKey>::empty(),
            },
    {
        let ghost keys = self.pending.keys();
        proof {
            self.pending.lemma_keys();
        }
        if let Some(last) = self.last_taken {
            let ghost later = later_tracks(self.pending@.dom(), last);
            let mut index: usize = 0;
            while index < self.pending.len()
                invariant
                    self.wf(),
                    keys == self.pending.keys(),
                    index <= keys.len(),
                    self.last_taken == Some(last),
                    later == later_tracks(self.pending@.dom(), last),
                    forall|i: int| 0 <= i < index ==> (#[trigger] keys[i]).rank() <= last.rank(),
                decreases keys.len() - index,
            {
                let key = self.pending.key_at(index);
                if last.precedes(&key) {
                    proof {
                        self.pending.lemma_keys();
                        assert(later.contains(key));
                        assert forall|other: VideoOutboundTrackKey| #[trigger] later.contains(other) implies key.rank()
                            <= other.rank() by {
                            assert(keys.to_set().contains(other));
                            let i = choose|i: int| 0 <= i < keys.len() && keys[i] == other;
                            assert(keys[i].rank() > last.rank());
                            assert(i >= index);
                            if i > index {
                                assert(keys[index as int].rank() < keys[i].rank());
                            }
                        }
                        lemma_first_of(later, key);
                    }
                    return Some(key);
                }
                index += 1;
            }
            proof {
                self.pending.lemma_keys();
                assert forall|key: VideoOutboundTrackKey| !later.contains(key) by {
                    if later.contains(key) {
                        assert(keys.to_set().contains(key));
                        let i = choose|i: int| 0 <= i < keys.len() && keys[i] == key;
                        assert(keys[i].rank() <= last.rank());
                    }
                }
            }
        }
        self.pending.first_key()
    }

    /// Takes out the value of one track.
    pub fn take_track(&mut self, key: VideoOutboundTrackKey) -> (value: Option<T>)
        requires
            old(self).wf(),
        ensures
            final(self).wf(),
            final(self).room() == old(self).room(),
            final(self).last_served() == old(self).last_served(),
            final(self).waiting() == old(self).waiting().remove(key),
            match value {
                Some(value) => old(self).waiting().contains_key(key) && value == old(self).waiting()[key],
                None => !old(self).waiting().contains_key(key),
            },
    {
        proof {
            self.pending.lemma_keys();
        }
        self.pending.remove(&key)
    }
}

/// A track that was just served is not served again while another one waits.
pub proof fn service_rotates(
    pending: Set<VideoOutboundTrackKey>,
    last: VideoOutboundTrackKey,
    other: VideoOutboundTrackKey,
)
    requires
        pending.finite(),
        pending.contains(other),
        other != last,
    ensures
        pending.contains(next_track(pending, Some(last))),
        next_track(pending, Some(last)) != last,
{
    let later = later_tracks(pending, last);
    if exists|key: VideoOutboundTrackKey| later.contains(key) {
        let witness = choose|key: VideoOutboundTrackKey| later.contains(key);
        vstd::set_lib::lemma_len_subset(later, pending);
        assert(later.len() > 0) by {
            if later.len() == 0 {
                assert(later =~= Set::empty());
            }
        }
        lemma_first_exists(later);
        assert(later.contains(first_of(later)));
    } else {
        assert(pending.len() > 0) by {
            if pending.len() == 0 {
                assert(pending =~= Set::empty());
            }
        }
        lemma_first_exists(pending);
        if first_of(pending) == last {
            assert(last.rank() <= other.rank());
            assert(!later.contains(other));
            VideoOutboundTrackKey::rank_is_injective(last, other);
        }
    }
}

/// Tracks that were named come first, in the order of their names, then those of streams, in the order of the
/// streams, and last the frames of no track.
pub proof fn tracks_stand_in_order(a: VideoOutboundTrackKey, b: VideoOutboundTrackKey)
    ensures
        match (a, b) {
            (VideoOutboundTrackKey::Latest(x), VideoOutboundTrackKey::Latest(y)) => a.rank() < b.rank() <==> x < y,
            (VideoOutboundTrackKey::Source(x), VideoOutboundTrackKey::Source(y)) => a.rank() < b.rank() <==> (x.display
                < y.display || (x.display == y.display && x.stream_id < y.stream_id)),
            (VideoOutboundTrackKey::Unscoped, VideoOutboundTrackKey::Unscoped) => true,
            (VideoOutboundTrackKey::Unscoped, _) => a.rank() > b.rank(),
            (_, VideoOutboundTrackKey::Unscoped) => a.rank() < b.rank(),
            (VideoOutboundTrackKey::Latest(x), VideoOutboundTrackKey::Source(y)) => y.display >= 0 ==> a.rank() < b.rank(),
            (VideoOutboundTrackKey::Source(y), VideoOutboundTrackKey::Latest(x)) => y.display >= 0 ==> b.rank() < a.rank(),
        },
{
}

/// The track that is served is one that waits. No track that waits stands between the last one that was served and
/// it; and only if none waits behind the last one is the first of all served.
pub proof fn next_track_stands_behind_the_last(
    pending: Set<VideoOutboundTrackKey>,
    last_taken: Option<VideoOutboundTrackKey>,
    other: VideoOutboundTrackKey,
)
    requires
        pending.finite(),
        pending.contains(other),
    ensures
        ({
            let next = next_track(pending, last_taken);
            &&& pending.contains(next)
            &&& last_taken is None ==> next.rank() <= other.rank()
            &&& last_taken matches Some(last) ==> {
                &&& next.rank() > last.rank() && other.rank() > last.rank() ==> next.rank() <= other.rank()
                &&& next.rank() <= last.rank() ==> other.rank() <= last.rank() && next.rank() <= other.rank()
            }
        }),
{
    assert(pending.len() > 0) by {
        if pending.len() == 0 {
            assert(pending =~= Set::empty());
        }
    }
    lemma_first_exists(pending);
    if let Some(last) = last_taken {
        let later = later_tracks(pending, last);
        if exists|key: VideoOutboundTrackKey| later.contains(key) {
            vstd::set_lib::lemma_len_subset(later, pending);
            assert(later.len() > 0) by {
                if later.len() == 0 {
                    assert(later =~= Set::empty());
                }
            }
            lemma_first_exists(later);
            assert(later.contains(first_of(later)));
            if other.rank() > last.rank() {
                assert(later.contains(other));
            }
        } else {
            assert(!later.contains(other));
        }
    }
}

} // verus!
