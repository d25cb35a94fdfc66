//! The sizes of the latest video frames.

use crate::numbers::smaller;
use crate::time::Timestamp;
use crate::transport::video::VideoFrameMetadata;
use vstd::prelude::*;
use vstd::relations::{sorted_by, total_ordering};

verus! {

/// How many frames are remembered.
pub const VIDEO_FRAME_SIZE_WINDOW: usize = 512;

/// How often the percentiles are published.
pub const VIDEO_FRAME_PERCENTILE_PUBLISH_INTERVAL_NANOS: u64 = 500_000_000;

/// After how long a pause the frames before it are forgotten.
pub const VIDEO_FRAME_SIZE_WINDOW_IDLE_RESET_NANOS: u64 = 2_000_000_000;

/// The size of a frame.
#[derive(Clone, Copy, Debug, PartialEq, Eq, Structural)]
pub struct VideoFrameSizeSample {
    /// The bytes of its datagrams.
    pub datagram_bytes: u32,
    /// The bytes of its datagrams and of all that waited before them.
    pub required_bytes: u32,
}

/// A size, at most the largest one that is told apart.
pub open spec fn clamped(bytes: usize) -> u32 {
    if bytes > u32::MAX {
        u32::MAX
    } else {
        bytes as u32
    }
}

/// Numbers in the usual order.
pub open spec fn at_most() -> spec_fn(u32, u32) -> bool {
    |a: u32, b: u32| a <= b
}

/// The place of a percentile among so many sorted values, by nearest rank: up to it, but not before it,
/// the values make up at least so many percent of all. Zero percent lie at the first place, and more
/// than all at the last.
pub open spec fn is_nearest_rank(len: nat, percentile: nat, place: nat) -> bool {
    if len == 0 || percentile == 0 {
        place == 0
    } else if percentile > 100 {
        place + 1 == len
    } else {
        100 * place < len * percentile <= 100 * (place + 1)
    }
}

/// The place of a percentile among so many sorted values, by nearest rank.
pub open spec fn nearest_rank(len: nat, percentile: nat) -> nat {
    choose|place: nat| is_nearest_rank(len, percentile, place)
}

/// A percentile of some values: the value at its place once they are sorted. None counts as zero.
pub open spec fn percentile_of(values: Seq<u32>, percentile: nat) -> u64 {
    if values.len() == 0 {
        0
    } else {
        values.sort_by(at_most())[nearest_rank(values.len(), percentile) as int] as u64
    }
}

/// The bytes of the datagrams of some frames.
pub open spec fn datagram_sizes(samples: Seq<VideoFrameSizeSample>) -> Seq<u32> {
    samples.map_values(|sample: VideoFrameSizeSample| sample.datagram_bytes)
}

/// The bytes that some frames required.
pub open spec fn required_sizes(samples: Seq<VideoFrameSizeSample>) -> Seq<u32> {
    samples.map_values(|sample: VideoFrameSizeSample| sample.required_bytes)
}

/// The 95th and the 99th percentile of both sizes.
pub open spec fn size_percentiles(samples: Seq<VideoFrameSizeSample>) -> (u64, u64, u64, u64) {
    (
        percentile_of(datagram_sizes(samples), 95),
        percentile_of(datagram_sizes(samples), 99),
        percentile_of(required_sizes(samples), 95),
        percentile_of(required_sizes(samples), 99),
    )
}

/// There is one place of a percentile only.
proof fn lemma_nearest_rank(len: nat, percentile: nat, place: nat)
    requires
        is_nearest_rank(len, percentile, place),
    ensures
        nearest_rank(len, percentile) == place,
{
    let other = nearest_rank(len, percentile);
    assert(is_nearest_rank(len, percentile, other));
}

/// The place of a percentile among so many sorted values, by nearest rank. Where the numbers do not
/// reach, it is the last place or the last one that they can tell.
pub fn nearest_rank_index(len: usize, percentile: usize) -> (index: usize)
    ensures
        len > 0 ==> index < len,
        if len * percentile + 99 <= usize::MAX {
            &&& is_nearest_rank(len as nat, percentile as nat, index as nat)
            &&& index == nearest_rank(len as nat, percentile as nat)
        } else {
            index == smaller((usize::MAX / 100 - 1) as nat, (len - 1) as nat)
        },
{
    let product: usize = match len.checked_mul(percentile) {
        Some(product) => product,
        None => usize::MAX,
    };
    let place: usize = (product.saturating_add(99) / 100).saturating_sub(1);
    let last: usize = len.saturating_sub(1);
    let index: usize = if place < last {
        place
    } else {
        last
    };
    proof {
        if len * percentile + 99 <= usize::MAX {
            if len == 0 || percentile == 0 {
                assert(len * percentile == 0) by (nonlinear_arith)
                    requires
                        len == 0 || percentile == 0,
                ;
            } else {
                lemma_share(len as nat, percentile as nat);
            }
            assert(is_nearest_rank(len as nat, percentile as nat, index as nat));
            lemma_nearest_rank(len as nat, percentile as nat, index as nat);
        } else {
            assert(len > 0) by (nonlinear_arith)
                requires
                    len * percentile + 99 > usize::MAX,
                    len >= 0,
            ;
        }
    }
    index
}

/// So many percent of some values are some of them, and at most all unless they are more than all.
proof fn lemma_share(len: nat, percentile: nat)
    requires
        len > 0,
        percentile > 0,
    ensures
        len * percentile > 0,
        percentile <= 100 ==> len * percentile <= 100 * len,
        percentile > 100 ==> len * percentile > 100 * len,
{
    assert(len * percentile > 0) by (nonlinear_arith)
        requires
            len > 0,
            percentile > 0,
    ;
    if percentile <= 100 {
        assert(len * percentile <= 100 * len) by (nonlinear_arith)
            requires
                percentile <= 100,
        ;
    } else {
        assert(len * percentile > 100 * len) by (nonlinear_arith)
            requires
                percentile > 100,
                len > 0,
        ;
    }
}

/// The latest frames, oldest first.
#[verifier::ext_equal]
pub struct SizeWindowModel {
    pub samples: Seq<VideoFrameSizeSample>,
    pub last_published_at: Timestamp,
    pub last_recorded_at: Option<Timestamp>,
}

impl SizeWindowModel {
    /// With one more frame. After a pause the frames before it are forgotten, and only so many are
    /// remembered.
    pub open spec fn record(self, now: Timestamp, datagram_bytes: usize, required_bytes: usize) -> SizeWindowModel {
        let idle = match self.last_recorded_at {
            Some(last) => now.spec_since(last) >= VIDEO_FRAME_SIZE_WINDOW_IDLE_RESET_NANOS,
            None => false,
        };
        let kept = if idle {
            Seq::empty()
        } else {
            self.samples
        };
        let all = kept.push(
            VideoFrameSizeSample {
                datagram_bytes: clamped(datagram_bytes),
                required_bytes: clamped(required_bytes),
            },
        );
        SizeWindowModel {
            samples: if all.len() > VIDEO_FRAME_SIZE_WINDOW {
                all.drop_first()
            } else {
                all
            },
            last_recorded_at: Some(now),
            ..self
        }
    }

    /// It is time to publish the percentiles.
    pub open spec fn is_due(self, now: Timestamp) -> bool {
        now.spec_since(self.last_published_at) >= VIDEO_FRAME_PERCENTILE_PUBLISH_INTERVAL_NANOS
    }
}

/// The sizes of the latest video frames.
pub struct VideoFrameSizeWindow {
    samples: Vec<VideoFrameSizeSample>,
    len: usize,
    next: usize,
    last_published_at: Timestamp,
    last_recorded_at: Option<Timestamp>,
}

impl View for VideoFrameSizeWindow {
    type V = SizeWindowModel;

    closed spec fn view(&self) -> SizeWindowModel {
        SizeWindowModel {
            samples: if self.len < VIDEO_FRAME_SIZE_WINDOW {
                self.samples@.take(self.len as int)
            } else {
                self.samples@.skip(self.next as int) + self.samples@.take(self.next as int)
            },
            last_published_at: self.last_published_at,
            last_recorded_at: self.last_recorded_at,
        }
    }
}

impl VideoFrameSizeWindow {
    /// The samples stand in a ring, which is written in order.
    pub closed spec fn wf(&self) -> bool {
        &&& self.samples@.len() == VIDEO_FRAME_SIZE_WINDOW
        &&& self.len <= VIDEO_FRAME_SIZE_WINDOW
        &&& self.next < VIDEO_FRAME_SIZE_WINDOW
        &&& self.len < VIDEO_FRAME_SIZE_WINDOW ==> self.next == self.len
    }

    /// No frame is remembered.
    pub fn new(now: Timestamp) -> (window: Self)
        ensures
            window.wf(),
            window@ == (SizeWindowModel {
                samples: Seq::empty(),
                last_published_at: now,
                last_recorded_at: None,
            }),
    {
        let empty = VideoFrameSizeSample { datagram_bytes: 0, required_bytes: 0 };
        let mut samples: Vec<VideoFrameSizeSample> = Vec::new();
        while samples.len() < VIDEO_FRAME_SIZE_WINDOW
            invariant
                samples@.len() <= VIDEO_FRAME_SIZE_WINDOW,
            decreases VIDEO_FRAME_SIZE_WINDOW - samples@.len(),
        {
            samples.push(empty);
        }
        let window = VideoFrameSizeWindow { samples, len: 0, next: 0, last_published_at: now, last_recorded_at: None };
        assert(window@.samples =~= Seq::empty());
        window
    }

    /// Remembers a frame.
    pub fn record(&mut self, now: Timestamp, datagram_bytes: usize, required_bytes: usize)
        requires
            old(self).wf(),
        ensures
            final(self).wf(),
            final(self)@ == old(self)@.record(now, datagram_bytes, required_bytes),
    {
        let idle = match self.last_recorded_at {
            Some(last) => now.since(last) >= VIDEO_FRAME_SIZE_WINDOW_IDLE_RESET_NANOS,
            None => false,
        };
        if idle {
            self.len = 0;
            self.next = 0;
        }
        let ghost kept = self@.samples;
        self.last_recorded_at = Some(now);
        let sample = VideoFrameSizeSample {
            datagram_bytes: if datagram_bytes > u32::MAX as usize {
                u32::MAX
            } else {
                datagram_bytes as u32
            },
            required_bytes: if required_bytes > u32::MAX as usize {
                u32::MAX
            } else {
                required_bytes as u32
            },
        };
        let ghost before = *self;
        self.samples.set(self.next, sample);
        self.next = (self.next + 1) % VIDEO_FRAME_SIZE_WINDOW;
        if self.len < VIDEO_FRAME_SIZE_WINDOW {
            self.len = self.len + 1;
        }
        proof {
            if idle {
                assert(kept =~= Seq::empty());
            }
            let all = kept.push(sample);
            if before.len < VIDEO_FRAME_SIZE_WINDOW {
                assert(self@.samples =~= all);
            } else {
                assert(self@.samples =~= all.drop_first());
            }
        }
    }

    /// The 95th and the 99th percentile of both sizes.
    pub fn percentiles(&self) -> (percentiles: (u64, u64, u64, u64))
        requires
            self.wf(),
        ensures
            percentiles == size_percentiles(self@.samples),
    {
        if self.len == 0 {
            return (0, 0, 0, 0);
        }
        let ghost filled = self.samples@.take(self.len as int);
        let mut datagram: Vec<u32> = Vec::new();
        let mut required: Vec<u32> = Vec::new();
        let mut index: usize = 0;
        while index < self.len
            invariant
                self.wf(),
                index <= self.len,
                filled == self.samples@.take(self.len as int),
                datagram@ == datagram_sizes(filled).take(index as int),
                required@ == required_sizes(filled).take(index as int),
            decreases self.len - index,
        {
            datagram.push(self.samples[index].datagram_bytes);
            required.push(self.samples[index].required_bytes);
            index += 1;
            assert(datagram@ =~= datagram_sizes(filled).take(index as int));
            assert(required@ =~= required_sizes(filled).take(index as int));
        }
        proof {
            assert(datagram@ =~= datagram_sizes(filled));
            assert(required@ =~= required_sizes(filled));
            if self.len == VIDEO_FRAME_SIZE_WINDOW {
                assert(filled =~= self.samples@);
            }
            lemma_rotated(filled, self@.samples, self.next as int);
        }
        sort(&mut datagram);
        sort(&mut required);
        let p95: usize = nearest_rank_index(self.len, 95);
        let p99: usize = nearest_rank_index(self.len, 99);
        (datagram[p95] as u64, datagram[p99] as u64, required[p95] as u64, required[p99] as u64)
    }

    /// The percentiles, if it is time to publish them.
    pub fn publish_if_due(&mut self, now: Timestamp) -> (published: Option<(u64, u64, u64, u64)>)
        requires
            old(self).wf(),
        ensures
            final(self).wf(),
            if old(self)@.is_due(now) {
                &&& published == Some(size_percentiles(old(self)@.samples))
                &&& final(self)@ == (SizeWindowModel { last_published_at: now, ..old(self)@ })
            } else {
                published is None && final(self)@ == old(self)@
            },
    {
        if now.since(self.last_published_at) < VIDEO_FRAME_PERCENTILE_PUBLISH_INTERVAL_NANOS {
            return None;
        }
        self.last_published_at = now;
        Some(self.percentiles())
    }
}

/// Sorts some numbers.
fn sort(values: &mut Vec<u32>)
    ensures
        final(values)@ == old(values)@.sort_by(at_most()),
        final(values)@.len() == old(values)@.len(),
{
    let mut end: usize = 0;
    while end < values.len()
        invariant
            end <= values@.len(),
            values@.len() == old(values)@.len(),
            values@.to_multiset() == old(values)@.to_multiset(),
            forall|i: int, j: int| 0 <= i < j < end ==> values@[i] <= values@[j],
        decreases values@.len() - end,
    {
        let ghost started = values@;
        let value: u32 = values[end];
        let mut hole: usize = end;
        while hole > 0 && values[hole - 1] > value
            invariant
                hole <= end < values@.len(),
                values@.len() == started.len(),
                started[end as int] == value,
                forall|i: int, j: int| 0 <= i < j < end ==> started[i] <= started[j],
                values@ == started.remove(end as int).insert(hole as int, values@[hole as int]),
                forall|i: int| hole < i <= end ==> values@[i] > value,
                forall|i: int| 0 <= i < hole ==> values@[i] == started[i],
                forall|i: int| hole < i <= end ==> values@[i] == started[i - 1],
            decreases hole,
        {
            let moved: u32 = values[hole - 1];
            values.set(hole, moved);
            hole -= 1;
            proof {
                assert(values@ =~= started.remove(end as int).insert(hole as int, values@[hole as int]));
            }
        }
        values.set(hole, value);
        proof {
            let rest = started.remove(end as int);
            assert(values@ =~= rest.insert(hole as int, value));
            vstd::seq_lib::to_multiset_insert(rest, hole as int, value);
            vstd::seq_lib::to_multiset_insert(rest, end as int, value);
            assert(rest.insert(end as int, value) =~= started);
        }
        end += 1;
    }
    proof {
        let leq = at_most();
        assert(total_ordering(leq));
        old(values)@.lemma_sort_by_ensures(leq);
        assert(sorted_by(values@, leq));
        vstd::seq_lib::lemma_sorted_unique(values@, old(values)@.sort_by(leq), leq);
    }
}

/// The order in which frames are remembered does not matter for their percentiles.
proof fn lemma_rotated(filled: Seq<VideoFrameSizeSample>, samples: Seq<VideoFrameSizeSample>, at: int)
    requires
        0 <= at <= filled.len(),
        samples == filled || samples == filled.skip(at) + filled.take(at),
    ensures
        datagram_sizes(filled).sort_by(at_most()) == datagram_sizes(samples).sort_by(at_most()),
        required_sizes(filled).sort_by(at_most()) == required_sizes(samples).sort_by(at_most()),
        filled.len() == samples.len(),
{
    let leq = at_most();
    assert(total_ordering(leq));
    assert(filled =~= filled.take(at) + filled.skip(at));
    if filled != samples {
        assert(datagram_sizes(samples) =~= datagram_sizes(filled).skip(at) + datagram_sizes(filled).take(at));
        assert(required_sizes(samples) =~= required_sizes(filled).skip(at) + required_sizes(filled).take(at));
    }
    lemma_same_sorted(datagram_sizes(filled), datagram_sizes(samples), at, filled == samples);
    lemma_same_sorted(required_sizes(filled), required_sizes(samples), at, filled == samples);
}

proof fn lemma_same_sorted(a: Seq<u32>, b: Seq<u32>, at: int, same: bool)
    requires
        0 <= at <= a.len(),
        if same {
            a == b
        } else {
            b == a.skip(at) + a.take(at)
        },
    ensures
        a.sort_by(at_most()) == b.sort_by(at_most()),
{
    let leq = at_most();
    assert(total_ordering(leq));
    if !same {
        vstd::seq_lib::lemma_multiset_commutative(a.take(at), a.skip(at));
        vstd::seq_lib::lemma_multiset_commutative(a.skip(at), a.take(at));
        assert(a =~= a.take(at) + a.skip(at));
        assert((a.take(at) + a.skip(at)).to_multiset() =~= (a.skip(at) + a.take(at)).to_multiset());
        assert(a.to_multiset() == b.to_multiset());
        a.lemma_sort_by_ensures(leq);
        b.lemma_sort_by_ensures(leq);
        vstd::seq_lib::lemma_sorted_unique(a.sort_by(leq), b.sort_by(leq), leq);
    }
}

/// Remembers the size of a delta. Keyframes do not count.
pub fn record_delta_frame_size(
    window: &mut VideoFrameSizeWindow,
    metadata: VideoFrameMetadata,
    now: Timestamp,
    datagram_bytes: usize,
    required_bytes: usize,
) -> (recorded: bool)
    requires
        old(window).wf(),
    ensures
        final(window).wf(),
        recorded == !metadata.spec_is_keyframe(),
        final(window)@ == if recorded {
            old(window)@.record(now, datagram_bytes, required_bytes)
        } else {
            old(window)@
        },
{
    if metadata.is_keyframe() {
        return false;
    }
    window.record(now, datagram_bytes, required_bytes);
    true
}

/// Only the latest frames are remembered, and the last one is among them.
pub proof fn window_keeps_the_latest(
    window: SizeWindowModel,
    now: Timestamp,
    datagram_bytes: usize,
    required_bytes: usize,
)
    requires
        window.samples.len() <= VIDEO_FRAME_SIZE_WINDOW,
    ensures
        ({
            let after = window.record(now, datagram_bytes, required_bytes).samples;
            &&& 0 < after.len() <= VIDEO_FRAME_SIZE_WINDOW
            &&& after.last().datagram_bytes == clamped(datagram_bytes)
            &&& after.last().required_bytes == clamped(required_bytes)
        }),
{
}

/// A size that is at most so many bytes.
pub open spec fn within(bound: u32) -> spec_fn(u32) -> bool {
    |size: u32| size <= bound
}

/// How many of some sizes are at most so many bytes.
pub open spec fn count_within(sizes: Seq<u32>, bound: u32) -> nat {
    sizes.filter(within(bound)).len()
}

/// How many sizes are within a bound does not depend on their order.
proof fn lemma_count_within(sizes: Seq<u32>, bound: u32)
    ensures
        count_within(sizes, bound) == sizes.to_multiset().filter(within(bound)).len(),
    decreases sizes.len(),
{
    reveal(Seq::filter);
    broadcast use vstd::multiset::group_multiset_axioms;

    if sizes.len() == 0 {
        assert(sizes =~= Seq::empty());
        vstd::seq_lib::to_multiset_len(sizes);
        assert(sizes.to_multiset().filter(within(bound)) =~= vstd::multiset::Multiset::empty());
    } else {
        let rest = sizes.drop_last();
        lemma_count_within(rest, bound);
        assert(sizes =~= rest.push(sizes.last()));
        vstd::seq_lib::to_multiset_build(rest, sizes.last());
        let kept = rest.to_multiset().filter(within(bound));
        if within(bound)(sizes.last()) {
            assert(sizes.to_multiset().filter(within(bound)) =~= kept.insert(sizes.last()));
        } else {
            assert(sizes.to_multiset().filter(within(bound)) =~= kept);
        }
    }
}

/// Of sorted sizes, those within a bound come first.
proof fn lemma_count_sorted(sizes: Seq<u32>, bound: u32, count: int)
    requires
        0 <= count <= sizes.len(),
        forall|i: int| 0 <= i < count ==> sizes[i] <= bound,
        forall|i: int| count <= i < sizes.len() ==> sizes[i] > bound,
    ensures
        count_within(sizes, bound) == count,
    decreases sizes.len(),
{
    reveal(Seq::filter);
    if sizes.len() > 0 {
        let rest = sizes.drop_last();
        lemma_count_sorted(
            rest,
            bound,
            if count == sizes.len() {
                count - 1
            } else {
                count
            },
        );
    }
}

/// Where the sizes within a bound end among sorted ones.
proof fn lemma_split(sizes: Seq<u32>, bound: u32) -> (count: int)
    requires
        sorted_by(sizes, at_most()),
    ensures
        0 <= count <= sizes.len(),
        forall|i: int| 0 <= i < count ==> sizes[i] <= bound,
        forall|i: int| count <= i < sizes.len() ==> sizes[i] > bound,
    decreases sizes.len(),
{
    if sizes.len() == 0 {
        0
    } else if sizes.last() <= bound {
        assert forall|i: int| 0 <= i < sizes.len() implies sizes[i] <= bound by {
            if i < sizes.len() - 1 {
                assert(at_most()(sizes[i], sizes[sizes.len() - 1]));
            }
        }
        sizes.len() as int
    } else {
        assert(sorted_by(sizes.drop_last(), at_most())) by {
            assert forall|i: int, j: int| 0 <= i < j < sizes.len() - 1 implies #[trigger] at_most()(
                sizes.drop_last()[i],
                sizes.drop_last()[j],
            ) by {
                assert(at_most()(sizes[i], sizes[j]));
            }
        }
        let count = lemma_split(sizes.drop_last(), bound);
        assert forall|i: int| 0 <= i < count implies sizes[i] <= bound by {
            assert(sizes.drop_last()[i] <= bound);
        }
        assert forall|i: int| count <= i < sizes.len() implies sizes[i] > bound by {
            if i < sizes.len() - 1 {
                assert(sizes.drop_last()[i] > bound);
            }
        }
        count
    }
}

/// A percentile is the least size that enough of the sizes do not exceed: it is one of them, so many
/// percent of them are at most that large, and of no smaller size is that so.
pub proof fn percentile_is_the_least_that_suffices(sizes: Seq<u32>, percentile: nat)
    requires
        sizes.len() > 0,
        0 < percentile <= 100,
    ensures
        ({
            let size = percentile_of(sizes, percentile) as u32;
            &&& sizes.contains(size)
            &&& 100 * count_within(sizes, size) >= sizes.len() * percentile
            &&& forall|smaller_size: u32|
                smaller_size < size ==> 100 * #[trigger] count_within(sizes, smaller_size) < sizes.len() * percentile
        }),
{
    let sorted = sizes.sort_by(at_most());
    assert(total_ordering(at_most()));
    sizes.lemma_sort_by_ensures(at_most());
    vstd::seq_lib::to_multiset_len(sizes);
    vstd::seq_lib::to_multiset_len(sorted);
    lemma_share(sizes.len(), percentile);
    let place = ((sizes.len() * percentile + 99) / 100 - 1) as nat;
    assert(is_nearest_rank(sizes.len(), percentile, place));
    lemma_nearest_rank(sizes.len(), percentile, place);
    let size = sorted[place as int];
    vstd::seq_lib::to_multiset_contains(sorted, size);
    vstd::seq_lib::to_multiset_contains(sizes, size);
    assert(sorted.contains(size));
    assert forall|bound: u32| #[trigger] count_within(sizes, bound) > place <==> bound >= size by {
        let count = lemma_split(sorted, bound);
        lemma_count_sorted(sorted, bound, count);
        lemma_count_within(sorted, bound);
        lemma_count_within(sizes, bound);
    }
    assert(count_within(sizes, size) > place);
}

/// A frame joins the ones before it as the last one. Those before it are kept in their order, at most five
/// hundred and eleven of them, the oldest going first; after a pause of two seconds or more none is.
pub proof fn frames_join_the_latest(window: SizeWindowModel, now: Timestamp, datagram_bytes: usize, required_bytes: usize)
    requires
        window.samples.len() <= 512,
        datagram_bytes <= u32::MAX,
        required_bytes <= u32::MAX,
    ensures
        ({
            let after = window.record(now, datagram_bytes, required_bytes);
            let sample = VideoFrameSizeSample {
                datagram_bytes: datagram_bytes as u32,
                required_bytes: required_bytes as u32,
            };
            let paused = window.last_recorded_at matches Some(last) && now.nanos >= last.nanos + 2_000_000_000;
            &&& after.last_recorded_at == Some(now)
            &&& after.last_published_at == window.last_published_at
            &&& after.samples.last() == sample
            &&& paused ==> after.samples.len() == 1
            &&& !paused && window.samples.len() < 512 ==> after.samples.drop_last() == window.samples
            &&& !paused && window.samples.len() == 512 ==> after.samples.drop_last() == window.samples.drop_first()
        }),
{
    let after = window.record(now, datagram_bytes, required_bytes);
    let paused = window.last_recorded_at matches Some(last) && now.nanos >= last.nanos + 2_000_000_000;
    if !paused && window.samples.len() < 512 {
        assert(after.samples.drop_last() =~= window.samples);
    }
    if !paused && window.samples.len() == 512 {
        assert(after.samples.drop_last() =~= window.samples.drop_first());
    }
}

/// A size that is too large to be told counts as the largest that can be.
pub proof fn sizes_are_told_as_far_as_they_can_be(bytes: usize)
    ensures
        bytes <= u32::MAX ==> clamped(bytes) == bytes,
        bytes > u32::MAX ==> clamped(bytes) == u32::MAX,
{
}

/// The percentiles are published every half second.
pub proof fn percentiles_come_out_every_half_second(window: SizeWindowModel, now: Timestamp)
    ensures
        window.is_due(now) <==> now.nanos >= window.last_published_at.nanos + 500_000_000,
{
}

/// What is published are four sizes of the latest frames: for their datagrams and for what they required, each
/// the least size that ninety-five, and that ninety-nine, of a hundred frames do not exceed.
pub proof fn published_sizes_are_percentiles(samples: Seq<VideoFrameSizeSample>)
    requires
        samples.len() > 0,
    ensures
        ({
            let sent = samples.map_values(|sample: VideoFrameSizeSample| sample.datagram_bytes);
            let required = samples.map_values(|sample: VideoFrameSizeSample| sample.required_bytes);
            let (sent_95, sent_99, required_95, required_99) = size_percentiles(samples);
            &&& sent.contains(sent_95 as u32) && sent.contains(sent_99 as u32)
            &&& required.contains(required_95 as u32) && required.contains(required_99 as u32)
            &&& 100 * count_within(sent, sent_95 as u32) >= 95 * samples.len()
            &&& 100 * count_within(sent, sent_99 as u32) >= 99 * samples.len()
            &&& 100 * count_within(required, required_95 as u32) >= 95 * samples.len()
            &&& 100 * count_within(required, required_99 as u32) >= 99 * samples.len()
            &&& forall|size: u32|
                size < sent_95 ==> 100 * #[trigger] count_within(sent, size) < 95 * samples.len()
            &&& forall|size: u32|
                size < sent_99 ==> 100 * #[trigger] count_within(sent, size) < 99 * samples.len()
            &&& forall|size: u32|
                size < required_95 ==> 100 * #[trigger] count_within(required, size) < 95 * samples.len()
            &&& forall|size: u32|
                size < required_99 ==> 100 * #[trigger] count_within(required, size) < 99 * samples.len()
        }),
{
    let sent = samples.map_values(|sample: VideoFrameSizeSample| sample.datagram_bytes);
    let required = samples.map_values(|sample: VideoFrameSizeSample| sample.required_bytes);
    assert(datagram_sizes(samples) =~= sent);
    assert(required_sizes(samples) =~= required);
    percentile_is_the_least_that_suffices(sent, 95);
    percentile_is_the_least_that_suffices(sent, 99);
    percentile_is_the_least_that_suffices(required, 95);
    percentile_is_the_least_that_suffices(required, 99);
}

/// Without any frame every percentile is zero.
pub proof fn no_frames_have_no_size(percentile: nat)
    ensures
        percentile_of(Seq::empty(), percentile) == 0,
        size_percentiles(Seq::empty()) == (0u64, 0u64, 0u64, 0u64),
{
    let samples = Seq::<VideoFrameSizeSample>::empty();
    assert(datagram_sizes(samples) =~= Seq::empty());
    assert(required_sizes(samples) =~= Seq::empty());
}

} // verus!
