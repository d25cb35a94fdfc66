//! How much video may wait in the datagram send queue.

use crate::numbers::{at_most_u128, at_most_u64, at_most_usize, larger, smaller};
use crate::time::duration_nanos;
use std::time::Duration;
use vstd::prelude::*;

verus! {

/// What is kept free for input and audio.
pub const DEFAULT_INTERACTIVE_DATAGRAM_RESERVE_BYTES: usize = 65_536;

/// The least that video may fill.
pub const MIN_VIDEO_DATAGRAM_QUEUE_BYTES: usize = 196_608;

/// How long video may wait, in microseconds.
pub const DEFAULT_VIDEO_DATAGRAM_QUEUE_TARGET_US: u64 = 120_000;

/// How long video may wait when a movie plays, in microseconds.
pub const MOVIE_VIDEO_DATAGRAM_QUEUE_TARGET_US: u64 = 40_000;

/// The least that video may fill when a movie plays.
pub const MOVIE_MIN_VIDEO_DATAGRAM_QUEUE_BYTES: usize = 65_536;

/// Why a frame is not sent.
#[derive(Clone, Copy, Debug, PartialEq, Eq, Structural)]
pub enum VideoDatagramAdmissionFailure {
    InteractiveReserve,
    VideoQueueBudget,
    InteractiveReserveAndVideoQueueBudget,
}

impl VideoDatagramAdmissionFailure {
    /// The name of the reason.
    pub open spec fn spec_as_str(self) -> Seq<char> {
        match self {
            VideoDatagramAdmissionFailure::InteractiveReserve => "interactive-reserve"@,
            VideoDatagramAdmissionFailure::VideoQueueBudget => "video-queue-budget"@,
            VideoDatagramAdmissionFailure::InteractiveReserveAndVideoQueueBudget =>
                "interactive-reserve+video-queue-budget"@,
        }
    }

    /// The name of the reason.
    pub fn as_str(self) -> (name: &'static str)
        ensures
            name@ == self.spec_as_str(),
    {
        match self {
            VideoDatagramAdmissionFailure::InteractiveReserve => "interactive-reserve",
            VideoDatagramAdmissionFailure::VideoQueueBudget => "video-queue-budget",
            VideoDatagramAdmissionFailure::InteractiveReserveAndVideoQueueBudget => {
                "interactive-reserve+video-queue-budget"
            },
        }
    }
}

/// The frame leaves the reserve free.
pub open spec fn leaves_reserve(datagram_bytes: usize, available_bytes: usize, reserve_bytes: usize) -> bool {
    datagram_bytes + reserve_bytes <= usize::MAX && datagram_bytes + reserve_bytes <= available_bytes
}

/// Why a frame is not sent; none if it is. One complete frame is let in as long as what waits is
/// within its budget.
pub open spec fn admission_failure(
    datagram_bytes: usize,
    available_bytes: usize,
    reserve_bytes: usize,
    queued_bytes: usize,
    video_queue_budget: usize,
) -> Option<VideoDatagramAdmissionFailure> {
    let reserve = leaves_reserve(datagram_bytes, available_bytes, reserve_bytes);
    let queue = queued_bytes <= video_queue_budget;
    if reserve && queue {
        None
    } else if queue {
        Some(VideoDatagramAdmissionFailure::InteractiveReserve)
    } else if reserve {
        Some(VideoDatagramAdmissionFailure::VideoQueueBudget)
    } else {
        Some(VideoDatagramAdmissionFailure::InteractiveReserveAndVideoQueueBudget)
    }
}

/// Whether a frame is sent.
pub fn video_frame_fits_send_budget(
    datagram_bytes: usize,
    available_bytes: usize,
    interactive_reserve_bytes: usize,
    queued_bytes: usize,
    video_queue_budget: usize,
) -> (fits: bool)
    ensures
        fits == (admission_failure(
            datagram_bytes,
            available_bytes,
            interactive_reserve_bytes,
            queued_bytes,
            video_queue_budget,
        ) is None),
{
    video_frame_admission_failure(
        datagram_bytes,
        available_bytes,
        interactive_reserve_bytes,
        queued_bytes,
        video_queue_budget,
    ).is_none()
}

/// Why a frame is not sent.
pub fn video_frame_admission_failure(
    datagram_bytes: usize,
    available_bytes: usize,
    interactive_reserve_bytes: usize,
    queued_bytes: usize,
    video_queue_budget: usize,
) -> (failure: Option<VideoDatagramAdmissionFailure>)
    ensures
        failure == admission_failure(
            datagram_bytes,
            available_bytes,
            interactive_reserve_bytes,
            queued_bytes,
            video_queue_budget,
        ),
{
    let preserves_interactive_reserve = match datagram_bytes.checked_add(interactive_reserve_bytes) {
        Some(required) => required <= available_bytes,
        None => false,
    };
    // One complete frame may overshoot the latency budget while what waits is still within it. The
    // reserve stays a hard limit, and the next frame is refused until the overshoot has drained.
    let stays_within_video_queue = queued_bytes <= video_queue_budget;
    match (preserves_interactive_reserve, stays_within_video_queue) {
        (true, true) => None,
        (false, true) => Some(VideoDatagramAdmissionFailure::InteractiveReserve),
        (true, false) => Some(VideoDatagramAdmissionFailure::VideoQueueBudget),
        (false, false) => Some(VideoDatagramAdmissionFailure::InteractiveReserveAndVideoQueueBudget),
    }
}

/// A product, at most the largest number of 128 bits.
fn saturating_product(a: u128, b: u128) -> (product: u128)
    ensures
        product == at_most_u128((a * b) as nat),
{
    match a.checked_mul(b) {
        Some(product) => product,
        None => u128::MAX,
    }
}

/// How long what waits takes to go out, in microseconds, at one congestion window per round trip.
pub open spec fn queue_delay_us(queued_bytes: nat, window_bytes: nat, rtt_us: nat) -> nat {
    if queued_bytes == 0 || window_bytes == 0 {
        0
    } else {
        at_most_u64(at_most_u128(queued_bytes * rtt_us) / window_bytes)
    }
}

/// How long what waits takes to go out, in microseconds.
pub fn video_datagram_queue_delay_us(queued_bytes: usize, congestion_window_bytes: u64, rtt: Duration) -> (delay_us: u64)
    ensures
        delay_us == queue_delay_us(
            queued_bytes as nat,
            congestion_window_bytes as nat,
            duration_nanos(rtt) / 1_000,
        ),
{
    if queued_bytes == 0 || congestion_window_bytes == 0 {
        return 0;
    }
    let delay_us: u128 = saturating_product(queued_bytes as u128, rtt.as_micros()) / (congestion_window_bytes as u128);
    if delay_us > u64::MAX as u128 {
        u64::MAX
    } else {
        delay_us as u64
    }
}

/// How much video may wait: what goes out within the target time at one congestion window per round
/// trip, but no less than the minimum, and never what is kept free. A round trip counts as five
/// milliseconds at least, the target as one microsecond.
pub open spec fn queue_budget(
    window_bytes: nat,
    rtt_us: nat,
    capacity_bytes: nat,
    reserve_bytes: nat,
    target_us: nat,
    minimum_bytes: nat,
) -> nat {
    let within_target = at_most_u128(window_bytes * larger(target_us, 1)) / larger(rtt_us, 5_000);
    let room = if capacity_bytes < reserve_bytes {
        0
    } else {
        (capacity_bytes - reserve_bytes) as nat
    };
    smaller(larger(at_most_usize(within_target), minimum_bytes), room)
}

/// How much video may wait.
pub fn video_datagram_queue_budget(
    congestion_window_bytes: u64,
    rtt: Duration,
    send_buffer_capacity: usize,
    interactive_reserve_bytes: usize,
    target_latency: Duration,
    minimum_video_queue_bytes: usize,
) -> (budget: usize)
    ensures
        budget == queue_budget(
            congestion_window_bytes as nat,
            duration_nanos(rtt) / 1_000,
            send_buffer_capacity as nat,
            interactive_reserve_bytes as nat,
            duration_nanos(target_latency) / 1_000,
            minimum_video_queue_bytes as nat,
        ),
{
    let rtt_us: u128 = rtt.as_micros();
    let rtt_us: u128 = if rtt_us < 5_000 {
        5_000
    } else {
        rtt_us
    };
    let target_us: u128 = target_latency.as_micros();
    let target_us: u128 = if target_us < 1 {
        1
    } else {
        target_us
    };
    let latency_budget: u128 = saturating_product(congestion_window_bytes as u128, target_us) / rtt_us;
    let latency_budget: usize = if latency_budget > usize::MAX as u128 {
        usize::MAX
    } else {
        latency_budget as usize
    };
    let preferred_budget: usize = if latency_budget < minimum_video_queue_bytes {
        minimum_video_queue_bytes
    } else {
        latency_budget
    };
    let room: usize = send_buffer_capacity.saturating_sub(interactive_reserve_bytes);
    if preferred_budget < room {
        preferred_budget
    } else {
        room
    }
}

/// A frame that is sent leaves the reserve free, and what waited before it was within its budget.
pub proof fn sent_frames_leave_the_reserve(
    datagram_bytes: usize,
    available_bytes: usize,
    reserve_bytes: usize,
    queued_bytes: usize,
    video_queue_budget: usize,
)
    requires
        admission_failure(datagram_bytes, available_bytes, reserve_bytes, queued_bytes, video_queue_budget) is None,
    ensures
        available_bytes - datagram_bytes >= reserve_bytes,
        queued_bytes <= video_queue_budget,
{
}

/// The budget never reaches into what is kept free.
pub proof fn budget_leaves_the_reserve(
    window_bytes: nat,
    rtt_us: nat,
    capacity_bytes: nat,
    reserve_bytes: nat,
    target_us: nat,
    minimum_bytes: nat,
)
    requires
        reserve_bytes <= capacity_bytes,
    ensures
        queue_budget(window_bytes, rtt_us, capacity_bytes, reserve_bytes, target_us, minimum_bytes) + reserve_bytes
            <= capacity_bytes,
{
}

/// A shorter target and a lower minimum never give a higher budget.
pub proof fn budget_grows_with_target_and_minimum(
    window_bytes: nat,
    rtt_us: nat,
    capacity_bytes: nat,
    reserve_bytes: nat,
    target_us: nat,
    minimum_bytes: nat,
    longer_target_us: nat,
    higher_minimum_bytes: nat,
)
    requires
        target_us <= longer_target_us,
        minimum_bytes <= higher_minimum_bytes,
    ensures
        queue_budget(window_bytes, rtt_us, capacity_bytes, reserve_bytes, target_us, minimum_bytes) <= queue_budget(
            window_bytes,
            rtt_us,
            capacity_bytes,
            reserve_bytes,
            longer_target_us,
            higher_minimum_bytes,
        ),
{
    let a = window_bytes * larger(target_us, 1);
    let b = window_bytes * larger(longer_target_us, 1);
    vstd::arithmetic::mul::lemma_mul_inequality(
        larger(target_us, 1) as int,
        larger(longer_target_us, 1) as int,
        window_bytes as int,
    );
    vstd::arithmetic::mul::lemma_mul_is_commutative(window_bytes as int, larger(target_us, 1) as int);
    vstd::arithmetic::mul::lemma_mul_is_commutative(window_bytes as int, larger(longer_target_us, 1) as int);
    assert(a <= b);
    vstd::arithmetic::div_mod::lemma_div_is_ordered(
        at_most_u128(a) as int,
        at_most_u128(b) as int,
        larger(rtt_us, 5_000) as int,
    );
}

/// A frame is sent if it leaves the reserve free and what waits before it is within the budget, however
/// large the frame itself is; otherwise it is told which of the two it fails, or that it fails both.
pub proof fn frames_are_sent_within_reserve_and_budget(
    datagram_bytes: usize,
    available_bytes: usize,
    reserve_bytes: usize,
    queued_bytes: usize,
    video_queue_budget: usize,
)
    ensures
        match admission_failure(datagram_bytes, available_bytes, reserve_bytes, queued_bytes, video_queue_budget) {
            None => datagram_bytes + reserve_bytes <= available_bytes && queued_bytes <= video_queue_budget,
            Some(VideoDatagramAdmissionFailure::InteractiveReserve) => datagram_bytes + reserve_bytes > available_bytes
                && queued_bytes <= video_queue_budget,
            Some(VideoDatagramAdmissionFailure::VideoQueueBudget) => datagram_bytes + reserve_bytes <= available_bytes
                && queued_bytes > video_queue_budget,
            Some(VideoDatagramAdmissionFailure::InteractiveReserveAndVideoQueueBudget) => datagram_bytes + reserve_bytes
                > available_bytes && queued_bytes > video_queue_budget,
        },
{
}

/// How much video may wait is bounded from both sides. It never reaches into the reserve. Unless it is all
/// the room there is, it is no less than the minimum, and one byte more would no longer go out within the
/// target at one congestion window per round trip. And what is beyond the minimum does go out within it.
/// A round trip of less than five milliseconds counts as five, and a target of none as one microsecond.
pub proof fn budget_goes_out_within_the_target(
    window_bytes: nat,
    rtt_us: nat,
    capacity_bytes: nat,
    reserve_bytes: nat,
    target_us: nat,
    minimum_bytes: nat,
)
    requires
        minimum_bytes <= usize::MAX,
        capacity_bytes <= usize::MAX,
        window_bytes * target_us <= u128::MAX,
        window_bytes <= u128::MAX,
    ensures
        ({
            let budget = queue_budget(
                window_bytes,
                rtt_us,
                capacity_bytes,
                reserve_bytes,
                target_us,
                minimum_bytes,
            );
            let round_trip = if rtt_us >= 5_000 {
                rtt_us
            } else {
                5_000
            };
            let target = if target_us >= 1 {
                target_us
            } else {
                1
            };
            &&& budget + reserve_bytes <= capacity_bytes || budget == 0
            &&& budget > minimum_bytes ==> budget * round_trip <= window_bytes * target
            &&& budget + reserve_bytes < capacity_bytes ==> {
                &&& budget >= minimum_bytes
                &&& window_bytes * target < (budget + 1) * round_trip
            }
        }),
{
    let target = larger(target_us, 1);
    let round_trip = larger(rtt_us, 5_000);
    assert(window_bytes * target <= u128::MAX) by {
        if target_us < 1 {
            assert(window_bytes * 1 == window_bytes);
        }
    }
    let product = window_bytes * target;
    let within = product / round_trip;
    let budget = queue_budget(window_bytes, rtt_us, capacity_bytes, reserve_bytes, target_us, minimum_bytes);
    vstd::arithmetic::div_mod::lemma_fundamental_div_mod(product as int, round_trip as int);
    vstd::arithmetic::mul::lemma_mul_is_commutative(round_trip as int, within as int);
    assert(within * round_trip <= product < (within + 1) * round_trip) by {
        vstd::arithmetic::mul::lemma_mul_is_distributive_add_other_way(round_trip as int, within as int, 1);
    }
    if budget > minimum_bytes {
        assert(budget <= within);
        vstd::arithmetic::mul::lemma_mul_inequality(budget as int, within as int, round_trip as int);
    }
    if budget + reserve_bytes < capacity_bytes {
        assert(budget >= within);
        vstd::arithmetic::mul::lemma_mul_inequality(within as int + 1, budget as int + 1, round_trip as int);
    }
}

/// On a path with half the round trip twice as much may wait, up to a byte of rounding, where neither the
/// minimum nor the room decides.
pub proof fn half_the_round_trip_gives_twice_the_budget(
    window_bytes: nat,
    rtt_us: nat,
    capacity_bytes: nat,
    reserve_bytes: nat,
    target_us: nat,
    minimum_bytes: nat,
)
    requires
        rtt_us >= 5_000,
        target_us >= 1,
        minimum_bytes <= usize::MAX,
        capacity_bytes <= usize::MAX,
        window_bytes * target_us <= u128::MAX,
        window_bytes <= u128::MAX,
        minimum_bytes < queue_budget(
            window_bytes,
            2 * rtt_us,
            capacity_bytes,
            reserve_bytes,
            target_us,
            minimum_bytes,
        ),
        queue_budget(window_bytes, rtt_us, capacity_bytes, reserve_bytes, target_us, minimum_bytes) + reserve_bytes
            < capacity_bytes,
    ensures
        ({
            let slow = queue_budget(
                window_bytes,
                2 * rtt_us,
                capacity_bytes,
                reserve_bytes,
                target_us,
                minimum_bytes,
            );
            let fast = queue_budget(window_bytes, rtt_us, capacity_bytes, reserve_bytes, target_us, minimum_bytes);
            2 * slow <= fast <= 2 * slow + 1
        }),
{
    let slow = queue_budget(window_bytes, 2 * rtt_us, capacity_bytes, reserve_bytes, target_us, minimum_bytes);
    let fast = queue_budget(window_bytes, rtt_us, capacity_bytes, reserve_bytes, target_us, minimum_bytes);
    let product = window_bytes * target_us;
    let a = product / (2 * rtt_us);
    let b = product / rtt_us;
    vstd::arithmetic::div_mod::lemma_div_denominator(product as int, rtt_us as int, 2);
    vstd::arithmetic::mul::lemma_mul_is_commutative(2, rtt_us as int);
    assert(a == b / 2);
}

/// The delay is how long what waits takes at one congestion window per round trip, rounded down. Nothing
/// takes no time, and what cannot be sent is not said to take any.
pub proof fn delay_is_the_time_of_what_waits(queued_bytes: nat, window_bytes: nat, rtt_us: nat)
    ensures
        ({
            let delay = queue_delay_us(queued_bytes, window_bytes, rtt_us);
            &&& queued_bytes == 0 || window_bytes == 0 ==> delay == 0
            &&& window_bytes > 0 ==> delay * window_bytes <= queued_bytes * rtt_us
            &&& window_bytes > 0 && queued_bytes * rtt_us <= u128::MAX && delay < u64::MAX ==> queued_bytes * rtt_us < (
            delay + 1) * window_bytes
        }),
{
    let product = queued_bytes * rtt_us;
    if queued_bytes == 0 {
        assert(product == 0) by (nonlinear_arith)
            requires
                product == queued_bytes * rtt_us,
                queued_bytes == 0,
        ;
    }
    if window_bytes > 0 {
        let counted = at_most_u128(product);
        let exact = counted / window_bytes;
        let delay = queue_delay_us(queued_bytes, window_bytes, rtt_us);
        vstd::arithmetic::div_mod::lemma_fundamental_div_mod(counted as int, window_bytes as int);
        vstd::arithmetic::mul::lemma_mul_is_commutative(window_bytes as int, exact as int);
        vstd::arithmetic::mul::lemma_mul_is_distributive_add_other_way(window_bytes as int, exact as int, 1);
        vstd::arithmetic::mul::lemma_mul_inequality(delay as int, exact as int, window_bytes as int);
        if queued_bytes == 0 {
            assert(delay == 0);
            assert(1 * window_bytes == window_bytes);
        }
    }
}

/// Each reason goes by its name.
pub proof fn reasons_go_by_their_names(failure: VideoDatagramAdmissionFailure)
    ensures
        failure is InteractiveReserve ==> failure.spec_as_str() == "interactive-reserve"@,
        failure is VideoQueueBudget ==> failure.spec_as_str() == "video-queue-budget"@,
        failure is InteractiveReserveAndVideoQueueBudget ==> failure.spec_as_str() == "interactive-reserve"@ + "+"@
            + "video-queue-budget"@,
{
    reveal_strlit("interactive-reserve");
    reveal_strlit("video-queue-budget");
    reveal_strlit("+");
    reveal_strlit("interactive-reserve+video-queue-budget");
    assert("interactive-reserve+video-queue-budget"@ =~= "interactive-reserve"@ + "+"@ + "video-queue-budget"@);
}

/// The frames of a movie may wait a third as long as other video, which is a hundred and twenty milliseconds, and are
/// owed a third of the room. The reserve for everything else is as large as that third.
pub proof fn movies_wait_a_third_as_long()
    ensures
        DEFAULT_VIDEO_DATAGRAM_QUEUE_TARGET_US == 120_000,
        3 * MOVIE_VIDEO_DATAGRAM_QUEUE_TARGET_US == DEFAULT_VIDEO_DATAGRAM_QUEUE_TARGET_US,
        MIN_VIDEO_DATAGRAM_QUEUE_BYTES == 192 * 1_024,
        3 * MOVIE_MIN_VIDEO_DATAGRAM_QUEUE_BYTES == MIN_VIDEO_DATAGRAM_QUEUE_BYTES,
        DEFAULT_INTERACTIVE_DATAGRAM_RESERVE_BYTES == MOVIE_MIN_VIDEO_DATAGRAM_QUEUE_BYTES,
{
}

} // verus!
