//! Frame-time statistics: a ring of recent frame intervals and the average
//! frames-per-second they amount to.

use vstd::prelude::*;

verus! {

/// How many frame intervals the ring holds.
pub const FRAME_TIME_COUNT: usize = 360;

/// The sum of a sequence of frame times, as a mathematical integer.
pub open spec fn sum_u64(s: Seq<u64>) -> int
    decreases s.len(),
{
    if s.len() == 0 {
        0
    } else {
        sum_u64(s.drop_last()) + s.last()
    }
}

/// A sum of values each at most `u64::MAX` is at most the count times that.
pub proof fn lemma_sum_u64_bound(s: Seq<u64>)
    ensures
        0 <= sum_u64(s) <= s.len() * (u64::MAX as int),
    decreases s.len(),
{
    if s.len() == 0 {
    } else {
        lemma_sum_u64_bound(s.drop_last());
        assert(s.len() * (u64::MAX as int) == (s.len() - 1) * (u64::MAX as int) + (
        u64::MAX as int)) by (nonlinear_arith);
    }
}

/// Rolling frame-time statistics. Until the ring has been filled once,
/// only the slots written so far count towards the average.
pub struct Stats {
    frame_times: Vec<u64>,
    frame_time_index: usize,
    initializing: bool,
}

impl Stats {
    /// Internal well-formedness: the ring has its fixed length and the
    /// write index stays inside it.
    pub closed spec fn wf(&self) -> bool {
        &&& self.frame_times@.len() == FRAME_TIME_COUNT
        &&& (self.frame_time_index as int) < self.frame_times@.len()
    }

    /// The recorded frame times.
    pub closed spec fn times(&self) -> Seq<u64> {
        self.frame_times@
    }

    /// The next slot to be written.
    pub closed spec fn index_spec(&self) -> int {
        self.frame_time_index as int
    }

    /// Whether the ring has yet to be filled once.
    pub closed spec fn initializing_spec(&self) -> bool {
        self.initializing
    }

    /// How many recorded frame times count towards the average.
    pub open spec fn timed_count(&self) -> int {
        if self.initializing_spec() {
            self.index_spec()
        } else {
            FRAME_TIME_COUNT as int
        }
    }

    /// The average frames per second over the counted frame times: the
    /// counted intervals are averaged and inverted from nanoseconds, with 0
    /// standing in while no interval has been timed.
    pub open spec fn spec_average_fps(&self) -> int {
        let count = self.timed_count();
        let total = sum_u64(self.times().take(count));
        let avg = if count > 0 {
            total / count
        } else {
            0
        };
        if avg > 0 {
            1_000_000_000int / avg
        } else {
            0
        }
    }

    /// An empty ring: nothing timed yet, the average reads 0.
    pub fn new() -> (s: Stats)
        ensures
            s.wf(),
            s.times() == Seq::new(FRAME_TIME_COUNT as nat, |i: int| 0u64),
            s.index_spec() == 0,
            s.initializing_spec(),
            s.timed_count() == 0,
    {
        let mut v: Vec<u64> = Vec::new();
        let mut i: usize = 0;
        while i < FRAME_TIME_COUNT
            invariant
                i <= FRAME_TIME_COUNT,
                v@.len() == i,
                forall|j: int| 0 <= j < i ==> v@[j] == 0u64,
            decreases FRAME_TIME_COUNT - i,
        {
            v.push(0);
            i = i + 1;
        }
        let s = Stats { frame_times: v, frame_time_index: 0, initializing: true };
        proof {
            assert(s.times() =~= Seq::new(FRAME_TIME_COUNT as nat, |i: int| 0u64));
        }
        s
    }

    /// Records one frame interval in the next slot; filling the last slot
    /// wraps the index and ends the initial partial-ring phase.
    pub fn add_frame_time(&mut self, frame_time: u64)
        requires
            old(self).wf(),
        ensures
            final(self).wf(),
            final(self).times() == old(self).times().update(old(self).index_spec(), frame_time),
            old(self).index_spec() + 1 == FRAME_TIME_COUNT ==> final(self).index_spec() == 0
                && !final(self).initializing_spec(),
            old(self).index_spec() + 1 < FRAME_TIME_COUNT ==> final(self).index_spec() == old(
                self,
            ).index_spec() + 1 && final(self).initializing_spec() == old(
                self,
            ).initializing_spec(),
    {
        self.frame_times.set(self.frame_time_index, frame_time);
        self.frame_time_index = self.frame_time_index + 1;
        if self.frame_time_index == FRAME_TIME_COUNT {
            self.initializing = false;
            self.frame_time_index = 0;
        }
    }

    /// The average frames per second over the counted frame times.
    pub fn average_fps(&self) -> (fps: u64)
        requires
            self.wf(),
        ensures
            fps as int == self.spec_average_fps(),
    {
        let timed_frame_count: usize = if self.initializing {
            self.frame_time_index
        } else {
            FRAME_TIME_COUNT
        };
        let mut total: u128 = 0;
        let mut i: usize = 0;
        proof {
            assert(self.times().take(0) =~= Seq::<u64>::empty());
        }
        while i < timed_frame_count
            invariant
                self.wf(),
                timed_frame_count as int == self.timed_count(),
                timed_frame_count <= FRAME_TIME_COUNT,
                i <= timed_frame_count,
                total as int == sum_u64(self.times().take(i as int)),
                total as int <= i * (u64::MAX as int),
            decreases timed_frame_count - i,
        {
            proof {
                assert(self.times().take(i + 1).drop_last() =~= self.times().take(i as int));
                assert(self.times().take(i + 1).last() == self.times()[i as int]);
                assert((i + 1) * (u64::MAX as int) == i * (u64::MAX as int) + (
                u64::MAX as int)) by (nonlinear_arith);
                assert(i * (u64::MAX as int) <= FRAME_TIME_COUNT * (u64::MAX as int))
                    by (nonlinear_arith)
                    requires
                        0 <= i <= FRAME_TIME_COUNT as int,
                ;
            }
            total = total + self.frame_times[i] as u128;
            i = i + 1;
        }
        let avg: u64 = if timed_frame_count > 0 {
            proof {
                lemma_sum_u64_bound(self.times().take(timed_frame_count as int));
                vstd::arithmetic::div_mod::lemma_div_is_ordered(
                    total as int,
                    timed_frame_count * (u64::MAX as int),
                    timed_frame_count as int,
                );
                vstd::arithmetic::div_mod::lemma_div_by_multiple(
                    u64::MAX as int,
                    timed_frame_count as int,
                );
            }
            (total / (timed_frame_count as u128)) as u64
        } else {
            0
        };
        if avg > 0 {
            1_000_000_000 / avg
        } else {
            0
        }
    }
}

} // verus!
