//! What a completed run reports: the time each write took and the time the
//! whole loop took, in nanoseconds of a monotonic clock.

use vstd::prelude::*;

verus! {

/// The sum of a sequence of durations.
pub open spec fn sum(durations: Seq<u128>) -> nat
    decreases durations.len(),
{
    if durations.len() == 0 {
        0
    } else {
        sum(durations.drop_last()) + durations.last() as nat
    }
}

/// Appending one duration adds it to the sum.
pub proof fn lemma_sum_push(durations: Seq<u128>, d: u128)
    ensures
        sum(durations.push(d)) == sum(durations) + d,
{
    assert(durations.push(d).drop_last() =~= durations);
}

/// The timings of one completed run, as mathematical values.
pub struct Timings {
    /// Time spent inside each write, in the order the writes were made.
    pub per_write: Seq<u128>,
    /// Time spent inside all the writes together.
    pub aggregate: int,
    /// Time from the start of the write loop to its end.
    pub total: int,
}

impl Timings {
    /// The aggregate is the sum of the per-write times and does not exceed
    /// the total.
    pub open spec fn wf(self) -> bool {
        &&& self.aggregate == sum(self.per_write)
        &&& self.aggregate <= self.total
    }
}

/// The timings of one completed run, in nanoseconds.
#[derive(Debug)]
pub struct TimingResult {
    /// Time spent inside each write, in the order the writes were made.
    pub per_write: Vec<u128>,
    /// The sum of `per_write`.
    pub aggregate: u128,
    /// Time from the start of the write loop to its end.
    pub total: u128,
}

impl View for TimingResult {
    type V = Timings;

    open spec fn view(&self) -> Timings {
        Timings {
            per_write: self.per_write@,
            aggregate: self.aggregate as int,
            total: self.total as int,
        }
    }
}

impl TimingResult {
    /// The aggregate is the sum of the per-write times and does not exceed
    /// the total.
    pub open spec fn wf(&self) -> bool {
        self@.wf()
    }

    /// Number of writes that were timed.
    pub fn count(&self) -> (r: usize)
        ensures
            r == self@.per_write.len(),
    {
        self.per_write.len()
    }

    /// Time of the loop that was not spent inside a write: filling the buffer
    /// and the loop's own bookkeeping.
    pub fn overhead(&self) -> (r: u128)
        requires
            self.wf(),
        ensures
            r == self@.total - self@.aggregate,
    {
        self.total - self.aggregate
    }
}

} // verus!
