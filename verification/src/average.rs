//! An average that is maintained incrementally as a sum and a count.
//!
//! A `RunningAverage` never stores the samples themselves. Adding, replacing
//! and removing one value each cost constant time, and none of them can
//! overflow: the sum and the count saturate at the limits of their types.

use vstd::prelude::*;

verus! {

/// The mathematical content of a running average: the sum of the values that
/// contribute to it, and how many there are.
pub struct AverageState {
    pub sum: nat,
    pub count: nat,
}

/// The largest sum a `RunningAverage` can hold.
pub open spec fn sum_limit() -> nat {
    0xffff_ffff_ffff_ffff
}

/// The largest count a `RunningAverage` can hold.
pub open spec fn count_limit() -> nat {
    0xffff_ffff
}

impl AverageState {
    /// The state of an average to which nothing has contributed yet.
    pub open spec fn empty() -> AverageState {
        AverageState { sum: 0, count: 0 }
    }

    /// One more value `v` contributes. Sum and count stop at their limits.
    pub open spec fn added(self, v: nat) -> AverageState {
        AverageState {
            sum: if self.sum + v > sum_limit() {
                sum_limit()
            } else {
                self.sum + v
            },
            count: if self.count + 1 > count_limit() {
                count_limit()
            } else {
                self.count + 1
            },
        }
    }

    /// The value `p` no longer contributes. With nothing to remove the state
    /// stays as it is; the sum stops at zero.
    pub open spec fn removed(self, p: nat) -> AverageState {
        if self.count == 0 {
            self
        } else {
            AverageState {
                sum: if p > self.sum {
                    0
                } else {
                    (self.sum - p) as nat
                },
                count: (self.count - 1) as nat,
            }
        }
    }

    /// The state after one update that takes `prev` out and puts `new` in.
    ///
    /// A replacement is a removal followed by an addition. A replacement on an
    /// average without entries has nothing to replace and starts the average
    /// afresh from `new`.
    pub open spec fn updated(self, prev: Option<nat>, new: Option<nat>) -> AverageState {
        match (prev, new) {
            (None, None) => self,
            (None, Some(v)) => self.added(v),
            (Some(p), None) => self.removed(p),
            (Some(p), Some(v)) => if self.count == 0 {
                AverageState { sum: v, count: 1 }
            } else {
                self.removed(p).added(v)
            },
        }
    }

    /// The average, rounded down; zero when nothing contributes.
    pub open spec fn value(self) -> nat {
        if self.count == 0 {
            0
        } else {
            self.sum / self.count
        }
    }
}

/// The state that a sequence of updates, applied in order, leads to from `s`.
/// Each update is a pair of the value taken out and the value put in.
pub open spec fn after_updates(s: AverageState, ops: Seq<(Option<nat>, Option<nat>)>) -> AverageState
    decreases ops.len(),
{
    if ops.len() == 0 {
        s
    } else {
        after_updates(s, ops.drop_last()).updated(ops.last().0, ops.last().1)
    }
}

/// How many values a sequence of updates leaves outstanding: those put in
/// less those taken out.
pub open spec fn net_entries(ops: Seq<(Option<nat>, Option<nat>)>) -> int
    decreases ops.len(),
{
    if ops.len() == 0 {
        0
    } else {
        net_entries(ops.drop_last()) + (if ops.last().1 is Some {
            1int
        } else {
            0int
        }) - (if ops.last().0 is Some {
            1int
        } else {
            0int
        })
    }
}

/// The sum of the values that a sequence of updates leaves outstanding.
pub open spec fn net_sum(ops: Seq<(Option<nat>, Option<nat>)>) -> int
    decreases ops.len(),
{
    if ops.len() == 0 {
        0
    } else {
        net_sum(ops.drop_last()) + (match ops.last().1 {
            Some(v) => v as int,
            None => 0int,
        }) - (match ops.last().0 {
            Some(p) => p as int,
            None => 0int,
        })
    }
}

/// A sequence of updates is orderly when every update that takes a value out
/// finds an entry to take and a sum that covers the value, and when neither
/// the count nor the sum ever passes its limit.
pub open spec fn orderly(ops: Seq<(Option<nat>, Option<nat>)>) -> bool {
    forall|i: int|
        0 <= i < ops.len() ==> {
            &&& (#[trigger] ops[i]).0 is Some ==> net_entries(ops.take(i)) > 0 && ops[i].0.unwrap()
                <= net_sum(ops.take(i))
            &&& net_entries(ops.take(i + 1)) <= count_limit()
            &&& net_sum(ops.take(i + 1)) <= sum_limit()
        }
}

/// Starting from an empty average, an orderly sequence of updates leaves the
/// count equal to the number of outstanding values and the sum equal to their
/// sum, so that the reported value is the rounded-down mean of what is
/// outstanding (and zero when nothing is).
pub proof fn lemma_orderly_updates_track_outstanding(ops: Seq<(Option<nat>, Option<nat>)>)
    requires
        orderly(ops),
    ensures
        after_updates(AverageState::empty(), ops).count == net_entries(ops),
        after_updates(AverageState::empty(), ops).sum == net_sum(ops),
        after_updates(AverageState::empty(), ops).value() == if net_entries(ops) == 0 {
            0
        } else {
            net_sum(ops) / net_entries(ops)
        },
    decreases ops.len(),
{
    if ops.len() > 0 {
        let front = ops.drop_last();
        let last = ops.len() - 1;
        assert forall|i: int| 0 <= i < front.len() implies {
            &&& (#[trigger] front[i]).0 is Some ==> net_entries(front.take(i)) > 0
                && front[i].0.unwrap() <= net_sum(front.take(i))
            &&& net_entries(front.take(i + 1)) <= count_limit()
            &&& net_sum(front.take(i + 1)) <= sum_limit()
        } by {
            assert(front[i] == ops[i]);
            assert(front.take(i) =~= ops.take(i));
            assert(front.take(i + 1) =~= ops.take(i + 1));
        }
        lemma_orderly_updates_track_outstanding(front);
        assert(ops.take(last) =~= front);
        assert(ops.take(last + 1) =~= ops);
        assert(ops[last] == ops.last());
    }
}

/// Turns an optional machine integer into an optional natural number.
pub open spec fn lift_u8(v: Option<u8>) -> Option<nat> {
    match v {
        Some(x) => Some(x as nat),
        None => None,
    }
}

/// Turns an optional machine integer into an optional natural number.
pub open spec fn lift_u64(v: Option<u64>) -> Option<nat> {
    match v {
        Some(x) => Some(x as nat),
        None => None,
    }
}

/// An incrementally maintained average of bounded values.
#[derive(Clone, Copy, Debug, PartialEq, Eq, Structural)]
pub struct RunningAverage {
    sum: u64,
    total: u32,
}

impl View for RunningAverage {
    type V = AverageState;

    closed spec fn view(&self) -> AverageState {
        AverageState { sum: self.sum as nat, count: self.total as nat }
    }
}

impl Default for RunningAverage {
    fn default() -> (avg: Self)
        ensures
            avg@ == AverageState::empty(),
    {
        RunningAverage { sum: 0, total: 0 }
    }
}

impl RunningAverage {
    /// An average without entries.
    pub fn new() -> (avg: Self)
        ensures
            avg@ == AverageState::empty(),
    {
        RunningAverage { sum: 0, total: 0 }
    }

    /// Takes `prev` out of the average and puts `new` in, each where present.
    pub fn update(&mut self, prev: Option<u8>, new: Option<u8>)
        ensures
            final(self)@ == old(self)@.updated(lift_u8(prev), lift_u8(new)),
    {
        let p: Option<u64> = match prev {
            Some(x) => Some(x as u64),
            None => None,
        };
        let n: Option<u64> = match new {
            Some(x) => Some(x as u64),
            None => None,
        };
        self.update_u64(p, n);
    }

    /// Takes `prev` out of the average and puts `new` in, for values of one
    /// byte.
    pub fn update_u8(&mut self, prev: Option<u8>, new: Option<u8>)
        ensures
            final(self)@ == old(self)@.updated(lift_u8(prev), lift_u8(new)),
    {
        self.update(prev, new);
    }

    /// Takes `prev` out of the average and puts `new` in, for wide values such
    /// as the averages of other accumulators.
    pub fn update_u64(&mut self, prev: Option<u64>, new: Option<u64>)
        ensures
            final(self)@ == old(self)@.updated(lift_u64(prev), lift_u64(new)),
    {
        let mut sum: u64 = self.sum;
        let mut total: u32 = self.total;
        match (prev, new) {
            (None, None) => {},
            (None, Some(n)) => {
                sum = sum.saturating_add(n);
                total = total.saturating_add(1);
            },
            (Some(p), None) => {
                if total != 0 {
                    sum = sum.saturating_sub(p);
                    total = total - 1;
                }
            },
            (Some(p), Some(n)) => {
                if total == 0 {
                    sum = n;
                    total = 1;
                } else {
                    sum = sum.saturating_sub(p).saturating_add(n);
                }
            },
        }
        self.sum = sum;
        self.total = total;
    }

    /// How many values contribute.
    pub fn n_entries(&self) -> (n: u32)
        ensures
            n == self@.count,
    {
        self.total
    }

    /// The sum of the contributing values.
    pub fn sum(&self) -> (s: u64)
        ensures
            s == self@.sum,
    {
        self.sum
    }

    /// The average, rounded down; zero when nothing contributes.
    pub fn val(&self) -> (v: u64)
        ensures
            v == self@.value(),
    {
        if self.total == 0 {
            0
        } else {
            self.sum / (self.total as u64)
        }
    }
}

} // verus!
