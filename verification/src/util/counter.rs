//! Counters that accumulate a numeric series produced while running.

use vstd::prelude::*;

use crate::fixed::clamp_value;
use crate::fixed::tdiv;
use crate::fixed::VALUE_MAX;

verus! {

/// A trait for common methods required by all counters.
pub trait Counter<T>: Sized {
    /// The counter is well formed.
    spec fn ok(&self) -> bool;

    /// The number of values passed to the counter since the last reset.
    spec fn size(&self) -> nat;

    /// Returns the count of values passed to the counter so far.
    fn counter(&self) -> (r: u32)
        requires
            self.ok(),
        ensures
            r == self.size(),
    ;

    /// Resets the counter to its initial values.
    fn reset(&mut self)
        ensures
            final(self).ok(),
            final(self).size() == 0,
    ;

    /// Updates the counter with a new value.
    fn update(&mut self, n: T)
        requires
            old(self).ok(),
            old(self).size() < u32::MAX,
        ensures
            final(self).ok(),
            final(self).size() == old(self).size() + 1,
    ;
}

/// Counter for cases where individual records must be maintained.
pub struct RecordCounter<T> {
    /// Ordered record of the values passed to the counter.
    pub record: Vec<T>,
    /// Count of all values passed to the counter.
    pub count: u32,
}

impl<T> RecordCounter<T> {
    /// The counter is well formed: the count matches the record.
    pub open spec fn wf(&self) -> bool {
        self.count == self.record@.len()
    }

    /// Initializes counter to zero and record to empty.
    pub fn new() -> (r: RecordCounter<T>)
        ensures
            r.wf(),
            r.record@ == Seq::<T>::empty(),
            r.count == 0,
    {
        RecordCounter { record: Vec::new(), count: 0 }
    }

    /// Returns the current vector of records.
    pub fn record(&self) -> (r: &Vec<T>)
        ensures
            r@ == self.record@,
    {
        &self.record
    }
}

impl<T> Counter<T> for RecordCounter<T> {
    open spec fn ok(&self) -> bool {
        self.wf()
    }

    open spec fn size(&self) -> nat {
        self.count as nat
    }

    /// Returns the count of recorded values.
    fn counter(&self) -> (r: u32)
        ensures
            r == self.count,
    {
        self.count
    }

    /// Resets counter to initial values.
    fn reset(&mut self)
        ensures
            final(self).record@ == Seq::<T>::empty(),
            final(self).count == 0,
    {
        self.record = Vec::new();
        self.count = 0;
    }

    /// Updates counter with a new value, appending it to the record.
    fn update(&mut self, n: T)
        ensures
            final(self).record@ == old(self).record@.push(n),
            final(self).count == old(self).count + 1,
    {
        self.record.push(n);
        self.count = self.count + 1;
    }
}

/// A counter recording an aggregate total and count, yielding an average.
pub struct AggregateCounter {
    /// Saturating sum of all fixed-point values passed to the counter.
    pub total: i64,
    /// Count of all values passed to the counter.
    pub count: u32,
}

impl AggregateCounter {
    /// The running total stays within the fixed-point value range.
    pub open spec fn wf(&self) -> bool {
        -VALUE_MAX <= self.total <= VALUE_MAX
    }

    /// Initializes counter and total to zero.
    pub fn new() -> (r: AggregateCounter)
        ensures
            r.wf(),
            r.total == 0,
            r.count == 0,
    {
        AggregateCounter { total: 0, count: 0 }
    }

    /// Returns the sum of all values passed to the counter.
    pub fn total(&self) -> (r: i64)
        ensures
            r == self.total,
    {
        self.total
    }

    /// Computes the average of the values passed to the counter.
    pub fn average(&self) -> (r: i64)
        requires
            self.wf(),
            self.count > 0,
        ensures
            r == tdiv(self.total as int, self.count as int),
    {
        proof {
            crate::fixed::lemma_tdiv_magnitude(self.total as int, self.count as int);
        }
        let q: i128 = crate::fixed::tdiv128(self.total as i128, self.count as i128);
        q as i64
    }
}

impl Counter<i64> for AggregateCounter {
    open spec fn ok(&self) -> bool {
        self.wf()
    }

    open spec fn size(&self) -> nat {
        self.count as nat
    }

    /// Returns the count of values passed to the counter.
    fn counter(&self) -> (r: u32)
        ensures
            r == self.count,
    {
        self.count
    }

    /// Resets the total and the count to zero.
    fn reset(&mut self)
        ensures
            final(self).total == 0,
            final(self).count == 0,
    {
        self.total = 0;
        self.count = 0;
    }

    /// Adds a value to the total, saturating at the value range.
    fn update(&mut self, n: i64)
        ensures
            final(self).total == clamp_value(old(self).total + n),
            final(self).count == old(self).count + 1,
    {
        let t: i128 = (self.total as i128) + (n as i128);
        self.total = if t > VALUE_MAX as i128 {
            VALUE_MAX
        } else if t < -(VALUE_MAX as i128) {
            -VALUE_MAX
        } else {
            t as i64
        };
        self.count = self.count + 1;
    }
}

} // verus!
