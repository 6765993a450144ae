//! Logical time. All time is injected: a timestamp is a pair of run id and
//! a monotone sequence number, never a wall clock.

use vstd::prelude::*;

verus! {

/// A logical timestamp: totally ordered by run id, then sequence.
#[derive(Clone, Copy, Debug, PartialEq, Eq, Structural, PartialOrd, Ord, Hash)]
pub struct LogicalTime {
    /// The run this timestamp belongs to.
    pub run_id: u64,
    /// The position within the run.
    pub sequence: u64,
}

impl LogicalTime {
    /// A timestamp from its parts.
    pub fn new(run_id: u64, sequence: u64) -> (r: Self)
        ensures
            r.run_id == run_id,
            r.sequence == sequence,
    {
        LogicalTime { run_id, sequence }
    }

    /// The first timestamp of a run.
    pub fn initial(run_id: u64) -> (r: Self)
        ensures
            r.run_id == run_id,
            r.sequence == 0,
    {
        LogicalTime { run_id, sequence: 0 }
    }

    /// The timestamp one step later in the same run.
    pub fn next(&self) -> (r: Self)
        requires
            self.sequence < u64::MAX,
        ensures
            r.run_id == self.run_id,
            r.sequence == self.sequence + 1,
    {
        LogicalTime { run_id: self.run_id, sequence: self.sequence + 1 }
    }

    /// The run id.
    pub fn run_id(&self) -> (r: u64)
        ensures
            r == self.run_id,
    {
        self.run_id
    }

    /// The sequence number.
    pub fn sequence(&self) -> (r: u64)
        ensures
            r == self.sequence,
    {
        self.sequence
    }
}

/// A source of logical time. Callers take one by reference so that tests can
/// inject a controlled source without rewriting the call sites.
pub trait TimeSource {
    /// The current time, without advancing.
    fn now(&self) -> LogicalTime;

    /// The current time, advancing for the next call.
    fn tick(&mut self) -> LogicalTime;
}

/// A monotone counter bound to one run.
pub struct StandardTimeSource {
    run_id: u64,
    sequence: u64,
}

impl StandardTimeSource {
    /// A source for the given run, starting at zero.
    pub fn new(run_id: u64) -> (r: Self)
        ensures
            r.spec_run_id() == run_id,
            r.spec_sequence() == 0,
    {
        StandardTimeSource { run_id, sequence: 0 }
    }

    /// A source for run zero.
    pub fn zero() -> (r: Self)
        ensures
            r.spec_run_id() == 0,
            r.spec_sequence() == 0,
    {
        StandardTimeSource::new(0)
    }

    /// The run this source counts for.
    pub closed spec fn spec_run_id(&self) -> u64 {
        self.run_id
    }

    /// The sequence the next `now` reports.
    pub closed spec fn spec_sequence(&self) -> u64 {
        self.sequence
    }
}

impl TimeSource for StandardTimeSource {
    fn now(&self) -> (r: LogicalTime)
        ensures
            r.run_id == self.spec_run_id(),
            r.sequence == self.spec_sequence(),
    {
        LogicalTime { run_id: self.run_id, sequence: self.sequence }
    }

    fn tick(&mut self) -> (r: LogicalTime)
        ensures
            r.run_id == old(self).spec_run_id(),
            r.sequence == old(self).spec_sequence(),
            final(self).spec_run_id() == old(self).spec_run_id(),
            final(self).spec_sequence() == if old(self).spec_sequence() == u64::MAX {
                u64::MAX
            } else {
                (old(self).spec_sequence() + 1) as u64
            },
    {
        let r = LogicalTime { run_id: self.run_id, sequence: self.sequence };
        if self.sequence < u64::MAX {
            self.sequence = self.sequence + 1;
        }
        r
    }
}

/// A time source under explicit control, for tests.
pub struct MockTimeSource {
    run_id: u64,
    time: u64,
}

impl MockTimeSource {
    /// A source for the given run, starting at `initial`.
    pub fn new(run_id: u64, initial: u64) -> (r: Self)
        ensures
            r.spec_run_id() == run_id,
            r.spec_sequence() == initial,
    {
        MockTimeSource { run_id, time: initial }
    }

    /// The run this source counts for.
    pub closed spec fn spec_run_id(&self) -> u64 {
        self.run_id
    }

    /// The sequence the next `now` reports.
    pub closed spec fn spec_sequence(&self) -> u64 {
        self.time
    }

    /// Sets the current time.
    pub fn set(&mut self, sequence: u64)
        ensures
            final(self).spec_run_id() == old(self).spec_run_id(),
            final(self).spec_sequence() == sequence,
    {
        self.time = sequence;
    }

    /// Advances by `delta`, saturating, and reports the time before.
    pub fn advance(&mut self, delta: u64) -> (r: LogicalTime)
        ensures
            r.run_id == old(self).spec_run_id(),
            r.sequence == old(self).spec_sequence(),
            final(self).spec_run_id() == old(self).spec_run_id(),
            final(self).spec_sequence() == if old(self).spec_sequence() + delta <= u64::MAX {
                (old(self).spec_sequence() + delta) as u64
            } else {
                u64::MAX
            },
    {
        let r = LogicalTime { run_id: self.run_id, sequence: self.time };
        if u64::MAX - self.time >= delta {
            self.time = self.time + delta;
        } else {
            self.time = u64::MAX;
        }
        r
    }
}

impl TimeSource for MockTimeSource {
    fn now(&self) -> (r: LogicalTime)
        ensures
            r.run_id == self.spec_run_id(),
            r.sequence == self.spec_sequence(),
    {
        LogicalTime { run_id: self.run_id, sequence: self.time }
    }

    fn tick(&mut self) -> (r: LogicalTime)
        ensures
            r.run_id == old(self).spec_run_id(),
            r.sequence == old(self).spec_sequence(),
            final(self).spec_run_id() == old(self).spec_run_id(),
            final(self).spec_sequence() == if old(self).spec_sequence() == u64::MAX {
                u64::MAX
            } else {
                (old(self).spec_sequence() + 1) as u64
            },
    {
        let r = LogicalTime { run_id: self.run_id, sequence: self.time };
        if self.time < u64::MAX {
            self.time = self.time + 1;
        }
        r
    }
}

} // verus!
