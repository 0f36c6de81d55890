use vstd::prelude::*;

verus! {

/// Worker threads in the pool of the demonstration.
pub const DEMO_WORKERS: usize = 4;

/// Jobs handed to the pool in the demonstration.
pub const DEMO_JOBS: usize = 8;

/// What each job of the demonstration reports back.
pub const JOB_RESULT: i32 = 1;

/// The sum of a sequence of reported values.
pub open spec fn seq_sum(s: Seq<i32>) -> int
    decreases s.len(),
{
    if s.len() == 0 {
        0
    } else {
        seq_sum(s.drop_last()) + s.last()
    }
}

/// Why a reported value was not added to a tally.
#[derive(Debug, Clone, Copy, PartialEq, Eq, Structural)]
pub enum TallyError {
    /// As many values as expected have been taken already.
    Complete,
    /// The sum would leave the range of `i32`.
    Overflow,
}

/// The running sum of the values that jobs report, taken until the expected
/// number of them has arrived.
pub struct JobTally {
    expected: usize,
    received: usize,
    total: i32,
    values: Ghost<Seq<i32>>,
}

impl JobTally {
    #[verifier::type_invariant]
    spec fn inv(self) -> bool {
        &&& self.received == self.values@.len()
        &&& self.received <= self.expected
        &&& self.total == seq_sum(self.values@)
    }

    /// How many values the tally takes.
    pub closed spec fn expected_count(self) -> nat {
        self.expected as nat
    }

    /// The values taken so far, in the order they arrived.
    pub closed spec fn values(self) -> Seq<i32> {
        self.values@
    }

    /// A tally that will take `expected` values, with none taken yet.
    pub fn new(expected: usize) -> (res: JobTally)
        ensures
            res.expected_count() == expected,
            res.values() == Seq::<i32>::empty(),
    {
        JobTally { expected, received: 0, total: 0, values: Ghost(Seq::empty()) }
    }

    /// Whether the tally still takes values.
    pub fn wants_more(&self) -> (res: bool)
        ensures
            res == (self.values().len() < self.expected_count()),
    {
        proof {
            use_type_invariant(self);
        }
        self.received < self.expected
    }

    /// How many values were taken.
    pub fn received(&self) -> (res: usize)
        ensures
            res == self.values().len(),
    {
        proof {
            use_type_invariant(self);
        }
        self.received
    }

    /// The sum of the values taken.
    pub fn total(&self) -> (res: i32)
        ensures
            res == seq_sum(self.values()),
    {
        proof {
            use_type_invariant(self);
        }
        self.total
    }

    /// Takes one reported value. Refused, leaving the tally as it was, when
    /// the expected number of values has been taken, or when the sum would
    /// overflow an `i32`.
    pub fn record(&mut self, value: i32) -> (res: Result<(), TallyError>)
        ensures
            final(self).expected_count() == old(self).expected_count(),
            old(self).values().len() >= old(self).expected_count() ==> res == Err::<(), TallyError>(TallyError::Complete),
            old(self).values().len() < old(self).expected_count() && !(i32::MIN <= seq_sum(old(self).values()) + value <= i32::MAX)
                ==> res == Err::<(), TallyError>(TallyError::Overflow),
            res is Ok <==> (old(self).values().len() < old(self).expected_count()
                && i32::MIN <= seq_sum(old(self).values()) + value <= i32::MAX),
            res is Ok ==> final(self).values() == old(self).values().push(value),
            res is Err ==> final(self).values() == old(self).values(),
    {
        proof {
            use_type_invariant(&*self);
        }
        if self.received >= self.expected {
            return Err(TallyError::Complete);
        }
        match self.total.checked_add(value) {
            Some(total) => {
                let ghost values = self.values@.push(value);
                proof {
                    assert(values.drop_last() =~= self.values@);
                }
                *self = JobTally {
                    expected: self.expected,
                    received: self.received + 1,
                    total,
                    values: Ghost(values),
                };
                Ok(())
            },
            None => Err(TallyError::Overflow),
        }
    }

    /// Whether every expected value has arrived and they add up to `total`.
    pub fn complete_with_total(&self, total: i32) -> (res: bool)
        ensures
            res == (self.values().len() == self.expected_count() && seq_sum(self.values()) == total),
    {
        proof {
            use_type_invariant(self);
        }
        self.received == self.expected && self.total == total
    }
}

/// A tally of `n` values that are each `JOB_RESULT` sums to `n`.
pub proof fn lemma_sum_of_job_results(s: Seq<i32>)
    requires
        forall|i: int| 0 <= i < s.len() ==> s[i] == JOB_RESULT,
    ensures
        seq_sum(s) == s.len() * JOB_RESULT,
    decreases s.len(),
{
    if s.len() > 0 {
        lemma_sum_of_job_results(s.drop_last());
    }
}

/// Tallying values is adding them up in turn: the sum of a sequence with one
/// more value is the former sum plus that value.
pub proof fn lemma_seq_sum_push(s: Seq<i32>, v: i32)
    ensures
        seq_sum(s.push(v)) == seq_sum(s) + v,
{
    assert(s.push(v).drop_last() =~= s);
}

} // verus!
