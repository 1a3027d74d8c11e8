//! Carrying out a number of fallible actions in order, stopping at the
//! first that fails.

use vstd::prelude::*;

use crate::error::Error;

verus! {

/// The outcome of a sequence of outcomes: the first failure, if any.
pub open spec fn first_failure(s: Seq<Result<(), Error>>) -> Result<(), Error>
    decreases s.len(),
{
    if s.len() == 0 {
        Ok(())
    } else if s[0] is Err {
        s[0]
    } else {
        first_failure(s.drop_first())
    }
}

/// Outcomes that all succeeded have no first failure.
proof fn lemma_first_failure_ok(s: Seq<Result<(), Error>>)
    requires
        forall|i: int| 0 <= i < s.len() ==> #[trigger] s[i] is Ok,
    ensures
        first_failure(s) == Ok::<(), Error>(()),
    decreases s.len(),
{
    if s.len() > 0 {
        lemma_first_failure_ok(s.drop_first());
    }
}

/// A failure after outcomes that all succeeded is the first failure.
proof fn lemma_first_failure_last(s: Seq<Result<(), Error>>, e: Error)
    requires
        forall|i: int| 0 <= i < s.len() ==> #[trigger] s[i] is Ok,
    ensures
        first_failure(s.push(Err(e))) == Err::<(), Error>(e),
    decreases s.len(),
{
    if s.len() > 0 {
        assert(s.push(Err(e)).drop_first() =~= s.drop_first().push(Err(e)));
        lemma_first_failure_last(s.drop_first(), e);
    }
}

/// The state of a sequence of actions.
pub struct SequenceState {
    /// How many actions there are.
    pub count: int,
    /// The position of the next action.
    pub next: int,
    /// The error of the action that failed, once one has.
    pub failure: Option<Error>,
    /// The outcomes recorded so far, in order.
    pub recorded: Seq<Result<(), Error>>,
}

/// A sequence of `count` actions, carried out in order until one fails.
pub struct Sequence {
    count: usize,
    next: usize,
    failure: Option<Error>,
    recorded: Ghost<Seq<Result<(), Error>>>,
}

impl View for Sequence {
    type V = SequenceState;

    closed spec fn view(&self) -> SequenceState {
        SequenceState { count: self.count as int, next: self.next as int, failure: self.failure, recorded: self.recorded@ }
    }
}

/// What holds of every sequence: the actions before `next` succeeded and
/// were recorded in order; after a failure, its outcome is the last one
/// recorded and no further action is offered.
pub open spec fn sequence_invariant(s: SequenceState) -> bool {
    &&& 0 <= s.next <= s.count
    &&& forall|i: int| 0 <= i < s.next ==> #[trigger] s.recorded[i] is Ok
    &&& match s.failure {
        None => s.recorded.len() == s.next,
        Some(e) => s.next < s.count && s.recorded.len() == s.next + 1 && s.recorded[s.next] == Err::<(), Error>(e),
    }
}

impl Sequence {
    #[verifier::type_invariant]
    spec fn well_formed(self) -> bool {
        sequence_invariant(self@)
    }

    /// A sequence of `count` actions, none carried out yet.
    pub fn new(count: usize) -> (res: Sequence)
        ensures
            res@.count == count,
            res@.next == 0,
            res@.failure is None,
            res@.recorded.len() == 0,
    {
        Sequence { count, next: 0, failure: None, recorded: Ghost(Seq::empty()) }
    }

    /// The position of the next action to carry out: none once one has
    /// failed or all have been carried out.
    pub fn next(&self) -> (res: Option<usize>)
        ensures
            sequence_invariant(self@),
            res is Some == (self@.failure is None && self@.next < self@.count),
            res matches Some(i) ==> i == self@.next,
    {
        proof {
            use_type_invariant(self);
        }
        if self.failure.is_none() && self.next < self.count {
            Some(self.next)
        } else {
            None
        }
    }

    /// Records the outcome of the next action.
    pub fn record(&mut self, outcome: Result<(), Error>)
        requires
            old(self)@.failure is None,
            old(self)@.next < old(self)@.count,
        ensures
            final(self)@.count == old(self)@.count,
            final(self)@.recorded == old(self)@.recorded.push(outcome),
            match outcome {
                Ok(_) => final(self)@.next == old(self)@.next + 1 && final(self)@.failure is None,
                Err(e) => final(self)@.next == old(self)@.next && final(self)@.failure == Some(e),
            },
    {
        proof {
            use_type_invariant(&*self);
        }
        let ghost r = self.recorded@.push(outcome);
        match outcome {
            Ok(()) => {
                let count = self.count;
                let next = self.next + 1;
                proof {
                    assert forall|i: int| 0 <= i < next implies #[trigger] r[i] is Ok by {
                        if i < next - 1 {
                            assert(r[i] == old(self)@.recorded[i]);
                        }
                    }
                }
                *self = Sequence { count, next, failure: None, recorded: Ghost(r) };
            },
            Err(e) => {
                let count = self.count;
                let next = self.next;
                proof {
                    assert forall|i: int| 0 <= i < next implies #[trigger] r[i] is Ok by {
                        assert(r[i] == old(self)@.recorded[i]);
                    }
                }
                *self = Sequence { count, next, failure: Some(e), recorded: Ghost(r) };
            },
        }
    }

    /// The outcome of the sequence once it is over: the error of the action
    /// that failed, or success when every action succeeded.
    pub fn finish(self) -> (res: Result<(), Error>)
        requires
            self@.failure is Some || self@.next == self@.count,
        ensures
            res == first_failure(self@.recorded),
            res is Ok ==> self@.recorded.len() == self@.count,
            res matches Err(e) ==> self@.failure == Some(e),
            self@.failure matches Some(e) ==> res == Err::<(), Error>(e),
    {
        proof {
            use_type_invariant(&self);
        }
        let ghost rec = self@.recorded;
        match self.failure {
            Some(e) => {
                proof {
                    assert(rec =~= rec.take(self.next as int).push(Err(e)));
                    lemma_first_failure_last(rec.take(self.next as int), e);
                }
                Err(e)
            },
            None => {
                proof {
                    lemma_first_failure_ok(rec);
                }
                Ok(())
            },
        }
    }
}

} // verus!
