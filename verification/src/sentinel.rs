//! The watch over one worker thread.

use crate::pool::Change;
use vstd::prelude::*;

verus! {

/// A job that a thread has taken: its number, and the step by which it was taken.
#[verifier::reject_recursive_types(I)]
#[verifier::reject_recursive_types(O)]
pub struct Held<I, O> {
    pub number: u64,
    pub take: Change<I, O>,
}

/// Watches over one worker thread. A thread that ends while its sentinel is active is lost,
/// and has to be replaced. A thread takes jobs through its sentinel, which counts them.
#[verifier::reject_recursive_types(I)]
#[verifier::reject_recursive_types(O)]
pub struct Sentinel<I, O> {
    active: bool,
    job: Option<Held<I, O>>,
    last: Option<Change<I, O>>,
    taken: Ghost<nat>,
}

/// The mathematical value of a [`Sentinel`].
#[verifier::reject_recursive_types(I)]
#[verifier::reject_recursive_types(O)]
pub struct SentinelView<I, O> {
    /// Whether the thread is to be replaced if it ends.
    pub active: bool,
    /// The job that the thread is executing.
    pub job: Option<Held<I, O>>,
    /// The step by which the thread finished the job before, if it has none now.
    pub last: Option<Change<I, O>>,
    /// How many jobs were taken through it.
    pub taken: nat,
}

impl<I, O> SentinelView<I, O> {
    /// Of a thread that starts.
    pub open spec fn fresh() -> Self {
        SentinelView { active: true, job: None, last: None, taken: 0 }
    }

    /// Of a thread that is executing that job, and has taken so many.
    pub open spec fn working(held: Held<I, O>, taken: nat) -> Self {
        SentinelView { active: true, job: Some(held), last: None, taken }
    }

    /// Of a thread that has finished a job by that step, and has taken so many.
    pub open spec fn rested(finish: Change<I, O>, taken: nat) -> Self {
        SentinelView { active: true, job: None, last: Some(finish), taken }
    }

    /// Whether the thread may take a job.
    pub open spec fn is_ready(self) -> bool {
        self.active && self.job is None
    }

    /// Whether the thread has to end.
    pub open spec fn is_cancelled(self) -> bool {
        !self.active && self.job is None
    }

    /// The number of the job that the thread is executing.
    pub open spec fn number(self) -> Option<u64> {
        match self.job {
            Some(held) => Some(held.number),
            None => None,
        }
    }
}

impl<I, O> View for Sentinel<I, O> {
    type V = SentinelView<I, O>;

    closed spec fn view(&self) -> SentinelView<I, O> {
        SentinelView {
            active: self.active,
            job: self.job,
            last: self.last,
            taken: self.taken@,
        }
    }
}

impl<I: Send, O: Send> Sentinel<I, O> {
    /// A sentinel for a thread that starts.
    pub fn new() -> (r: Sentinel<I, O>)
        ensures
            r@ == SentinelView::<I, O>::fresh(),
    {
        Sentinel { active: true, job: None, last: None, taken: Ghost(0) }
    }
}

impl<I, O> Sentinel<I, O> {
    /// Cancels the sentinel: the thread is not replaced when it ends.
    pub fn cancel(&mut self)
        ensures
            final(self)@ == (SentinelView { active: false, ..old(self)@ }),
        opens_invariants none
    {
        self.active = false;
    }

    /// Records that the thread is executing that job.
    pub(crate) fn take_up(&mut self, held: Held<I, O>)
        ensures
            final(self)@ == (SentinelView {
                job: Some(held),
                last: None,
                taken: old(self)@.taken + 1,
                ..old(self)@
            }),
    {
        self.job = Some(held);
        self.last = None;
        self.taken = Ghost(self.taken@ + 1);
    }

    /// Records that the thread has finished its job by that step.
    pub(crate) fn put_down(&mut self, finish: Change<I, O>)
        ensures
            final(self)@ == (SentinelView { job: None, last: Some(finish), ..old(self)@ }),
        opens_invariants none
    {
        self.job = None;
        self.last = Some(finish);
    }

    /// The step by which the thread finished the job before.
    pub(crate) fn last(&self) -> (r: Option<&Change<I, O>>)
        ensures
            r == match self@.last {
                Some(change) => Some(&change),
                None => None,
            },
        opens_invariants none
    {
        match &self.last {
            Some(change) => Some(change),
            None => None,
        }
    }

    /// Whether the thread is to be replaced if it ends.
    pub fn is_active(&self) -> (r: bool)
        ensures
            r == self@.active,
        opens_invariants none
    {
        self.active
    }

    /// The job that the thread is executing.
    pub fn held(&self) -> (r: Option<&Held<I, O>>)
        ensures
            r == match self@.job {
                Some(held) => Some(&held),
                None => None,
            },
        opens_invariants none
    {
        match &self.job {
            Some(held) => Some(held),
            None => None,
        }
    }

    /// The number of the job that the thread is executing.
    pub fn number(&self) -> (r: Option<u64>)
        ensures
            r == self@.number(),
        opens_invariants none
    {
        match &self.job {
            Some(held) => Some(held.number),
            None => None,
        }
    }
}

} // verus!
