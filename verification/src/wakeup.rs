//! Waking threads after a step of a pool.

use crate::pool::Change;
use crate::wake::notify_all;
use crate::wake::notify_one;
use crate::wake::Notified;
use vstd::prelude::*;

verus! {

/// Evidence of a wake-up that came after a step of a pool: only [`wake_one`] and [`wake_all`],
/// to which the step is shown, make one.
#[verifier::reject_recursive_types(I)]
#[verifier::reject_recursive_types(O)]
pub struct Wakeup<I, O> {
    notified: Notified,
    step: Ghost<Change<I, O>>,
}

impl<I, O> Wakeup<I, O> {
    /// The condition variable whose threads were woken.
    pub closed spec fn condvar(self) -> parking_lot::Condvar {
        self.notified.condvar()
    }

    /// Whether all of them were woken, rather than one.
    pub closed spec fn all(self) -> bool {
        self.notified.all()
    }

    /// The step that had been made before.
    pub closed spec fn step(self) -> Change<I, O> {
        self.step@
    }
}

/// Wakes one of the threads that wait on `c`, after that step.
pub fn wake_one<I, O>(c: &parking_lot::Condvar, step: &Change<I, O>) -> (r: Wakeup<I, O>)
    ensures
        r.condvar() == *c,
        !r.all(),
        r.step() == *step,
    opens_invariants none
{
    Wakeup { notified: notify_one(c), step: Ghost(*step) }
}

/// Wakes all the threads that wait on `c`, after that step.
pub fn wake_all<I, O>(c: &parking_lot::Condvar, step: &Change<I, O>) -> (r: Wakeup<I, O>)
    ensures
        r.condvar() == *c,
        r.all(),
        r.step() == *step,
    opens_invariants none
{
    Wakeup { notified: notify_all(c), step: Ghost(*step) }
}

} // verus!
