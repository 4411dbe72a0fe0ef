//! What the parts of a program may do to a pool.
//!
//! A pool is generic over its worker. A function that is generic over a [`Task`] of which it knows
//! no more can look at a pool and do nothing to it: each thing that can be done is there only for
//! tasks that have the role for it. Every [`Worker`] has all the roles, so that a program can call
//! everything; but the code of a thread, say, is written for tasks that have the roles of a thread
//! alone, and so cannot bring in a job, resize the pool or count handles.

use crate::worker::Worker;
use vstd::prelude::*;

verus! {

/// What a thread needs of a worker: it executes jobs.
pub trait Task: Sized {
    type Input;

    type Output;

    /// Whether a worker in state `pre`, given `inp`, may end in state `post` with `out`.
    spec fn performed(pre: Self, inp: Self::Input, post: Self, out: Self::Output) -> bool;

    fn perform(&mut self, inp: Self::Input) -> (out: Self::Output)
        ensures
            Self::performed(*old(self), inp, *final(self), out),
    ;
}

impl<T: Worker> Task for T {
    type Input = <T as Worker>::Input;

    type Output = <T as Worker>::Output;

    open spec fn performed(pre: Self, inp: Self::Input, post: Self, out: Self::Output) -> bool {
        T::executed(pre, inp, post, out)
    }

    fn perform(&mut self, inp: Self::Input) -> (out: Self::Output) {
        self.execute(inp)
    }
}

/// Brings in jobs.
pub trait Submits {

}

/// Says how many threads to use.
pub trait Resizes {

}

/// Counts a handle more.
pub trait AddsHandles {

}

/// Counts a handle less.
pub trait DropsHandles {

}

/// Waits until there is no work.
pub trait Joins {

}

/// Hands a job to a thread that has a seat.
pub trait Hands {

}

/// Takes the job of a thread that has a seat for done.
pub trait Settles {

}

/// Records the end of a thread.
pub trait Ends {

}

/// Does to the pool itself what threads do, without a thread.
pub trait Acts {

}

impl<T: Worker> Submits for T {

}

impl<T: Worker> Resizes for T {

}

impl<T: Worker> AddsHandles for T {

}

impl<T: Worker> DropsHandles for T {

}

impl<T: Worker> Joins for T {

}

impl<T: Worker> Hands for T {

}

impl<T: Worker> Settles for T {

}

impl<T: Worker> Ends for T {

}

impl<T: Worker> Acts for T {

}

} // verus!
