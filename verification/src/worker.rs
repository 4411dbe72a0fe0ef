//! The abstraction of a worker, which executes jobs one after the other.

use vstd::prelude::*;

verus! {

/// Abstraction of a worker which executes tasks in its own thread.
///
/// A worker is made by `Default` when its thread starts and keeps its state from one job to
/// the next.
pub trait Worker: Default + 'static {
    type Input: Send;

    type Output: Send;

    /// Whether a worker in state `pre`, given `inp`, may end in state `post` with `out`. A
    /// worker of which nothing else is said may do anything.
    open spec fn executed(pre: Self, inp: Self::Input, post: Self, out: Self::Output) -> bool {
        true
    }

    fn execute(&mut self, inp: Self::Input) -> (out: Self::Output)
        ensures
            Self::executed(*old(self), inp, *final(self), out),
    ;
}

} // verus!
