//! Waking threads that wait on a condition variable.
//!
//! Only the functions that notify a condition variable are here, and the evidence that they leave:
//! nothing else can make it.

use vstd::prelude::*;

pub use crate::wakeup::wake_all;
pub use crate::wakeup::wake_one;
pub use crate::wakeup::Wakeup;

verus! {

/// `parking_lot::Condvar::new` makes a condition variable on which no thread waits.
pub assume_specification[ parking_lot::Condvar::new ]() -> (c: parking_lot::Condvar)
;

/// Evidence of a call that wakes threads: only [`notify_one`] and [`notify_all`] make one.
pub struct Notified {
    condvar: Ghost<parking_lot::Condvar>,
    all: Ghost<bool>,
}

impl Notified {
    /// The condition variable whose threads were woken.
    pub closed spec fn condvar(self) -> parking_lot::Condvar {
        self.condvar@
    }

    /// Whether all of them were woken, rather than one.
    pub closed spec fn all(self) -> bool {
        self.all@
    }
}

/// Calls `parking_lot::Condvar::notify_one`, which wakes one of the threads that wait on `c`, if
/// there are any. Which one it is, and whether there was one, is not said.
#[verifier::external_body]
pub(crate) fn notify_one(c: &parking_lot::Condvar) -> (r: Notified)
    ensures
        r.condvar() == *c,
        !r.all(),
    opens_invariants none
{
    let _ = c.notify_one();
    Notified { condvar: Ghost(*c), all: Ghost(false) }
}

/// Calls `parking_lot::Condvar::notify_all`, which wakes all the threads that wait on `c`. How
/// many there were is not said.
#[verifier::external_body]
pub(crate) fn notify_all(c: &parking_lot::Condvar) -> (r: Notified)
    ensures
        r.condvar() == *c,
        r.all(),
    opens_invariants none
{
    let _ = c.notify_all();
    Notified { condvar: Ghost(*c), all: Ghost(true) }
}

} // verus!
