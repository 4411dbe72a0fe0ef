//! The lock round a pool.
//!
//! A [`Lock`] guards one [`Pool`] with a mutex and has a condition variable for each of the two
//! things that a thread waits for: that there is a job, and that there is no work. It says
//! which pool it guards. What a function finds behind it is that pool, as the functions before
//! left it: every one of them leaves the pool as something that the pool has become by steps.

use crate::history::Event;
use crate::history::History;
use crate::job::Job;
use crate::pool::Change;
use crate::pool::Pool;
use crate::roles::Hands;
use crate::roles::Joins;
use crate::roles::Task;
use crate::sentinel::Sentinel;
use vstd::prelude::*;

verus! {

/// The mutex of parking_lot.
#[verifier::external_type_specification]
#[verifier::external_body]
#[verifier::reject_recursive_types(R)]
#[verifier::reject_recursive_types(T)]
pub struct ExMutex<R, T: ?Sized>(parking_lot::lock_api::Mutex<R, T>);

/// The raw mutex of parking_lot.
#[verifier::external_type_specification]
#[verifier::external_body]
pub struct ExRawMutex(parking_lot::RawMutex);

/// The condition variable of parking_lot.
#[verifier::external_type_specification]
#[verifier::external_body]
pub struct ExCondvar(parking_lot::Condvar);

/// A lock round a pool. Only [`guard_pool`] makes one.
#[verifier::reject_recursive_types(T)]
pub struct Lock<T: Task> {
    pool: parking_lot::lock_api::Mutex<parking_lot::RawMutex, Pool<T>>,
    job_condvar: parking_lot::Condvar,
    empty_condvar: parking_lot::Condvar,
    id: Ghost<crossbeam_channel::Sender<Job<T::Input, T::Output>>>,
    start: Ghost<History<T::Input, T::Output>>,
}

impl<T: Task> Lock<T> {
    /// Which pool it guards.
    pub closed spec fn id(&self) -> crossbeam_channel::Sender<Job<T::Input, T::Output>> {
        self.id@
    }

    /// The history of the pool when it was put behind the lock.
    pub closed spec fn start(&self) -> History<T::Input, T::Output> {
        self.start@
    }

    /// The condition variable on which threads wait for a job.
    pub closed spec fn job_condvar(&self) -> parking_lot::Condvar {
        self.job_condvar
    }

    /// The condition variable on which joins wait.
    pub closed spec fn empty_condvar(&self) -> parking_lot::Condvar {
        self.empty_condvar
    }

    /// Whether `pool` may be found behind the lock after the step `since`: it is the pool that
    /// is guarded, and has become what it is by steps since then.
    pub open spec fn may_hold(&self, pool: Pool<T>, since: Change<T::Input, T::Output>) -> bool {
        &&& pool.wf()
        &&& pool.id() == self.id()
        &&& pool.history().extends(since.present())
    }

    /// The condition variable on which threads wait for a job.
    pub(crate) fn jobs_come(&self) -> (r: &parking_lot::Condvar)
        ensures
            *r == self.job_condvar(),
        opens_invariants none
    {
        &self.job_condvar
    }

    /// The condition variable on which joins wait.
    pub(crate) fn work_ends(&self) -> (r: &parking_lot::Condvar)
        ensures
            *r == self.empty_condvar(),
        opens_invariants none
    {
        &self.empty_condvar
    }
}

/// What is being done to a pool while it is locked.
pub enum Doing {
    /// It is looked at.
    Look,
    /// A job comes in.
    Submit,
    /// A handle more is counted.
    AddHandle,
    /// A handle less is counted.
    RemoveHandle,
    /// It is told to use so many threads.
    Resize(usize),
    /// A thread takes a job.
    Take,
    /// The job with that number is taken for done.
    Settle(u64),
    /// The end of a thread is recorded, with or without that job, by a panic or otherwise.
    End(Option<u64>, bool),
}

impl Doing {
    /// Whether `event` may be what is done.
    pub open spec fn covers<I, O>(self, event: Event<I, O>) -> bool {
        match self {
            Doing::Look => false,
            Doing::Submit => event is Submit,
            Doing::AddHandle => event is AddHandle,
            Doing::RemoveHandle => event is RemoveHandle,
            Doing::Resize(n) => event == Event::<I, O>::Resize(n),
            Doing::Take => event is Take,
            Doing::Settle(number) => event is Finish && event->Finish_0 == number,
            Doing::End(job, panicking) => {
                ||| event == Event::<I, O>::Lose(job, panicking)
                ||| event == Event::<I, O>::Lose(None, panicking)
            },
        }
    }

    /// The namespace that stands for it. A function that opens some namespaces only does nothing
    /// else to a pool.
    pub open spec fn namespace(self) -> int {
        match self {
            Doing::Look => 0,
            Doing::Submit => 1,
            Doing::AddHandle => 2,
            Doing::RemoveHandle => 3,
            Doing::Take => 4,
            Doing::Resize(n) => 8 * n + 5,
            Doing::Settle(number) => 8 * number + 6,
            Doing::End(None, panicking) => if panicking {
                7
            } else {
                15
            },
            Doing::End(Some(number), panicking) => if panicking {
                16 * number + 23
            } else {
                16 * number + 31
            },
        }
    }

    /// Whether `post` is what `pre` has become by that, in one step or none.
    pub open spec fn leads<T: Task>(self, pre: Pool<T>, post: Pool<T>) -> bool {
        let n = pre.history().events.len();
        &&& post.continues(pre)
        &&& post.history().events.len() <= n + 1
        &&& post.history().events.len() == n + 1 ==> self.covers(post.history().events[n as int])
    }
}

/// Whether `f` may give `r` on `pool`, which may be found behind the lock after the step `since`.
pub open spec fn applied<T: Task, R, F: FnOnce(&mut Pool<T>) -> R>(
    lock: &Lock<T>,
    since: Change<T::Input, T::Output>,
    f: F,
    pool: &mut Pool<T>,
    r: R,
) -> bool {
    lock.may_hold(*pool, since) && call_ensures(f, (pool,), r)
}

/// Calls `parking_lot::Mutex::new`, which puts that pool behind a mutex that is not locked. The
/// mutex stands beside the two condition variables, which are used with no other.
#[verifier::external_body]
pub(crate) fn guard_pool<T: Task>(
    pool: Pool<T>,
    job_condvar: parking_lot::Condvar,
    empty_condvar: parking_lot::Condvar,
) -> (r: Lock<T>)
    requires
        pool.wf(),
    ensures
        r.id() == pool.id(),
        r.start() == pool.history(),
        r.job_condvar() == job_condvar,
        r.empty_condvar() == empty_condvar,
{
    let id = Ghost(pool.id());
    let start = Ghost(pool.history());
    Lock { pool: parking_lot::Mutex::new(pool), job_condvar, empty_condvar, id, start }
}

/// Calls `parking_lot::Mutex::lock`, and applies `f` to the pool that the mutex guards while
/// the mutex is locked. One `f` is applied at a time, and each finds what the one before left,
/// first of all the pool that was put behind the mutex. Since every `f` leaves what the pool has
/// become by steps, and the step `since` has been made, what is found has become what it is by
/// steps since then; which steps other threads have made meanwhile is not said. Every `f` in this
/// crate calls methods of the pool and nothing else, so none locks the mutex again. Each does no
/// more than `doing` says, in one step or none.
#[verifier::external_body]
pub(crate) fn with_pool<T: Task, R, F: FnOnce(&mut Pool<T>) -> R>(
    lock: &Lock<T>,
    since: &Change<T::Input, T::Output>,
    doing: Doing,
    f: F,
) -> (r: R)
    requires
        since.pool() == lock.id(),
        forall|pool: &mut Pool<T>| lock.may_hold(*pool, *since) ==> call_requires(f, (pool,)),
        forall|pool: &mut Pool<T>, out: R|
            applied(lock, *since, f, pool, out) ==> doing.leads(*pool, *final(pool)),
    ensures
        exists|pool: &mut Pool<T>| applied(lock, *since, f, pool, r),
    opens_invariants [doing.namespace()]
{
    f(&mut *lock.pool.lock())
}

/// Whether `f` may give `r` on `pool`, which may be found behind the lock after the step `since`,
/// and on that sentinel.
pub open spec fn handed<
    T: Task,
    R,
    F: FnOnce(&mut Pool<T>, &mut Sentinel<T::Input, T::Output>) -> R,
>(
    lock: &Lock<T>,
    since: Change<T::Input, T::Output>,
    f: F,
    pool: &mut Pool<T>,
    sentinel: &mut Sentinel<T::Input, T::Output>,
    r: R,
) -> bool {
    lock.may_hold(*pool, since) && call_ensures(f, (pool, sentinel), r)
}

/// Calls `parking_lot::Condvar::wait_while` on the locked mutex, which gives the lock up and
/// sleeps as long as the pool is starved, and then applies `f` to the pool and the sentinel, with
/// the mutex still locked. So `f` is applied to a pool that is not starved; all else is as in
/// [`with_pool`].
#[verifier::external_body]
pub(crate) fn with_fed_pool<
    T: Task + Hands,
    R,
    F: FnOnce(&mut Pool<T>, &mut Sentinel<T::Input, T::Output>) -> R,
>(
    lock: &Lock<T>,
    since: &Change<T::Input, T::Output>,
    sentinel: &mut Sentinel<T::Input, T::Output>,
    f: F,
) -> (r: R)
    requires
        since.pool() == lock.id(),
        forall|pool: &mut Pool<T>|
            lock.may_hold(*pool, *since) && !(*pool)@.starved() ==> call_requires(
                f,
                (pool, sentinel),
            ),
        forall|pool: &mut Pool<T>, out: R|
            handed(lock, *since, f, pool, sentinel, out) ==> Doing::Take.leads(
                *pool,
                *final(pool),
            ),
    ensures
        exists|pool: &mut Pool<T>| handed(lock, *since, f, pool, sentinel, r),
    opens_invariants [Doing::Take.namespace()]
{
    let mut guard = lock.pool.lock();
    lock.job_condvar.wait_while(&mut guard, |pool| pool.starved());
    f(&mut *guard, sentinel)
}

/// Calls `parking_lot::Condvar::wait_while` on the locked mutex, which gives the lock up and
/// sleeps as long as a join of wave `generation` has to wait, and then applies `f` to the
/// pool, with the mutex still locked. So `f` is applied to a pool in which such a join does
/// not wait; all else is as in [`with_pool`].
#[verifier::external_body]
pub(crate) fn with_joined_pool<T: Task + Joins, R, F: FnOnce(&mut Pool<T>) -> R>(
    lock: &Lock<T>,
    since: &Change<T::Input, T::Output>,
    generation: usize,
    f: F,
) -> (r: R)
    requires
        since.pool() == lock.id(),
        forall|pool: &mut Pool<T>|
            lock.may_hold(*pool, *since) && !(*pool)@.join_waits(generation) ==> call_requires(
                f,
                (pool,),
            ),
        forall|pool: &mut Pool<T>, out: R|
            applied(lock, *since, f, pool, out) ==> Doing::Look.leads(*pool, *final(pool)),
    ensures
        exists|pool: &mut Pool<T>| applied(lock, *since, f, pool, r),
    opens_invariants [Doing::Look.namespace()]
{
    let mut guard = lock.pool.lock();
    lock.empty_condvar.wait_while(&mut guard, |pool| pool.join_waits(generation));
    f(&mut *guard)
}

} // verus!
