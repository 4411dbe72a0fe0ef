//! A pool behind a lock, for threads to share.
//!
//! The methods of [`PoolSharedData`] are what a handle and a worker thread do. Each of them is
//! made of steps of the one pool that is shared, one under the lock at a time, and hands out the
//! evidence of each step that it made.

use crate::history::Event;
use crate::history::History;
use crate::job::run_job;
use crate::job::Delivery;
use crate::job::Job;
use crate::lock::guard_pool;
use crate::lock::with_fed_pool;
use crate::lock::with_joined_pool;
use crate::lock::with_pool;
use crate::lock::Doing;
use crate::lock::Lock;
use crate::pool::Change;
use crate::pool::Counts;
use crate::pool::Pool;
use crate::queue::QueueMark;
use crate::roles::AddsHandles;
use crate::roles::DropsHandles;
use crate::roles::Ends;
use crate::roles::Hands;
use crate::roles::Joins;
use crate::roles::Resizes;
use crate::roles::Settles;
use crate::roles::Submits;
use crate::roles::Task;
use crate::send::OutputSender;
use crate::sentinel::Held;
use crate::sentinel::Sentinel;
use crate::sentinel::SentinelView;
use crate::settings::ThreadSettings;
use crate::settings::ThreadSettingsView;
use crate::text::debug_pool;
use crate::wake::wake_all;
use crate::wake::wake_one;
use crate::wake::Wakeup;
use std::sync::Arc;
use vstd::prelude::*;

verus! {

/// What a thread made of its wish for a job, with the steps that it made.
#[verifier::reject_recursive_types(I)]
#[verifier::reject_recursive_types(O)]
pub enum Next<I, O> {
    /// It has to end: the pool executes as many as it may already.
    TooMany { check: Change<I, O> },
    /// It has to end: while it waited, the pool came to execute as many as it may.
    Surplus { check: Change<I, O>, take: Change<I, O> },
    /// It has to end: there is no job, and no handle through which one could come in.
    NoMore { check: Change<I, O>, take: Change<I, O> },
    /// It has that job.
    Run { number: u64, job: Job<I, O>, check: Change<I, O>, take: Change<I, O> },
}

impl<I, O> Next<I, O> {
    /// The step by which the thread saw whether it may take a job.
    pub open spec fn check(self) -> Change<I, O> {
        match self {
            Next::TooMany { check } => check,
            Next::Surplus { check, take } => check,
            Next::NoMore { check, take } => check,
            Next::Run { number, job, check, take } => check,
        }
    }

    /// The step by which its wait ended, if it waited.
    pub open spec fn take(self) -> Change<I, O> {
        match self {
            Next::TooMany { check } => check,
            Next::Surplus { check, take } => take,
            Next::NoMore { check, take } => take,
            Next::Run { number, job, check, take } => take,
        }
    }

    /// Whether the steps are such as to lead there, with the sentinel then like that.
    pub open spec fn leads_to(self, sentinel: SentinelView<I, O>) -> bool {
        &&& self.check().is_look()
        &&& self.check().before().admits() <==> !(self is TooMany)
        &&& !(self is TooMany) ==> {
            &&& self.take().follows(self.check())
            &&& !self.take().before().starved()
        }
        &&& match self {
            Next::TooMany { check } => sentinel.is_cancelled(),
            Next::Surplus { check, take } => {
                &&& take.is_look()
                &&& !take.before().admits()
                &&& sentinel.is_cancelled()
            },
            Next::NoMore { check, take } => {
                &&& take.is_look()
                &&& take.before().admits()
                &&& !take.before().has_job()
                &&& take.before().handles == 0
                &&& sentinel.is_cancelled()
            },
            Next::Run { number, job, check, take } => {
                &&& take.is_step(Event::Take)
                &&& number == take.before().started
                &&& job == take.before().submitted[number as int]
                &&& sentinel == SentinelView::working((Held { number, take }), sentinel.taken)
            },
        }
    }
}

/// A step, and the wake-up that followed it, if there was one.
#[verifier::reject_recursive_types(I)]
#[verifier::reject_recursive_types(O)]
pub struct Report<I, O> {
    pub change: Change<I, O>,
    pub wakeup: Option<Wakeup<I, O>>,
}

/// One round of a worker thread.
#[verifier::reject_recursive_types(I)]
#[verifier::reject_recursive_types(O)]
pub enum Round<I, O> {
    /// There was no job for the thread, which has to end.
    Over(Next<I, O>),
    /// The thread took the job with that number, executed it, delivered its output and finished
    /// it.
    Done {
        number: u64,
        check: Change<I, O>,
        take: Change<I, O>,
        delivery: Delivery<O>,
        finish: Report<I, O>,
    },
}

impl<I, O> Round<I, O> {
    /// The step by which the thread saw whether it may take a job.
    pub open spec fn check(self) -> Change<I, O> {
        match self {
            Round::Over(next) => next.check(),
            Round::Done { number, check, take, delivery, finish } => check,
        }
    }

    /// Whether there is to be another round.
    pub fn again(&self) -> (r: bool)
        ensures
            r == (self is Done),
    {
        match self {
            Round::Over(_) => false,
            Round::Done { .. } => true,
        }
    }
}

/// How a join went.
#[verifier::reject_recursive_types(I)]
#[verifier::reject_recursive_types(O)]
pub enum Joined<I, O> {
    /// There was no work.
    AtOnce { enter: Change<I, O> },
    /// It waited for the wave that it had entered to be over.
    Waited { enter: Change<I, O>, leave: Change<I, O> },
}

impl<I, O> Joined<I, O> {
    /// The step by which the join began.
    pub open spec fn enter(self) -> Change<I, O> {
        match self {
            Joined::AtOnce { enter } => enter,
            Joined::Waited { enter, leave } => enter,
        }
    }

    /// The step by which the join ended.
    pub open spec fn leave(self) -> Change<I, O> {
        match self {
            Joined::AtOnce { enter } => enter,
            Joined::Waited { enter, leave } => leave,
        }
    }

    /// Whether a join goes like that.
    pub open spec fn is_join(self) -> bool {
        &&& self.enter().is_look()
        &&& self.leave().is_look()
        &&& match self {
            Joined::AtOnce { enter } => !enter.before().has_work(),
            Joined::Waited { enter, leave } => {
                &&& enter.before().has_work()
                &&& leave.follows(enter)
                &&& !leave.before().join_waits(enter.before().join_generation)
            },
        }
    }
}

/// A pool that threads share.
#[verifier::reject_recursive_types(T)]
pub struct PoolSharedData<T: Task> {
    settings: ThreadSettings,
    lock: Lock<T>,
    mark: QueueMark<T::Input, T::Output>,
    origin: Change<T::Input, T::Output>,
}

impl<T: Task> PoolSharedData<T> {
    /// The settings and the mark are those of the pool, and the origin is a step of it.
    #[verifier::type_invariant]
    closed spec fn inv(self) -> bool {
        &&& self.settings@ == self.origin.present().settings
        &&& self.mark.channel() == self.lock.id()
        &&& self.origin.present() == self.lock.start()
        &&& self.origin.pool() == self.lock.id()
        &&& self.origin.past().valid()
        &&& self.origin.is_look()
    }

    /// Which pool is shared.
    pub closed spec fn id(&self) -> crossbeam_channel::Sender<Job<T::Input, T::Output>> {
        self.lock.id()
    }

    /// The history of the pool when it came to be shared.
    pub closed spec fn origin(&self) -> History<T::Input, T::Output> {
        self.lock.start()
    }

    /// What each thread of the pool is started with.
    pub open spec fn thread_settings(&self) -> ThreadSettingsView {
        self.origin().settings
    }

    /// Whether `change` is a step that the pool made since it is shared.
    pub open spec fn made(&self, change: Change<T::Input, T::Output>) -> bool {
        &&& change.pool() == self.id()
        &&& change.past().valid()
        &&& change.past().extends(self.origin())
    }

    /// Whether `change` is such a step, after which nothing of what was before is forgotten.
    pub open spec fn has_made(&self, change: Change<T::Input, T::Output>) -> bool {
        self.made(change) && change.present().extends(change.past())
    }

    /// Whether `held` is a job that a thread took from the pool.
    pub open spec fn gave(&self, held: Held<T::Input, T::Output>) -> bool {
        &&& self.made(held.take)
        &&& held.take.is_step(Event::Take)
        &&& held.number == held.take.before().started
    }

    /// Whether a round of a thread goes like that, with the worker in state `pre` before it and
    /// `post` after it, and the sentinel then like that.
    pub open spec fn goes(
        &self,
        round: Round<T::Input, T::Output>,
        pre: T,
        post: T,
        sentinel: SentinelView<T::Input, T::Output>,
    ) -> bool {
        match round {
            Round::Over(next) => {
                &&& !(next is Run)
                &&& self.made(next.check())
                &&& self.made(next.take())
                &&& next.leads_to(sentinel)
                &&& post == pre
            },
            Round::Done { number, check, take, delivery, finish } => {
                let job = take.before().submitted[number as int];
                &&& self.made(check)
                &&& self.made(take)
                &&& (Next::Run { number, job, check, take }).leads_to(
                    SentinelView::working((Held { number, take }), sentinel.taken),
                )
                &&& exists|output: T::Output|
                    #[trigger] T::performed(pre, job.inp, post, output) && delivery.is_of(
                        job.sender,
                        output,
                    )
                &&& self.made(finish.change)
                &&& finish.change.follows(take)
                &&& finish.change.is_made_by(finish.change.before().finishing(number, delivery))
                &&& finish.change.after().is_done(number as nat)
                &&& self.wakes_joins_if(!finish.change.after().has_work(), finish)
                &&& sentinel == SentinelView::rested(finish.change, sentinel.taken)
            },
        }
    }

    /// Whether `wakeup` wakes one thread that waits for a job, if there is any, after `step`.
    pub closed spec fn wakes_thread(
        &self,
        wakeup: Wakeup<T::Input, T::Output>,
        step: Change<T::Input, T::Output>,
    ) -> bool {
        wakeup.condvar() == self.lock.job_condvar() && !wakeup.all() && wakeup.step() == step
    }

    /// Whether `wakeup` wakes all threads that wait for a job, after `step`.
    pub closed spec fn wakes_threads(
        &self,
        wakeup: Wakeup<T::Input, T::Output>,
        step: Change<T::Input, T::Output>,
    ) -> bool {
        wakeup.condvar() == self.lock.job_condvar() && wakeup.all() && wakeup.step() == step
    }

    /// Whether `wakeup` wakes all joins that wait, after `step`.
    pub closed spec fn wakes_joins(
        &self,
        wakeup: Wakeup<T::Input, T::Output>,
        step: Change<T::Input, T::Output>,
    ) -> bool {
        wakeup.condvar() == self.lock.empty_condvar() && wakeup.all() && wakeup.step() == step
    }

    /// Whether the joins are woken after the step if and only if `idle`.
    pub open spec fn wakes_joins_if(
        &self,
        idle: bool,
        report: Report<T::Input, T::Output>,
    ) -> bool {
        match report.wakeup {
            Some(w) => idle && self.wakes_joins(w, report.change),
            None => !idle,
        }
    }

    /// Shares a pool that was just built. Also says how many worker threads have to be
    /// started: as many as the pool uses.
    pub fn new(pool: Pool<T>) -> (r: (PoolSharedData<T>, usize))
        requires
            pool.wf(),
        ensures
            r.0.id() == pool.id(),
            r.0.origin() == pool.history(),
            r.1 == pool@.max,
            r.1 >= 1,
    {
        proof {
            pool.lemma_wf();
        }
        let settings = pool.settings().clone();
        let spawn: usize = pool.max_count();
        let mark = pool.mark();
        let origin = pool.look();
        let lock = guard_pool(pool, parking_lot::Condvar::new(), parking_lot::Condvar::new());
        (PoolSharedData { settings, lock, mark, origin }, spawn)
    }

    /// What each thread of the pool is started with.
    pub fn settings(&self) -> (r: &ThreadSettings)
        ensures
            r@ == self.thread_settings(),
    {
        proof {
            use_type_invariant(self);
        }
        &self.settings
    }

    /// Check if you are working with the same pool.
    pub fn same_pool(&self, other: &PoolSharedData<T>) -> (r: bool)
        ensures
            r == (self.id() == other.id()),
    {
        proof {
            use_type_invariant(self);
            use_type_invariant(other);
        }
        self.mark.same(&other.mark)
    }

    /// The counts of the pool, all of one time.
    pub fn counts(&self) -> (r: (Counts, Change<T::Input, T::Output>))
        ensures
            self.made(r.1),
            r.1.is_look(),
            r.0.are_of(r.1.before()),
            r.0.max >= 1,
        opens_invariants [Doing::Look.namespace()]
    {
        proof {
            use_type_invariant(self);
        }
        self.counts_after(&self.origin)
    }

    /// The counts of the pool, all of one time after that step.
    pub fn counts_after(&self, since: &Change<T::Input, T::Output>) -> (r: (
        Counts,
        Change<T::Input, T::Output>,
    ))
        requires
            self.has_made(*since),
        ensures
            self.made(r.1),
            r.1.follows(*since),
            r.1.is_look(),
            r.0.are_of(r.1.before()),
            r.0.max >= 1,
        opens_invariants [Doing::Look.namespace()]
    {
        let read = |pool: &mut Pool<T>| -> (r: (Counts, Change<T::Input, T::Output>))
            requires
                (*pool).wf(),
            ensures
                old(pool).goes_to(*final(pool), r.1),
                r.1.past().valid(),
                r.1.is_look(),
                r.0.are_of(r.1.before()),
                r.0.max >= 1,
        {
            proof {
                (*pool).lemma_wf();
            }
            (pool.counts(), pool.look())
        };
        with_pool(&self.lock, since, Doing::Look, read)
    }

    /// The debug text of the pool, with counts that are all of one time.
    pub fn debug_text(&self) -> (r: (String, Change<T::Input, T::Output>))
        ensures
            self.made(r.1),
            r.1.is_look(),
            r.0@ == r.1.before().text(),
    {
        proof {
            use_type_invariant(self);
        }
        let (counts, look) = self.counts();
        proof {
            crate::history::lemma_settings(look.past(), look.past().events.len());
        }
        (debug_pool(&self.settings.name, counts.queued, counts.active, counts.max), look)
    }
}

impl<T: Task + Submits> PoolSharedData<T> {
    /// Takes in a job and wakes a thread for it.
    fn submit(&self, job: Job<T::Input, T::Output>) -> (r: Report<T::Input, T::Output>)
        ensures
            self.made(r.change),
            r.change.is_step(Event::Submit(job)),
            r.wakeup is Some && self.wakes_thread(r.wakeup->0, r.change),
        opens_invariants [Doing::Submit.namespace()]
    {
        proof {
            use_type_invariant(self);
        }
        let submit = |pool: &mut Pool<T>| -> (r: Change<T::Input, T::Output>)
            requires
                (*pool).wf(),
            ensures
                old(pool).goes_to(*final(pool), r),
                r.past().valid(),
                r.is_step(Event::Submit(job)),
        {
            proof {
                (*pool).lemma_wf();
            }
            pool.submit(job)
        };
        let change = with_pool(&self.lock, &self.origin, Doing::Submit, submit);
        let wakeup = wake_one(self.lock.jobs_come(), &change);
        Report { change, wakeup: Some(wakeup) }
    }

    /// Executes with the input on a worker in the pool. Non-blocking and disregards output of
    /// the worker's execution.
    pub fn execute(&self, inp: T::Input) -> (r: Report<T::Input, T::Output>)
        ensures
            self.made(r.change),
            r.change.is_step(Event::Submit(Job { inp, sender: None })),
            r.wakeup is Some && self.wakes_thread(r.wakeup->0, r.change),
        opens_invariants [Doing::Submit.namespace()]
    {
        self.submit(Job { inp, sender: None })
    }

    /// Executes with the input on a worker in the pool. Non-blocking and sends output of the
    /// worker's execution to the given sender.
    pub fn execute_to(&self, tx: OutputSender<T::Output>, inp: T::Input) -> (r: Report<
        T::Input,
        T::Output,
    >)
        ensures
            self.made(r.change),
            r.change.is_step(Event::Submit(Job { inp, sender: Some(tx) })),
            r.wakeup is Some && self.wakes_thread(r.wakeup->0, r.change),
        opens_invariants [Doing::Submit.namespace()]
    {
        self.submit(Job { inp, sender: Some(tx) })
    }
}

impl<T: Task + Resizes> PoolSharedData<T> {
    /// Sets the number of worker-threads to use as `num_threads`. Says how many threads have
    /// to be started.
    pub fn set_num_threads(&self, num_threads: usize) -> (r: (usize, Change<T::Input, T::Output>))
        requires
            num_threads >= 1,
        ensures
            self.made(r.1),
            r.1.is_step(Event::Resize(num_threads)),
            r.0 == r.1.before().missing(num_threads),
            r.0 < num_threads,
        opens_invariants [Doing::Resize(num_threads).namespace()]
    {
        proof {
            use_type_invariant(self);
        }
        let resize = |pool: &mut Pool<T>| -> (r: (usize, Change<T::Input, T::Output>))
            requires
                (*pool).wf(),
            ensures
                old(pool).goes_to(*final(pool), r.1),
                r.1.past().valid(),
                r.1.is_step(Event::Resize(num_threads)),
                r.0 == r.1.before().missing(num_threads),
                r.0 < num_threads,
        {
            proof {
                (*pool).lemma_wf();
            }
            pool.resize(num_threads)
        };
        with_pool(&self.lock, &self.origin, Doing::Resize(num_threads), resize)
    }
}

impl<T: Task + Joins> PoolSharedData<T> {
    /// Block the current thread until all jobs in the pool have been executed.
    ///
    /// Calling `join` on an empty pool will cause an immediate return. `join` may be called
    /// from multiple threads concurrently. A `join` is an atomic point in time. All threads
    /// joining before the join event will exit together even if the pool is processing new
    /// jobs by the time they get scheduled.
    ///
    /// Calling `join` from a thread within the pool will cause a deadlock. This behavior is
    /// considered safe.
    pub fn join(&self) -> (r: Joined<T::Input, T::Output>)
        ensures
            self.made(r.enter()),
            self.made(r.leave()),
            r.is_join(),
            forall|j: nat|
                j < r.enter().before().submitted.len() ==> #[trigger] r.leave().before().is_done(j),
        opens_invariants [Doing::Look.namespace()]
    {
        proof {
            use_type_invariant(self);
        }
        self.join_after(&self.origin)
    }

    /// As [`PoolSharedData::join`], with a join that begins after that step.
    pub fn join_after(&self, since: &Change<T::Input, T::Output>) -> (r: Joined<
        T::Input,
        T::Output,
    >)
        requires
            self.has_made(*since),
        ensures
            self.made(r.enter()),
            self.made(r.leave()),
            r.enter().follows(*since),
            r.is_join(),
            forall|j: nat|
                j < r.enter().before().submitted.len() ==> #[trigger] r.leave().before().is_done(j),
        opens_invariants [Doing::Look.namespace()]
    {
        let enter = |pool: &mut Pool<T>| -> (r: (Option<usize>, Change<T::Input, T::Output>))
            requires
                (*pool).wf(),
            ensures
                old(pool).goes_to(*final(pool), r.1),
                r.1.past().valid(),
                r.1.is_look(),
                r.0 == if r.1.before().has_work() {
                    Some(r.1.before().join_generation)
                } else {
                    None
                },
        {
            proof {
                (*pool).lemma_wf();
            }
            (pool.join(None), pool.look())
        };
        let joined = match with_pool(&self.lock, since, Doing::Look, enter) {
            (None, enter) => Joined::AtOnce { enter },
            (Some(generation), enter) => {
                let leave = |pool: &mut Pool<T>| -> (r: (
                    Option<usize>,
                    Change<T::Input, T::Output>,
                ))
                    requires
                        (*pool).wf(),
                        !(*pool)@.join_waits(generation),
                    ensures
                        old(pool).goes_to(*final(pool), r.1),
                        r.1.past().valid(),
                        r.1.is_look(),
                        r.0 is None,
                        !r.1.before().join_waits(generation),
                {
                    proof {
                        (*pool).lemma_wf();
                    }
                    (pool.join(Some(generation)), pool.look())
                };
                let (_, leave) = with_joined_pool(&self.lock, &enter, generation, leave);
                Joined::Waited { enter, leave }
            },
        };
        proof {
            crate::laws::law_join_returns_after_all(joined);
        }
        joined
    }
}

impl<T: Task + AddsHandles> PoolSharedData<T> {
    /// Counts one more handle to the pool. Says whether that was possible, which it is unless
    /// there are as many as can be counted.
    pub fn add_handle(&self) -> (r: (bool, Change<T::Input, T::Output>))
        ensures
            self.made(r.1),
            r.1.is_made_by(r.1.before().adding_handle()),
            r.0 == (r.1.before().handles < usize::MAX),
        opens_invariants [Doing::AddHandle.namespace()]
    {
        proof {
            use_type_invariant(self);
        }
        let add_one = |pool: &mut Pool<T>| -> (r: (bool, Change<T::Input, T::Output>))
            requires
                (*pool).wf(),
            ensures
                old(pool).goes_to(*final(pool), r.1),
                r.1.past().valid(),
                r.1.is_made_by(r.1.before().adding_handle()),
                r.0 == (r.1.before().handles < usize::MAX),
        {
            proof {
                (*pool).lemma_wf();
            }
            pool.add_handle()
        };
        with_pool(&self.lock, &self.origin, Doing::AddHandle, add_one)
    }
}

impl<T: Task + DropsHandles> PoolSharedData<T> {
    /// Counts one handle less. When none is left, all threads that wait for a job are woken,
    /// so that they end.
    pub fn remove_handle(&self) -> (r: Report<T::Input, T::Output>)
        ensures
            self.made(r.change),
            r.change.is_made_by(r.change.before().removing_handle()),
            match r.wakeup {
                Some(w) => r.change.after().handles == 0 && self.wakes_threads(w, r.change),
                None => r.change.after().handles > 0,
            },
        opens_invariants [Doing::RemoveHandle.namespace()]
    {
        proof {
            use_type_invariant(self);
        }
        let remove = |pool: &mut Pool<T>| -> (r: (bool, Change<T::Input, T::Output>))
            requires
                (*pool).wf(),
            ensures
                old(pool).goes_to(*final(pool), r.1),
                r.1.past().valid(),
                r.1.is_made_by(r.1.before().removing_handle()),
                r.0 == (r.1.after().handles == 0),
        {
            proof {
                (*pool).lemma_wf();
            }
            pool.remove_handle()
        };
        let (last, change) = with_pool(&self.lock, &self.origin, Doing::RemoveHandle, remove);
        let wakeup = if last {
            Some(wake_all(self.lock.jobs_come(), &change))
        } else {
            None
        };
        Report { change, wakeup }
    }
}

impl<T: Task> PoolSharedData<T> {
    /// Notify all observers joining this pool if there is no more work to do after that step.
    fn no_work_notify_all(&self, idle: bool, change: Change<T::Input, T::Output>) -> (r: Report<
        T::Input,
        T::Output,
    >)
        ensures
            r.change == change,
            self.wakes_joins_if(idle, r),
        opens_invariants none
    {
        let wakeup = if idle {
            Some(wake_all(self.lock.work_ends(), &change))
        } else {
            None
        };
        Report { change, wakeup }
    }
}

impl<T: Task + Hands> PoolSharedData<T> {
    /// The next job for a thread that has none; the thread then counts as active. The thread
    /// first sees whether it may take a job at all, and then blocks until there is one or none
    /// can come. If there is none for it, the thread has to end, and the sentinel is cancelled.
    pub fn next_job(&self, sentinel: &mut Sentinel<T::Input, T::Output>) -> (r: Next<
        T::Input,
        T::Output,
    >)
        requires
            old(sentinel)@.is_ready(),
            old(sentinel)@.last matches Some(finish) ==> self.has_made(finish),
        ensures
            old(sentinel)@.last matches Some(finish) ==> r.check().follows(finish),
            self.made(r.check()),
            self.made(r.take()),
            r.leads_to(final(sentinel)@),
            final(sentinel)@.taken == old(sentinel)@.taken + if r is Run {
                1nat
            } else {
                0
            },
        opens_invariants [Doing::Look.namespace(), Doing::Take.namespace()]
    {
        proof {
            use_type_invariant(self);
        }
        let see = |pool: &mut Pool<T>| -> (r: (bool, Change<T::Input, T::Output>))
            requires
                (*pool).wf(),
            ensures
                old(pool).goes_to(*final(pool), r.1),
                r.1.past().valid(),
                r.1.is_look(),
                r.0 == r.1.before().admits(),
        {
            proof {
                (*pool).lemma_wf();
            }
            (pool.admits(), pool.look())
        };
        let since = match sentinel.last() {
            Some(finish) => finish,
            None => &self.origin,
        };
        let (admitted, check) = with_pool(&self.lock, since, Doing::Look, see);
        if !admitted {
            sentinel.cancel();
            return Next::TooMany { check };
        }
        let ghost taken = sentinel@.taken;
        let start = |pool: &mut Pool<T>, sentinel: &mut Sentinel<T::Input, T::Output>| -> (r: (
            Option<(u64, Job<T::Input, T::Output>)>,
            bool,
            Change<T::Input, T::Output>,
        ))
            requires
                (*pool).wf(),
                !(*pool)@.starved(),
                (*sentinel)@.is_ready(),
                (*sentinel)@.taken == taken,
            ensures
                old(pool).goes_to(*final(pool), r.2),
                r.2.past().valid(),
                !r.2.before().starved(),
                r.1 == r.2.before().admits(),
                r.2.is_made_by(r.2.before().taking()),
                r.0 is Some <==> r.2.before().taking() is Some,
                match r.0 {
                    Some((number, job)) => {
                        &&& number == r.2.before().started
                        &&& job == r.2.before().submitted[number as int]
                        &&& final(sentinel)@ == SentinelView::working(
                            (Held { number, take: r.2 }),
                            taken + 1,
                        )
                    },
                    None => final(sentinel)@ == old(sentinel)@,
                },
        {
            proof {
                (*pool).lemma_wf();
            }
            let admitted: bool = pool.admits();
            let (job, take) = pool.hand_job(sentinel);
            (job, admitted, take)
        };
        match with_fed_pool(&self.lock, &check, sentinel, start) {
            (Some((number, job)), _, take) => Next::Run { number, job, check, take },
            (None, admitted, take) => {
                sentinel.cancel();
                if admitted {
                    Next::NoMore { check, take }
                } else {
                    Next::Surplus { check, take }
                }
            },
        }
    }
}

impl<T: Task + Settles> PoolSharedData<T> {
    /// Records that a thread is done with its job, and what became of the output, and wakes
    /// the joins if that was the last of the work.
    pub fn finish_job(
        &self,
        sentinel: &mut Sentinel<T::Input, T::Output>,
        delivery: &Delivery<T::Output>,
    ) -> (r: Report<T::Input, T::Output>)
        requires
            old(sentinel)@.active,
            old(sentinel)@.job matches Some(held) && self.gave(held) && delivery.fits(
                held.take.before().submitted[held.number as int].sender,
            ),
        ensures
            final(sentinel)@ == SentinelView::rested(r.change, old(sentinel)@.taken),
            self.made(r.change),
            r.change.follows(old(sentinel)@.job->0.take),
            r.change.is_made_by(
                r.change.before().finishing(old(sentinel)@.job->0.number, *delivery),
            ),
            r.change.after().is_done(old(sentinel)@.job->0.number as nat),
            self.wakes_joins_if(!r.change.after().has_work(), r),
        opens_invariants [Doing::Settle(old(sentinel)@.job->0.number).namespace()]
    {
        proof {
            use_type_invariant(self);
        }
        let (number, take) = match sentinel.held() {
            Some(held) => (held.number, held.take.copy()),
            None => (0, self.origin.copy()),
        };
        let finish = |pool: &mut Pool<T>| -> (r: (bool, Change<T::Input, T::Output>))
            requires
                (*pool).wf(),
                (*pool).history().extends(take.present()),
            ensures
                old(pool).goes_to(*final(pool), r.1),
                r.1.past().valid(),
                r.1.is_made_by(r.1.before().finishing(number, *delivery)),
                r.0 == !r.1.after().has_work(),
        {
            proof {
                (*pool).lemma_wf();
                crate::laws::law_later((*pool).history(), take.present());
            }
            pool.settle_job(number, delivery)
        };
        let (idle, change) = with_pool(&self.lock, &take, Doing::Settle(number), finish);
        proof {
            crate::laws::law_later(change.past(), take.present());
        }
        sentinel.put_down(change.copy());
        self.no_work_notify_all(idle, change)
    }
}

impl<T: Task + Hands + Settles> PoolSharedData<T> {
    /// One round of a worker thread: takes a job, executes it, delivers its output and finishes
    /// it. If there is none for the thread, the sentinel is cancelled and the thread has to
    /// end.
    pub fn work(&self, sentinel: &mut Sentinel<T::Input, T::Output>, executor: &mut T) -> (r: Round<
        T::Input,
        T::Output,
    >)
        requires
            old(sentinel)@.is_ready(),
            old(sentinel)@.last matches Some(finish) ==> self.has_made(finish),
        ensures
            self.goes(r, *old(executor), *final(executor), final(sentinel)@),
            final(sentinel)@.taken == old(sentinel)@.taken + if r is Done {
                1nat
            } else {
                0
            },
            old(sentinel)@.last matches Some(finish) ==> r.check().follows(finish),
    {
        match self.next_job(sentinel) {
            Next::Run { number, job, check, take } => {
                let delivery = run_job(executor, job);
                let finish = self.finish_job(sentinel, &delivery);
                Round::Done { number, check, take, delivery, finish }
            },
            next => Round::Over(next),
        }
    }
}

impl<T: Task + Ends> PoolSharedData<T> {
    /// What a thread leaves behind when it ends. Unless its sentinel was cancelled, it is
    /// counted as lost, and as panicked if it is `panicking`; then the joins are woken if there
    /// is no work left, and a thread has to be started in its place, which is what the result
    /// says. If the sentinel was cancelled, nothing happens.
    pub fn thread_ended(
        &self,
        sentinel: &Sentinel<T::Input, T::Output>,
        panicking: bool,
    ) -> (r: (bool, Report<T::Input, T::Output>))
        requires
            sentinel@.job matches Some(held) ==> self.gave(held),
        ensures
            r.0 == sentinel@.active,
            self.made(r.1.change),
            sentinel@.job matches Some(held) ==> r.1.change.follows(held.take),
            r.1.change.is_made_by(r.1.change.before().ending(sentinel@, panicking)),
            self.wakes_joins_if(sentinel@.active && !r.1.change.after().has_work(), r.1),
        opens_invariants [Doing::End(sentinel@.number(), panicking).namespace()]
    {
        proof {
            use_type_invariant(self);
        }
        let end = |pool: &mut Pool<T>| -> (r: (bool, Change<T::Input, T::Output>))
            requires
                (*pool).wf(),
            ensures
                old(pool).goes_to(*final(pool), r.1),
                r.1.past().valid(),
                r.1.is_made_by(r.1.before().ending(sentinel@, panicking)),
                r.0 == (sentinel@.active && !r.1.after().has_work()),
        {
            proof {
                (*pool).lemma_wf();
            }
            pool.end_thread(sentinel, panicking)
        };
        let since = match sentinel.held() {
            Some(held) => &held.take,
            None => &self.origin,
        };
        let doing = Doing::End(sentinel.number(), panicking);
        let (wake, change) = with_pool(&self.lock, since, doing, end);
        (sentinel.is_active(), self.no_work_notify_all(wake, change))
    }
}

/// Calls `std::sync::Arc::clone`, which makes another pointer to the same data.
#[verifier::external_body]
fn point_again<T: Task>(shared: &Arc<PoolSharedData<T>>) -> (r: Arc<PoolSharedData<T>>)
    ensures
        r == *shared,
    opens_invariants none
{
    Arc::clone(shared)
}

/// Cloning a pool will create a new handle to the pool. The behavior is similar to `Arc`: the
/// handles are to one pool. There is none if as many handles as can be counted exist already.
pub fn clone_handle<T: Task + AddsHandles>(shared: &Arc<PoolSharedData<T>>) -> (r: (
    Option<Arc<PoolSharedData<T>>>,
    Change<T::Input, T::Output>,
))
    ensures
        shared.made(r.1),
        r.1.is_made_by(r.1.before().adding_handle()),
        match r.0 {
            Some(handle) => handle == *shared && r.1.before().handles < usize::MAX,
            None => r.1.before().handles == usize::MAX,
        },
    opens_invariants [Doing::AddHandle.namespace()]
{
    let (added, change) = shared.add_handle();
    let handle = if added {
        Some(point_again(shared))
    } else {
        None
    };
    (handle, change)
}

} // verus!
