//! The state of a pool, with one operation for each thing that can happen to it.
//!
//! One [`Pool`] is shared by the handles through which jobs come in, by the worker threads
//! that execute them and by the threads that wait for them. Each method below is one step of
//! one of these. A pool keeps its own history, as a ghost.

use crate::builder::Builder;
use crate::history::Event;
use crate::history::History;
use crate::history::PoolView;
use crate::job::Delivery;
use crate::job::Job;
use crate::queue::JobQueue;
use crate::queue::QueueMark;
use crate::roles::Acts;
use crate::roles::AddsHandles;
use crate::roles::DropsHandles;
use crate::roles::Ends;
use crate::roles::Hands;
use crate::roles::Resizes;
use crate::roles::Settles;
use crate::roles::Submits;
use crate::roles::Task;
use crate::send::OutputSender;
use crate::sentinel::Held;
use crate::sentinel::Sentinel;
use crate::sentinel::SentinelView;
use crate::settings::ThreadSettings;
use crate::settings::ThreadSettingsView;
use crate::text::debug_pool;
use crate::worker::Worker;
use vstd::prelude::*;

verus! {

/// The counts of a pool at one time.
pub struct Counts {
    /// The number of jobs waiting to be executed.
    pub queued: usize,
    /// The number of active threads.
    pub active: usize,
    /// The maximum number of threads that execute concurrently.
    pub max: usize,
    /// The number of threads that have panicked.
    pub panics: usize,
}

impl Counts {
    /// Whether these are the counts of a pool with that value.
    pub open spec fn are_of<I, O>(self, pool: PoolView<I, O>) -> bool {
        &&& self.queued == pool.jobs().len()
        &&& self.active == pool.active()
        &&& self.max == pool.max
        &&& self.panics == pool.panics
    }
}

/// Evidence of one step of a pool: which pool it was, and its history before the step and
/// after it. Only the methods of [`Pool`] make one.
#[verifier::reject_recursive_types(I)]
#[verifier::reject_recursive_types(O)]
pub struct Change<I, O> {
    pool: Ghost<crossbeam_channel::Sender<Job<I, O>>>,
    past: Ghost<History<I, O>>,
    present: Ghost<History<I, O>>,
}

impl<I, O> Change<I, O> {
    /// The pool that made the step.
    pub closed spec fn pool(self) -> crossbeam_channel::Sender<Job<I, O>> {
        self.pool@
    }

    /// The history of the pool before the step.
    pub closed spec fn past(self) -> History<I, O> {
        self.past@
    }

    /// The history of the pool after the step.
    pub closed spec fn present(self) -> History<I, O> {
        self.present@
    }

    /// The pool before the step.
    pub open spec fn before(self) -> PoolView<I, O> {
        self.past().now()
    }

    /// The pool after the step.
    pub open spec fn after(self) -> PoolView<I, O> {
        self.present().now()
    }

    /// Whether the step left the pool as it was.
    pub open spec fn is_look(self) -> bool {
        self.present() == self.past()
    }

    /// Whether the step was that event.
    pub open spec fn is_step(self, event: Event<I, O>) -> bool {
        &&& self.before().enabled(event)
        &&& self.present() == self.past().push(event)
        &&& self.after() == self.before().step(event)
    }

    /// Whether the step was that event, or left the pool as it was if there is none.
    pub open spec fn is_made_by(self, event: Option<Event<I, O>>) -> bool {
        match event {
            Some(e) => self.is_step(e),
            None => self.is_look(),
        }
    }

    /// Whether this is a later step of the pool of which `earlier` is one.
    pub open spec fn follows(self, earlier: Self) -> bool {
        &&& self.pool() == earlier.pool()
        &&& self.past().extends(earlier.present())
    }

    /// The same evidence once more.
    pub fn copy(&self) -> (r: Self)
        ensures
            r == *self,
        opens_invariants none
    {
        Change { pool: self.pool, past: self.past, present: self.present }
    }
}

/// Abstraction of a thread pool for basic parallelism.
#[verifier::reject_recursive_types(T)]
pub struct Pool<T: Task> {
    settings: ThreadSettings,
    jobs: JobQueue<T::Input, T::Output>,
    started: u64,
    running: Vec<u64>,
    handles: usize,
    join_generation: usize,
    max_thread_count: usize,
    panic_count: usize,
    history: Ghost<History<T::Input, T::Output>>,
}

impl<T: Task> View for Pool<T> {
    type V = PoolView<T::Input, T::Output>;

    open spec fn view(&self) -> PoolView<T::Input, T::Output> {
        self.history().now()
    }
}

/// Takes `number` out of `numbers`, in which it occurs at most once. Says whether it did.
fn take_out(numbers: &mut Vec<u64>, number: u64) -> (found: bool)
    requires
        old(numbers)@.no_duplicates(),
    ensures
        final(numbers)@.no_duplicates(),
        final(numbers)@.to_set() == old(numbers)@.to_set().remove(number),
        found == old(numbers)@.to_set().contains(number),
{
    let mut i: usize = 0;
    while i < numbers.len()
        invariant
            i <= numbers@.len(),
            numbers@ == old(numbers)@,
            numbers@.no_duplicates(),
            forall|k: int| 0 <= k < i ==> numbers@[k] != number,
        decreases numbers.len() - i,
    {
        if numbers[i] == number {
            let _ = numbers.remove(i);
            proof {
                let pre = old(numbers)@;
                let post = numbers@;
                assert forall|n: u64| post.contains(n) <==> pre.contains(n) && n != number by {
                    if pre.contains(n) && n != number {
                        let k = choose|k: int| 0 <= k < pre.len() && pre[k] == n;
                        if k < i {
                            assert(post[k] == n);
                        } else {
                            assert(post[k - 1] == n);
                        }
                    }
                    if post.contains(n) {
                        let k = choose|k: int| 0 <= k < post.len() && post[k] == n;
                        if k < i {
                            assert(pre[k] == n);
                        } else {
                            assert(pre[k + 1] == n);
                        }
                    }
                }
                assert(post.to_set() =~= pre.to_set().remove(number));
                assert(pre[i as int] == number);
            }
            return true;
        }
        i = i + 1;
    }
    proof {
        assert(!numbers@.contains(number));
        assert(numbers@.to_set().remove(number) =~= numbers@.to_set());
    }
    false
}

impl<T: Task> Pool<T> {
    /// Which pool it is.
    pub closed spec fn id(self) -> crossbeam_channel::Sender<Job<T::Input, T::Output>> {
        self.jobs.channel()
    }

    /// Everything that has happened to the pool.
    pub closed spec fn history(self) -> History<T::Input, T::Output> {
        self.history@
    }

    /// The pool is what its history made of it.
    pub closed spec fn wf(self) -> bool {
        let now = self.history@.now();
        &&& self.history@.valid()
        &&& now.inv()
        &&& self.settings@ == now.settings
        &&& self.jobs@ == now.jobs()
        &&& self.started == now.started
        &&& self.running@.no_duplicates()
        &&& self.running@.to_set() == now.running
        &&& self.handles == now.handles
        &&& self.join_generation == now.join_generation
        &&& self.max_thread_count == now.max
        &&& self.panic_count == now.panics
    }

    /// Whether this is what `earlier` has become by steps.
    pub open spec fn continues(self, earlier: Self) -> bool {
        &&& self.wf()
        &&& self.id() == earlier.id()
        &&& self.history().extends(earlier.history())
    }

    /// Whether `change` is the step by which this became `next`.
    pub open spec fn goes_to(self, next: Self, change: Change<T::Input, T::Output>) -> bool {
        &&& next.continues(self)
        &&& change.pool() == self.id()
        &&& change.past() == self.history()
        &&& change.present() == next.history()
    }

    /// What is known of a pool that is what its history made of it.
    pub proof fn lemma_wf(self)
        requires
            self.wf(),
        ensures
            self.history().valid(),
            self@.inv(),
            self@.active() <= usize::MAX,
            self@.settings == self.history().settings,
    {
        crate::history::lemma_settings(self.history@, self.history@.events.len());
        self.running@.unique_seq_to_set();
        assert(self.running@.len() == self.running.len());
    }

    /// A mark by which the pool is known again.
    pub(crate) fn mark(&self) -> (r: QueueMark<T::Input, T::Output>)
        ensures
            r.channel() == self.id(),
    {
        self.jobs.mark()
    }

    /// What each thread of the pool is started with.
    pub fn settings(&self) -> (r: &ThreadSettings)
        requires
            self.wf(),
        ensures
            r@ == self@.settings,
    {
        &self.settings
    }

    /// Evidence of the step that has brought the pool from that history to where it is.
    fn evidence(&self, past: Ghost<History<T::Input, T::Output>>) -> (r: Change<
        T::Input,
        T::Output,
    >)
        ensures
            r.pool() == self.id(),
            r.past() == past@,
            r.present() == self.history(),
    {
        Change { pool: Ghost(self.id()), past, present: Ghost(self.history()) }
    }

    /// A step that leaves the pool as it is.
    pub fn look(&self) -> (r: Change<T::Input, T::Output>)
        ensures
            r.pool() == self.id(),
            r.past() == self.history(),
            r.is_look(),
    {
        self.evidence(Ghost(self.history()))
    }

    /// Returns the number of jobs waiting to be executed in the pool.
    pub fn queued_count(&self) -> (n: usize)
        requires
            self.wf(),
        ensures
            n == self@.jobs().len(),
    {
        self.jobs.len()
    }

    /// Returns the number of currently active threads.
    pub fn active_count(&self) -> (n: usize)
        requires
            self.wf(),
        ensures
            n == self@.active(),
    {
        proof {
            self.running@.unique_seq_to_set();
        }
        self.running.len()
    }

    /// Returns the maximum number of threads the pool will execute concurrently.
    pub fn max_count(&self) -> (n: usize)
        requires
            self.wf(),
        ensures
            n == self@.max,
            n >= 1,
    {
        self.max_thread_count
    }

    /// Returns the number of panicked threads over the lifetime of the pool.
    pub fn panic_count(&self) -> (n: usize)
        requires
            self.wf(),
        ensures
            n == self@.panics,
    {
        self.panic_count
    }

    /// Returns all the counts together.
    pub fn counts(&self) -> (r: Counts)
        requires
            self.wf(),
        ensures
            r.are_of(self@),
            r.max >= 1,
    {
        Counts {
            queued: self.queued_count(),
            active: self.active_count(),
            max: self.max_count(),
            panics: self.panic_count(),
        }
    }

    /// Whether a job waits or is being executed.
    pub fn has_work(&self) -> (r: bool)
        requires
            self.wf(),
        ensures
            r == self@.has_work(),
    {
        self.queued_count() > 0 || self.active_count() > 0
    }

    /// Whether a thread may take another job, rather than end because the pool executes as
    /// many as it may already.
    pub fn admits(&self) -> (r: bool)
        requires
            self.wf(),
        ensures
            r == self@.admits(),
    {
        self.active_count() < self.max_thread_count
    }

    /// Whether a job waits that can be taken.
    pub fn has_job(&self) -> (r: bool)
        requires
            self.wf(),
        ensures
            r == self@.has_job(),
    {
        self.queued_count() > 0 && self.started < u64::MAX
    }

    /// Whether a thread that wants a job has to wait for one.
    pub fn starved(&self) -> (r: bool)
        requires
            self.wf(),
        ensures
            r == self@.starved(),
    {
        !self.has_job() && self.handles > 0
    }

    /// Whether a join of wave `generation` has to wait.
    pub fn join_waits(&self, generation: usize) -> (r: bool)
        requires
            self.wf(),
        ensures
            r == self@.join_waits(generation),
    {
        self.join_generation == generation && self.has_work()
    }

    /// One step of a join. The first step is made with `None`, and each later one, after a
    /// wait, with what the step before returned. `Some` is the wave for whose end to wait;
    /// `None` says that the join is over.
    ///
    /// A join of a pool without work is over at once. The wave ends when the work runs out,
    /// and all joins of the wave are over then, even if there is new work by the time they
    /// make their next step.
    pub fn join(&self, waiting: Option<usize>) -> (r: Option<usize>)
        requires
            self.wf(),
        ensures
            r == match waiting {
                None => if self@.has_work() {
                    Some(self@.join_generation)
                } else {
                    None
                },
                Some(generation) => if self@.join_waits(generation) {
                    Some(generation)
                } else {
                    None
                },
            },
    {
        match waiting {
            None => if self.has_work() {
                Some(self.join_generation)
            } else {
                None
            },
            Some(generation) => if self.join_waits(generation) {
                Some(generation)
            } else {
                None
            },
        }
    }

    /// The debug text of the pool: its name and its counts.
    pub fn debug_text(&self) -> (r: String)
        requires
            self.wf(),
        ensures
            r@ == self@.text(),
    {
        debug_pool(
            &self.settings.name,
            self.queued_count(),
            self.active_count(),
            self.max_count(),
        )
    }
}

impl<T: Worker> Pool<T> {
    /// A pool of `num_threads` threads with those settings. It has no job, and one handle.
    pub(crate) fn with_settings(settings: ThreadSettings, num_threads: usize) -> (r: Pool<T>)
        requires
            num_threads >= 1,
        ensures
            r.wf(),
            r.history() == History::<T::Input, T::Output>::new(settings@, num_threads),
            r@ == PoolView::<T::Input, T::Output>::fresh(settings@, num_threads),
    {
        let pool = Pool {
            settings,
            jobs: JobQueue::new(),
            started: 0,
            running: Vec::new(),
            handles: 1,
            join_generation: 0,
            max_thread_count: num_threads,
            panic_count: 0,
            history: Ghost(History::new(settings@, num_threads)),
        };
        proof {
            assert(pool.jobs@ =~= pool.history@.now().jobs());
            assert(pool.running@.to_set() =~= pool.history@.now().running);
        }
        pool
    }

    /// Creates a new pool capable of executing `num_threads` number of jobs concurrently.
    pub fn new(num_threads: usize) -> (r: Pool<T>)
        requires
            num_threads > 0,
        ensures
            r.wf(),
            r.history() == History::<T::Input, T::Output>::new(
                (ThreadSettingsView { name: None, stack_size: None }),
                num_threads,
            ),
            r@ == PoolView::<T::Input, T::Output>::fresh(
                (ThreadSettingsView { name: None, stack_size: None }),
                num_threads,
            ),
    {
        Builder::new().num_threads(num_threads).build()
    }

    /// Creates a new pool capable of executing `num_threads` number of jobs concurrently.
    /// Each thread will have the name `name`.
    pub fn with_name(name: String, num_threads: usize) -> (r: Pool<T>)
        requires
            num_threads > 0,
        ensures
            r.wf(),
            r.history() == History::<T::Input, T::Output>::new(
                (ThreadSettingsView { name: Some(name@), stack_size: None }),
                num_threads,
            ),
            r@ == PoolView::<T::Input, T::Output>::fresh(
                (ThreadSettingsView { name: Some(name@), stack_size: None }),
                num_threads,
            ),
    {
        Builder::new().num_threads(num_threads).thread_name(name).build()
    }
}

impl<T: Task + Submits> Pool<T> {
    /// Takes in a job.
    pub fn submit(&mut self, job: Job<T::Input, T::Output>) -> (r: Change<T::Input, T::Output>)
        requires
            old(self).wf(),
        ensures
            old(self).goes_to(*final(self), r),
            r.is_step(Event::Submit(job)),
    {
        let ghost event = Event::Submit(job);
        proof {
            crate::history::lemma_push(self.history@, event);
            crate::history::lemma_step_inv(self.history@.now(), event);
        }
        self.jobs.push(job);
        self.history = Ghost(self.history@.push(event));
        proof {
            assert(self.jobs@ =~= self.history@.now().jobs());
        }
        self.evidence(Ghost(old(self).history@))
    }

    /// Takes in a job whose output is disregarded.
    pub fn execute(&mut self, inp: T::Input)
        requires
            old(self).wf(),
        ensures
            final(self).continues(*old(self)),
            final(self)@ == old(self)@.submit((Job { inp, sender: None })),
    {
        let _ = self.submit(Job { inp, sender: None });
    }

    /// Takes in a job whose output goes to the given sender.
    pub fn execute_to(&mut self, tx: OutputSender<T::Output>, inp: T::Input)
        requires
            old(self).wf(),
        ensures
            final(self).continues(*old(self)),
            final(self)@ == old(self)@.submit((Job { inp, sender: Some(tx) })),
    {
        let _ = self.submit(Job { inp, sender: Some(tx) });
    }
}

impl<T: Task + Resizes> Pool<T> {
    /// Sets the number of worker threads to use as `num_threads`, and says how many threads
    /// have to be started for that. Running and waiting threads are left alone.
    pub fn set_num_threads(&mut self, num_threads: usize) -> (spawn: usize)
        requires
            old(self).wf(),
            num_threads >= 1,
        ensures
            final(self).continues(*old(self)),
            final(self)@ == old(self)@.resize(num_threads),
            spawn == old(self)@.missing(num_threads),
            spawn < num_threads,
    {
        self.resize(num_threads).0
    }

    /// As [`Pool::set_num_threads`], with the step that was made.
    pub fn resize(&mut self, num_threads: usize) -> (r: (usize, Change<T::Input, T::Output>))
        requires
            old(self).wf(),
            num_threads >= 1,
        ensures
            old(self).goes_to(*final(self), r.1),
            r.1.is_step(Event::Resize(num_threads)),
            r.0 == old(self)@.missing(num_threads),
            r.0 < num_threads,
    {
        let ghost event = Event::Resize(num_threads);
        proof {
            crate::history::lemma_push(self.history@, event);
            crate::history::lemma_step_inv(self.history@.now(), event);
        }
        let prev_num_threads: usize = self.max_thread_count;
        self.max_thread_count = num_threads;
        self.history = Ghost(self.history@.push(event));
        let spawn: usize = match num_threads.checked_sub(prev_num_threads) {
            Some(num_spawn) => num_spawn,
            None => 0,
        };
        (spawn, self.evidence(Ghost(old(self).history@)))
    }
}

impl<T: Task + AddsHandles> Pool<T> {
    /// Counts one more handle to the pool. Says whether that was possible.
    pub fn add_handle(&mut self) -> (r: (bool, Change<T::Input, T::Output>))
        requires
            old(self).wf(),
        ensures
            old(self).goes_to(*final(self), r.1),
            r.1.is_made_by(old(self)@.adding_handle()),
            r.0 == (old(self)@.handles < usize::MAX),
    {
        let added: bool = match self.handles.checked_add(1) {
            Some(handles) => {
                proof {
                    crate::history::lemma_push(self.history@, Event::AddHandle);
                    crate::history::lemma_step_inv(self.history@.now(), Event::AddHandle);
                }
                self.handles = handles;
                self.history = Ghost(self.history@.push(Event::AddHandle));
                true
            },
            None => false,
        };
        (added, self.evidence(Ghost(old(self).history@)))
    }
}

impl<T: Task + DropsHandles> Pool<T> {
    /// Counts one handle less. Says whether none is left, so that threads which wait for a
    /// job have to be woken.
    pub fn remove_handle(&mut self) -> (r: (bool, Change<T::Input, T::Output>))
        requires
            old(self).wf(),
        ensures
            old(self).goes_to(*final(self), r.1),
            r.1.is_made_by(old(self)@.removing_handle()),
            r.0 == (final(self)@.handles == 0),
    {
        if self.handles > 0 {
            proof {
                crate::history::lemma_push(self.history@, Event::RemoveHandle);
                crate::history::lemma_step_inv(self.history@.now(), Event::RemoveHandle);
            }
            self.handles = self.handles - 1;
            self.history = Ghost(self.history@.push(Event::RemoveHandle));
        }
        (self.handles == 0, self.evidence(Ghost(old(self).history@)))
    }
}

impl<T: Task> Pool<T> {
    /// Ends the wave of joins if there is no work left, and says whether there is none. `now` is
    /// what the pool is to be before that.
    fn settle(&mut self, now: Ghost<PoolView<T::Input, T::Output>>) -> (idle: bool)
        requires
            old(self).jobs@ == now@.jobs(),
            old(self).running@.no_duplicates(),
            old(self).running@.to_set() == now@.running,
            old(self).join_generation == now@.join_generation,
        ensures
            *final(self) == (Pool { join_generation: now@.settle().join_generation, ..*old(self) }),
            idle == !now@.has_work(),
    {
        proof {
            self.running@.unique_seq_to_set();
        }
        if self.jobs.len() > 0 || self.running.len() > 0 {
            false
        } else {
            self.join_generation = self.join_generation.wrapping_add(1);
            true
        }
    }
}

impl<T: Task> Pool<T> {
    /// Takes the oldest job off the queue.
    fn take_oldest(&mut self) -> (r: (
        Option<(u64, Job<T::Input, T::Output>)>,
        Change<T::Input, T::Output>,
    ))
        requires
            old(self).wf(),
        ensures
            old(self).goes_to(*final(self), r.1),
            r.1.is_made_by(old(self)@.taking()),
            r.0 is Some <==> old(self)@.taking() is Some,
            r.0 matches Some((number, job)) ==> {
                &&& number == old(self)@.started
                &&& job == old(self)@.submitted[number as int]
            },
    {
        let job = if self.has_job() && self.admits() {
            self.jobs.pop()
        } else {
            None
        };
        match job {
            Some(job) => {
                let ghost now = self.history@.now();
                proof {
                    crate::history::lemma_push(self.history@, Event::Take);
                    crate::history::lemma_step_inv(now, Event::Take);
                    self.running@.lemma_push_to_set_commute(self.started);
                    assert(!now.running.contains(self.started));
                    assert(!self.running@.contains(self.started));
                }
                let number: u64 = self.started;
                self.running.push(number);
                self.started = number + 1;
                self.history = Ghost(self.history@.push(Event::Take));
                proof {
                    assert(self.jobs@ =~= self.history@.now().jobs());
                }
                (Some((number, job)), self.evidence(Ghost(old(self).history@)))
            },
            None => (None, self.evidence(Ghost(old(self).history@))),
        }
    }

    /// Takes a job for done.
    fn mark_done(&mut self, number: u64, delivery: &Delivery<T::Output>) -> (r: (
        bool,
        Change<T::Input, T::Output>,
    ))
        requires
            old(self).wf(),
            old(self)@.running.contains(number) ==> delivery.fits(
                old(self)@.submitted[number as int].sender,
            ),
        ensures
            old(self).goes_to(*final(self), r.1),
            r.1.is_made_by(old(self)@.finishing(number, *delivery)),
            r.0 == !final(self)@.has_work(),
    {
        let ghost event = Event::Finish(number, *delivery);
        let ghost now = self.history@.now();
        if take_out(&mut self.running, number) {
            proof {
                crate::history::lemma_push(self.history@, event);
                crate::history::lemma_step_inv(now, event);
            }
            let idle: bool = self.settle(
                Ghost(
                    PoolView {
                        running: now.running.remove(number),
                        deliveries: now.deliveries.push((number, *delivery)),
                        ..now
                    },
                ),
            );
            self.history = Ghost(self.history@.push(event));
            (idle, self.evidence(Ghost(old(self).history@)))
        } else {
            proof {
                assert(now.running.remove(number) =~= now.running);
            }
            (!self.has_work(), self.evidence(Ghost(old(self).history@)))
        }
    }

    /// Takes a thread for lost.
    fn mark_lost(&mut self, job: Option<u64>, panicking: bool) -> (r: (
        bool,
        Change<T::Input, T::Output>,
    ))
        requires
            old(self).wf(),
        ensures
            old(self).goes_to(*final(self), r.1),
            r.1.is_step(old(self)@.losing(job, panicking)),
            r.0 == !final(self)@.has_work(),
    {
        let ghost now = self.history@.now();
        let ghost event = now.losing(job, panicking);
        proof {
            crate::history::lemma_push(self.history@, event);
            crate::history::lemma_step_inv(now, event);
        }
        if let Some(number) = job {
            let _ = take_out(&mut self.running, number);
            proof {
                if !now.running.contains(number) {
                    assert(now.running.remove(number) =~= now.running);
                }
            }
        }
        if panicking {
            self.panic_count = self.panic_count.wrapping_add(1);
        }
        let idle: bool = self.settle(
            Ghost(PoolView { join_generation: now.join_generation, ..now.step(event) }),
        );
        self.history = Ghost(self.history@.push(event));
        (idle, self.evidence(Ghost(old(self).history@)))
    }
}

impl<T: Task + Acts> Pool<T> {
    /// Hands the oldest job to a thread, with the number of the job, unless the pool executes
    /// as many as it may already.
    pub fn start_job(&mut self) -> (r: (
        Option<(u64, Job<T::Input, T::Output>)>,
        Change<T::Input, T::Output>,
    ))
        requires
            old(self).wf(),
        ensures
            old(self).goes_to(*final(self), r.1),
            r.1.is_made_by(old(self)@.taking()),
            r.0 is Some <==> old(self)@.taking() is Some,
            r.0 matches Some((number, job)) ==> {
                &&& number == old(self)@.started
                &&& job == old(self)@.submitted[number as int]
            },
    {
        self.take_oldest()
    }

    /// Records that the job with that number is done, and what became of its output. Says
    /// whether there is no work left; if that was the last of it, the wave of joins is over,
    /// and the joins have to be woken. If the job is not being executed, nothing happens.
    pub fn finish_job(&mut self, number: u64, delivery: &Delivery<T::Output>) -> (r: (
        bool,
        Change<T::Input, T::Output>,
    ))
        requires
            old(self).wf(),
            old(self)@.running.contains(number) ==> delivery.fits(
                old(self)@.submitted[number as int].sender,
            ),
        ensures
            old(self).goes_to(*final(self), r.1),
            r.1.is_made_by(old(self)@.finishing(number, *delivery)),
            r.0 == !final(self)@.has_work(),
    {
        self.mark_done(number, delivery)
    }

    /// Records that a thread is lost. `job` is the number of the job that it had, which then
    /// does not count as active any more, and `panicking` says whether it panicked. Says
    /// whether there is no work left; then the wave of joins is over, and the joins have to be
    /// woken.
    pub fn lose_worker(&mut self, job: Option<u64>, panicking: bool) -> (r: (
        bool,
        Change<T::Input, T::Output>,
    ))
        requires
            old(self).wf(),
        ensures
            old(self).goes_to(*final(self), r.1),
            r.1.is_step(old(self)@.losing(job, panicking)),
            r.0 == !final(self)@.has_work(),
    {
        self.mark_lost(job, panicking)
    }
}

impl<T: Task + Hands> Pool<T> {
    /// Hands the oldest job to the thread under that sentinel, with the number of the job, unless
    /// the pool executes as many as it may already.
    pub fn hand_job(&mut self, sentinel: &mut Sentinel<T::Input, T::Output>) -> (r: (
        Option<(u64, Job<T::Input, T::Output>)>,
        Change<T::Input, T::Output>,
    ))
        requires
            old(self).wf(),
            old(sentinel)@.is_ready(),
        ensures
            old(self).goes_to(*final(self), r.1),
            r.1.is_made_by(old(self)@.taking()),
            r.0 is Some <==> old(self)@.taking() is Some,
            match r.0 {
                Some((number, job)) => {
                    &&& number == old(self)@.started
                    &&& job == old(self)@.submitted[number as int]
                    &&& final(sentinel)@ == SentinelView::working(
                        (Held { number, take: r.1 }),
                        old(sentinel)@.taken + 1,
                    )
                },
                None => final(sentinel)@ == old(sentinel)@,
            },
    {
        let (job, take) = self.take_oldest();
        if let Some((number, _)) = &job {
            sentinel.take_up(Held { number: *number, take: take.copy() });
        }
        (job, take)
    }
}

impl<T: Task + Settles> Pool<T> {
    /// Records that the job of a thread is done, and what became of its output. Says
    /// whether there is no work left; if that was the last of it, the wave of joins is over,
    /// and the joins have to be woken. If the job is not being executed, nothing happens.
    pub fn settle_job(&mut self, number: u64, delivery: &Delivery<T::Output>) -> (r: (
        bool,
        Change<T::Input, T::Output>,
    ))
        requires
            old(self).wf(),
            old(self)@.running.contains(number) ==> delivery.fits(
                old(self)@.submitted[number as int].sender,
            ),
        ensures
            old(self).goes_to(*final(self), r.1),
            r.1.is_made_by(old(self)@.finishing(number, *delivery)),
            r.0 == !final(self)@.has_work(),
    {
        self.mark_done(number, delivery)
    }
}

impl<T: Task + Ends> Pool<T> {
    /// Records the end of a thread that was under that sentinel. If the sentinel is active, the
    /// thread is lost; if not, nothing happens. Says whether the joins have to be woken.
    pub fn end_thread(&mut self, sentinel: &Sentinel<T::Input, T::Output>, panicking: bool) -> (r: (
        bool,
        Change<T::Input, T::Output>,
    ))
        requires
            old(self).wf(),
        ensures
            old(self).goes_to(*final(self), r.1),
            r.1.is_made_by(old(self)@.ending(sentinel@, panicking)),
            r.0 == (sentinel@.active && !final(self)@.has_work()),
    {
        if sentinel.is_active() {
            self.mark_lost(sentinel.number(), panicking)
        } else {
            (false, self.evidence(Ghost(old(self).history@)))
        }
    }
}

/// Create a pool with one thread per CPU. On machines with hyperthreading, this will create
/// one thread per hyperthread.
impl<T: Worker> Default for Pool<T> {
    fn default() -> (r: Self)
        ensures
            r.wf(),
            r@.max >= 1,
            crate::builder::is_cpu_count(r@.max),
            r.history() == History::<T::Input, T::Output>::new(
                (ThreadSettingsView { name: None, stack_size: None }),
                r@.max,
            ),
            r@ == PoolView::<T::Input, T::Output>::fresh(
                (ThreadSettingsView { name: None, stack_size: None }),
                r@.max,
            ),
    {
        Pool::new(num_cpus::get())
    }
}

/// Check if you are working with the same pool.
impl<T: Task> PartialEq for Pool<T> {
    fn eq(&self, other: &Pool<T>) -> (r: bool) {
        self.jobs.same(&other.jobs)
    }
}

impl<T: Task> vstd::std_specs::cmp::PartialEqSpecImpl for Pool<T> {
    open spec fn obeys_eq_spec() -> bool {
        true
    }

    open spec fn eq_spec(&self, other: &Pool<T>) -> bool {
        self.id() == other.id()
    }
}

} // verus!
