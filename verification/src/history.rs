//! What can happen to a pool, and what it is then.
//!
//! A [`PoolView`] is the mathematical value of a pool, an [`Event`] is one thing that happens
//! to it, and a [`History`] is everything that has happened to it since it was built.

use crate::job::Delivery;
use crate::job::Job;
use crate::sentinel::SentinelView;
use crate::settings::ThreadSettingsView;
use vstd::prelude::*;

verus! {

/// The successor of a counter that wraps around.
pub open spec fn wrap_inc(n: usize) -> usize {
    if n == usize::MAX {
        0
    } else {
        (n + 1) as usize
    }
}

/// The mathematical value of a pool whose jobs take an `I` and give an `O`. Jobs are numbered
/// in the order in which they come in, which is also the order in which they are taken.
#[verifier::reject_recursive_types(I)]
#[verifier::reject_recursive_types(O)]
pub struct PoolView<I, O> {
    /// What each thread is started with.
    pub settings: ThreadSettingsView,
    /// Every job that ever came in.
    pub submitted: Seq<Job<I, O>>,
    /// How many of them were taken by a thread.
    pub started: u64,
    /// The jobs that are being executed.
    pub running: Set<u64>,
    /// The jobs whose thread was lost.
    pub lost: Set<u64>,
    /// What became of the output of each job that was executed to its end, in the order in
    /// which they ended.
    pub deliveries: Seq<(u64, Delivery<O>)>,
    /// How many handles the pool has.
    pub handles: usize,
    /// Which wave of joins the pool is in.
    pub join_generation: usize,
    /// How many jobs are meant to be executed at a time.
    pub max: usize,
    /// How many threads have panicked.
    pub panics: usize,
}

/// Something that happens to a pool.
#[verifier::reject_recursive_types(I)]
#[verifier::reject_recursive_types(O)]
pub enum Event<I, O> {
    /// A job comes in.
    Submit(Job<I, O>),
    /// There is one handle more.
    AddHandle,
    /// There is one handle less.
    RemoveHandle,
    /// The pool is told how many threads to use.
    Resize(usize),
    /// A thread takes the oldest job that waits.
    Take,
    /// The job with that number is done, and that became of its output.
    Finish(u64, Delivery<O>),
    /// A thread is lost, with or without a job, by a panic or otherwise.
    Lose(Option<u64>, bool),
}

impl<I, O> PoolView<I, O> {
    /// A pool of `max` threads that has just been made, with one handle to it.
    pub open spec fn fresh(settings: ThreadSettingsView, max: usize) -> Self {
        PoolView {
            settings,
            submitted: Seq::empty(),
            started: 0,
            running: Set::empty(),
            lost: Set::empty(),
            deliveries: Seq::empty(),
            handles: 1,
            join_generation: 0,
            max,
            panics: 0,
        }
    }

    /// The jobs that wait for a thread, the oldest first.
    pub open spec fn jobs(self) -> Seq<Job<I, O>> {
        self.submitted.skip(self.started as int)
    }

    /// How many jobs are being executed.
    pub open spec fn active(self) -> nat {
        self.running.len()
    }

    /// Whether job `j` was executed, to its end or until its thread was lost.
    pub open spec fn is_done(self, j: nat) -> bool {
        j < self.started && !self.running.contains(j as u64)
    }

    /// Whether place `k` of the deliveries is that of job `j`.
    pub open spec fn delivers(self, k: int, j: nat) -> bool {
        0 <= k < self.deliveries.len() && self.deliveries[k].0 == j
    }

    /// Whether job `j` was executed to its end, so that its output was delivered.
    pub open spec fn is_delivered(self, j: nat) -> bool {
        exists|k: int| self.delivers(k, j)
    }

    /// Whether a job waits or is being executed.
    pub open spec fn has_work(self) -> bool {
        self.jobs().len() > 0 || self.active() > 0
    }

    /// Whether a job waits that can be taken: there is a number left to take it under.
    pub open spec fn has_job(self) -> bool {
        self.jobs().len() > 0 && self.started < u64::MAX
    }

    /// Whether a thread may take another job: fewer are being executed than the pool may
    /// execute concurrently.
    pub open spec fn admits(self) -> bool {
        self.active() < self.max
    }

    /// Whether a thread that wants a job has to wait: there is none, but one may still come.
    pub open spec fn starved(self) -> bool {
        !self.has_job() && self.handles > 0
    }

    /// Whether a join of wave `generation` has to wait: its wave is not over, and there is
    /// work.
    pub open spec fn join_waits(self, generation: usize) -> bool {
        self.join_generation == generation && self.has_work()
    }

    /// How many threads have to be started when the pool is to use `num_threads`.
    pub open spec fn missing(self, num_threads: usize) -> nat {
        if num_threads > self.max {
            (num_threads - self.max) as nat
        } else {
            0
        }
    }

    /// After `job` came in.
    pub open spec fn submit(self, job: Job<I, O>) -> Self {
        PoolView { submitted: self.submitted.push(job), ..self }
    }

    /// After a thread took the oldest job that waits.
    pub open spec fn start(self) -> Self {
        PoolView {
            started: (self.started + 1) as u64,
            running: self.running.insert(self.started),
            ..self
        }
    }

    /// If there is no work left, the wave of joins is over.
    pub open spec fn settle(self) -> Self {
        if self.has_work() {
            self
        } else {
            PoolView { join_generation: wrap_inc(self.join_generation), ..self }
        }
    }

    /// After job `number` was done, and that became of its output.
    pub open spec fn finish(self, number: u64, delivery: Delivery<O>) -> Self {
        PoolView {
            running: self.running.remove(number),
            deliveries: self.deliveries.push((number, delivery)),
            ..self
        }.settle()
    }

    /// After a thread was lost, with that job or without one.
    pub open spec fn lose(self, job: Option<u64>, panicking: bool) -> Self {
        PoolView {
            running: match job {
                Some(number) => self.running.remove(number),
                None => self.running,
            },
            lost: match job {
                Some(number) => self.lost.insert(number),
                None => self.lost,
            },
            panics: if panicking {
                wrap_inc(self.panics)
            } else {
                self.panics
            },
            ..self
        }.settle()
    }

    /// After the pool was told to use `num_threads`.
    pub open spec fn resize(self, num_threads: usize) -> Self {
        PoolView { max: num_threads, ..self }
    }

    /// Whether something can happen now.
    pub open spec fn enabled(self, event: Event<I, O>) -> bool {
        match event {
            Event::Submit(_) => true,
            Event::AddHandle => self.handles < usize::MAX,
            Event::RemoveHandle => self.handles > 0,
            Event::Resize(num_threads) => num_threads >= 1,
            Event::Take => self.has_job() && self.admits(),
            Event::Finish(number, delivery) => {
                &&& self.running.contains(number)
                &&& delivery.fits(self.submitted[number as int].sender)
            },
            Event::Lose(job, _) => job matches Some(number) ==> self.running.contains(number),
        }
    }

    /// The pool after something happened.
    pub open spec fn step(self, event: Event<I, O>) -> Self {
        match event {
            Event::Submit(job) => self.submit(job),
            Event::AddHandle => PoolView { handles: (self.handles + 1) as usize, ..self },
            Event::RemoveHandle => PoolView { handles: (self.handles - 1) as usize, ..self },
            Event::Resize(num_threads) => self.resize(num_threads),
            Event::Take => self.start(),
            Event::Finish(number, delivery) => self.finish(number, delivery),
            Event::Lose(job, panicking) => self.lose(job, panicking),
        }
    }

    /// What happens when one more handle is to be counted: nothing if there are as many as can
    /// be counted.
    pub open spec fn adding_handle(self) -> Option<Event<I, O>> {
        if self.handles < usize::MAX {
            Some(Event::AddHandle)
        } else {
            None
        }
    }

    /// What happens when one handle less is to be counted: nothing if there is none.
    pub open spec fn removing_handle(self) -> Option<Event<I, O>> {
        if self.handles > 0 {
            Some(Event::RemoveHandle)
        } else {
            None
        }
    }

    /// What happens when a thread wants a job.
    pub open spec fn taking(self) -> Option<Event<I, O>> {
        if self.has_job() && self.admits() {
            Some(Event::Take)
        } else {
            None
        }
    }

    /// What happens when job `number` is said to be done: nothing if it is not being executed.
    pub open spec fn finishing(self, number: u64, delivery: Delivery<O>) -> Option<Event<I, O>> {
        if self.running.contains(number) {
            Some(Event::Finish(number, delivery))
        } else {
            None
        }
    }

    /// What happens when a thread is lost: it is lost with its job if that is being executed.
    pub open spec fn losing(self, job: Option<u64>, panicking: bool) -> Event<I, O> {
        Event::Lose(
            match job {
                Some(number) if self.running.contains(number) => Some(number),
                _ => None,
            },
            panicking,
        )
    }

    /// What happens when a thread ends that was under that sentinel: it is lost, unless the
    /// sentinel was cancelled.
    pub open spec fn ending(self, sentinel: SentinelView<I, O>, panicking: bool) -> Option<
        Event<I, O>,
    > {
        if sentinel.active {
            Some(self.losing(sentinel.number(), panicking))
        } else {
            None
        }
    }

    /// The numbers of the jobs are right: those being executed and those lost were taken, and
    /// those taken are being executed, were lost or have been delivered.
    pub open spec fn inv(self) -> bool {
        &&& self.max >= 1
        &&& self.started <= self.submitted.len()
        &&& self.running.finite()
        &&& self.lost.finite()
        &&& forall|n: u64| #[trigger]
            self.running.contains(n) ==> n < self.started && !self.lost.contains(n)
        &&& forall|n: u64| #[trigger] self.lost.contains(n) ==> n < self.started
        &&& self.running.len() + self.lost.len() + self.deliveries.len() == self.started
    }

    /// The deliveries are right: each is of another job, which is done and not lost, and what
    /// became of its output may become of it in that job.
    pub open spec fn deliveries_inv(self) -> bool {
        &&& forall|k: int|
            0 <= k < self.deliveries.len() ==> {
                let (number, delivery) = #[trigger] self.deliveries[k];
                &&& number < self.started
                &&& !self.running.contains(number)
                &&& !self.lost.contains(number)
                &&& delivery.fits(self.submitted[number as int].sender)
            }
        &&& forall|k: int, l: int|
            0 <= k < l < self.deliveries.len() ==> (#[trigger] self.deliveries[k]).0 != (
            #[trigger] self.deliveries[l]).0
        &&& forall|j: nat| #[trigger]
            self.is_done(j) ==> self.lost.contains(j as u64) || self.is_delivered(j)
    }

    /// The text of the pool.
    pub open spec fn text(self) -> Seq<char> {
        crate::text::pool_text(
            crate::text::optional(self.settings.name),
            self.jobs().len(),
            self.active(),
            self.max as nat,
        )
    }
}

/// Everything that has happened to a pool since it was built.
#[verifier::reject_recursive_types(I)]
#[verifier::reject_recursive_types(O)]
pub struct History<I, O> {
    /// What each thread is started with.
    pub settings: ThreadSettingsView,
    /// How many threads the pool was built with.
    pub num_threads: usize,
    /// What happened then.
    pub events: Seq<Event<I, O>>,
}

impl<I, O> History<I, O> {
    /// Of a pool that was just built.
    pub open spec fn new(settings: ThreadSettingsView, num_threads: usize) -> Self {
        History { settings, num_threads, events: Seq::empty() }
    }

    /// The pool after the first `i` events.
    pub open spec fn at(self, i: nat) -> PoolView<I, O>
        decreases i,
    {
        if i == 0 {
            PoolView::fresh(self.settings, self.num_threads)
        } else {
            self.at((i - 1) as nat).step(self.events[i - 1])
        }
    }

    /// The pool now.
    pub open spec fn now(self) -> PoolView<I, O> {
        self.at(self.events.len())
    }

    /// With one more event.
    pub open spec fn push(self, event: Event<I, O>) -> Self {
        History { events: self.events.push(event), ..self }
    }

    /// Whether this is what `earlier` has become, or still is.
    pub open spec fn extends(self, earlier: Self) -> bool {
        &&& self.settings == earlier.settings
        &&& self.num_threads == earlier.num_threads
        &&& earlier.events.is_prefix_of(self.events)
    }

    /// Each event could happen when it did.
    pub open spec fn valid(self) -> bool {
        &&& self.num_threads >= 1
        &&& forall|i: nat|
            i < self.events.len() ==> (#[trigger] self.at(i)).enabled(self.events[i as int])
    }

    /// Whether the pool was never told to use fewer threads than were active at the time.
    pub open spec fn never_below_active(self) -> bool {
        forall|i: nat|
            i < self.events.len() ==> match self.events[i as int] {
                Event::Resize(n) => n >= (#[trigger] self.at(i)).active(),
                _ => true,
            }
    }

    /// Whether the pool was never resized.
    pub open spec fn never_resized(self) -> bool {
        forall|i: int| 0 <= i < self.events.len() ==> !(#[trigger] self.events[i] is Resize)
    }
}

/// The past of a pool does not change.
pub proof fn lemma_past<I, O>(later: History<I, O>, earlier: History<I, O>, i: nat)
    requires
        later.extends(earlier),
        i <= earlier.events.len(),
    ensures
        later.at(i) == earlier.at(i),
    decreases i,
{
    if i > 0 {
        lemma_past(later, earlier, (i - 1) as nat);
        assert(later.events[i - 1] == earlier.events[i - 1]);
    }
}

/// The settings of a pool do not change.
pub proof fn lemma_settings<I, O>(history: History<I, O>, i: nat)
    ensures
        history.at(i).settings == history.settings,
    decreases i,
{
    if i > 0 {
        lemma_settings(history, (i - 1) as nat);
    }
}

/// One more event makes one more step.
pub proof fn lemma_push<I, O>(history: History<I, O>, event: Event<I, O>)
    requires
        history.valid(),
        history.now().enabled(event),
    ensures
        history.push(event).now() == history.now().step(event),
        history.push(event).valid(),
        history.push(event).extends(history),
{
    let later = history.push(event);
    assert(history.events =~= later.events.take(history.events.len() as int));
    assert forall|i: nat| i < later.events.len() implies (#[trigger] later.at(i)).enabled(
        later.events[i as int],
    ) by {
        lemma_past(later, history, i);
        if i < history.events.len() {
            assert(history.at(i).enabled(history.events[i as int]));
        }
    }
    lemma_past(later, history, history.events.len());
}

/// Whatever happens, the numbers of the jobs stay right.
pub proof fn lemma_step_inv<I, O>(pool: PoolView<I, O>, event: Event<I, O>)
    requires
        pool.inv(),
        pool.enabled(event),
    ensures
        pool.step(event).inv(),
{
    match event {
        Event::Take => {
            assert(!pool.running.contains(pool.started));
        },
        _ => {},
    }
}

} // verus!
