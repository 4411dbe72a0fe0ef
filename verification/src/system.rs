//! A pool together with its threads, as they go on in time.
//!
//! A [`System`] is what a program that uses one pool looks like between two steps: the history of
//! the pool, and how far each thread is. Every [`Step`] is made by a handle or by a thread, and any
//! step that is enabled may come next: threads run in any order. Joins look at the pool and change
//! nothing. A [`Run`] is the life of such a program from the moment the pool is built.

use crate::history::Event;
use crate::history::History;
use crate::history::PoolView;
use crate::job::Delivery;
use crate::job::Job;
use crate::settings::ThreadSettingsView;
use vstd::prelude::*;

verus! {

/// How far a worker thread is.
pub enum Phase {
    /// It has no job and is about to see whether it may go on.
    Checking,
    /// It may go on and waits for a job.
    Waiting,
    /// It executes the job with that number.
    Busy(u64),
}

/// Something that a handle or a thread does.
#[verifier::reject_recursive_types(I)]
#[verifier::reject_recursive_types(O)]
pub enum Step<I, O> {
    /// A job comes in through a handle.
    Submit(Job<I, O>),
    /// A handle is cloned.
    AddHandle,
    /// A handle is dropped.
    RemoveHandle,
    /// The pool is told through a handle how many threads to use.
    Resize(usize),
    /// A thread that has to be started starts.
    StartThread(nat),
    /// A thread sees whether it may go on, and ends if not.
    Check(nat),
    /// A thread that waits takes the oldest job.
    Take(nat),
    /// A thread that waits ends: there is no job and no handle, or there is a job but the pool
    /// executes as many as it may.
    Leave(nat),
    /// A thread is done with its job, and that became of its output.
    Finish(nat, Delivery<O>),
    /// A thread panics, in its job or outside of one.
    Panic(nat),
}

/// The threads that execute a job.
pub open spec fn busy(threads: Map<nat, Phase>) -> Set<nat> {
    threads.dom().filter(|t: nat| threads[t] is Busy)
}

/// The threads that are in that phase, which is not one of a busy thread.
pub open spec fn idle(threads: Map<nat, Phase>, phase: Phase) -> Set<nat> {
    threads.dom().filter(|t: nat| threads[t] == phase)
}

/// A pool and its threads.
#[verifier::reject_recursive_types(I)]
#[verifier::reject_recursive_types(O)]
pub struct System<I, O> {
    /// What has happened to the pool.
    pub history: History<I, O>,
    /// The threads, and how far each of them is.
    pub threads: Map<nat, Phase>,
    /// How many threads have to be started.
    pub owed: nat,
    /// How many threads have panicked.
    pub panicked: nat,
}

impl<I, O> System<I, O> {
    /// With a pool that was just built. All its threads have to be started.
    pub open spec fn initial(settings: ThreadSettingsView, num_threads: usize) -> Self {
        System {
            history: History::new(settings, num_threads),
            threads: Map::empty(),
            owed: num_threads as nat,
            panicked: 0,
        }
    }

    /// The pool.
    pub open spec fn pool(self) -> PoolView<I, O> {
        self.history.now()
    }

    /// Whether there is a thread `t` and it is in that phase.
    pub open spec fn is_at(self, t: nat, phase: Phase) -> bool {
        self.threads.dom().contains(t) && self.threads[t] == phase
    }

    /// Whether thread `t` executes job `n`.
    pub open spec fn runs(self, t: nat, n: u64) -> bool {
        self.is_at(t, Phase::Busy(n))
    }

    /// What the step does to the pool.
    pub open spec fn event(self, step: Step<I, O>) -> Option<Event<I, O>> {
        match step {
            Step::Submit(job) => Some(Event::Submit(job)),
            Step::AddHandle => Some(Event::AddHandle),
            Step::RemoveHandle => Some(Event::RemoveHandle),
            Step::Resize(n) => Some(Event::Resize(n)),
            Step::Take(_) => Some(Event::Take),
            Step::Finish(t, delivery) => Some(Event::Finish(self.threads[t]->Busy_0, delivery)),
            Step::Panic(t) => Some(
                Event::Lose(
                    if self.threads[t] is Busy {
                        Some(self.threads[t]->Busy_0)
                    } else {
                        None
                    },
                    true,
                ),
            ),
            _ => None,
        }
    }

    /// Whether a step can come next.
    pub open spec fn enabled(self, step: Step<I, O>) -> bool {
        &&& self.event(step) matches Some(event) ==> self.pool().enabled(event)
        &&& match step {
            Step::Submit(_) | Step::AddHandle | Step::RemoveHandle => self.pool().handles > 0,
            Step::Resize(_) => self.pool().handles > 0,
            Step::StartThread(t) => self.owed > 0 && !self.threads.dom().contains(t),
            Step::Check(t) => self.is_at(t, Phase::Checking),
            Step::Take(t) => self.is_at(t, Phase::Waiting),
            Step::Leave(t) => {
                &&& self.is_at(t, Phase::Waiting)
                &&& !self.pool().starved()
                &&& !self.pool().has_job() || !self.pool().admits()
            },
            Step::Finish(t, _) => self.threads.dom().contains(t) && self.threads[t] is Busy,
            Step::Panic(t) => self.threads.dom().contains(t),
        }
    }

    /// The system after a step.
    pub open spec fn after(self, step: Step<I, O>) -> Self {
        System {
            history: match self.event(step) {
                Some(event) => self.history.push(event),
                None => self.history,
            },
            threads: match step {
                Step::StartThread(t) => self.threads.insert(t, Phase::Checking),
                Step::Check(t) => if self.pool().admits() {
                    self.threads.insert(t, Phase::Waiting)
                } else {
                    self.threads.remove(t)
                },
                Step::Take(t) => self.threads.insert(t, Phase::Busy(self.pool().started)),
                Step::Leave(t) => self.threads.remove(t),
                Step::Finish(t, _) => self.threads.insert(t, Phase::Checking),
                Step::Panic(t) => self.threads.remove(t),
                _ => self.threads,
            },
            owed: match step {
                Step::Resize(n) => self.owed + self.pool().missing(n),
                Step::StartThread(_) => (self.owed - 1) as nat,
                Step::Panic(_) => self.owed + 1,
                _ => self.owed,
            },
            panicked: match step {
                Step::Panic(_) => self.panicked + 1,
                _ => self.panicked,
            },
        }
    }

    /// Whether a step is one that the threads of the pool make by themselves, by going through
    /// the jobs: nothing comes from outside, and no thread panics without a job.
    pub open spec fn is_own(self, step: Step<I, O>) -> bool {
        match step {
            Step::StartThread(_) | Step::Check(_) | Step::Take(_) | Step::Leave(_) => true,
            Step::Finish(_, _) => true,
            Step::Panic(t) => self.threads[t] is Busy,
            _ => false,
        }
    }

    /// Whether the threads of the pool can make a step by themselves.
    pub open spec fn can_go_on(self) -> bool {
        exists|step: Step<I, O>| #[trigger] self.enabled(step) && self.is_own(step)
    }

    /// A bound on how many steps the threads of the pool can make by themselves.
    pub open spec fn steps_left(self) -> nat {
        4 * (self.pool().jobs().len() + self.pool().active()) + 3 * self.owed + 2 * idle(
            self.threads,
            Phase::Checking,
        ).len() + idle(self.threads, Phase::Waiting).len()
    }

    /// The jobs that are being executed are those of the threads that execute one, each by one.
    pub open spec fn jobs_inv(self) -> bool {
        &&& self.threads.dom().finite()
        &&& self.pool().active() == busy(self.threads).len()
        &&& forall|t: nat, n: u64| #[trigger] self.runs(t, n) ==> self.pool().running.contains(n)
        &&& forall|t: nat, u: nat, n: u64| #[trigger]
            self.runs(t, n) && #[trigger] self.runs(u, n) ==> t == u
        &&& forall|n: u64| #[trigger]
            self.pool().running.contains(n) ==> exists|t: nat| self.runs(t, n)
    }

    /// There are threads enough, and those that panicked were counted.
    pub open spec fn threads_inv(self) -> bool {
        &&& self.pool().handles > 0 ==> self.threads.dom().len() + self.owed >= self.pool().max
        &&& self.pool().has_job() ==> self.threads.dom().len() + self.owed >= 1
        &&& self.panicked <= usize::MAX ==> self.pool().panics == self.panicked
    }

    /// What holds of a system at every time.
    pub open spec fn inv(self) -> bool {
        &&& self.history.valid()
        &&& self.jobs_inv()
        &&& self.threads_inv()
    }
}

/// The life of a pool with its threads: how it was built, and what was done then.
#[verifier::reject_recursive_types(I)]
#[verifier::reject_recursive_types(O)]
pub struct Run<I, O> {
    pub settings: ThreadSettingsView,
    pub num_threads: usize,
    pub steps: Seq<Step<I, O>>,
}

impl<I, O> Run<I, O> {
    /// The system after the first `i` steps.
    pub open spec fn state(self, i: nat) -> System<I, O>
        decreases i,
    {
        if i == 0 {
            System::initial(self.settings, self.num_threads)
        } else {
            self.state((i - 1) as nat).after(self.steps[i - 1])
        }
    }

    /// Each step was enabled when it was made.
    pub open spec fn valid(self) -> bool {
        &&& self.num_threads >= 1
        &&& forall|i: nat|
            i < self.steps.len() ==> (#[trigger] self.state(i)).enabled(self.steps[i as int])
    }

    /// Whether from time `i` to time `k` only the threads of the pool made steps, by going through
    /// the jobs.
    pub open spec fn left_alone(self, i: nat, k: nat) -> bool {
        forall|m: nat| i <= m < k ==> (#[trigger] self.state(m)).is_own(self.steps[m as int])
    }

    /// Whether the pool is never told to use fewer threads than before.
    pub open spec fn never_shrinks(self) -> bool {
        forall|i: nat|
            i < self.steps.len() ==> match self.steps[i as int] {
                Step::Resize(n) => n >= (#[trigger] self.state(i)).pool().max,
                _ => true,
            }
    }
}

} // verus!
