//! What holds of the threads of every pool, in whatever order they run.

use crate::history::Event;
use crate::job::Delivery;
use crate::job::Job;
use crate::pool::Change;
use crate::sentinel::SentinelView;
use crate::shared::Next;
use crate::system::Phase;
use crate::system::Run;
use crate::system::Step;
use crate::system::System;
use vstd::prelude::*;

verus! {

/// Giving a thread a phase in which it is busy adds it to the busy ones, and another phase
/// takes it out; ending it takes it out too.
proof fn lemma_busy(threads: Map<nat, Phase>, t: nat)
    requires
        threads.dom().finite(),
    ensures
        crate::system::busy(threads).finite(),
        crate::system::busy(threads).len() <= threads.dom().len(),
        crate::system::busy(threads.remove(t)) == crate::system::busy(threads).remove(t),
        forall|phase: Phase|
            crate::system::busy(#[trigger] threads.insert(t, phase)) == if phase is Busy {
                crate::system::busy(threads).insert(t)
            } else {
                crate::system::busy(threads).remove(t)
            },
{
    threads.dom().lemma_len_filter(|u: nat| threads[u] is Busy);
    assert(crate::system::busy(threads.remove(t)) =~= crate::system::busy(threads).remove(t));
    assert forall|phase: Phase|
        crate::system::busy(#[trigger] threads.insert(t, phase)) == if phase is Busy {
            crate::system::busy(threads).insert(t)
        } else {
            crate::system::busy(threads).remove(t)
        } by {
        let with = crate::system::busy(threads.insert(t, phase));
        if phase is Busy {
            assert(with =~= crate::system::busy(threads).insert(t));
        } else {
            assert(with =~= crate::system::busy(threads).remove(t));
        }
    }
}

/// If a thread is not busy, there are fewer busy threads than threads.
proof fn lemma_one_idle(threads: Map<nat, Phase>, t: nat)
    requires
        threads.dom().finite(),
        threads.dom().contains(t),
        !(threads[t] is Busy),
    ensures
        crate::system::busy(threads).len() < threads.dom().len(),
{
    lemma_busy(threads, t);
    assert(crate::system::busy(threads).subset_of(threads.dom().remove(t)));
    vstd::set_lib::lemma_len_subset(crate::system::busy(threads), threads.dom().remove(t));
}

/// What a step does to the pool is what its event does.
proof fn lemma_step_pool<I, O>(s: System<I, O>, step: Step<I, O>)
    requires
        s.history.valid(),
        s.enabled(step),
    ensures
        s.pool().inv(),
        s.after(step).pool().inv(),
        s.after(step).history.valid(),
        s.after(step).history.extends(s.history),
        s.after(step).pool() == match s.event(step) {
            Some(event) => s.pool().step(event),
            None => s.pool(),
        },
{
    crate::laws::law_always(s.history, s.history.events.len());
    if let Some(event) = s.event(step) {
        crate::history::lemma_push(s.history, event);
        crate::history::lemma_step_inv(s.pool(), event);
    }
}

/// A pool that was just built, with its threads, is in order.
pub proof fn law_initial<I, O>(run: Run<I, O>)
    requires
        run.num_threads >= 1,
    ensures
        run.state(0).inv(),
{
    let s = run.state(0);
    lemma_busy(s.threads, 0);
    assert(crate::system::busy(s.threads) =~= Set::empty());
}

proof fn lemma_step_threads<I, O>(s: System<I, O>, step: Step<I, O>)
    requires
        s.inv(),
        s.enabled(step),
    ensures
        s.after(step).threads_inv(),
        s.after(step).threads.dom().finite(),
        s.after(step).pool().active() == crate::system::busy(s.after(step).threads).len(),
{
    let post = s.after(step);
    lemma_step_pool(s, step);
    match step {
        Step::StartThread(t) => {
            lemma_busy(s.threads, t);
            assert(!crate::system::busy(s.threads).contains(t));
            assert(crate::system::busy(s.threads).remove(t) =~= crate::system::busy(s.threads));
        },
        Step::Check(t) => {
            lemma_busy(s.threads, t);
            lemma_one_idle(s.threads, t);
            assert(!crate::system::busy(s.threads).contains(t));
            assert(crate::system::busy(s.threads).remove(t) =~= crate::system::busy(s.threads));
            assert(s.threads.insert(t, Phase::Waiting).dom() =~= s.threads.dom());
        },
        Step::Take(t) => {
            lemma_busy(s.threads, t);
            assert(!crate::system::busy(s.threads).contains(t));
            assert(post.threads.dom() =~= s.threads.dom());
            assert(!s.pool().running.contains(s.pool().started));
        },
        Step::Leave(t) => {
            lemma_busy(s.threads, t);
            lemma_one_idle(s.threads, t);
            assert(!crate::system::busy(s.threads).contains(t));
            assert(crate::system::busy(s.threads).remove(t) =~= crate::system::busy(s.threads));
        },
        Step::Finish(t, _) => {
            lemma_busy(s.threads, t);
            assert(crate::system::busy(s.threads).contains(t));
            assert(post.threads.dom() =~= s.threads.dom());
        },
        Step::Panic(t) => {
            lemma_busy(s.threads, t);
            if s.threads[t] is Busy {
                assert(crate::system::busy(s.threads).contains(t));
            } else {
                assert(!crate::system::busy(s.threads).contains(t));
                assert(crate::system::busy(s.threads).remove(t) =~= crate::system::busy(
                    s.threads,
                ));
            }
        },
        _ => {},
    }
}

proof fn lemma_step_jobs<I, O>(s: System<I, O>, step: Step<I, O>)
    requires
        s.inv(),
        s.enabled(step),
    ensures
        s.after(step).jobs_inv(),
{
    let post = s.after(step);
    lemma_step_pool(s, step);
    lemma_step_threads(s, step);
    assert forall|t: nat, n: u64| #[trigger] post.runs(t, n) implies post.pool().running.contains(
        n,
    ) by {
        match step {
            Step::Take(u) if u == t => {},
            Step::Finish(u, _) => {
                assert(s.runs(t, n));
                assert(s.runs(u, s.threads[u]->Busy_0));
            },
            Step::Panic(u) => {
                assert(s.runs(t, n));
                if s.threads[u] is Busy {
                    assert(s.runs(u, s.threads[u]->Busy_0));
                }
            },
            _ => {
                assert(s.runs(t, n));
            },
        }
    }
    assert forall|t: nat, u: nat, n: u64| #[trigger] post.runs(t, n) && #[trigger] post.runs(
        u,
        n,
    ) implies t == u by {
        match step {
            Step::Take(v) if v == t || v == u => {
                assert(!s.pool().running.contains(s.pool().started));
                if t != u {
                    if v == t {
                        assert(s.runs(u, n));
                    } else {
                        assert(s.runs(t, n));
                    }
                }
            },
            _ => {
                assert(s.runs(t, n));
                assert(s.runs(u, n));
            },
        }
    }
    assert forall|n: u64| #[trigger] post.pool().running.contains(n) implies exists|t: nat|
        post.runs(t, n) by {
        match step {
            Step::Take(t) if n == s.pool().started => {
                assert(post.runs(t, n));
            },
            _ => {
                assert(s.pool().running.contains(n));
                let u = choose|u: nat| s.runs(u, n);
                assert(s.runs(u, n));
                assert(post.runs(u, n));
            },
        }
    }
}

/// Whatever comes next, a pool with its threads that is in order stays in order.
pub proof fn law_step<I, O>(s: System<I, O>, step: Step<I, O>)
    requires
        s.inv(),
        s.enabled(step),
    ensures
        s.after(step).inv(),
{
    lemma_step_pool(s, step);
    lemma_step_threads(s, step);
    lemma_step_jobs(s, step);
}

/// At every time in the life of a pool with its threads, it is in order.
pub proof fn law_always<I, O>(run: Run<I, O>, i: nat)
    requires
        run.valid(),
        i <= run.steps.len(),
    ensures
        run.state(i).inv(),
        run.state(i).pool().inv(),
    decreases i,
{
    if i == 0 {
        law_initial(run);
    } else {
        law_always(run, (i - 1) as nat);
        law_step(run.state((i - 1) as nat), run.steps[i - 1]);
    }
    crate::laws::law_always(run.state(i).history, run.state(i).history.events.len());
}

/// The history of the pool at one time is the past of its history at every later time, so that
/// what holds of histories holds of the pool in each of its lives.
pub proof fn law_one_history<I, O>(run: Run<I, O>, i: nat, k: nat)
    requires
        run.valid(),
        i <= k <= run.steps.len(),
    ensures
        run.state(k).history.valid(),
        run.state(k).history.extends(run.state(i).history),
    decreases k,
{
    law_always(run, k);
    if i < k {
        let l = (k - 1) as nat;
        law_one_history(run, i, l);
        law_always(run, l);
        assert(run.state(l).enabled(run.steps[l as int]));
        lemma_step_pool(run.state(l), run.steps[l as int]);
    }
}

/// The active count is the number of threads that execute a job, and the panic count the
/// number of threads that panicked, as long as that can be counted.
pub proof fn law_counts<I, O>(run: Run<I, O>, i: nat)
    requires
        run.valid(),
        i <= run.steps.len(),
    ensures
        run.state(i).pool().active() == crate::system::busy(run.state(i).threads).len(),
        run.state(i).panicked <= usize::MAX ==> run.state(i).pool().panics
            == run.state(i).panicked,
{
    law_always(run, i);
}

/// A pool can execute as many jobs concurrently as it is told to: as long as it has a handle, it
/// has at least that many threads, counting those that are about to start. In particular a
/// thread that panics is replaced, and no thread ends because the pool has become smaller unless
/// enough others are left.
pub proof fn law_threads_enough<I, O>(run: Run<I, O>, i: nat)
    requires
        run.valid(),
        i <= run.steps.len(),
        run.state(i).pool().handles > 0,
    ensures
        run.state(i).threads.dom().len() + run.state(i).owed >= run.state(i).pool().max >= 1,
{
    law_always(run, i);
}

/// No job is left behind: as long as one is queued that can be taken, even after the last handle
/// is gone, there is a thread or one is about to start.
pub proof fn law_no_job_abandoned<I, O>(run: Run<I, O>, i: nat)
    requires
        run.valid(),
        i <= run.steps.len(),
        run.state(i).pool().has_job(),
    ensures
        run.state(i).threads.dom().len() + run.state(i).owed >= 1,
{
    law_always(run, i);
}

/// A pool that is never made smaller never has more threads than it is told to use, and while it
/// has a handle exactly as many.
pub proof fn law_threads_not_too_many<I, O>(run: Run<I, O>, i: nat)
    requires
        run.valid(),
        run.never_shrinks(),
        i <= run.steps.len(),
    ensures
        run.state(i).threads.dom().len() + run.state(i).owed <= run.state(i).pool().max,
        run.state(i).pool().handles > 0 ==> run.state(i).threads.dom().len() + run.state(i).owed
            == run.state(i).pool().max,
    decreases i,
{
    law_always(run, i);
    lemma_busy(run.state(i).threads, 0);
    if i > 0 {
        let l = (i - 1) as nat;
        let s = run.state(l);
        law_always(run, l);
        law_threads_not_too_many(run, l);
        assert(s.enabled(run.steps[l as int]));
        lemma_step_pool(s, run.steps[l as int]);
        match run.steps[l as int] {
            Step::Check(t) => {
                lemma_one_idle(s.threads, t);
                assert(s.threads.insert(t, Phase::Waiting).dom() =~= s.threads.dom());
            },
            Step::Leave(t) => {
                lemma_one_idle(s.threads, t);
            },
            Step::Take(t) => {
                assert(run.state(i).threads.dom() =~= s.threads.dom());
            },
            Step::Finish(t, _) => {
                assert(run.state(i).threads.dom() =~= s.threads.dom());
            },
            _ => {},
        }
    }
}

/// Changing the number of threads disturbs no thread: every thread goes on where it is.
pub proof fn law_resize_disturbs_no_thread<I, O>(s: System<I, O>, n: usize)
    ensures
        s.after(Step::Resize(n)).threads == s.threads,
        s.after(Step::Resize(n)).owed == s.owed + s.pool().missing(n),
{
}

/// When the last handle is gone, it stays gone, and no job comes in any more.
pub proof fn law_last_handle<I, O>(run: Run<I, O>, i: nat, k: nat)
    requires
        run.valid(),
        i <= k <= run.steps.len(),
        run.state(i).pool().handles == 0,
    ensures
        run.state(k).pool().handles == 0,
        run.state(k).pool().submitted == run.state(i).pool().submitted,
    decreases k,
{
    if i < k {
        let l = (k - 1) as nat;
        law_last_handle(run, i, l);
        law_always(run, l);
        assert(run.state(l).enabled(run.steps[l as int]));
        lemma_step_pool(run.state(l), run.steps[l as int]);
    }
}

/// A thread is never stuck without a reason: one that waits can take a job, or leave, unless the
/// pool is starved, that is unless there is no job but one may still come in.
pub proof fn law_waiting_thread_goes_on<I, O>(s: System<I, O>, t: nat)
    requires
        s.is_at(t, Phase::Waiting),
    ensures
        s.enabled(Step::Take(t)) || s.enabled(Step::Leave(t)) <==> !s.pool().starved(),
{
}

/// While a handle is left, the threads serve it: there are as many as the pool uses, counting those
/// that are about to start, and one that waits leaves only if there is a job for which the pool
/// already executes as many as it may.
pub proof fn law_any_handle_is_served<I, O>(run: Run<I, O>, i: nat, t: nat)
    requires
        run.valid(),
        i <= run.steps.len(),
        run.state(i).pool().handles > 0,
    ensures
        run.state(i).threads.dom().len() + run.state(i).owed >= run.state(i).pool().max,
        run.state(i).enabled(Step::Leave(t)) ==> run.state(i).pool().has_job()
            && crate::system::busy(run.state(i).threads).len() >= run.state(i).pool().max,
{
    law_always(run, i);
}

/// Giving a thread a phase, or ending it, changes who is in a phase accordingly.
proof fn lemma_idle(threads: Map<nat, Phase>, t: nat, phase: Phase)
    requires
        threads.dom().finite(),
    ensures
        crate::system::idle(threads, phase).finite(),
        crate::system::idle(threads.remove(t), phase) == crate::system::idle(threads, phase).remove(
            t,
        ),
        forall|next: Phase|
            crate::system::idle(#[trigger] threads.insert(t, next), phase) == if next == phase {
                crate::system::idle(threads, phase).insert(t)
            } else {
                crate::system::idle(threads, phase).remove(t)
            },
{
    let now = crate::system::idle(threads, phase);
    threads.dom().lemma_len_filter(|u: nat| threads[u] == phase);
    assert(crate::system::idle(threads.remove(t), phase) =~= now.remove(t));
    assert forall|next: Phase|
        crate::system::idle(#[trigger] threads.insert(t, next), phase) == if next == phase {
            now.insert(t)
        } else {
            now.remove(t)
        } by {
        let with = crate::system::idle(threads.insert(t, next), phase);
        if next == phase {
            assert(with =~= now.insert(t));
        } else {
            assert(with =~= now.remove(t));
        }
    }
}

/// Each step that the threads make by themselves leaves fewer of them to make.
pub proof fn law_own_step_is_progress<I, O>(s: System<I, O>, step: Step<I, O>)
    requires
        s.inv(),
        s.enabled(step),
        s.is_own(step),
    ensures
        s.after(step).steps_left() < s.steps_left(),
{
    let t = match step {
        Step::StartThread(t) => t,
        Step::Check(t) => t,
        Step::Take(t) => t,
        Step::Leave(t) => t,
        Step::Finish(t, _) => t,
        Step::Panic(t) => t,
        _ => 0,
    };
    lemma_step_pool(s, step);
    lemma_idle(s.threads, t, Phase::Checking);
    lemma_idle(s.threads, t, Phase::Waiting);
    let checking = crate::system::idle(s.threads, Phase::Checking);
    let waiting = crate::system::idle(s.threads, Phase::Waiting);
    assert(checking.contains(t) <==> s.is_at(t, Phase::Checking));
    assert(waiting.contains(t) <==> s.is_at(t, Phase::Waiting));
    if !checking.contains(t) {
        assert(checking.remove(t) =~= checking);
    }
    if !waiting.contains(t) {
        assert(waiting.remove(t) =~= waiting);
    }
    match step {
        Step::Take(_) => {
            assert(!s.pool().running.contains(s.pool().started));
        },
        _ => {},
    }
}

/// Something that may become of the output of a job.
proof fn lemma_some_delivery<O>(sender: Option<crate::send::OutputSender<O>>) -> (d: Delivery<O>)
    ensures
        d.fits(sender),
{
    match sender {
        None => Delivery::Discarded,
        Some(tx) => Delivery::Refused(crate::send::lemma_may_refuse(tx, arbitrary())),
    }
}

/// A thread that executes a job can finish it.
proof fn lemma_can_finish<I, O>(s: System<I, O>, t: nat)
    requires
        s.inv(),
        s.threads.dom().contains(t),
        s.threads[t] is Busy,
    ensures
        s.can_go_on(),
{
    let n = s.threads[t]->Busy_0;
    assert(s.runs(t, n));
    let d = lemma_some_delivery(s.pool().submitted[n as int].sender);
    let step = Step::Finish(t, d);
    assert(s.enabled(step) && s.is_own(step));
}

/// If no thread is left but some have to be started, one can start.
proof fn lemma_can_start<I, O>(s: System<I, O>)
    requires
        s.threads.dom().finite(),
        s.threads.dom().len() == 0,
        s.owed >= 1,
    ensures
        s.can_go_on(),
{
    assert(!s.threads.dom().contains(0)) by {
        if s.threads.dom().contains(0) {
            assert(s.threads.dom().remove(0).len() < s.threads.dom().len());
        }
    }
    let step = Step::<I, O>::StartThread(0);
    assert(s.enabled(step) && s.is_own(step));
}

/// A pool with work is never stuck: there is a step that its threads can make by themselves, as
/// long as the jobs that came in can be counted.
pub proof fn law_never_stuck<I, O>(s: System<I, O>)
    requires
        s.inv(),
        s.pool().has_work(),
        s.pool().submitted.len() <= u64::MAX,
    ensures
        s.can_go_on(),
{
    crate::laws::law_always(s.history, s.history.events.len());
    if s.pool().active() > 0 {
        let t = crate::system::busy(s.threads).choose();
        lemma_busy(s.threads, t);
        assert(crate::system::busy(s.threads).contains(t));
        lemma_can_finish(s, t);
    } else if s.threads.dom().len() > 0 {
        let t = s.threads.dom().choose();
        assert(s.threads.dom().contains(t));
        match s.threads[t] {
            Phase::Checking => {
                let step = Step::<I, O>::Check(t);
                assert(s.enabled(step) && s.is_own(step));
            },
            Phase::Waiting => {
                let step = Step::<I, O>::Take(t);
                assert(s.enabled(step) && s.is_own(step));
            },
            Phase::Busy(_) => {
                lemma_can_finish(s, t);
            },
        }
    } else {
        lemma_can_start(s);
    }
}

/// When the last handle is gone no thread stays: as long as there is a thread, or one is about to
/// start, there is a step that the threads can make by themselves.
pub proof fn law_threads_quit<I, O>(s: System<I, O>)
    requires
        s.inv(),
        s.pool().handles == 0,
        s.threads.dom().len() + s.owed >= 1,
    ensures
        s.can_go_on(),
{
    if s.threads.dom().len() > 0 {
        let t = s.threads.dom().choose();
        assert(s.threads.dom().contains(t));
        match s.threads[t] {
            Phase::Checking => {
                let step = Step::<I, O>::Check(t);
                assert(s.enabled(step) && s.is_own(step));
            },
            Phase::Waiting => {
                let step = if s.pool().has_job() && s.pool().admits() {
                    Step::<I, O>::Take(t)
                } else {
                    Step::<I, O>::Leave(t)
                };
                assert(s.enabled(step) && s.is_own(step));
            },
            Phase::Busy(_) => {
                lemma_can_finish(s, t);
            },
        }
    } else {
        lemma_can_start(s);
    }
}

/// The work gets done: if from time `i` on only the threads of the pool make steps, and each job
/// comes to an end, then after a bounded number of steps there is no work left, so that every
/// join is over. For at any time `k`, the number of steps made is bounded, and unless there is no
/// work another one can be made.
pub proof fn law_work_gets_done<I, O>(run: Run<I, O>, i: nat, k: nat)
    requires
        run.valid(),
        i <= k <= run.steps.len(),
        run.left_alone(i, k),
        run.state(k).pool().submitted.len() <= u64::MAX,
    ensures
        k - i + run.state(k).steps_left() <= run.state(i).steps_left(),
        !run.state(k).pool().has_work() || run.state(k).can_go_on(),
{
    law_always(run, k);
    if run.state(k).pool().has_work() {
        law_never_stuck(run.state(k));
    }
    lemma_steps_bounded(run, i, k);
}

/// The threads can make a bounded number of steps by themselves.
proof fn lemma_steps_bounded<I, O>(run: Run<I, O>, i: nat, k: nat)
    requires
        run.valid(),
        i <= k <= run.steps.len(),
        run.left_alone(i, k),
    ensures
        k - i + run.state(k).steps_left() <= run.state(i).steps_left(),
    decreases k,
{
    if i < k {
        let l = (k - 1) as nat;
        lemma_steps_bounded(run, i, l);
        law_always(run, l);
        assert(run.state(l).enabled(run.steps[l as int]));
        law_own_step_is_progress(run.state(l), run.steps[l as int]);
    }
}

/// After the last handle is gone, every job that was queued is still executed, and then all threads
/// end. If there is no handle at time `i`, and from then on only the threads make steps, as they do
/// since nothing comes from outside any more, then they make a bounded number of them; no job comes
/// in; and when they can make no more, at time `k`, every job that ever came in has been executed,
/// no thread is left, and none has to be started. (Each of them once, as the history shows.)
pub proof fn law_after_the_last_handle<I, O>(run: Run<I, O>, i: nat, k: nat)
    requires
        run.valid(),
        i <= k <= run.steps.len(),
        run.state(i).pool().handles == 0,
        run.state(i).pool().submitted.len() <= u64::MAX,
        run.left_alone(i, k),
    ensures
        k - i + run.state(k).steps_left() <= run.state(i).steps_left(),
        run.state(k).pool().submitted == run.state(i).pool().submitted,
        !run.state(k).can_go_on() ==> {
            &&& forall|j: nat|
                j < run.state(i).pool().submitted.len() ==> #[trigger]
                run.state(k).pool().is_done(j)
            &&& !run.state(k).pool().has_work()
            &&& run.state(k).threads.dom() =~= Set::empty()
            &&& run.state(k).owed == 0
        },
{
    let s = run.state(k);
    law_last_handle(run, i, k);
    law_work_gets_done(run, i, k);
    law_always(run, k);
    if !s.can_go_on() {
        crate::laws::law_no_work(s.history, s.history.events.len());
        if s.threads.dom().len() + s.owed >= 1 {
            law_threads_quit(s);
        }
        s.threads.dom().lemma_len0_is_empty();
    }
}

/// The check that a thread makes before it waits, as `next_job` reports it, is the step of the
/// system: it goes on to wait unless the pool executes as many as it may.
pub proof fn law_check_is_step<I, O>(
    s: System<I, O>,
    t: nat,
    next: Next<I, O>,
    sentinel: SentinelView<I, O>,
)
    requires
        next.leads_to(sentinel),
        s.is_at(t, Phase::Checking),
        s.history == next.check().past(),
    ensures
        s.enabled(Step::Check(t)),
        s.after(Step::Check(t)).history == next.check().present(),
        next is TooMany <==> !s.after(Step::Check(t)).threads.dom().contains(t),
        !(next is TooMany) <==> s.after(Step::Check(t)).is_at(t, Phase::Waiting),
{
}

/// The end of a wait, as `next_job` reports it, is a step of the system: the thread takes the job
/// that it is given and is busy with it, or it leaves.
pub proof fn law_take_is_step<I, O>(
    s: System<I, O>,
    t: nat,
    next: Next<I, O>,
    sentinel: SentinelView<I, O>,
)
    requires
        next.leads_to(sentinel),
        !(next is TooMany),
        s.is_at(t, Phase::Waiting),
        s.history == next.take().past(),
    ensures
        ({
            let step = if next is Run {
                Step::Take(t)
            } else {
                Step::Leave(t)
            };
            &&& s.enabled(step)
            &&& s.after(step).history == next.take().present()
            &&& next is Run ==> sentinel.number() is Some && s.after(step).runs(
                t,
                sentinel.number()->0,
            )
            &&& !(next is Run) ==> !s.after(step).threads.dom().contains(t) && !sentinel.active
        }),
{
}

/// What `finish_job` reports of a thread that executes job `number` is the step of the system by
/// which it is done with it, and that delivery became of its output.
pub proof fn law_finish_is_step<I, O>(
    s: System<I, O>,
    t: nat,
    number: u64,
    delivery: Delivery<O>,
    change: Change<I, O>,
)
    requires
        s.inv(),
        s.runs(t, number),
        s.history == change.past(),
        delivery.fits(s.pool().submitted[number as int].sender),
        change.is_made_by(change.before().finishing(number, delivery)),
    ensures
        s.enabled(Step::Finish(t, delivery)),
        s.after(Step::Finish(t, delivery)).history == change.present(),
        s.after(Step::Finish(t, delivery)).is_at(t, Phase::Checking),
        change.after().deliveries == change.before().deliveries.push((number, delivery)),
{
}

/// What `thread_ended` reports of a thread that panics, with a sentinel that has the job that the
/// thread executes, is the step of the system by which a thread panics; one more thread has to be
/// started. Of a thread whose sentinel is cancelled it reports no change.
pub proof fn law_end_is_step<I, O>(
    s: System<I, O>,
    t: nat,
    sentinel: SentinelView<I, O>,
    change: Change<I, O>,
)
    requires
        s.inv(),
        s.threads.dom().contains(t),
        s.history == change.past(),
        sentinel.active ==> match sentinel.number() {
            Some(number) => s.runs(t, number),
            None => !(s.threads[t] is Busy),
        },
        change.is_made_by(change.before().ending(sentinel, true)),
    ensures
        sentinel.active ==> {
            &&& s.enabled(Step::Panic(t))
            &&& s.after(Step::Panic(t)).history == change.present()
            &&& s.after(Step::Panic(t)).owed == s.owed + 1
        },
        !sentinel.active ==> change.is_look(),
{
    if let Some(number) = sentinel.number() {
        if sentinel.active {
            assert(s.runs(t, number));
        }
    }
}

/// What a handle does to the shared pool, while there is one, is a step of the system: to take in
/// a job, to resize, to add a handle and to remove one.
pub proof fn law_handle_is_step<I, O>(
    s: System<I, O>,
    change: Change<I, O>,
    job: Job<I, O>,
    num_threads: usize,
)
    requires
        s.history == change.past(),
        s.pool().handles > 0,
        num_threads >= 1,
    ensures
        change.is_step(Event::Submit(job)) ==> s.enabled(Step::Submit(job)) && s.after(
            Step::Submit(job),
        ).history == change.present(),
        change.is_step(Event::Resize(num_threads)) ==> s.enabled(Step::Resize(num_threads))
            && s.after(Step::Resize(num_threads)).history == change.present() && s.after(
            Step::Resize(num_threads),
        ).owed == s.owed + change.before().missing(num_threads),
        change.is_step(Event::AddHandle) ==> s.enabled(Step::AddHandle) && s.after(
            Step::AddHandle,
        ).history == change.present(),
        change.is_step(Event::RemoveHandle) ==> s.enabled(Step::RemoveHandle) && s.after(
            Step::RemoveHandle,
        ).history == change.present(),
{
}

} // verus!
