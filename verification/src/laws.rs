//! What holds of every pool, in whatever order its threads run.
//!
//! Most laws are about a history that is valid. The history of a pool is, and so is that of every
//! step that [`PoolSharedData`] reports; the laws on what it reports follow from these.

use crate::builder::BuilderView;
use crate::history::Event;
use crate::history::History;
use crate::history::PoolView;
use crate::job::Delivery;
use crate::job::Job;
use crate::pool::Change;
use crate::roles::Task;
use crate::sentinel::SentinelView;
use crate::shared::Joined;
use crate::shared::Next;
use crate::shared::PoolSharedData;
use crate::shared::Round;
use crate::worker::Worker;
use vstd::prelude::*;

verus! {

/// Whatever happens, what was delivered stays right.
proof fn lemma_step_deliveries<I, O>(pool: PoolView<I, O>, event: Event<I, O>)
    requires
        pool.inv(),
        pool.deliveries_inv(),
        pool.enabled(event),
    ensures
        pool.step(event).deliveries_inv(),
{
    let post = pool.step(event);
    let n = pool.deliveries.len() as int;
    assert(forall|k: int|
        0 <= k < n ==> #[trigger] post.deliveries[k] == pool.deliveries[k]);
    assert forall|j: nat| #[trigger] post.is_done(j) implies post.lost.contains(j as u64)
        || post.is_delivered(j) by {
        match event {
            Event::Finish(number, _) if number == j => {
                assert(post.delivers(n, j));
            },
            Event::Lose(Some(number), _) if number == j => {},
            _ => {
                assert(pool.is_done(j));
                if !pool.lost.contains(j as u64) {
                    let k = choose|k: int| pool.delivers(k, j);
                    assert(post.delivers(k, j));
                }
            },
        }
    }
}

/// At every time in the life of a pool, the numbers of its jobs and what was delivered are right.
pub proof fn law_always<I, O>(h: History<I, O>, i: nat)
    requires
        h.valid(),
        i <= h.events.len(),
    ensures
        h.at(i).inv(),
        h.at(i).deliveries_inv(),
    decreases i,
{
    if i > 0 {
        let l = (i - 1) as nat;
        law_always(h, l);
        assert(h.at(l).enabled(h.events[l as int]));
        crate::history::lemma_step_inv(h.at(l), h.events[l as int]);
        lemma_step_deliveries(h.at(l), h.events[l as int]);
    }
}

/// What was, stays: jobs that came in, were taken or were executed at one time, are so at every
/// later time.
pub proof fn law_nothing_undone<I, O>(h: History<I, O>, i: nat, k: nat)
    requires
        h.valid(),
        i <= k <= h.events.len(),
    ensures
        h.at(i).submitted.is_prefix_of(h.at(k).submitted),
        h.at(i).started <= h.at(k).started,
        h.at(i).lost.subset_of(h.at(k).lost),
        h.at(i).deliveries.is_prefix_of(h.at(k).deliveries),
        forall|j: nat| #[trigger] h.at(i).is_done(j) ==> h.at(k).is_done(j),
    decreases k,
{
    if i < k {
        let l = (k - 1) as nat;
        law_nothing_undone(h, i, l);
        assert(h.at(l).enabled(h.events[l as int]));
    }
}

/// What a pool has become keeps what was: the past of a pool does not change, and what was done
/// stays done.
pub proof fn law_later<I, O>(later: History<I, O>, earlier: History<I, O>)
    requires
        later.valid(),
        later.extends(earlier),
    ensures
        earlier.now() == later.at(earlier.events.len()),
        earlier.now().inv(),
        later.now().inv(),
        earlier.now().submitted.is_prefix_of(later.now().submitted),
        earlier.now().started <= later.now().started,
        forall|j: nat| #[trigger] earlier.now().is_done(j) ==> later.now().is_done(j),
{
    let n = earlier.events.len();
    crate::history::lemma_past(later, earlier, n);
    law_nothing_undone(later, n, later.events.len());
    law_always(later, n);
    law_always(later, later.events.len());
}

/// Every job that ever came in is counted exactly once: as queued, as active, as lost or as
/// delivered.
pub proof fn law_every_job_counted<I, O>(h: History<I, O>, i: nat)
    requires
        h.valid(),
        i <= h.events.len(),
    ensures
        h.at(i).submitted.len() == h.at(i).jobs().len() + h.at(i).active() + h.at(i).lost.len()
            + h.at(i).deliveries.len(),
{
    law_always(h, i);
}

/// A pool has no work exactly if every job that came in was executed.
pub proof fn law_no_work<I, O>(h: History<I, O>, i: nat)
    requires
        h.valid(),
        i <= h.events.len(),
    ensures
        !h.at(i).has_work() <==> forall|j: nat|
            j < h.at(i).submitted.len() ==> #[trigger] h.at(i).is_done(j),
{
    law_always(h, i);
    let p = h.at(i);
    if !p.has_work() {
        assert forall|j: nat| j < p.submitted.len() implies #[trigger] p.is_done(j) by {
            if p.running.contains(j as u64) {
                assert(p.running.remove(j as u64).len() < p.running.len());
            }
        }
    } else if p.jobs().len() > 0 {
        let j = p.started as nat;
        assert(j < p.submitted.len());
        assert(!p.is_done(j));
    } else {
        let n = p.running.choose();
        assert(p.running.contains(n));
        assert(!p.is_done(n as nat));
    }
}

/// If the wave of joins changed between two times, there was no work at some time between
/// them.
proof fn lemma_wave_ends_without_work<I, O>(h: History<I, O>, i: nat, k: nat) -> (m: nat)
    requires
        h.valid(),
        i <= k <= h.events.len(),
        h.at(i).join_generation != h.at(k).join_generation,
    ensures
        i <= m <= k,
        !h.at(m).has_work(),
    decreases k,
{
    let l = (k - 1) as nat;
    if h.at(l).join_generation != h.at(k).join_generation {
        k
    } else {
        lemma_wave_ends_without_work(h, i, l)
    }
}

/// A join waits until all jobs have been executed. A join that begins at time `i` waits for the
/// wave of that time; if it is over at time `k`, then there was a time between the two at which
/// the pool had no work, and every job that came in before the join began has been executed.
pub proof fn law_join_waits_for_all<I, O>(h: History<I, O>, i: nat, k: nat)
    requires
        h.valid(),
        i <= k <= h.events.len(),
        !h.at(k).join_waits(h.at(i).join_generation),
    ensures
        exists|m: nat| i <= m <= k && !(#[trigger] h.at(m)).has_work(),
        forall|j: nat| j < h.at(i).submitted.len() ==> #[trigger] h.at(k).is_done(j),
{
    let m = if h.at(i).join_generation == h.at(k).join_generation {
        k
    } else {
        lemma_wave_ends_without_work(h, i, k)
    };
    assert(!h.at(m).has_work());
    law_no_work(h, m);
    law_nothing_undone(h, i, m);
    law_nothing_undone(h, m, k);
    assert forall|j: nat| j < h.at(i).submitted.len() implies #[trigger] h.at(k).is_done(j) by {
        assert(h.at(m).is_done(j));
    }
}

/// When `join` returns, every job that had come in when it began has been executed.
pub proof fn law_join_returns_after_all<I, O>(joined: Joined<I, O>)
    requires
        joined.is_join(),
        joined.leave().past().valid(),
    ensures
        forall|j: nat|
            j < joined.enter().before().submitted.len() ==> #[trigger]
            joined.leave().before().is_done(j),
{
    let h = joined.leave().past();
    let i = joined.enter().past().events.len();
    crate::history::lemma_past(h, joined.enter().past(), i);
    law_join_waits_for_all(h, i, h.events.len());
}

/// And if no job has come in since, there is no work when it returns.
pub proof fn law_join_leaves_no_work<I, O>(joined: Joined<I, O>)
    requires
        joined.is_join(),
        joined.leave().past().valid(),
        joined.leave().before().submitted == joined.enter().before().submitted,
    ensures
        !joined.leave().before().has_work(),
        joined.leave().before().jobs().len() == 0,
        joined.leave().before().active() == 0,
{
    let h = joined.leave().past();
    law_join_returns_after_all(joined);
    law_no_work(h, h.events.len());
}

/// A job that came in through `execute` or `execute_to`, by whichever handle, before a join began
/// has been executed when the join returns.
pub proof fn law_join_covers_earlier_jobs<I, O>(
    joined: Joined<I, O>,
    submission: Change<I, O>,
    job: Job<I, O>,
)
    requires
        joined.is_join(),
        joined.leave().past().valid(),
        joined.enter().past().valid(),
        submission.is_step(Event::Submit(job)),
        joined.enter().follows(submission),
    ensures
        ({
            let j = submission.before().submitted.len();
            &&& joined.leave().before().submitted[j as int] == job
            &&& joined.leave().before().is_done(j)
        }),
{
    law_later(joined.enter().past(), submission.present());
    law_later(joined.leave().past(), joined.enter().past());
    law_join_returns_after_all(joined);
    let j = submission.before().submitted.len() as int;
    assert(submission.after().submitted[j] == job);
    assert(joined.enter().before().submitted[j] == job);
    assert(joined.leave().before().submitted[j] == job);
}

/// A join of a pool without work is over at once: it waits for no wave, whichever it is.
pub proof fn law_join_of_idle_pool<I, O>(pool: PoolView<I, O>, generation: usize)
    requires
        !pool.has_work(),
    ensures
        !pool.join_waits(generation),
{
}

/// Joins are woken in time: the only things after which a pool has no work any more are that a job
/// is done and that a thread is lost with its job.
pub proof fn law_who_ends_the_work<I, O>(h: History<I, O>, i: nat)
    requires
        h.valid(),
        i < h.events.len(),
        h.at(i).has_work(),
        !h.at(i + 1).has_work(),
    ensures
        match h.events[i as int] {
            Event::Finish(_, _) => true,
            Event::Lose(job, _) => job is Some,
            _ => false,
        },
        h.at(i + 1).join_generation == crate::history::wrap_inc(h.at(i).join_generation),
{
    law_always(h, i);
    law_always(h, i + 1);
    assert(h.at(i).enabled(h.events[i as int]));
    assert(h.at(i + 1) == h.at(i).step(h.events[i as int]));
}

/// After the work has run out, so many events later the wave is another one as long as the counter
/// has not come round.
proof fn lemma_wave_moves_on<I, O>(h: History<I, O>, m: nat, k: nat)
    requires
        h.valid(),
        m < k <= h.events.len(),
        k - m <= usize::MAX,
        h.at(m).has_work(),
        !h.at(m + 1).has_work(),
    ensures
        ({
            let at_first = h.at(m).join_generation as int;
            let now = h.at(k).join_generation as int;
            let ahead = if now >= at_first {
                now - at_first
            } else {
                now - at_first + usize::MAX + 1
            };
            1 <= ahead <= k - m
        }),
    decreases k,
{
    if m + 1 < k {
        lemma_wave_moves_on(h, m, (k - 1) as nat);
    } else {
        law_who_ends_the_work(h, m);
    }
}

/// Joins end together, when the work runs out. If what happens at time `m` leaves the pool without
/// work, then no join of the wave of that time waits any more at a later time `k`, whatever work
/// has come in by then. (The counter of the waves comes round after as many waves as it can
/// count.)
pub proof fn law_joins_end_together<I, O>(h: History<I, O>, m: nat, k: nat)
    requires
        h.valid(),
        m < k <= h.events.len(),
        k - m <= usize::MAX,
        h.at(m).has_work(),
        !h.at(m + 1).has_work(),
    ensures
        !h.at(k).join_waits(h.at(m).join_generation),
{
    lemma_wave_moves_on(h, m, k);
}

/// Two joins that entered the same wave of one pool are both over at any time after the step that
/// ended the work, as that step and a later look at the pool show.
pub proof fn law_joins_of_one_wave<I, O>(
    first: Change<I, O>,
    second: Change<I, O>,
    last: Change<I, O>,
    later: Change<I, O>,
)
    requires
        first.is_look() && second.is_look(),
        last.follows(first) && last.follows(second) && later.follows(last),
        first.before().join_generation == last.before().join_generation,
        second.before().join_generation == last.before().join_generation,
        later.past().valid(),
        last.past().valid(),
        exists|event: Event<I, O>| last.is_step(event),
        last.before().has_work(),
        !last.after().has_work(),
        later.past().events.len() - last.past().events.len() <= usize::MAX,
    ensures
        !later.before().join_waits(first.before().join_generation),
        !later.before().join_waits(second.before().join_generation),
{
    let event = choose|event: Event<I, O>| last.is_step(event);
    let h = later.past();
    let m = last.past().events.len();
    crate::history::lemma_push(last.past(), event);
    assert(last.past().events =~= h.events.take(m as int));
    assert(h.extends(last.past()));
    crate::history::lemma_past(h, last.past(), m);
    crate::history::lemma_past(h, last.present(), m + 1);
    law_joins_end_together(h, m, h.events.len());
}

/// A join from within the pool cannot end: a join that begins at time `i` still waits at time
/// `k` if some job was being executed all the time, as that of the thread that joins would be.
pub proof fn law_join_from_within<I, O>(h: History<I, O>, i: nat, k: nat)
    requires
        h.valid(),
        i <= k <= h.events.len(),
        forall|m: nat| i <= m <= k ==> (#[trigger] h.at(m)).active() > 0,
    ensures
        h.at(k).join_waits(h.at(i).join_generation),
{
    if !h.at(k).join_waits(h.at(i).join_generation) {
        law_join_waits_for_all(h, i, k);
        let m = choose|m: nat| i <= m <= k && !(#[trigger] h.at(m)).has_work();
        assert(h.at(m).active() > 0);
    }
}

/// Jobs are taken in the order in which they come in: the one that is taken is the oldest that
/// was not.
pub proof fn law_first_in_first_out<I, O>(h: History<I, O>, i: nat)
    requires
        h.valid(),
        i < h.events.len(),
        h.events[i as int] is Take,
    ensures
        h.at(i).started < h.at(i).submitted.len(),
        h.at(i).jobs().first() == h.at(i).submitted[h.at(i).started as int],
        h.at(i + 1).running == h.at(i).running.insert(h.at(i).started),
        h.at(i + 1).started == h.at(i).started + 1,
{
    law_always(h, i);
    assert(h.at(i).enabled(h.events[i as int]));
    assert(h.at(i + 1) == h.at(i).step(h.events[i as int]));
}

/// No job is executed twice: jobs that are taken at different times are different jobs.
pub proof fn law_executed_once<I, O>(h: History<I, O>, i: nat, k: nat)
    requires
        h.valid(),
        i < k < h.events.len(),
        h.events[i as int] is Take,
        h.events[k as int] is Take,
    ensures
        h.at(i).started < h.at(k).started,
{
    law_first_in_first_out(h, i);
    law_nothing_undone(h, i + 1, k);
}

/// A job is taken only while fewer are being executed than the pool may execute concurrently: no
/// job that is taken raises the active count above the maximum.
pub proof fn law_taken_within_max<I, O>(h: History<I, O>, i: nat)
    requires
        h.valid(),
        i < h.events.len(),
        h.events[i as int] is Take,
    ensures
        h.at(i).active() < h.at(i).max,
        h.at(i + 1).active() <= h.at(i + 1).max,
        h.at(i + 1).active() == h.at(i).active() + 1,
{
    law_always(h, i);
    assert(h.at(i).enabled(h.events[i as int]));
    assert(h.at(i + 1) == h.at(i).step(h.events[i as int]));
    assert(!h.at(i).running.contains(h.at(i).started));
}

/// A pool never executes more jobs at a time than its maximum, however often it is resized, unless
/// it is told to use fewer threads than are active at that time.
pub proof fn law_active_at_most_max<I, O>(h: History<I, O>, i: nat)
    requires
        h.valid(),
        h.never_below_active(),
        i <= h.events.len(),
    ensures
        h.at(i).active() <= h.at(i).max,
    decreases i,
{
    if i > 0 {
        let l = (i - 1) as nat;
        law_active_at_most_max(h, l);
        law_always(h, l);
        assert(h.at(l).enabled(h.events[l as int]));
    }
}

/// A pool that was built with `n` threads and never resized never executes more than `n` jobs at a
/// time, and its maximum is `n`, whatever jobs come in and whether they return or panic.
pub proof fn law_never_more_than_built_with<I, O>(h: History<I, O>, i: nat)
    requires
        h.valid(),
        h.never_resized(),
        i <= h.events.len(),
    ensures
        h.at(i).max == h.num_threads,
        h.at(i).active() <= h.at(i).max,
    decreases i,
{
    if i > 0 {
        let l = (i - 1) as nat;
        law_never_more_than_built_with(h, l);
        law_always(h, l);
        assert(h.at(l).enabled(h.events[l as int]));
        assert(!(h.events[l as int] is Resize));
    }
}

/// And where a pool is told to use fewer threads than are active, the active count only falls until
/// it is within the maximum again: as long as the pool is not resized, it does not rise above what
/// it was and the maximum.
pub proof fn law_active_falls<I, O>(h: History<I, O>, i: nat, k: nat)
    requires
        h.valid(),
        i <= k <= h.events.len(),
        forall|m: int| i <= m < k ==> !(#[trigger] h.events[m] is Resize),
    ensures
        h.at(k).active() <= h.at(i).active() || h.at(k).active() <= h.at(k).max,
        h.at(k).max == h.at(i).max,
    decreases k,
{
    if i < k {
        let l = (k - 1) as nat;
        law_active_falls(h, i, l);
        law_always(h, l);
        assert(h.at(l).enabled(h.events[l as int]));
        assert(!(h.events[l as int] is Resize));
    }
}

/// Changing the number of threads disturbs no job: what is queued and what is being executed stay
/// as they are.
pub proof fn law_resize_disturbs_nothing<I, O>(h: History<I, O>, i: nat, n: usize)
    requires
        h.valid(),
        i < h.events.len(),
        h.events[i as int] == Event::<I, O>::Resize(n),
    ensures
        h.at(i + 1) == (PoolView { max: n, ..h.at(i) }),
{
    assert(h.at(i + 1) == h.at(i).step(h.events[i as int]));
}

/// Every thread of a pool, whenever it starts, gets the name and the stack size that the pool was
/// built with.
pub proof fn law_settings_stay<I, O>(h: History<I, O>, i: nat)
    ensures
        h.at(i).settings == h.settings,
{
    crate::history::lemma_settings(h, i);
}

/// The number of threads to use is the one that the pool was built with until it is resized, and
/// from then on the one that it was resized to.
pub proof fn law_max_count<I, O>(h: History<I, O>, i: nat)
    requires
        i < h.events.len(),
    ensures
        h.at(0).max == h.num_threads,
        h.at(i + 1).max == match h.events[i as int] {
            Event::Resize(n) => n,
            _ => h.at(i).max,
        },
{
    assert(h.at(i + 1) == h.at(i).step(h.events[i as int]));
}

/// A handle more or less changes nothing but the number of handles: no count, no job, no join.
pub proof fn law_handles_change_nothing<I, O>(h: History<I, O>, i: nat)
    requires
        h.valid(),
        i < h.events.len(),
        h.events[i as int] is AddHandle || h.events[i as int] is RemoveHandle,
    ensures
        h.at(i + 1) == (PoolView { handles: h.at(i + 1).handles, ..h.at(i) }),
        h.at(i + 1).handles == if h.events[i as int] is AddHandle {
            h.at(i).handles + 1
        } else {
            h.at(i).handles - 1
        },
{
    assert(h.at(i).enabled(h.events[i as int]));
    assert(h.at(i + 1) == h.at(i).step(h.events[i as int]));
}

/// Each job that is executed to its end has its output delivered once, and nothing else is
/// delivered: the output of a job with a sender went to that sender, unless its receiver was gone,
/// and that of a job without one nowhere. So when there is no work, and no thread was lost in a
/// job, there is exactly one delivery for each job that came in.
pub proof fn law_one_output_per_job<I, O>(h: History<I, O>, i: nat)
    requires
        h.valid(),
        i <= h.events.len(),
    ensures
        forall|j: nat| #[trigger]
            h.at(i).is_delivered(j) <==> h.at(i).is_done(j) && !h.at(i).lost.contains(j as u64),
        forall|k: int, l: int, j: nat| #[trigger]
            h.at(i).delivers(k, j) && #[trigger] h.at(i).delivers(l, j) ==> k == l,
        forall|k: int|
            0 <= k < h.at(i).deliveries.len() ==> {
                let (number, delivery) = #[trigger] h.at(i).deliveries[k];
                delivery.fits(h.at(i).submitted[number as int].sender)
            },
        !h.at(i).has_work() && h.at(i).lost.len() == 0 ==> {
            &&& h.at(i).deliveries.len() == h.at(i).submitted.len()
            &&& forall|j: nat|
                j < h.at(i).submitted.len() ==> #[trigger] h.at(i).is_delivered(j)
        },
{
    law_always(h, i);
    let p = h.at(i);
    assert forall|j: nat| #[trigger] p.is_delivered(j) <==> p.is_done(j) && !p.lost.contains(
        j as u64,
    ) by {
        if p.is_delivered(j) {
            let k = choose|k: int| p.delivers(k, j);
            assert(p.deliveries[k].0 == j);
        }
    }
    assert forall|k: int, l: int, j: nat| #[trigger] p.delivers(k, j) && #[trigger] p.delivers(
        l,
        j,
    ) implies k == l by {
        if k < l {
            assert(p.deliveries[k].0 != p.deliveries[l].0);
        } else if l < k {
            assert(p.deliveries[l].0 != p.deliveries[k].0);
        }
    }
    if !p.has_work() && p.lost.len() == 0 {
        law_no_work(h, i);
        assert forall|j: nat| j < p.submitted.len() implies #[trigger] p.is_delivered(j) by {
            assert(p.is_done(j));
            if p.lost.contains(j as u64) {
                assert(p.lost.remove(j as u64).len() < p.lost.len());
            }
        }
    }
}

/// No output is lost: when there is no work, no thread was lost in a job, and no receiver was gone,
/// then exactly one output of each job that has a sender was sent, and it went to that sender.
pub proof fn law_every_output_sent<I, O>(h: History<I, O>, i: nat, j: nat)
    requires
        h.valid(),
        i <= h.events.len(),
        !h.at(i).has_work(),
        h.at(i).lost.len() == 0,
        forall|k: int|
            0 <= k < h.at(i).deliveries.len() ==> !(
            (#[trigger] h.at(i).deliveries[k]).1 is Refused),
        j < h.at(i).submitted.len(),
        h.at(i).submitted[j as int].sender is Some,
    ensures
        exists|k: int| #[trigger]
            h.at(i).delivers(k, j) && {
                let delivery = h.at(i).deliveries[k].1;
                delivery is Sent && h.at(i).submitted[j as int].sender == Some(
                    delivery->Sent_0.sender(),
                )
            },
        forall|k: int, l: int| #[trigger]
            h.at(i).delivers(k, j) && #[trigger] h.at(i).delivers(l, j) ==> k == l,
{
    law_one_output_per_job(h, i);
    let p = h.at(i);
    assert(p.is_delivered(j));
    let k = choose|k: int| p.delivers(k, j);
    assert(p.delivers(k, j));
    assert(p.deliveries[k].1.fits(p.submitted[j as int].sender));
}

/// Each output is one of its own job: if what a thread delivers is always an output that the input
/// of its job may give, then so is everything that was delivered.
pub proof fn law_outputs_of_their_jobs<I, O>(
    h: History<I, O>,
    i: nat,
    gives: spec_fn(I, O) -> bool,
)
    requires
        h.valid(),
        i <= h.events.len(),
        forall|m: nat|
            m < i ==> match h.events[m as int] {
                Event::Finish(number, delivery) => {
                    let p = #[trigger] h.at(m);
                    delivery.carries() matches Some(output) ==> gives(
                        p.submitted[number as int].inp,
                        output,
                    )
                },
                _ => true,
            },
    ensures
        forall|k: int|
            0 <= k < h.at(i).deliveries.len() ==> {
                let (number, delivery) = #[trigger] h.at(i).deliveries[k];
                delivery.carries() matches Some(output) ==> gives(
                    h.at(i).submitted[number as int].inp,
                    output,
                )
            },
    decreases i,
{
    if i > 0 {
        let l = (i - 1) as nat;
        let p = h.at(l);
        let post = h.at(i);
        law_outputs_of_their_jobs(h, l, gives);
        law_always(h, l);
        law_nothing_undone(h, l, i);
        assert(p.enabled(h.events[l as int]));
        assert forall|k: int| 0 <= k < post.deliveries.len() implies {
            let (number, delivery) = #[trigger] post.deliveries[k];
            delivery.carries() matches Some(output) ==> gives(
                post.submitted[number as int].inp,
                output,
            )
        } by {
            if k < p.deliveries.len() {
                let number = p.deliveries[k].0;
                assert(post.deliveries[k] == p.deliveries[k]);
                assert(number < p.started);
                assert(post.submitted[number as int] == p.submitted[number as int]);
            } else {
                match h.events[l as int] {
                    Event::Finish(number, _) => {
                        assert(post.submitted[number as int] == p.submitted[number as int]);
                    },
                    _ => {},
                }
            }
        }
    }
}

/// What holds at every time of a pool that executes one job at a time.
spec fn one_at_a_time<I, O>(p: PoolView<I, O>) -> bool {
    &&& p.max == 1
    &&& p.active() <= 1
    &&& forall|n: u64| #[trigger] p.running.contains(n) ==> n == p.started - 1
    &&& forall|k: int, l: int|
        0 <= k < l < p.deliveries.len() ==> (#[trigger] p.deliveries[k]).0 < (
        #[trigger] p.deliveries[l]).0
    &&& p.lost.len() == 0 ==> forall|k: int|
        0 <= k < p.deliveries.len() ==> (#[trigger] p.deliveries[k]).0 == k
}

proof fn lemma_one_thread<I, O>(h: History<I, O>, i: nat)
    requires
        h.valid(),
        h.num_threads == 1,
        h.never_resized(),
        i <= h.events.len(),
    ensures
        one_at_a_time(h.at(i)),
    decreases i,
{
    law_always(h, i);
    if i > 0 {
        let l = (i - 1) as nat;
        lemma_one_thread(h, l);
        law_always(h, l);
        let p = h.at(l);
        let post = h.at(i);
        let event = h.events[l as int];
        assert(p.enabled(event));
        assert(!(event is Resize));
        assert(forall|k: int|
            0 <= k < p.deliveries.len() ==> #[trigger] post.deliveries[k] == p.deliveries[k]);
        match event {
            Event::Take => {
                assert(p.active() == 0);
                assert forall|n: u64| #[trigger] post.running.contains(n) implies n
                    == p.started by {
                    if n != p.started {
                        assert(p.running.contains(n));
                        assert(p.running.remove(n).len() < p.running.len());
                    }
                }
            },
            Event::Finish(number, _) => {
                assert(p.running.remove(number).len() == 0);
                assert forall|n: u64| !(#[trigger] post.running.contains(n)) by {
                    if post.running.contains(n) {
                        assert(post.running.remove(n).len() < post.running.len());
                    }
                }
                assert forall|k: int| 0 <= k < p.deliveries.len() implies (
                #[trigger] p.deliveries[k]).0 < number by {
                    assert(!p.running.contains(p.deliveries[k].0));
                    assert(p.deliveries[k].0 != number);
                }
            },
            Event::Lose(Some(number), _) => {
                assert(p.running.remove(number).len() == 0);
                assert(!p.lost.contains(number));
                assert(post.lost.len() == p.lost.len() + 1);
            },
            _ => {},
        }
    }
}

/// On a pool of one thread that is never resized, the outputs come in the order in which the jobs
/// came in; and if no thread is lost in a job, the output at each place is that of the job at that
/// place.
pub proof fn law_one_thread_keeps_order<I, O>(h: History<I, O>, i: nat)
    requires
        h.valid(),
        h.num_threads == 1,
        h.never_resized(),
        i <= h.events.len(),
    ensures
        forall|k: int, l: int|
            0 <= k < l < h.at(i).deliveries.len() ==> (#[trigger] h.at(i).deliveries[k]).0 < (
            #[trigger] h.at(i).deliveries[l]).0,
        h.at(i).lost.len() == 0 ==> forall|k: int|
            0 <= k < h.at(i).deliveries.len() ==> (#[trigger] h.at(i).deliveries[k]).0 == k,
{
    lemma_one_thread(h, i);
}

/// What a round of a worker thread does with its job: the job is the oldest that had not been
/// taken, the worker executes its input, and the output goes to the sender of the job, unless its
/// receiver is gone, or nowhere if it has none. If the job is still counted as being executed when
/// the thread is done with it, the round adds exactly that to what the pool has delivered, and the
/// job does not count as active any more.
pub proof fn law_round_delivers<T: Worker>(
    shared: PoolSharedData<T>,
    round: Round<T::Input, T::Output>,
    pre: T,
    post: T,
    sentinel: SentinelView<T::Input, T::Output>,
) -> (output: T::Output)
    requires
        shared.goes(round, pre, post, sentinel),
        round is Done,
    ensures
        match round {
            Round::Done { number, check, take, delivery, finish } => {
                let job = take.before().jobs().first();
                &&& take.is_step(Event::Take)
                &&& number == take.before().started
                &&& T::executed(pre, job.inp, post, output)
                &&& match job.sender {
                    None => delivery is Discarded,
                    Some(tx) => {
                        ||| delivery matches Delivery::Sent(receipt) && receipt.sender() == tx
                            && receipt.output() == output
                        ||| delivery matches Delivery::Refused(refusal) && refusal.sender() == tx
                            && refusal.output() == output
                    },
                }
                &&& finish.change.follows(take)
                &&& finish.change.before().running.contains(number) ==> {
                    &&& finish.change.is_step(Event::Finish(number, delivery))
                    &&& finish.change.after().deliveries
                        == finish.change.before().deliveries.push((number, delivery))
                    &&& finish.change.after().active() == finish.change.before().active() - 1
                }
            },
            Round::Over(_) => true,
        },
{
    match round {
        Round::Done { number, check, take, delivery, finish } => {
            let job = take.before().submitted[number as int];
            law_always(take.past(), take.past().events.len());
            law_always(finish.change.past(), finish.change.past().events.len());
            choose|output: T::Output|
                #[trigger] T::performed(pre, job.inp, post, output) && delivery.is_of(
                    job.sender,
                    output,
                )
        },
        Round::Over(_) => arbitrary(),
    }
}

/// If no other thread acts meanwhile, a round leaves the counts as they were but for the job: one
/// less is queued, and as many are active as before.
pub proof fn law_round_alone<T: Worker>(
    shared: PoolSharedData<T>,
    round: Round<T::Input, T::Output>,
    pre: T,
    post: T,
    sentinel: SentinelView<T::Input, T::Output>,
)
    requires
        shared.goes(round, pre, post, sentinel),
        round matches Round::Done { number, check, take, delivery, finish }
            && finish.change.past() == take.present(),
    ensures
        round matches Round::Done { number, check, take, delivery, finish } && {
            let before = take.before();
            let after = finish.change.after();
            &&& after.jobs() == before.jobs().drop_first()
            &&& after.running == before.running
            &&& after.active() == before.active()
            &&& after.deliveries == before.deliveries.push((number, delivery))
            &&& after.panics == before.panics
            &&& after.max == before.max
        },
{
    match round {
        Round::Done { number, check, take, delivery, finish } => {
            law_always(take.past(), take.past().events.len());
            let before = take.before();
            let after = finish.change.after();
            assert(!before.running.contains(number));
            assert(before.running.insert(number).remove(number) =~= before.running);
            assert(after.jobs() =~= before.jobs().drop_first());
        },
        Round::Over(_) => {},
    }
}

/// A thread ends in order only when it is not needed: there is no job that it could take and no
/// handle through which one could come in, or as many other jobs are being executed as the pool
/// may execute. In the first case every job that ever came in has been executed or is being
/// executed, as long as they can be counted.
pub proof fn law_thread_ends_in_order<I, O>(next: Next<I, O>, sentinel: SentinelView<I, O>)
    requires
        next.leads_to(sentinel),
        next.take().past().valid(),
        !(next is Run),
    ensures
        ({
            let p = next.take().before();
            ||| !p.has_job() && p.handles == 0
            ||| p.active() >= p.max >= 1
        }),
        ({
            let p = next.take().before();
            next is NoMore && p.submitted.len() <= u64::MAX ==> forall|j: nat|
                j < p.submitted.len() ==> #[trigger] p.is_done(j) || p.running.contains(j as u64)
        }),
        !sentinel.active,
{
    law_always(next.take().past(), next.take().past().events.len());
}

/// The rounds of one thread follow each other: each job that it takes came in after the one that it
/// took before, and it is done with that one when it takes the next.
pub proof fn law_rounds_in_order<T: Worker>(
    shared: PoolSharedData<T>,
    first: Round<T::Input, T::Output>,
    second: Round<T::Input, T::Output>,
    start: T,
    middle: T,
    end: T,
    sentinels: (SentinelView<T::Input, T::Output>, SentinelView<T::Input, T::Output>),
)
    requires
        shared.goes(first, start, middle, sentinels.0),
        shared.goes(second, middle, end, sentinels.1),
        first is Done && second is Done,
        second.check().follows(first->finish.change),
    ensures
        first->Done_number < second->Done_number,
        second->Done_take.before().is_done(first->Done_number as nat),
{
    let finish = first->finish.change;
    law_later(finish.past(), first->Done_take.present());
    if let Some(event) = finish.before().finishing(first->Done_number, first->delivery) {
        crate::history::lemma_push(finish.past(), event);
    }
    law_later(second.check().past(), finish.present());
    law_later(second->Done_take.past(), second.check().past());
}

/// The options of a builder do not depend on each other: they can be set in any order, and of
/// what is set twice the last counts.
pub proof fn law_builder_options(b: BuilderView, m: usize, n: usize, name: Seq<char>, size: usize)
    ensures
        b.with_num_threads(n).with_thread_name(name) == b.with_thread_name(name).with_num_threads(
            n,
        ),
        b.with_num_threads(n).with_thread_stack_size(size) == b.with_thread_stack_size(
            size,
        ).with_num_threads(n),
        b.with_thread_name(name).with_thread_stack_size(size) == b.with_thread_stack_size(
            size,
        ).with_thread_name(name),
        b.with_num_threads(m).with_num_threads(n) == b.with_num_threads(n),
{
}

/// What has happened to each of a number of pools, after those steps.
pub open spec fn histories_after<I, O>(
    histories: Map<crossbeam_channel::Sender<Job<I, O>>, History<I, O>>,
    changes: Seq<Change<I, O>>,
) -> Map<crossbeam_channel::Sender<Job<I, O>>, History<I, O>>
    decreases changes.len(),
{
    if changes.len() == 0 {
        histories
    } else {
        histories_after(histories, changes.drop_last()).insert(
            changes.last().pool(),
            changes.last().present(),
        )
    }
}

/// Different pools share nothing: whatever steps the methods of one shared pool make, the history
/// of another one stays as it is, with its counts, its jobs and the joins that wait for it.
pub proof fn law_pools_share_nothing<T: Worker>(
    p: PoolSharedData<T>,
    q: PoolSharedData<T>,
    histories: Map<
        crossbeam_channel::Sender<Job<T::Input, T::Output>>,
        History<T::Input, T::Output>,
    >,
    changes: Seq<Change<T::Input, T::Output>>,
)
    requires
        p.id() != q.id(),
        forall|i: int| 0 <= i < changes.len() ==> p.made(#[trigger] changes[i]),
    ensures
        histories_after(histories, changes)[q.id()] == histories[q.id()],
    decreases changes.len(),
{
    if changes.len() > 0 {
        let rest = changes.drop_last();
        assert forall|i: int| 0 <= i < rest.len() implies p.made(#[trigger] rest[i]) by {
            assert(p.made(changes[i]));
        }
        law_pools_share_nothing(p, q, histories, rest);
        assert(p.made(changes[changes.len() - 1]));
    }
}

/// Of two pools that one builder built, to one of which something was done, the other is still as
/// it was built: it has no job, no join of it waits, and its maximum is what was configured.
pub proof fn law_pools_of_one_builder<T: Worker>(
    b: BuilderView,
    n: usize,
    p: PoolSharedData<T>,
    q: PoolSharedData<T>,
    histories: Map<
        crossbeam_channel::Sender<Job<T::Input, T::Output>>,
        History<T::Input, T::Output>,
    >,
    changes: Seq<Change<T::Input, T::Output>>,
)
    requires
        b.num_threads == Some(n),
        p.id() != q.id(),
        p.origin() == History::<T::Input, T::Output>::new(b.settings(), n),
        q.origin() == History::<T::Input, T::Output>::new(b.settings(), n),
        histories[q.id()] == q.origin(),
        forall|i: int| 0 <= i < changes.len() ==> p.made(#[trigger] changes[i]),
    ensures
        ({
            let seen = histories_after(histories, changes)[q.id()].now();
            &&& seen == PoolView::<T::Input, T::Output>::fresh(b.settings(), n)
            &&& seen.max == p.origin().now().max
            &&& !seen.has_work()
        }),
{
    law_pools_share_nothing(p, q, histories, changes);
}

/// A handle and its clone are to one pool: what was done through one is in the history that is seen
/// through the other. If a job came in through one handle and a look was taken later through the
/// other, the look shows the job.
pub proof fn law_cloned_handle_is_same_pool<T: Worker>(
    p: std::sync::Arc<PoolSharedData<T>>,
    q: std::sync::Arc<PoolSharedData<T>>,
    change: Change<T::Input, T::Output>,
    look: Change<T::Input, T::Output>,
    event: Event<T::Input, T::Output>,
)
    requires
        q == p,
        p.made(change),
        change.is_step(event),
        q.made(look),
        look.past().extends(change.present()),
    ensures
        p.id() == q.id(),
        look.follows(change),
        look.past().events[change.past().events.len() as int] == event,
{
    let i = change.past().events.len() as int;
    assert(change.present().events[i] == event);
}

/// How many of the first `i` events are such.
pub open spec fn count_events<I, O>(
    h: History<I, O>,
    i: nat,
    such: spec_fn(Event<I, O>) -> bool,
) -> nat
    decreases i,
{
    if i == 0 {
        0
    } else {
        count_events(h, (i - 1) as nat, such) + if such(h.events[i - 1]) {
            1nat
        } else {
            0
        }
    }
}

/// The number of handles that a pool counts is the number of those made, with the one that it was
/// built with, less the number of those dropped.
pub proof fn law_handles_made_less_dropped<I, O>(h: History<I, O>, i: nat)
    requires
        h.valid(),
        i <= h.events.len(),
    ensures
        h.at(i).handles == 1 + count_events(h, i, |e: Event<I, O>| e is AddHandle) - count_events(
            h,
            i,
            |e: Event<I, O>| e is RemoveHandle,
        ),
    decreases i,
{
    if i > 0 {
        let l = (i - 1) as nat;
        law_handles_made_less_dropped(h, l);
        assert(h.at(l).enabled(h.events[l as int]));
    }
}

/// The number of threads that a pool counts as panicked is the number of those that were lost by a
/// panic, as long as that can be counted.
pub proof fn law_panics_counted<I, O>(h: History<I, O>, i: nat)
    requires
        h.valid(),
        i <= h.events.len(),
        i <= usize::MAX,
    ensures
        h.at(i).panics == count_events(
            h,
            i,
            |e: Event<I, O>| e matches Event::Lose(_, panicking) && panicking,
        ),
        count_events(h, i, |e: Event<I, O>| e matches Event::Lose(_, panicking) && panicking) <= i,
    decreases i,
{
    if i > 0 {
        law_panics_counted(h, (i - 1) as nat);
    }
}

/// A thread that waits does not end for want of a handle while there is one: when it ends because
/// no job can come, every handle that was ever made has been dropped.
pub proof fn law_no_thread_ends_while_a_handle_is_left<T: Worker>(
    shared: PoolSharedData<T>,
    next: Next<T::Input, T::Output>,
    sentinel: SentinelView<T::Input, T::Output>,
)
    requires
        shared.made(next.take()),
        next.leads_to(sentinel),
        next is NoMore,
    ensures
        ({
            let h = next.take().past();
            count_events(
                h,
                h.events.len(),
                |e: Event<T::Input, T::Output>| e is RemoveHandle,
            ) == 1 + count_events(
                h,
                h.events.len(),
                |e: Event<T::Input, T::Output>| e is AddHandle,
            )
        }),
{
    law_handles_made_less_dropped(next.take().past(), next.take().past().events.len());
}

} // verus!
