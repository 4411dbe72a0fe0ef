//! What each call does, in terms of what goes into it and what comes out of it.

use crate::builder::Builder;
use crate::history::Event;
use crate::job::deliver;
use crate::job::Delivery;
use crate::job::Job;
use crate::pool::Change;
use crate::pool::Counts;
use crate::pool::Pool;
use crate::send::OutputSender;
use crate::send::Receipt;
use crate::send::Refusal;
use crate::sentinel::Sentinel;
use crate::shared::Joined;
use crate::shared::PoolSharedData;
use crate::shared::Report;
use crate::worker::Worker;
use vstd::prelude::*;

verus! {

/// What is sent goes to the channel it is sent to, and nowhere else, for every type of output: a
/// receipt is had for that output and that sender alone, and so is a refusal. Two sends that leave
/// the same receipt were of the same output to the same channel.
pub proof fn law_send<O>(
    tx: OutputSender<O>,
    output: O,
    r: Result<Receipt<O>, Refusal<O>>,
    other_tx: OutputSender<O>,
    other_output: O,
    other: Result<Receipt<O>, Refusal<O>>,
)
    requires
        call_ensures(OutputSender::<O>::send, (&tx, output), r),
        call_ensures(OutputSender::<O>::send, (&other_tx, other_output), other),
    ensures
        r is Ok ==> r->Ok_0.sender() == tx && r->Ok_0.output() == output,
        r is Err ==> r->Err_0.sender() == tx && r->Err_0.output() == output,
        r == other ==> tx == other_tx && output == other_output,
{
}

/// An output is never dropped on its way to a sender: if the job has one, then whatever the type of
/// the output, there is a receipt or a refusal of that sender for that output; and only a job
/// without a sender has its output discarded.
pub proof fn law_deliver<O>(
    sender: Option<OutputSender<O>>,
    output: O,
    delivery: Delivery<O>,
)
    requires
        call_ensures(deliver::<O>, (sender, output), delivery),
    ensures
        sender is None <==> delivery is Discarded,
        delivery.carries() matches Some(carried) ==> carried == output,
        delivery matches Delivery::Sent(receipt) ==> sender == Some(receipt.sender()),
        delivery matches Delivery::Refused(refusal) ==> sender == Some(refusal.sender()),
{
}

/// Whether a step brought in that job and did nothing else: the job is the last that came in, one
/// more is queued, and no count but that changes.
pub open spec fn brings_in<I, O>(change: Change<I, O>, job: Job<I, O>) -> bool {
    let before = change.before();
    let after = change.after();
    let n = before.submitted.len();
    &&& change.present().events.len() == change.past().events.len() + 1
    &&& after.submitted.len() == n + 1
    &&& after.submitted[n as int] == job
    &&& forall|j: int| 0 <= j < n ==> #[trigger] after.submitted[j] == before.submitted[j]
    &&& after.jobs().len() == before.jobs().len() + 1
    &&& after.running == before.running
    &&& after.started == before.started
    &&& after.lost == before.lost
    &&& after.deliveries == before.deliveries
    &&& after.handles == before.handles
    &&& after.join_generation == before.join_generation
    &&& after.max == before.max
    &&& after.panics == before.panics
    &&& after.settings == before.settings
}

/// `execute` brings in its input, to be executed with nobody to send the output to.
pub proof fn law_execute<T: Worker>(
    shared: PoolSharedData<T>,
    inp: T::Input,
    r: Report<T::Input, T::Output>,
)
    requires
        call_ensures(PoolSharedData::<T>::execute, (&shared, inp), r),
    ensures
        r.change.pool() == shared.id(),
        brings_in(r.change, (Job { inp, sender: None })),
        r.wakeup is Some,
{
    crate::laws::law_always(r.change.past(), r.change.past().events.len());
}

/// `execute_to` brings in its input, to be executed with the output sent to the given sender.
pub proof fn law_execute_to<T: Worker>(
    shared: PoolSharedData<T>,
    tx: OutputSender<T::Output>,
    inp: T::Input,
    r: Report<T::Input, T::Output>,
)
    requires
        call_ensures(PoolSharedData::<T>::execute_to, (&shared, tx, inp), r),
    ensures
        r.change.pool() == shared.id(),
        brings_in(r.change, (Job { inp, sender: Some(tx) })),
        r.wakeup is Some,
{
    crate::laws::law_always(r.change.past(), r.change.past().events.len());
}

/// `set_num_threads` sets the maximum and nothing else, and as many threads have to be started as
/// the pool is to use more than before.
pub proof fn law_set_num_threads<T: Worker>(
    shared: PoolSharedData<T>,
    num_threads: usize,
    r: (usize, Change<T::Input, T::Output>),
)
    requires
        call_ensures(PoolSharedData::<T>::set_num_threads, (&shared, num_threads), r),
    ensures
        ({
            let before = r.1.before();
            let after = r.1.after();
            &&& r.1.pool() == shared.id()
            &&& r.1.present().events.len() == r.1.past().events.len() + 1
            &&& after.max == num_threads
            &&& num_threads >= before.max ==> before.max + r.0 == num_threads
            &&& num_threads < before.max ==> r.0 == 0
            &&& after.submitted == before.submitted
            &&& after.started == before.started
            &&& after.running == before.running
            &&& after.lost == before.lost
            &&& after.deliveries == before.deliveries
            &&& after.handles == before.handles
            &&& after.join_generation == before.join_generation
            &&& after.panics == before.panics
            &&& after.settings == before.settings
        }),
{
}

/// The counts are those of one time: what is queued is what came in and was not taken, what is
/// active is what is being executed, and together with what is done they make up what came in.
pub proof fn law_counts<T: Worker>(
    shared: PoolSharedData<T>,
    r: (Counts, Change<T::Input, T::Output>),
)
    requires
        call_ensures(PoolSharedData::<T>::counts, (&shared,), r),
    ensures
        ({
            let pool = r.1.before();
            &&& r.1.pool() == shared.id()
            &&& r.1.present() == r.1.past()
            &&& r.0.queued + pool.started == pool.submitted.len()
            &&& r.0.active == pool.running.len()
            &&& r.0.queued + r.0.active + pool.lost.len() + pool.deliveries.len()
                == pool.submitted.len()
            &&& r.0.max == pool.max
            &&& r.0.panics == pool.panics
        }),
{
    crate::laws::law_always(r.1.past(), r.1.past().events.len());
}

/// When `join` returns, every job that had come in when it began was taken and is not being
/// executed any more, and it has changed nothing.
pub proof fn law_join<T: Worker>(shared: PoolSharedData<T>, r: Joined<T::Input, T::Output>)
    requires
        call_ensures(PoolSharedData::<T>::join, (&shared,), r),
    ensures
        r.enter().pool() == shared.id() && r.leave().pool() == shared.id(),
        r.enter().present() == r.enter().past(),
        r.leave().present() == r.leave().past(),
        r.enter().before().submitted.len() <= r.leave().before().started,
        forall|j: u64|
            j < r.enter().before().submitted.len() ==> !(
            #[trigger] r.leave().before().running.contains(j)),
{
    let n = r.enter().before().submitted.len();
    if n > 0 {
        assert(r.leave().before().is_done((n - 1) as nat));
    }
    assert forall|j: u64| j < n implies !(
    #[trigger] r.leave().before().running.contains(j)) by {
        assert(r.leave().before().is_done(j as nat));
    }
}

/// A handle more or less is counted as one, and nothing else changes.
pub proof fn law_handle_counted<T: Worker>(
    shared: PoolSharedData<T>,
    more: (bool, Change<T::Input, T::Output>),
    less: Report<T::Input, T::Output>,
)
    requires
        call_ensures(PoolSharedData::<T>::add_handle, (&shared,), more),
        call_ensures(PoolSharedData::<T>::remove_handle, (&shared,), less),
    ensures
        more.1.pool() == shared.id() && less.change.pool() == shared.id(),
        more.1.present().events.len() <= more.1.past().events.len() + 1,
        less.change.present().events.len() <= less.change.past().events.len() + 1,
        more.1.after() == (crate::history::PoolView {
            handles: more.1.after().handles,
            ..more.1.before()
        }),
        less.change.after() == (crate::history::PoolView {
            handles: less.change.after().handles,
            ..less.change.before()
        }),
        more.1.after().handles == more.1.before().handles + if more.0 {
            1int
        } else {
            0
        },
        more.0 <==> more.1.before().handles < usize::MAX,
        less.change.before().handles > 0 ==> less.change.after().handles + 1
            == less.change.before().handles,
        less.wakeup is Some <==> less.change.after().handles == 0,
{
}

/// The end of a thread is the loss of that thread and nothing else. Whatever the thread was doing
/// and however it ended, the pool keeps its handles, its maximum and the jobs that came in; of the
/// jobs being executed at most the one of that thread goes, and it counts as lost; and one more
/// panic is counted exactly if the thread is lost by one. A thread is to be started in its place
/// exactly if its sentinel was active.
pub proof fn law_thread_end_is_its_loss<T: Worker>(
    shared: PoolSharedData<T>,
    sentinel: Sentinel<T::Input, T::Output>,
    panicking: bool,
    r: (bool, Report<T::Input, T::Output>),
)
    requires
        call_ensures(PoolSharedData::<T>::thread_ended, (&shared, &sentinel, panicking), r),
    ensures
        r.0 == sentinel@.active,
        ({
            let change = r.1.change;
            let before = change.before();
            let after = change.after();
            let n = change.past().events.len();
            &&& change.pool() == shared.id()
            &&& change.present().events.len() <= n + 1
            &&& change.present().events.len() == n + 1 <==> sentinel@.active
            &&& sentinel@.active ==> {
                let event = change.present().events[n as int];
                &&& event is Lose
                &&& event->Lose_0 is None || event->Lose_0 == sentinel@.number()
                &&& event->Lose_1 == panicking
            }
            &&& after.handles == before.handles
            &&& after.max == before.max
            &&& after.submitted == before.submitted
            &&& after.started == before.started
            &&& after.deliveries == before.deliveries
            &&& forall|m: u64| #[trigger]
                before.running.contains(m) ==> after.running.contains(m) || sentinel@.number()
                    == Some(m)
            &&& forall|m: u64| #[trigger] after.running.contains(m) ==> before.running.contains(m)
            &&& forall|m: u64| #[trigger]
                before.running.contains(m) && sentinel@.active && sentinel@.number() == Some(m)
                    ==> !after.running.contains(m) && after.lost.contains(m)
            &&& after.panics == if sentinel@.active && panicking {
                crate::history::wrap_inc(before.panics)
            } else {
                before.panics
            }
            &&& !sentinel@.active ==> after == before
        }),
{
}

/// Without a configured number, a pool gets one thread per CPU, as many as `num_cpus::get` returns,
/// whatever name and stack size were configured before; and so does a pool that is built by
/// default.
pub proof fn law_one_thread_per_cpu<T: Worker>(
    plain: Builder,
    named: Builder,
    sized: Builder,
    name: String,
    size: usize,
    p: Pool<T>,
    q: Pool<T>,
    r: Pool<T>,
    d: Pool<T>,
)
    requires
        plain@.num_threads is None,
        call_ensures(Builder::thread_name, (plain, name), named),
        call_ensures(Builder::thread_stack_size, (named, size), sized),
        call_ensures(Builder::build::<T>, (plain,), p),
        call_ensures(Builder::build::<T>, (named,), q),
        call_ensures(Builder::build::<T>, (sized,), r),
        call_ensures(<Pool<T> as Default>::default, (), d),
    ensures
        call_ensures(num_cpus::get, (), p@.max),
        call_ensures(num_cpus::get, (), q@.max),
        call_ensures(num_cpus::get, (), r@.max),
        call_ensures(num_cpus::get, (), d@.max),
        q@.settings.name == Some(name@),
        r@.settings.name == Some(name@) && r@.settings.stack_size == Some(size),
{
}

/// With a configured number, a pool gets that many threads, whatever else is configured and
/// whatever number was configured before.
pub proof fn law_as_many_threads_as_configured<T: Worker>(
    first: Builder,
    second: Builder,
    named: Builder,
    n: usize,
    name: String,
    p: Pool<T>,
)
    requires
        call_ensures(Builder::num_threads, (first, n), second),
        call_ensures(Builder::thread_name, (second, name), named),
        call_ensures(Builder::build::<T>, (named,), p),
    ensures
        p@.max == n,
        p@.settings.name == Some(name@),
        !p@.has_work(),
{
}

} // verus!
