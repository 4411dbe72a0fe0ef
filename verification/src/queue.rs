//! The queue of a pool: a crossbeam channel that nobody else uses.

use crate::job::Job;
use vstd::prelude::*;

verus! {

/// The receiving half of a crossbeam channel.
#[verifier::external_type_specification]
#[verifier::external_body]
#[verifier::reject_recursive_types(T)]
pub struct ExCrossbeamReceiver<T>(crossbeam_channel::Receiver<T>);

/// Calls `crossbeam_channel::Sender::same_channel`, which says whether two senders belong to the
/// same channel. A sender stands for its channel here: those of one channel count as equal.
#[verifier::external_body]
fn same_channel<M>(a: &crossbeam_channel::Sender<M>, b: &crossbeam_channel::Sender<M>) -> (r: bool)
    ensures
        r == (*a == *b),
{
    a.same_channel(b)
}

/// Calls `crossbeam_channel::Sender::clone`, which makes another sender of the same channel.
#[verifier::external_body]
fn clone_sender<M>(tx: &crossbeam_channel::Sender<M>) -> (r: crossbeam_channel::Sender<M>)
    ensures
        r == *tx,
{
    tx.clone()
}

/// A mark by which a queue is known again: a sender of its channel, through which nothing is
/// ever sent.
#[verifier::reject_recursive_types(I)]
#[verifier::reject_recursive_types(O)]
pub struct QueueMark<I, O> {
    tx: crossbeam_channel::Sender<Job<I, O>>,
}

impl<I, O> QueueMark<I, O> {
    /// Which channel it is.
    pub closed spec fn channel(self) -> crossbeam_channel::Sender<Job<I, O>> {
        self.tx
    }

    /// Whether the two are marks of one queue.
    pub(crate) fn same(&self, other: &QueueMark<I, O>) -> (r: bool)
        ensures
            r == (self.channel() == other.channel()),
    {
        same_channel(&self.tx, &other.tx)
    }
}

/// A queue of jobs, with both ends of its channel. Nothing is sent or received through another
/// end, so that the channel holds what was put in and not yet taken out through this queue. That
/// is what `jobs` stands for: it is a ghost, and nothing is ever written to it.
#[verifier::reject_recursive_types(I)]
#[verifier::reject_recursive_types(O)]
pub struct JobQueue<I, O> {
    tx: crossbeam_channel::Sender<Job<I, O>>,
    rx: crossbeam_channel::Receiver<Job<I, O>>,
    jobs: Ghost<Seq<Job<I, O>>>,
}

impl<I, O> View for JobQueue<I, O> {
    type V = Seq<Job<I, O>>;

    /// The jobs in the channel, the oldest first.
    closed spec fn view(&self) -> Seq<Job<I, O>> {
        self.jobs@
    }
}

impl<I, O> JobQueue<I, O> {
    /// Which channel it is, by its sending half.
    pub closed spec fn channel(self) -> crossbeam_channel::Sender<Job<I, O>> {
        self.tx
    }

    /// Calls `crossbeam_channel::unbounded`, which makes a new channel with nothing in it.
    #[verifier::external_body]
    pub(crate) fn new() -> (r: JobQueue<I, O>)
        ensures
            r@.len() == 0,
    {
        let (tx, rx) = crossbeam_channel::unbounded();
        JobQueue { tx, rx, jobs: Ghost(Seq::empty()) }
    }

    /// Calls `crossbeam_channel::Sender::send`, which appends the job to what is in the
    /// channel. It does not fail, since the receiving half is not gone, and it does not block,
    /// since the channel is unbounded.
    #[verifier::external_body]
    pub(crate) fn push(&mut self, job: Job<I, O>)
        ensures
            final(self)@ == old(self)@.push(job),
            final(self).channel() == old(self).channel(),
    {
        let _ = self.tx.send(job);
    }

    /// Calls `crossbeam_channel::Receiver::try_recv`, which takes the oldest job out of the
    /// channel, or says that there is none.
    #[verifier::external_body]
    pub(crate) fn pop(&mut self) -> (r: Option<Job<I, O>>)
        ensures
            match r {
                Some(job) => {
                    &&& old(self)@.len() > 0
                    &&& job == old(self)@.first()
                    &&& final(self)@ == old(self)@.drop_first()
                },
                None => old(self)@.len() == 0 && final(self)@ == old(self)@,
            },
            final(self).channel() == old(self).channel(),
    {
        self.rx.try_recv().ok()
    }

    /// Calls `crossbeam_channel::Receiver::len`, which counts the jobs in the channel.
    #[verifier::external_body]
    pub(crate) fn len(&self) -> (n: usize)
        ensures
            n == self@.len(),
    {
        self.rx.len()
    }

    /// A mark by which the queue is known again.
    pub(crate) fn mark(&self) -> (r: QueueMark<I, O>)
        ensures
            r.channel() == self.channel(),
    {
        QueueMark { tx: clone_sender(&self.tx) }
    }

    /// Whether the two are the same queue.
    pub(crate) fn same(&self, other: &JobQueue<I, O>) -> (r: bool)
        ensures
            r == (self.channel() == other.channel()),
    {
        same_channel(&self.tx, &other.tx)
    }
}

} // verus!
