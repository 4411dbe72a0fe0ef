//! A job, and what becomes of its output.

use crate::roles::Task;
use crate::send::send_crossbeam;
use crate::send::send_std;
use crate::send::OutputSender;
use crate::send::Receipt;
use crate::send::Refusal;
use vstd::prelude::*;

verus! {

impl<O> OutputSender<O> {
    /// Sends `output`. It comes back where the receiver is gone.
    pub fn send(&self, output: O) -> (r: Result<Receipt<O>, Refusal<O>>)
        ensures
            match r {
                Ok(receipt) => receipt.sender() == *self && receipt.output() == output,
                Err(refusal) => refusal.sender() == *self && refusal.output() == output,
            },
    {
        match self {
            OutputSender::Std(tx) => send_std(tx, output),
            OutputSender::Crossbeam(tx) => send_crossbeam(tx, output),
        }
    }
}

/// An input for a worker, and where to send what the worker makes of it.
#[verifier::reject_recursive_types(O)]
pub struct Job<I, O> {
    pub inp: I,
    pub sender: Option<OutputSender<O>>,
}

/// What became of the output of a job.
#[verifier::reject_recursive_types(O)]
pub enum Delivery<O> {
    /// Nobody asked for it.
    Discarded,
    /// It was sent.
    Sent(Receipt<O>),
    /// It could not be sent, since the receiver is gone.
    Refused(Refusal<O>),
}

impl<O> Delivery<O> {
    /// Whether this may become of the output of a job with that `sender`.
    pub open spec fn fits(self, sender: Option<OutputSender<O>>) -> bool {
        match self {
            Delivery::Discarded => sender is None,
            Delivery::Sent(receipt) => sender == Some(receipt.sender()),
            Delivery::Refused(refusal) => sender == Some(refusal.sender()),
        }
    }

    /// The output that was sent, or was to be sent.
    pub open spec fn carries(self) -> Option<O> {
        match self {
            Delivery::Discarded => None,
            Delivery::Sent(receipt) => Some(receipt.output()),
            Delivery::Refused(refusal) => Some(refusal.output()),
        }
    }

    /// Whether this may become of `output` in a job with that `sender`.
    pub open spec fn is_of(self, sender: Option<OutputSender<O>>, output: O) -> bool {
        &&& self.fits(sender)
        &&& self.carries() matches Some(carried) ==> carried == output
    }
}

/// Passes the output of a job on to whoever asked for it.
pub fn deliver<O>(sender: Option<OutputSender<O>>, output: O) -> (r: Delivery<O>)
    ensures
        r.is_of(sender, output),
{
    match sender {
        None => Delivery::Discarded,
        Some(tx) => match tx.send(output) {
            Ok(receipt) => Delivery::Sent(receipt),
            Err(refusal) => Delivery::Refused(refusal),
        },
    }
}

/// Executes one job on a worker and delivers its output.
pub fn run_job<T: Task>(executor: &mut T, job: Job<T::Input, T::Output>) -> (r: Delivery<
    T::Output,
>)
    ensures
        exists|output: T::Output|
            T::performed(*old(executor), job.inp, *final(executor), output) && r.is_of(
                job.sender,
                output,
            ),
{
    let output = executor.perform(job.inp);
    deliver(job.sender, output)
}

} // verus!
