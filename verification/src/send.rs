//! Sending an output over a channel.
//!
//! Only the functions that call the `send` of a channel are here, and the evidence that they
//! leave: nothing else can make it.

use vstd::prelude::*;

verus! {

/// The sending half of a channel of the standard library.
#[verifier::external_type_specification]
#[verifier::external_body]
#[verifier::reject_recursive_types(T)]
pub struct ExStdSender<T>(std::sync::mpsc::Sender<T>);

/// The sending half of a crossbeam channel.
#[verifier::external_type_specification]
#[verifier::external_body]
#[verifier::reject_recursive_types(T)]
pub struct ExCrossbeamSender<T>(crossbeam_channel::Sender<T>);

/// Where the output of a job is sent: a channel of the standard library or of crossbeam.
#[verifier::reject_recursive_types(O)]
pub enum OutputSender<O> {
    Std(std::sync::mpsc::Sender<O>),
    Crossbeam(crossbeam_channel::Sender<O>),
}

/// Evidence that an output was sent. Only [`send_std`] and [`send_crossbeam`] make one.
#[verifier::reject_recursive_types(O)]
pub struct Receipt<O> {
    sender: Ghost<OutputSender<O>>,
    output: Ghost<O>,
}

impl<O> Receipt<O> {
    /// What it was sent through.
    pub closed spec fn sender(self) -> OutputSender<O> {
        self.sender@
    }

    /// What was sent.
    pub closed spec fn output(self) -> O {
        self.output@
    }
}

/// Evidence that an output was refused, with the output. Only [`send_std`] and
/// [`send_crossbeam`] make one.
#[verifier::reject_recursive_types(O)]
pub struct Refusal<O> {
    sender: Ghost<OutputSender<O>>,
    output: O,
}

impl<O> Refusal<O> {
    /// What it was to be sent through.
    pub closed spec fn sender(self) -> OutputSender<O> {
        self.sender@
    }

    /// What was to be sent.
    pub closed spec fn output(self) -> O {
        self.output
    }

    /// Takes the output back.
    pub fn take_back(self) -> (r: O)
        ensures
            r == self.output(),
    {
        self.output
    }
}

/// Any sender may refuse any output.
pub proof fn lemma_may_refuse<O>(sender: OutputSender<O>, output: O) -> (r: Refusal<O>)
    ensures
        r.sender() == sender,
        r.output() == output,
{
    Refusal { sender: Ghost(sender), output }
}

/// Calls `std::sync::mpsc::Sender::send`. If it succeeds, that very output was put into the
/// channel of `tx`, and the receipt says so. An error hands the very output back, and says so
/// too; whether there is one depends on whether the receiver is gone, of which nothing is said
/// here.
#[verifier::external_body]
pub(crate) fn send_std<O>(tx: &std::sync::mpsc::Sender<O>, output: O) -> (r: Result<
    Receipt<O>,
    Refusal<O>,
>)
    ensures
        match r {
            Ok(receipt) => receipt.sender() == OutputSender::Std(*tx) && receipt.output() == output,
            Err(refusal) => refusal.sender() == OutputSender::Std(*tx) && refusal.output()
                == output,
        },
{
    let sender = Ghost(OutputSender::Std(*tx));
    let receipt = Receipt { sender, output: Ghost(output) };
    match tx.send(output) {
        Ok(_) => Ok(receipt),
        Err(e) => Err(Refusal { sender, output: e.0 }),
    }
}

/// Calls `crossbeam_channel::Sender::send`. If it succeeds, that very output was put into the
/// channel of `tx`, and the receipt says so. An error hands the very output back, and says so
/// too; whether there is one depends on whether the receivers are gone, of which nothing is said
/// here. On a bounded channel the call blocks while the channel is full.
#[verifier::external_body]
pub(crate) fn send_crossbeam<O>(tx: &crossbeam_channel::Sender<O>, output: O) -> (r: Result<
    Receipt<O>,
    Refusal<O>,
>)
    ensures
        match r {
            Ok(receipt) => receipt.sender() == OutputSender::Crossbeam(*tx) && receipt.output()
                == output,
            Err(refusal) => refusal.sender() == OutputSender::Crossbeam(*tx) && refusal.output()
                == output,
        },
{
    let sender = Ghost(OutputSender::Crossbeam(*tx));
    let receipt = Receipt { sender, output: Ghost(output) };
    match tx.send(output) {
        Ok(_) => Ok(receipt),
        Err(e) => Err(Refusal { sender, output: e.0 }),
    }
}

impl<O> From<std::sync::mpsc::Sender<O>> for OutputSender<O> {
    fn from(tx: std::sync::mpsc::Sender<O>) -> (r: Self) {
        OutputSender::Std(tx)
    }
}

impl<O> vstd::std_specs::convert::FromSpecImpl<std::sync::mpsc::Sender<O>> for OutputSender<O> {
    open spec fn obeys_from_spec() -> bool {
        true
    }

    open spec fn from_spec(tx: std::sync::mpsc::Sender<O>) -> Self {
        OutputSender::Std(tx)
    }
}

impl<O> From<crossbeam_channel::Sender<O>> for OutputSender<O> {
    fn from(tx: crossbeam_channel::Sender<O>) -> (r: Self) {
        OutputSender::Crossbeam(tx)
    }
}

impl<O> vstd::std_specs::convert::FromSpecImpl<crossbeam_channel::Sender<O>> for OutputSender<O> {
    open spec fn obeys_from_spec() -> bool {
        true
    }

    open spec fn from_spec(tx: crossbeam_channel::Sender<O>) -> Self {
        OutputSender::Crossbeam(tx)
    }
}

} // verus!
