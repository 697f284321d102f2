use vstd::prelude::*;

use std::sync::mpsc::Receiver;

verus! {

/// The receiving end of a standard channel, carried through unopened.
#[verifier::external_type_specification]
#[verifier::external_body]
#[verifier::reject_recursive_types(T)]
pub struct ExReceiver<T>(Receiver<T>);

/// Calls `Receiver::try_recv`: the value waiting in the channel, or `None`
/// where none waits (or the channel is closed). What comes depends on the
/// other threads, so nothing is stated of it.
#[verifier::external_body]
pub(crate) fn try_recv_value<T>(receiver: &Receiver<T>) -> Option<T> {
    receiver.try_recv().ok()
}

/// The handle of a submitted job: the channel on which its result comes.
/// Here it is only looked at without blocking; the blocking waits belong to
/// the code that runs the threads.
#[verifier::reject_recursive_types(T)]
pub struct Job<T>(Receiver<T>);

impl<T> Job<T> {
    /// The channel on which the result comes.
    pub closed spec fn receiver(&self) -> Receiver<T> {
        self.0
    }

    /// A handle that waits for the result on `receiver`.
    pub fn new(receiver: Receiver<T>) -> (job: Job<T>)
        ensures
            job.receiver() == receiver,
    {
        Job(receiver)
    }

    /// The channel on which the result comes, for waiting on it.
    pub fn into_receiver(self) -> (receiver: Receiver<T>)
        ensures
            receiver == self.receiver(),
    {
        self.0
    }

    /// Gives the job's result if it has come; else gives the handle back, to
    /// wait on later.
    pub fn wait_non_blocking(self) -> (result: Result<T, Self>)
        ensures
            result matches Err(job) ==> job == self,
    {
        match try_recv_value(&self.0) {
            Some(res) => Ok(res),
            None => Err(self),
        }
    }
}

} // verus!
