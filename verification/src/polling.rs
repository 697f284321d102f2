use vstd::prelude::*;

use std::sync::mpsc::Receiver;

use crate::job::try_recv_value;

verus! {

/// A handle on a job's result that is only ever polled: `try_wait` gives the
/// result if it has come, and else the handle back.
#[verifier::reject_recursive_types(T)]
pub struct Job<T>(Receiver<T>);

impl<T> Job<T> {
    /// The channel on which the result comes.
    pub closed spec fn receiver(&self) -> Receiver<T> {
        self.0
    }

    /// A handle that polls `receiver` for the result.
    pub fn new(receiver: Receiver<T>) -> (job: Job<T>)
        ensures
            job.receiver() == receiver,
    {
        Job(receiver)
    }

    /// Gives the job's result if it has come; else gives the handle back, to
    /// poll again later. Never blocks.
    pub fn try_wait(self) -> (result: Result<T, Self>)
        ensures
            result matches Err(job) ==> job == self,
    {
        match try_recv_value(&self.0) {
            Some(res) => Ok(res),
            None => Err(self),
        }
    }
}

} // verus!
