use crate::task::Job;
use vstd::prelude::*;

verus! {

/// The jobs that an executor was handed, as contracts speak of them.
pub type Jobs = Seq<Job>;

/// Runs jobs on behalf of a caller that does not wait for them.
///
/// An executor takes ownership of each job it is handed and sees to it that
/// the job runs once, at some later time and without blocking the caller.
/// It promises no order among the jobs, and a job cannot be taken back.
///
/// Contracts speak of an executor by the record of what it was handed. When
/// and where a job runs is outside of what they can state.
///
/// An implementation outside verified code never has its spec function run:
/// it gives it a body that does not return.
pub trait Executor {
    /// The jobs handed to this executor so far, in the order of the calls.
    spec fn submitted(&self) -> Jobs;

    /// Hands `job` over to be run.
    fn spawn(&mut self, job: Job)
        ensures
            final(self).submitted() == old(self).submitted().push(job),
    ;
}

} // verus!
