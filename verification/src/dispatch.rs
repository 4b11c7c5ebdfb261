//! The dispatcher: decides when the next job is handed to a worker, when the
//! caller has to wait for one to finish, and how the run ends.

use vstd::prelude::*;
use crate::error::ErrorKind;

verus! {

/// The bookkeeping of a run over a pool of workers.
pub struct Dispatcher {
    total: usize,
    capacity: usize,
    submitted: usize,
    running: usize,
    failure: Option<ErrorKind>,
}

/// A dispatcher as plain values.
pub struct DispatcherView {
    /// Number of jobs of the run.
    pub total: nat,
    /// Number of workers of the pool.
    pub capacity: nat,
    /// Number of jobs handed to a worker so far.
    pub submitted: nat,
    /// Number of jobs handed to a worker that have not finished yet.
    pub running: nat,
    /// The first failure that a job reported, if any did.
    pub failure: Option<ErrorKind>,
}

/// What the caller does next.
#[derive(Clone, Copy, Debug, PartialEq, Eq, Structural)]
pub enum Dispatch {
    /// Hand the job with this number, counted from zero, to a worker.
    Submit(usize),
    /// Wait for a job to finish and report how it ended.
    Wait,
    /// Every job that was submitted has finished without failure: the run is
    /// over, with this many jobs done.
    Finished(usize),
    /// A job failed and every job that was submitted has finished: the run
    /// is over, and fails in this way.
    Aborted(ErrorKind),
}

/// What holds of every dispatcher: the pool has a worker, no more jobs run
/// than it has workers, and no more were submitted than there are.
pub open spec fn consistent(d: DispatcherView) -> bool {
    &&& d.capacity >= 1
    &&& d.running <= d.capacity
    &&& d.running <= d.submitted
    &&& d.submitted <= d.total
    &&& d.total <= usize::MAX
}

/// The decision taken in a state. The next job is submitted while no job has
/// failed, a job is left, and a worker is free. Else the caller waits as long
/// as a job runs. Else the run is over.
pub open spec fn decision(d: DispatcherView) -> Dispatch {
    if d.failure is None && d.submitted < d.total && d.running < d.capacity {
        Dispatch::Submit(d.submitted as usize)
    } else if d.running > 0 {
        Dispatch::Wait
    } else {
        match d.failure {
            Some(kind) => Dispatch::Aborted(kind),
            None => Dispatch::Finished(d.submitted as usize),
        }
    }
}

/// The state after the decision was taken: a submitted job runs.
pub open spec fn after_decision(d: DispatcherView) -> DispatcherView {
    if decision(d) is Submit {
        DispatcherView { submitted: d.submitted + 1, running: d.running + 1, ..d }
    } else {
        d
    }
}

/// The state after a job reported how it ended: it no longer runs, and the
/// first failure is kept. A report while no job runs changes nothing.
pub open spec fn after_report(d: DispatcherView, outcome: Result<(), ErrorKind>) -> DispatcherView {
    if d.running == 0 {
        d
    } else {
        DispatcherView {
            running: (d.running - 1) as nat,
            failure: match (d.failure, outcome) {
                (None, Err(kind)) => Some(kind),
                (kept, _) => kept,
            },
            ..d
        }
    }
}

impl View for Dispatcher {
    type V = DispatcherView;

    closed spec fn view(&self) -> DispatcherView {
        DispatcherView {
            total: self.total as nat,
            capacity: self.capacity as nat,
            submitted: self.submitted as nat,
            running: self.running as nat,
            failure: self.failure,
        }
    }
}

impl Dispatcher {
    #[verifier::type_invariant]
    spec fn holds(self) -> bool {
        consistent(self@)
    }

    /// The dispatcher of a run of `total` jobs over a pool of `capacity`
    /// workers. A pool without a worker is refused.
    pub fn new(total: usize, capacity: usize) -> (made: Result<Dispatcher, ErrorKind>)
        ensures
            made is Ok <==> capacity >= 1,
            made matches Err(kind) ==> kind == ErrorKind::Configuration,
            made matches Ok(d) ==> d@ == (DispatcherView {
                total: total as nat,
                capacity: capacity as nat,
                submitted: 0,
                running: 0,
                failure: None,
            }) && consistent(d@),
    {
        if capacity == 0 {
            Err(ErrorKind::Configuration)
        } else {
            Ok(Dispatcher { total, capacity, submitted: 0, running: 0, failure: None })
        }
    }

    /// Number of jobs that run at this moment.
    pub fn running(&self) -> (n: usize)
        ensures
            n == self@.running,
            n <= self@.capacity,
    {
        proof {
            use_type_invariant(self);
        }
        self.running
    }

    /// Number of jobs submitted so far.
    pub fn submitted(&self) -> (n: usize)
        ensures
            n == self@.submitted,
            n <= self@.total,
    {
        proof {
            use_type_invariant(self);
        }
        self.submitted
    }

    /// Takes the next decision.
    pub fn next(&mut self) -> (what: Dispatch)
        ensures
            consistent(old(self)@),
            what == decision(old(self)@),
            final(self)@ == after_decision(old(self)@),
            consistent(final(self)@),
    {
        proof {
            use_type_invariant(&*self);
        }
        if self.failure.is_none() && self.submitted < self.total && self.running < self.capacity {
            let job = self.submitted;
            self.submitted = self.submitted + 1;
            self.running = self.running + 1;
            Dispatch::Submit(job)
        } else if self.running > 0 {
            Dispatch::Wait
        } else {
            match self.failure {
                Some(kind) => Dispatch::Aborted(kind),
                None => Dispatch::Finished(self.submitted),
            }
        }
    }

    /// Takes note that a job ended as `outcome` says.
    pub fn job_finished(&mut self, outcome: Result<(), ErrorKind>)
        ensures
            consistent(old(self)@),
            final(self)@ == after_report(old(self)@, outcome),
            consistent(final(self)@),
    {
        proof {
            use_type_invariant(&*self);
        }
        if self.running > 0 {
            self.running = self.running - 1;
            if self.failure.is_none() {
                if let Err(kind) = outcome {
                    self.failure = Some(kind);
                }
            }
        }
    }
}

/// No decision and no report lets more jobs run than the pool has workers.
pub proof fn law_pool_bounds_running(d: DispatcherView, outcome: Result<(), ErrorKind>)
    requires
        consistent(d),
    ensures
        consistent(after_decision(d)),
        consistent(after_report(d, outcome)),
        after_decision(d).running <= d.capacity,
        after_report(d, outcome).running <= d.capacity,
{
}

/// Jobs are submitted in order and without a gap: the job submitted is the
/// one whose number is the count of jobs submitted before it.
pub proof fn law_submission_in_order(d: DispatcherView)
    requires
        consistent(d),
    ensures
        decision(d) matches Dispatch::Submit(job) ==> job == d.submitted && after_decision(
            d,
        ).submitted == job + 1,
        !(decision(d) is Submit) ==> after_decision(d) == d,
{
}

/// Once a job has failed no further job is submitted, and the run ends as
/// failed with the first failure as soon as no job runs any more.
pub proof fn law_failure_stops_submission(d: DispatcherView)
    requires
        consistent(d),
        d.failure is Some,
    ensures
        !(decision(d) is Submit),
        !(decision(d) is Finished),
        d.running == 0 ==> decision(d) == Dispatch::Aborted(d.failure->0),
{
}

/// The run is over only when no job runs, and it is over with success only
/// when every job of the run was submitted.
pub proof fn law_run_ends_when_all_done(d: DispatcherView)
    requires
        consistent(d),
    ensures
        decision(d) is Finished || decision(d) is Aborted ==> d.running == 0,
        decision(d) matches Dispatch::Finished(done) ==> done == d.total && d.failure is None,
{
}

} // verus!
