//! The life of one job: which outside work comes next, and which state the
//! job is in once that work has succeeded or failed.

use vstd::prelude::*;
use crate::error::ErrorKind;
use crate::job::{Job, JobView};

verus! {

/// Where a job stands.
#[derive(Clone, Copy, Debug, PartialEq, Eq, Structural)]
pub enum JobState {
    /// Nothing was done yet.
    Created,
    /// The files are written.
    Staged,
    /// The command ran and exited with success.
    Invoked,
    /// No command is configured, so none was run.
    SkippedInvocation,
    /// The staged files are deleted. The job is over.
    Cleaned,
    /// The job is over and its staged files are left in place.
    Terminal,
    /// The job is over: a step failed, and the run fails with it.
    Failed(ErrorKind),
}

/// The outside work that a job asks for.
#[derive(Clone, Copy, Debug, PartialEq, Eq, Structural)]
pub enum JobAction {
    /// Write each staged file and flush it.
    StageFiles,
    /// Run the plotting command and wait for it.
    InvokeCommand,
    /// Delete each staged file.
    DeleteFiles,
    /// Nothing: the job moves on by itself, or is over.
    Nothing,
}

/// Tells whether a job in `state` is over.
pub open spec fn is_over(state: JobState) -> bool {
    state is Cleaned || state is Terminal || state is Failed
}

/// The work that `job` asks for in `state`.
pub open spec fn action_in(job: JobView, state: JobState) -> JobAction {
    match state {
        JobState::Created => JobAction::StageFiles,
        JobState::Staged => if job.command is Some {
            JobAction::InvokeCommand
        } else {
            JobAction::Nothing
        },
        JobState::Invoked => if job.cleanup {
            JobAction::DeleteFiles
        } else {
            JobAction::Nothing
        },
        _ => JobAction::Nothing,
    }
}

/// The state of `job` after the work asked for in `state` was done, with
/// success where `done` holds. Where no work was asked for `done` is not
/// looked at.
pub open spec fn state_after(job: JobView, state: JobState, done: bool) -> JobState {
    match state {
        JobState::Created => if done {
            JobState::Staged
        } else {
            JobState::Failed(ErrorKind::StagingIo)
        },
        JobState::Staged => if job.command is None {
            JobState::SkippedInvocation
        } else if done {
            JobState::Invoked
        } else {
            JobState::Failed(ErrorKind::Invocation)
        },
        JobState::Invoked => if !job.cleanup {
            JobState::Terminal
        } else if done {
            JobState::Cleaned
        } else {
            JobState::Failed(ErrorKind::CleanupIo)
        },
        JobState::SkippedInvocation => JobState::Terminal,
        JobState::Cleaned => JobState::Cleaned,
        JobState::Terminal => JobState::Terminal,
        JobState::Failed(kind) => JobState::Failed(kind),
    }
}

/// The state of `job` after `n` steps from `state`, each of which succeeded
/// or failed as `done` says of it.
pub open spec fn state_after_steps(
    job: JobView,
    state: JobState,
    done: spec_fn(nat) -> bool,
    n: nat,
) -> JobState
    decreases n,
{
    if n == 0 {
        state
    } else {
        let before = state_after_steps(job, state, done, (n - 1) as nat);
        state_after(job, before, done((n - 1) as nat))
    }
}

impl Job {
    /// The work that the job asks for in `state`.
    pub fn action(&self, state: JobState) -> (action: JobAction)
        ensures
            action == action_in(self@, state),
    {
        match state {
            JobState::Created => JobAction::StageFiles,
            JobState::Staged => if self.command.is_some() {
                JobAction::InvokeCommand
            } else {
                JobAction::Nothing
            },
            JobState::Invoked => if self.cleanup {
                JobAction::DeleteFiles
            } else {
                JobAction::Nothing
            },
            _ => JobAction::Nothing,
        }
    }

    /// The state of the job after the work asked for in `state` was done,
    /// with success where `done` holds.
    pub fn advance(&self, state: JobState, done: bool) -> (next: JobState)
        ensures
            next == state_after(self@, state, done),
    {
        match state {
            JobState::Created => if done {
                JobState::Staged
            } else {
                JobState::Failed(ErrorKind::StagingIo)
            },
            JobState::Staged => if self.command.is_none() {
                JobState::SkippedInvocation
            } else if done {
                JobState::Invoked
            } else {
                JobState::Failed(ErrorKind::Invocation)
            },
            JobState::Invoked => if !self.cleanup {
                JobState::Terminal
            } else if done {
                JobState::Cleaned
            } else {
                JobState::Failed(ErrorKind::CleanupIo)
            },
            JobState::SkippedInvocation => JobState::Terminal,
            JobState::Cleaned => JobState::Cleaned,
            JobState::Terminal => JobState::Terminal,
            JobState::Failed(kind) => JobState::Failed(kind),
        }
    }
}

/// Tells whether a job in `state` is over.
pub fn over(state: JobState) -> (b: bool)
    ensures
        b == is_over(state),
{
    match state {
        JobState::Cleaned => true,
        JobState::Terminal => true,
        JobState::Failed(_) => true,
        _ => false,
    }
}

/// Every job is over after three steps, whatever succeeds and whatever
/// fails, and stays in the state it ended in.
pub proof fn law_job_ends(job: JobView, done: spec_fn(nat) -> bool, n: nat)
    requires
        n >= 3,
    ensures
        is_over(state_after_steps(job, JobState::Created, done, n)),
        state_after_steps(job, JobState::Created, done, n) == state_after_steps(
            job,
            JobState::Created,
            done,
            3,
        ),
    decreases n,
{
    reveal_with_fuel(state_after_steps, 4);
    if n > 3 {
        law_job_ends(job, done, (n - 1) as nat);
    }
}

/// A job ends in `Cleaned` exactly where a command is configured, cleanup is
/// asked for, and staging, the command and the deletion all succeeded.
pub proof fn law_cleaned_when(job: JobView, done: spec_fn(nat) -> bool)
    ensures
        state_after_steps(job, JobState::Created, done, 3) is Cleaned <==> job.command is Some
            && job.cleanup && done(0) && done(1) && done(2),
{
    reveal_with_fuel(state_after_steps, 4);
}

/// A job without a command never asks for the command to be run. Where it
/// also asks for no cleanup, as every planned job without a command does, it
/// never asks for its files to be deleted: once staged they stay.
pub proof fn law_no_command_leaves_files(job: JobView, state: JobState)
    requires
        job.command is None,
    ensures
        action_in(job, state) != JobAction::InvokeCommand,
        !job.cleanup ==> action_in(job, state) != JobAction::DeleteFiles,
{
}

/// The files are deleted only after the command ran with success: the one
/// state in which a job asks for the deletion is `Invoked`.
pub proof fn law_delete_only_after_invocation(job: JobView, state: JobState)
    requires
        action_in(job, state) == JobAction::DeleteFiles,
    ensures
        state is Invoked,
        job.cleanup,
{
}

/// A failed step ends the job at once with the failure of that step.
pub proof fn law_failure_is_final(job: JobView, state: JobState)
    requires
        action_in(job, state) != JobAction::Nothing,
    ensures
        state_after(job, state, false) is Failed,
        state is Created ==> state_after(job, state, false) == JobState::Failed(
            ErrorKind::StagingIo,
        ),
        state is Staged ==> state_after(job, state, false) == JobState::Failed(
            ErrorKind::Invocation,
        ),
        state is Invoked ==> state_after(job, state, false) == JobState::Failed(
            ErrorKind::CleanupIo,
        ),
{
}

} // verus!
