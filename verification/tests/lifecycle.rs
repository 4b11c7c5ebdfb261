use block_dispatch::error::ErrorKind;
use block_dispatch::job::{materialize, Job, JobTuple};
use block_dispatch::lifecycle::{over, JobAction, JobState};

fn job(script: bool, do_delete: bool) -> Job {
    let tuple = JobTuple { count: 0, continuous_index: 0, blocks: vec![Some("x".to_string())] };
    let script = if script { Some("p.gp".to_string()) } else { None };
    materialize(&tuple, &script, "/t", do_delete)
}

fn drive(job: &Job, outcomes: &[bool]) -> (Vec<JobAction>, JobState) {
    let mut state = JobState::Created;
    let mut actions = Vec::new();
    let mut step = 0;
    while !over(state) {
        let action = job.action(state);
        let done = if action == JobAction::Nothing {
            true
        } else {
            actions.push(action);
            let done = outcomes[step];
            step += 1;
            done
        };
        state = job.advance(state, done);
    }
    (actions, state)
}

#[test]
fn job_is_staged_invoked_and_cleaned() {
    let (actions, state) = drive(&job(true, true), &[true, true, true]);
    assert_eq!(
        actions,
        vec![JobAction::StageFiles, JobAction::InvokeCommand, JobAction::DeleteFiles]
    );
    assert_eq!(state, JobState::Cleaned);
}

#[test]
fn job_that_keeps_its_files_ends_after_the_command() {
    let (actions, state) = drive(&job(true, false), &[true, true]);
    assert_eq!(actions, vec![JobAction::StageFiles, JobAction::InvokeCommand]);
    assert_eq!(state, JobState::Terminal);
}

#[test]
fn job_without_command_skips_invocation_and_cleanup() {
    let j = job(false, true);
    let (actions, state) = drive(&j, &[true]);
    assert_eq!(actions, vec![JobAction::StageFiles]);
    assert_eq!(state, JobState::Terminal);
    assert_eq!(j.advance(JobState::Staged, true), JobState::SkippedInvocation);
    assert_eq!(j.advance(JobState::Staged, false), JobState::SkippedInvocation);
    assert_eq!(j.advance(JobState::SkippedInvocation, true), JobState::Terminal);
}

#[test]
fn failed_step_ends_the_job_with_its_kind() {
    let j = job(true, true);
    assert_eq!(drive(&j, &[false]).1, JobState::Failed(ErrorKind::StagingIo));
    assert_eq!(drive(&j, &[true, false]).1, JobState::Failed(ErrorKind::Invocation));
    assert_eq!(drive(&j, &[true, true, false]).1, JobState::Failed(ErrorKind::CleanupIo));
    assert_eq!(drive(&j, &[true, false]).0.len(), 2);
}

#[test]
fn finished_job_stays_as_it_is() {
    let j = job(true, true);
    for state in [JobState::Cleaned, JobState::Terminal, JobState::Failed(ErrorKind::Invocation)] {
        assert!(over(state));
        assert_eq!(j.action(state), JobAction::Nothing);
        assert_eq!(j.advance(state, true), state);
        assert_eq!(j.advance(state, false), state);
    }
    for state in [
        JobState::Created,
        JobState::Staged,
        JobState::Invoked,
        JobState::SkippedInvocation,
    ] {
        assert!(!over(state));
    }
}
