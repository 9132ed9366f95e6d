use wavbatch::batch::{
    all_done, classify_outcome, finish_job, start_job, summarize, JobOutcome, JobState,
};

#[test]
fn a_job_starts_and_finishes_once() {
    let s = start_job(JobState::Pending);
    assert_eq!(s, JobState::Running);
    assert_eq!(finish_job(s, true), JobState::Succeeded);
    let s = start_job(JobState::Pending);
    assert_eq!(finish_job(s, false), JobState::Failed);
}

#[test]
fn the_batch_is_done_only_when_every_job_is() {
    let part = vec![JobState::Succeeded, JobState::Running, JobState::Failed];
    assert!(!all_done(&part));
    let full = vec![JobState::Succeeded, JobState::Failed, JobState::Succeeded];
    assert!(all_done(&full));
    assert!(all_done(&Vec::new()));
}

#[test]
fn success_concatenates_both_captured_streams() {
    let r = classify_outcome(true, "out".to_string(), "err".to_string());
    match r {
        JobOutcome::Succeeded(text) => assert_eq!(text, "outerr"),
        JobOutcome::Failed(_) => panic!("a zero exit status was classified as a failure"),
    }
}

#[test]
fn failure_keeps_the_error_stream() {
    let r = classify_outcome(false, "out".to_string(), "boom".to_string());
    match r {
        JobOutcome::Failed(text) => assert_eq!(text, "boom"),
        JobOutcome::Succeeded(_) => panic!("a non-zero exit status was classified as a success"),
    }
}

#[test]
fn failed_jobs_do_not_hide_their_siblings() {
    let s = summarize(&vec![true, false, true, false, false]);
    assert_eq!(s.total, 5);
    assert_eq!(s.succeeded, 2);
    assert_eq!(s.failed, 3);
}

#[test]
fn an_all_failed_batch_still_accounts_for_every_job() {
    let s = summarize(&vec![false, false]);
    assert_eq!(s.total, 2);
    assert_eq!(s.succeeded, 0);
    assert_eq!(s.failed, 2);
}

#[test]
fn an_empty_batch_summarizes_to_zero_jobs() {
    let s = summarize(&Vec::new());
    assert_eq!(s.total, 0);
    assert_eq!(s.succeeded, 0);
    assert_eq!(s.failed, 0);
}
