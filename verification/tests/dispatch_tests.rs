use video_dispatch::decode::jobs_from_event;
use video_dispatch::dispatch::{
    ack_after_launch, decide_ack, status_after_attempt, JobStatus, MessageDispatch,
};
use video_dispatch::launch::{classify_run_outcome, LaunchResult};
use video_dispatch::registry::AppState;

#[test]
fn accepted_launch_with_token_is_acked() {
    let outcome = LaunchResult::Launched { handle: String::from("arn:1") };
    assert!(ack_after_launch(&outcome, &String::from("receipt")));
}

#[test]
fn rejected_launch_is_never_acked() {
    let outcome = LaunchResult::Failed { reason: String::from("capacity") };
    assert!(!ack_after_launch(&outcome, &String::from("receipt")));
}

#[test]
fn accepted_launch_without_token_is_not_acked() {
    let outcome = LaunchResult::Launched { handle: String::from("arn:1") };
    assert!(!ack_after_launch(&outcome, &String::from("")));
}

#[test]
fn message_is_acked_only_when_every_job_launched() {
    let all = vec![
        LaunchResult::Launched { handle: String::from("a") },
        LaunchResult::Launched { handle: String::from("b") },
    ];
    assert!(decide_ack(&all));
    let one_failed = vec![
        LaunchResult::Launched { handle: String::from("a") },
        LaunchResult::Failed { reason: String::from("denied") },
    ];
    assert!(!decide_ack(&one_failed));
    let none: Vec<LaunchResult> = Vec::new();
    assert!(decide_ack(&none));
}

#[test]
fn ledger_acks_exactly_when_all_attempts_succeed() {
    let mut d = MessageDispatch::new(2);
    assert!(!d.complete());
    d.record(true);
    d.record(true);
    assert!(d.complete());
    assert!(d.should_ack());

    let mut d = MessageDispatch::new(2);
    d.record(true);
    d.record(false);
    assert!(d.complete());
    assert!(!d.should_ack());
}

#[test]
fn an_attempt_ends_launched_or_failed() {
    let accepted = LaunchResult::Launched { handle: String::from("arn:1") };
    assert_eq!(status_after_attempt(&accepted), JobStatus::Launched);
    let rejected = LaunchResult::Failed { reason: String::from("denied") };
    assert_eq!(status_after_attempt(&rejected), JobStatus::Failed);
}

#[test]
fn scenario_one_message_launch_and_ack() {
    // One message, one record: decode, enqueue, launch by hand,
    // acknowledge with the original token, registry back to empty.
    let body = r#"{"records":[{"s3":{"bucket":{"name":"b"},"object":{"key":"movie.mp4"}}}]}"#;
    let jobs = jobs_from_event(body, "token-7").unwrap();
    assert_eq!(jobs.len(), 1);
    assert_eq!(jobs[0].bucket, "b");
    assert_eq!(jobs[0].key, "movie.mp4");

    let mut st = AppState::new();
    for j in jobs {
        st.push_message(j);
    }
    assert_eq!(st.len(), 1);

    let job = st.remove_selected().unwrap();
    let handles = vec![String::from("arn:task/42")];
    let failures: Vec<String> = Vec::new();
    let outcome = classify_run_outcome(&handles, &failures);
    assert!(ack_after_launch(&outcome, &job.receipt_handle));
    assert_eq!(job.receipt_handle, "token-7");
    assert_eq!(st.len(), 0);
}

#[test]
fn scenario_malformed_body_changes_nothing() {
    // A malformed body: decode reports the error, the registry is
    // untouched, nothing is acknowledged.
    let mut st = AppState::new();
    let r = jobs_from_event("{not json", "token");
    assert!(r.is_err());
    assert_eq!(st.len(), 0);
    assert!(st.remove_selected().is_none());
}

#[test]
fn scenario_two_records_are_independent() {
    // Two records in one message: two jobs; launching and acking one
    // leaves the other pending.
    let body = r#"{"records":[{"s3":{"bucket":{"name":"b"},"object":{"key":"one.mp4"}}},{"s3":{"bucket":{"name":"b"},"object":{"key":"two.mp4"}}}]}"#;
    let jobs = jobs_from_event(body, "token").unwrap();
    assert_eq!(jobs.len(), 2);

    let mut st = AppState::new();
    for j in jobs {
        st.push_message(j);
    }
    let first = st.remove_selected().unwrap();
    assert_eq!(first.key, "one.mp4");
    let outcome = classify_run_outcome(&vec![String::from("arn:1")], &Vec::new());
    assert!(ack_after_launch(&outcome, &first.receipt_handle));

    assert_eq!(st.len(), 1);
    let (left, _) = st.snapshot();
    assert_eq!(left[0].key, "two.mp4");
}
