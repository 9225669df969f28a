use video_dispatch::launch::{
    build_launch_env, classify_run_outcome, prepare_launch, Credentials, LaunchResult,
};
use video_dispatch::registry::VideoMessage;

fn creds(token: &str) -> Credentials {
    Credentials {
        access_key_id: String::from("AKIA"),
        secret_access_key: String::from("example-secret"),
        region: String::from("us-east-1"),
        session_token: String::from(token),
    }
}

#[test]
fn env_without_session_token_has_four_entries() {
    let env = build_launch_env(&String::from("k.mp4"), &creds(""));
    let pairs: Vec<(&str, &str)> =
        env.iter().map(|e| (e.name.as_str(), e.value.as_str())).collect();
    assert_eq!(
        pairs,
        vec![
            ("SOURCE_KEY", "k.mp4"),
            ("AWS_ACCESS_KEY_ID", "AKIA"),
            ("AWS_SECRET_ACCESS_KEY", "example-secret"),
            ("AWS_REGION", "us-east-1"),
        ]
    );
}

#[test]
fn env_with_session_token_appends_it() {
    let env = build_launch_env(&String::from("k.mp4"), &creds("tok"));
    assert_eq!(env.len(), 5);
    assert_eq!(env[4].name, "AWS_SESSION_TOKEN");
    assert_eq!(env[4].value, "tok");
}

#[test]
fn prepare_launch_carries_the_job() {
    let job = VideoMessage {
        bucket: String::from("b"),
        key: String::from("movie.mp4"),
        receipt_handle: String::from("r1"),
    };
    let req = prepare_launch(job, &creds(""));
    assert_eq!(req.job.key, "movie.mp4");
    assert_eq!(req.job.receipt_handle, "r1");
    assert_eq!(req.env[0].value, "movie.mp4");
}

#[test]
fn an_answer_with_a_task_is_an_acceptance() {
    let handles = vec![String::from("arn:task/1"), String::from("arn:task/2")];
    let failures: Vec<String> = Vec::new();
    match classify_run_outcome(&handles, &failures) {
        LaunchResult::Launched { handle } => assert_eq!(handle, "arn:task/1"),
        LaunchResult::Failed { .. } => panic!("expected an acceptance"),
    }
}

#[test]
fn an_answer_with_only_failures_is_a_rejection() {
    let handles: Vec<String> = Vec::new();
    let failures = vec![String::from("capacity")];
    match classify_run_outcome(&handles, &failures) {
        LaunchResult::Failed { reason } => assert_eq!(reason, "capacity"),
        LaunchResult::Launched { .. } => panic!("expected a rejection"),
    }
}

#[test]
fn a_silent_answer_is_a_rejection() {
    let handles: Vec<String> = Vec::new();
    let failures: Vec<String> = Vec::new();
    match classify_run_outcome(&handles, &failures) {
        LaunchResult::Failed { reason } => assert_eq!(reason, "backend returned no task"),
        LaunchResult::Launched { .. } => panic!("expected a rejection"),
    }
}
