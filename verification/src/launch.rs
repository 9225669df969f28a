//! Assembling and reading launch requests.
//!
//! A launch submits one job to a compute backend.  Two backends exist —
//! a one-shot task on the managed orchestrator and a container started
//! directly on the local runtime — and both take the same environment
//! entries: the source key and the credential material the task needs
//! to reach the object store.  The functions here build that request
//! and read the backend's answer; performing the submission is the
//! surrounding application's part.

use vstd::prelude::*;
use crate::registry::VideoMessage;

verus! {

/// One environment entry handed to a launch.
pub struct EnvEntry {
    pub name: String,
    pub value: String,
}

impl Clone for EnvEntry {
    fn clone(&self) -> (r: Self)
        ensures
            r == *self,
    {
        EnvEntry { name: self.name.clone(), value: self.value.clone() }
    }
}

/// Credential material a launched task is handed.  An empty session
/// token stands for none.
pub struct Credentials {
    pub access_key_id: String,
    pub secret_access_key: String,
    pub region: String,
    pub session_token: String,
}

/// The entries' views, in order.
pub open spec fn env_views(es: Seq<EnvEntry>) -> Seq<(Seq<char>, Seq<char>)> {
    Seq::new(es.len(), |i: int| (es[i].name@, es[i].value@))
}

/// The environment every launch passes: the source key, then the
/// credential fields, then the session token exactly when one is set.
pub open spec fn launch_env_model(key: Seq<char>, c: Credentials) -> Seq<(Seq<char>, Seq<char>)> {
    let base = seq![
        ("SOURCE_KEY"@, key),
        ("AWS_ACCESS_KEY_ID"@, c.access_key_id@),
        ("AWS_SECRET_ACCESS_KEY"@, c.secret_access_key@),
        ("AWS_REGION"@, c.region@),
    ];
    if c.session_token@.len() == 0 {
        base
    } else {
        base.push(("AWS_SESSION_TOKEN"@, c.session_token@))
    }
}

/// Builds the launch environment for one source key.
pub fn build_launch_env(key: &String, creds: &Credentials) -> (r: Vec<EnvEntry>)
    ensures
        env_views(r@) == launch_env_model(key@, *creds),
{
    let mut out: Vec<EnvEntry> = Vec::new();
    out.push(EnvEntry { name: String::from_str("SOURCE_KEY"), value: key.clone() });
    out.push(
        EnvEntry {
            name: String::from_str("AWS_ACCESS_KEY_ID"),
            value: creds.access_key_id.clone(),
        },
    );
    out.push(
        EnvEntry {
            name: String::from_str("AWS_SECRET_ACCESS_KEY"),
            value: creds.secret_access_key.clone(),
        },
    );
    out.push(EnvEntry { name: String::from_str("AWS_REGION"), value: creds.region.clone() });
    if !creds.session_token.as_str().is_empty() {
        out.push(
            EnvEntry {
                name: String::from_str("AWS_SESSION_TOKEN"),
                value: creds.session_token.clone(),
            },
        );
    }
    proof {
        assert(env_views(out@) =~= launch_env_model(key@, *creds));
    }
    out
}

/// Which backend a launch goes to, with that backend's parameters.
pub enum LauncherConfig {
    /// A one-shot containerized task on the managed orchestrator:
    /// compute cluster, task template, network placement.
    RemoteOrchestrator {
        cluster: String,
        task_definition: String,
        subnets: Vec<String>,
        security_group: String,
        assign_public_ip: bool,
    },
    /// A container started directly on the local runtime.
    LocalRuntime { image: String },
}

/// One fully assembled submission: the job and the environment entries
/// the backend passes to the task.
pub struct LaunchRequest {
    pub job: VideoMessage,
    pub env: Vec<EnvEntry>,
}

/// Builds the submission for one job: the job itself, and the
/// environment built from the job's source key and the credentials.
pub fn prepare_launch(job: VideoMessage, creds: &Credentials) -> (r: LaunchRequest)
    ensures
        r.job == job,
        env_views(r.env@) == launch_env_model(job.key@, *creds),
{
    let env = build_launch_env(&job.key, creds);
    LaunchRequest { job, env }
}

/// What one launch attempt came to.  Each attempt submits exactly once:
/// no retry, no deduplication.
pub enum LaunchResult {
    /// The backend accepted the task, assigning this handle.
    Launched { handle: String },
    /// The backend rejected the submission, for this stated reason.
    Failed { reason: String },
}

/// Reads a backend's run answer: the task handles it started and the
/// failure notes it returned.  An answer with at least one started task
/// is an acceptance carrying the first handle; any other answer is a
/// rejection carrying the first failure note, or a fixed note when the
/// backend said nothing at all.
pub fn classify_run_outcome(task_handles: &Vec<String>, failures: &Vec<String>) -> (r: LaunchResult)
    ensures
        match r {
            LaunchResult::Launched { handle } => task_handles@.len() > 0 && handle@
                == task_handles@[0]@,
            LaunchResult::Failed { reason } => task_handles@.len() == 0 && reason@ == (
            if failures@.len() > 0 {
                failures@[0]@
            } else {
                "backend returned no task"@
            }),
        },
{
    if task_handles.len() > 0 {
        LaunchResult::Launched { handle: task_handles[0].clone() }
    } else if failures.len() > 0 {
        LaunchResult::Failed { reason: failures[0].clone() }
    } else {
        LaunchResult::Failed { reason: String::from_str("backend returned no task") }
    }
}

} // verus!
