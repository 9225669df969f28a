//! The per-message acknowledgement rules.
//!
//! A queue message is acknowledged only when the dispatcher is done
//! with every job the message produced.  In automatic dispatch the
//! whole message is processed in one sweep: each decoded job is
//! launched in turn, and the message is acknowledged exactly when every
//! launch was accepted.  In interactive dispatch each job carries its
//! own ack token and is acknowledged right after its own accepted
//! launch.  The deciding functions live here; the network calls they
//! decide about live in the surrounding application.

use vstd::prelude::*;
use crate::launch::LaunchResult;

verus! {

/// The states one job passes through: pending in the registry, then
/// one launch attempt, which ends accepted or rejected.
#[derive(Clone, Copy, Debug, PartialEq, Eq, Structural)]
pub enum JobStatus {
    Pending,
    Launching,
    Launched,
    Failed,
}

/// The legal moves of a job's status: a pending job starts its one
/// launch attempt, and the attempt ends accepted or rejected; nothing
/// moves out of `Launched` or `Failed`.
pub open spec fn status_step_ok(from: JobStatus, to: JobStatus) -> bool {
    match (from, to) {
        (JobStatus::Pending, JobStatus::Launching) => true,
        (JobStatus::Launching, JobStatus::Launched) => true,
        (JobStatus::Launching, JobStatus::Failed) => true,
        _ => false,
    }
}

/// `Launched` and `Failed` are terminal: no move leaves them.
pub proof fn lemma_terminal_states(to: JobStatus)
    ensures
        !status_step_ok(JobStatus::Launched, to),
        !status_step_ok(JobStatus::Failed, to),
{
}

/// The status a job's one attempt ends in: `Launched` on acceptance,
/// `Failed` on rejection — a legal move out of `Launching` either way.
pub fn status_after_attempt(outcome: &LaunchResult) -> (s: JobStatus)
    ensures
        s == (if outcome is Launched {
            JobStatus::Launched
        } else {
            JobStatus::Failed
        }),
        status_step_ok(JobStatus::Launching, s),
{
    match outcome {
        LaunchResult::Launched { .. } => JobStatus::Launched,
        LaunchResult::Failed { .. } => JobStatus::Failed,
    }
}

/// Whether the message a job came from is acknowledged after that
/// job's own launch attempt, as interactive dispatch does it: only on
/// acceptance, and only when the job carries an ack token.
pub fn ack_after_launch(outcome: &LaunchResult, receipt: &String) -> (r: bool)
    ensures
        r == ((outcome is Launched) && receipt@.len() > 0),
{
    match outcome {
        LaunchResult::Launched { .. } => !receipt.as_str().is_empty(),
        LaunchResult::Failed { .. } => false,
    }
}

/// Whether a whole message is acknowledged after automatic dispatch:
/// exactly when every one of its jobs' launches was accepted.  A
/// message with no job at all is acknowledged vacuously.
pub fn decide_ack(outcomes: &Vec<LaunchResult>) -> (ack: bool)
    ensures
        ack == (forall|i: int| 0 <= i < outcomes@.len() ==> outcomes@[i] is Launched),
{
    let mut i: usize = 0;
    while i < outcomes.len()
        invariant
            i <= outcomes@.len(),
            forall|j: int| 0 <= j < i ==> outcomes@[j] is Launched,
        decreases outcomes@.len() - i,
    {
        match &outcomes[i] {
            LaunchResult::Launched { .. } => {},
            LaunchResult::Failed { .. } => {
                return false;
            },
        }
        i = i + 1;
    }
    true
}

/// The per-message ledger of automatic dispatch: how many jobs the
/// message decoded to, and how each attempted launch ended.
pub struct MessageDispatch {
    total: usize,
    launched: usize,
    failed: usize,
}

/// The ledger's mathematical content.
pub struct LedgerModel {
    pub total: nat,
    pub launched: nat,
    pub failed: nat,
}

impl LedgerModel {
    pub open spec fn wf(self) -> bool {
        self.launched + self.failed <= self.total
    }

    /// All attempts are in and every one was accepted.
    pub open spec fn all_launched(self) -> bool {
        self.launched == self.total
    }
}

/// Recording one attempt's end.
pub open spec fn ledger_step(m: LedgerModel, accepted: bool) -> LedgerModel {
    if accepted {
        LedgerModel { launched: m.launched + 1, ..m }
    } else {
        LedgerModel { failed: m.failed + 1, ..m }
    }
}

/// Recording a whole sequence of attempts, first to last.
pub open spec fn ledger_run(m: LedgerModel, evs: Seq<bool>) -> LedgerModel
    decreases evs.len(),
{
    if evs.len() == 0 {
        m
    } else {
        ledger_run(ledger_step(m, evs[0]), evs.subrange(1, evs.len() as int))
    }
}

/// How many attempts of a sequence were accepted.
pub open spec fn accepted_count(evs: Seq<bool>) -> nat
    decreases evs.len(),
{
    if evs.len() == 0 {
        0
    } else {
        (if evs[0] {
            1nat
        } else {
            0nat
        }) + accepted_count(evs.subrange(1, evs.len() as int))
    }
}

impl View for MessageDispatch {
    type V = LedgerModel;

    closed spec fn view(&self) -> LedgerModel {
        LedgerModel {
            total: self.total as nat,
            launched: self.launched as nat,
            failed: self.failed as nat,
        }
    }
}

impl MessageDispatch {
    pub open spec fn wf(&self) -> bool {
        self@.wf()
    }

    /// A fresh ledger for a message that decoded to `total` jobs.
    pub fn new(total: usize) -> (r: Self)
        ensures
            r@ == (LedgerModel { total: total as nat, launched: 0, failed: 0 }),
            r.wf(),
    {
        MessageDispatch { total, launched: 0, failed: 0 }
    }

    /// Records how one attempt ended.
    pub fn record(&mut self, accepted: bool)
        requires
            old(self).wf(),
            old(self)@.launched + old(self)@.failed < old(self)@.total,
        ensures
            final(self)@ == ledger_step(old(self)@, accepted),
            final(self).wf(),
    {
        if accepted {
            self.launched = self.launched + 1;
        } else {
            self.failed = self.failed + 1;
        }
    }

    /// Whether every attempt is in.
    pub fn complete(&self) -> (r: bool)
        requires
            self.wf(),
        ensures
            r == (self@.launched + self@.failed == self@.total),
    {
        self.launched + self.failed == self.total
    }

    /// Whether the message is acknowledged: every job launched.
    pub fn should_ack(&self) -> (r: bool)
        ensures
            r == self@.all_launched(),
    {
        self.launched == self.total
    }
}

/// Running a ledger accumulates exactly the accepted attempts.
pub proof fn lemma_ledger_counts(m: LedgerModel, evs: Seq<bool>)
    ensures
        ledger_run(m, evs).total == m.total,
        ledger_run(m, evs).launched == m.launched + accepted_count(evs),
        ledger_run(m, evs).failed + ledger_run(m, evs).launched == m.failed + m.launched
            + evs.len(),
    decreases evs.len(),
{
    if evs.len() > 0 {
        lemma_ledger_counts(ledger_step(m, evs[0]), evs.subrange(1, evs.len() as int));
    }
}

/// A sequence's accepted count reaches its length exactly when every
/// attempt in it was accepted.
pub proof fn lemma_accepted_count_all(evs: Seq<bool>)
    ensures
        accepted_count(evs) <= evs.len(),
        (accepted_count(evs) == evs.len()) <==> (forall|i: int| 0 <= i < evs.len() ==> evs[i]),
    decreases evs.len(),
{
    if evs.len() > 0 {
        let rest = evs.subrange(1, evs.len() as int);
        lemma_accepted_count_all(rest);
        assert(forall|i: int| 1 <= i < evs.len() ==> evs[i] == rest[i - 1]);
        if accepted_count(evs) == evs.len() {
            assert(evs[0]);
        }
        if forall|i: int| 0 <= i < evs.len() ==> evs[i] {
            assert(forall|i: int| 0 <= i < rest.len() ==> rest[i]);
        }
    }
}

/// A message is acknowledged if and only if every job it produced was
/// launched through this dispatcher: over any full run of a message's
/// attempts, the ledger says to acknowledge exactly when each attempt
/// was accepted.
pub proof fn lemma_acked_iff_all_launched(total: nat, evs: Seq<bool>)
    requires
        evs.len() == total,
    ensures
        ({
            let end = ledger_run(LedgerModel { total, launched: 0, failed: 0 }, evs);
            end.all_launched() <==> (forall|i: int| 0 <= i < evs.len() ==> evs[i])
        }),
{
    let start = LedgerModel { total, launched: 0, failed: 0 };
    lemma_ledger_counts(start, evs);
    lemma_accepted_count_all(evs);
}

} // verus!
