//! The shared pending-job registry.
//!
//! An ordered sequence of decoded jobs plus a selection cursor.  The
//! cursor is kept inside `[0, len - 1]` whenever the registry is
//! non-empty, and sits at `0` when it is empty; every operation
//! re-establishes that invariant.  The surrounding application wraps an
//! [`AppState`] in a mutex and performs each operation while holding the
//! lock, so any concurrent interleaving of poller pushes and foreground
//! removals is some sequence of these atomic steps; the lemmas at the
//! bottom state what every such sequence preserves.

use vstd::prelude::*;
use vstd::multiset::Multiset;

verus! {

/// One pending transcoding job: the source object's bucket and key, and
/// the ack token of the queue message the job was decoded from.
#[derive(Debug)]
pub struct VideoMessage {
    pub bucket: String,
    pub key: String,
    pub receipt_handle: String,
}

impl Clone for VideoMessage {
    fn clone(&self) -> (r: Self)
        ensures
            r == *self,
    {
        VideoMessage {
            bucket: self.bucket.clone(),
            key: self.key.clone(),
            receipt_handle: self.receipt_handle.clone(),
        }
    }
}

/// The mathematical content of a registry: the job sequence in arrival
/// order and the cursor position.
#[verifier::ext_equal]
pub struct RegistryModel {
    pub jobs: Seq<VideoMessage>,
    pub sel: nat,
}

impl RegistryModel {
    /// The cursor invariant: inside `[0, len - 1]` when jobs are
    /// pending, pinned to `0` when none are.
    pub open spec fn wf(self) -> bool {
        if self.jobs.len() == 0 {
            self.sel == 0
        } else {
            self.sel < self.jobs.len()
        }
    }
}

/// Appending a job; a push into an empty registry selects the new job.
pub open spec fn reg_push(m: RegistryModel, v: VideoMessage) -> RegistryModel {
    RegistryModel {
        jobs: m.jobs.push(v),
        sel: if m.jobs.len() == 0 { 0 } else { m.sel },
    }
}

/// Moving the cursor down one entry, clamped to the last entry.
pub open spec fn reg_next(m: RegistryModel) -> RegistryModel {
    if m.jobs.len() == 0 {
        m
    } else if m.sel + 1 < m.jobs.len() {
        RegistryModel { jobs: m.jobs, sel: (m.sel + 1) as nat }
    } else {
        RegistryModel { jobs: m.jobs, sel: (m.jobs.len() - 1) as nat }
    }
}

/// Moving the cursor up one entry, clamped to the first entry.
pub open spec fn reg_prev(m: RegistryModel) -> RegistryModel {
    if m.jobs.len() == 0 || m.sel == 0 {
        m
    } else {
        RegistryModel { jobs: m.jobs, sel: (m.sel - 1) as nat }
    }
}

/// Removing the selected job and re-clamping the cursor; on an empty
/// registry nothing changes and nothing is returned.
pub open spec fn reg_remove(m: RegistryModel) -> (RegistryModel, Option<VideoMessage>) {
    if m.jobs.len() == 0 {
        (m, None)
    } else {
        let v = m.jobs[m.sel as int];
        let rest = m.jobs.remove(m.sel as int);
        let sel2: nat = if m.sel < rest.len() {
            m.sel
        } else if rest.len() == 0 {
            0
        } else {
            (rest.len() - 1) as nat
        };
        (RegistryModel { jobs: rest, sel: sel2 }, Some(v))
    }
}

/// The registry itself.  The application owns one of these behind a
/// mutex; the methods below are its only operations.
pub struct AppState {
    messages: Vec<VideoMessage>,
    selected: usize,
}

impl View for AppState {
    type V = RegistryModel;

    closed spec fn view(&self) -> RegistryModel {
        RegistryModel { jobs: self.messages@, sel: self.selected as nat }
    }
}

impl AppState {
    pub open spec fn wf(&self) -> bool {
        self@.wf()
    }

    /// An empty registry with the cursor at the origin.
    pub fn new() -> (r: Self)
        ensures
            r@.jobs == Seq::<VideoMessage>::empty(),
            r@.sel == 0,
            r.wf(),
    {
        AppState { messages: Vec::new(), selected: 0 }
    }

    /// Appends a job at the end; if the registry was empty the new job
    /// becomes the selected one.
    pub fn push_message(&mut self, m: VideoMessage)
        requires
            old(self).wf(),
        ensures
            final(self)@ == reg_push(old(self)@, m),
            final(self).wf(),
    {
        self.messages.push(m);
        if self.messages.len() == 1 {
            self.selected = 0;
        }
    }

    /// Removes and returns the selected job, re-clamping the cursor;
    /// returns `None` on an empty registry.
    pub fn remove_selected(&mut self) -> (r: Option<VideoMessage>)
        requires
            old(self).wf(),
        ensures
            final(self)@ == reg_remove(old(self)@).0,
            r == reg_remove(old(self)@).1,
            final(self).wf(),
    {
        if self.messages.len() == 0 {
            return None;
        }
        let v = self.messages.remove(self.selected);
        if self.messages.len() == 0 {
            self.selected = 0;
        } else if self.selected >= self.messages.len() {
            self.selected = self.messages.len() - 1;
        }
        Some(v)
    }

    /// Moves the selection one entry towards the end, staying on the
    /// last entry; a no-op on an empty registry.
    pub fn next(&mut self)
        requires
            old(self).wf(),
        ensures
            final(self)@ == reg_next(old(self)@),
            final(self).wf(),
    {
        if self.messages.len() > 0 {
            if self.selected + 1 < self.messages.len() {
                self.selected = self.selected + 1;
            } else {
                self.selected = self.messages.len() - 1;
            }
        }
    }

    /// Moves the selection one entry towards the start, staying on the
    /// first entry; a no-op on an empty registry.
    pub fn previous(&mut self)
        requires
            old(self).wf(),
        ensures
            final(self)@ == reg_prev(old(self)@),
            final(self).wf(),
    {
        if self.messages.len() > 0 && self.selected > 0 {
            self.selected = self.selected - 1;
        }
    }

    /// How many jobs are pending.
    pub fn len(&self) -> (n: usize)
        ensures
            n == self@.jobs.len(),
    {
        self.messages.len()
    }

    /// A consistent point-in-time copy for rendering: the jobs in
    /// arrival order and the cursor position.  The caller takes it
    /// under the same lock it uses for mutation.
    pub fn snapshot(&self) -> (r: (Vec<VideoMessage>, usize))
        requires
            self.wf(),
        ensures
            r.0@ == self@.jobs,
            r.1 == self@.sel,
    {
        let mut copy: Vec<VideoMessage> = Vec::new();
        let mut i: usize = 0;
        while i < self.messages.len()
            invariant
                i <= self.messages.len(),
                copy@ =~= self.messages@.subrange(0, i as int),
            decreases self.messages.len() - i,
        {
            copy.push(self.messages[i].clone());
            i = i + 1;
        }
        proof {
            assert(copy@ =~= self@.jobs);
        }
        (copy, self.selected)
    }
}

/// One atomic registry operation, as the two concurrent agents issue
/// them: the poller pushes, the foreground moves the cursor and removes.
pub enum RegistryOp {
    Push(VideoMessage),
    SelectNext,
    SelectPrevious,
    RemoveSelected,
}

/// One step of the registry seen as a transition system: the state after
/// the operation and the job the operation handed out, if any.
pub open spec fn reg_step(m: RegistryModel, op: RegistryOp) -> (RegistryModel, Option<VideoMessage>) {
    match op {
        RegistryOp::Push(v) => (reg_push(m, v), None),
        RegistryOp::SelectNext => (reg_next(m), None),
        RegistryOp::SelectPrevious => (reg_prev(m), None),
        RegistryOp::RemoveSelected => reg_remove(m),
    }
}

/// Running a whole sequence of atomic operations: the final state and
/// the removed jobs in removal order.
pub open spec fn run_ops(m: RegistryModel, ops: Seq<RegistryOp>) -> (RegistryModel, Seq<VideoMessage>)
    decreases ops.len(),
{
    if ops.len() == 0 {
        (m, Seq::empty())
    } else {
        let stepped = reg_step(m, ops[0]);
        let rest = run_ops(stepped.0, ops.drop_first());
        (
            rest.0,
            match stepped.1 {
                Some(v) => seq![v] + rest.1,
                None => rest.1,
            },
        )
    }
}

/// The multiset of jobs that a sequence of operations pushes.
pub open spec fn pushed_of(ops: Seq<RegistryOp>) -> Multiset<VideoMessage>
    decreases ops.len(),
{
    if ops.len() == 0 {
        Multiset::empty()
    } else {
        let head: Multiset<VideoMessage> = match ops[0] {
            RegistryOp::Push(v) => Multiset::empty().insert(v),
            _ => Multiset::empty(),
        };
        head.add(pushed_of(ops.drop_first()))
    }
}

/// A single operation keeps the cursor invariant.
pub proof fn lemma_step_preserves_wf(m: RegistryModel, op: RegistryOp)
    requires
        m.wf(),
    ensures
        reg_step(m, op).0.wf(),
{
}

/// The selection index is within `[0, len - 1]`, or the registry is
/// empty, after any sequence of push / select-next / select-previous /
/// remove-selected operations.
pub proof fn lemma_cursor_always_in_range(m: RegistryModel, ops: Seq<RegistryOp>)
    requires
        m.wf(),
    ensures
        run_ops(m, ops).0.wf(),
    decreases ops.len(),
{
    if ops.len() > 0 {
        lemma_step_preserves_wf(m, ops[0]);
        lemma_cursor_always_in_range(reg_step(m, ops[0]).0, ops.drop_first());
    }
}

/// No interleaving of pushes and removals loses or duplicates a job:
/// over any operation sequence, the jobs present at the start plus the
/// jobs pushed are exactly the jobs still present at the end plus the
/// jobs handed out, as multisets.
pub proof fn lemma_no_job_lost_or_duplicated(m: RegistryModel, ops: Seq<RegistryOp>)
    requires
        m.wf(),
    ensures
        ({
            let outcome = run_ops(m, ops);
            m.jobs.to_multiset().add(pushed_of(ops)) =~= outcome.0.jobs.to_multiset().add(
                outcome.1.to_multiset(),
            )
        }),
    decreases ops.len(),
{
    broadcast use vstd::seq_lib::group_to_multiset_ensures;

    if ops.len() > 0 {
        let stepped = reg_step(m, ops[0]);
        lemma_step_preserves_wf(m, ops[0]);
        lemma_no_job_lost_or_duplicated(stepped.0, ops.drop_first());
        let rest = run_ops(stepped.0, ops.drop_first());
        let outcome = run_ops(m, ops);
        let pushed_rest = pushed_of(ops.drop_first());
        assert(outcome.0 == rest.0);
        match ops[0] {
            RegistryOp::Push(v) => {
                assert(stepped.0.jobs.to_multiset() =~= m.jobs.to_multiset().insert(v));
                assert(pushed_of(ops) == Multiset::empty().insert(v).add(pushed_rest));
                assert(m.jobs.to_multiset().add(pushed_of(ops)) =~= stepped.0.jobs.to_multiset()
                    .add(pushed_rest));
            }
            RegistryOp::RemoveSelected => {
                assert(pushed_of(ops) == Multiset::<VideoMessage>::empty().add(pushed_rest));
                if m.jobs.len() > 0 {
                    let v = m.jobs[m.sel as int];
                    assert(stepped.0.jobs.to_multiset() =~= m.jobs.to_multiset().remove(v));
                    assert(m.jobs.to_multiset().count(v) > 0);
                    assert(outcome.1 == seq![v] + rest.1);
                    assert((seq![v] + rest.1).to_multiset() =~= rest.1.to_multiset().insert(v)) by {
                        assert(seq![v] + rest.1 =~= rest.1.insert(0, v));
                        vstd::seq_lib::to_multiset_insert(rest.1, 0, v);
                    }
                    assert forall|x: VideoMessage|
                        m.jobs.to_multiset().add(pushed_of(ops)).count(x) == outcome.0.jobs
                            .to_multiset().add(outcome.1.to_multiset()).count(x) by {
                        assert(stepped.0.jobs.to_multiset().add(pushed_rest).count(x) == rest.0.jobs
                            .to_multiset().add(rest.1.to_multiset()).count(x));
                        if x == v {
                            assert(stepped.0.jobs.to_multiset().count(x) == m.jobs.to_multiset()
                                .count(x) - 1);
                            assert(outcome.1.to_multiset().count(x) == rest.1.to_multiset().count(x)
                                + 1);
                        } else {
                            assert(stepped.0.jobs.to_multiset().count(x) == m.jobs.to_multiset()
                                .count(x));
                            assert(outcome.1.to_multiset().count(x) == rest.1.to_multiset().count(
                                x));
                        }
                    }
                    assert(m.jobs.to_multiset().add(pushed_of(ops)) =~= outcome.0.jobs.to_multiset()
                        .add(outcome.1.to_multiset()));
                }
            }
            RegistryOp::SelectNext => {
                assert(stepped.0.jobs == m.jobs);
                assert(pushed_of(ops) == Multiset::<VideoMessage>::empty().add(pushed_rest));
                assert(m.jobs.to_multiset().add(pushed_of(ops)) =~= m.jobs.to_multiset().add(
                    pushed_rest));
            }
            RegistryOp::SelectPrevious => {
                assert(stepped.0.jobs == m.jobs);
                assert(pushed_of(ops) == Multiset::<VideoMessage>::empty().add(pushed_rest));
                assert(m.jobs.to_multiset().add(pushed_of(ops)) =~= m.jobs.to_multiset().add(
                    pushed_rest));
            }
        }
    }
}

} // verus!
