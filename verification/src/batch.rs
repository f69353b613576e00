//! The decisions of a run over a list of files: each file is prepared in
//! order (or skipped when no comment token is known for it), and only once
//! every file has been prepared are the prepared files written back, in
//! order. A failure stops the run, so a file rejected while preparing leaves
//! every file unmodified.

use vstd::prelude::*;

verus! {

/// What the caller is to do next.
#[derive(Debug, PartialEq, Eq, Structural)]
pub enum BatchAction {
    /// Prepare the file with this index (or report that it is skipped).
    Prepare(usize),
    /// Write back the prepared file with this index.
    Commit(usize),
    /// Every prepared file was written back.
    Finish,
    /// A step failed; stop.
    Abort,
}

/// What came of the last action.
#[derive(Debug, PartialEq, Eq, Structural)]
pub enum BatchEvent {
    /// The file was prepared.
    Prepared,
    /// The file has no known comment token and is left alone.
    Skipped,
    /// Preparing the file failed.
    PrepareFailed,
    /// The prepared file was written back.
    Committed,
    /// Writing the prepared file back failed.
    CommitFailed,
}

/// The progress of a run.
pub struct BatchRun {
    file_count: usize,
    outcomes: Vec<bool>,
    prepared: Vec<usize>,
    committed: usize,
    failed: bool,
}

/// The indices `i < upto` with `outcomes[i]`, in order.
pub open spec fn prepared_indices(outcomes: Seq<bool>, upto: int) -> Seq<usize>
    decreases upto,
{
    if upto <= 0 {
        Seq::empty()
    } else if outcomes[upto - 1] {
        prepared_indices(outcomes, upto - 1).push((upto - 1) as usize)
    } else {
        prepared_indices(outcomes, upto - 1)
    }
}

impl BatchRun {
    /// The number of files of the run.
    pub closed spec fn spec_file_count(&self) -> nat {
        self.file_count as nat
    }

    /// For each file looked at so far: prepared (`true`) or skipped (`false`).
    pub closed spec fn spec_outcomes(&self) -> Seq<bool> {
        self.outcomes@
    }

    /// How many prepared files have been written back.
    pub closed spec fn spec_committed(&self) -> nat {
        self.committed as nat
    }

    /// Whether a step failed.
    pub closed spec fn spec_failed(&self) -> bool {
        self.failed
    }

    /// The indices of the prepared files, in order.
    pub open spec fn spec_prepared(&self) -> Seq<usize> {
        prepared_indices(self.spec_outcomes(), self.spec_outcomes().len() as int)
    }

    /// The run's bookkeeping is consistent: no more outcomes than files,
    /// no more commits than prepared files, and writing back starts only
    /// once every file has an outcome.
    pub closed spec fn wf(&self) -> bool {
        &&& self.outcomes@.len() <= self.file_count
        &&& self.prepared@ == prepared_indices(self.outcomes@, self.outcomes@.len() as int)
        &&& self.committed <= self.prepared@.len()
        &&& self.committed > 0 ==> self.outcomes@.len() == self.file_count
    }

    /// The action that the state calls for.
    pub open spec fn spec_next_action(&self) -> BatchAction {
        if self.spec_failed() {
            BatchAction::Abort
        } else if self.spec_outcomes().len() < self.spec_file_count() {
            BatchAction::Prepare(self.spec_outcomes().len() as usize)
        } else if self.spec_committed() < self.spec_prepared().len() {
            BatchAction::Commit(self.spec_prepared()[self.spec_committed() as int])
        } else {
            BatchAction::Finish
        }
    }

    /// A run over `file_count` files, none looked at yet.
    pub fn new(file_count: usize) -> (r: BatchRun)
        ensures
            r.wf(),
            r.spec_file_count() == file_count,
            r.spec_outcomes().len() == 0,
            r.spec_committed() == 0,
            !r.spec_failed(),
    {
        BatchRun { file_count, outcomes: Vec::new(), prepared: Vec::new(), committed: 0, failed: false }
    }

    /// The next action: abort after a failure; otherwise prepare the next
    /// file, then write back the prepared files in order, then finish.
    pub fn next_action(&self) -> (a: BatchAction)
        requires
            self.wf(),
        ensures
            a == self.spec_next_action(),
    {
        if self.failed {
            BatchAction::Abort
        } else if self.outcomes.len() < self.file_count {
            BatchAction::Prepare(self.outcomes.len())
        } else if self.committed < self.prepared.len() {
            BatchAction::Commit(self.prepared[self.committed])
        } else {
            BatchAction::Finish
        }
    }

    /// Records what came of the action that `next_action` called for. An
    /// event that does not answer that action changes nothing.
    pub fn record(&mut self, event: BatchEvent)
        requires
            old(self).wf(),
        ensures
            final(self).wf(),
            final(self).spec_file_count() == old(self).spec_file_count(),
            match (old(self).spec_next_action(), event) {
                (BatchAction::Prepare(_), BatchEvent::Prepared) => {
                    &&& final(self).spec_outcomes() == old(self).spec_outcomes().push(true)
                    &&& final(self).spec_committed() == old(self).spec_committed()
                    &&& !final(self).spec_failed()
                },
                (BatchAction::Prepare(_), BatchEvent::Skipped) => {
                    &&& final(self).spec_outcomes() == old(self).spec_outcomes().push(false)
                    &&& final(self).spec_committed() == old(self).spec_committed()
                    &&& !final(self).spec_failed()
                },
                (BatchAction::Prepare(_), BatchEvent::PrepareFailed) => {
                    &&& final(self).spec_outcomes() == old(self).spec_outcomes()
                    &&& final(self).spec_committed() == old(self).spec_committed()
                    &&& final(self).spec_failed()
                },
                (BatchAction::Commit(_), BatchEvent::Committed) => {
                    &&& final(self).spec_outcomes() == old(self).spec_outcomes()
                    &&& final(self).spec_committed() == old(self).spec_committed() + 1
                    &&& !final(self).spec_failed()
                },
                (BatchAction::Commit(_), BatchEvent::CommitFailed) => {
                    &&& final(self).spec_outcomes() == old(self).spec_outcomes()
                    &&& final(self).spec_committed() == old(self).spec_committed()
                    &&& final(self).spec_failed()
                },
                _ => {
                    &&& final(self).spec_outcomes() == old(self).spec_outcomes()
                    &&& final(self).spec_committed() == old(self).spec_committed()
                    &&& final(self).spec_failed() == old(self).spec_failed()
                },
            },
    {
        let action = self.next_action();
        match (action, event) {
            (BatchAction::Prepare(index), BatchEvent::Prepared) => {
                let ghost before = self.outcomes@;
                self.outcomes.push(true);
                self.prepared.push(index);
                proof {
                    assert(self.outcomes@.take(before.len() as int) =~= before);
                    lemma_prepared_indices_prefix(self.outcomes@, before, before.len() as int);
                }
            },
            (BatchAction::Prepare(_), BatchEvent::Skipped) => {
                let ghost before = self.outcomes@;
                self.outcomes.push(false);
                proof {
                    lemma_prepared_indices_prefix(self.outcomes@, before, before.len() as int);
                }
            },
            (BatchAction::Prepare(_), BatchEvent::PrepareFailed) => {
                self.failed = true;
            },
            (BatchAction::Commit(_), BatchEvent::Committed) => {
                let prepared_count = self.prepared.len();
                assert(self.committed < prepared_count);
                self.committed = self.committed + 1;
            },
            (BatchAction::Commit(_), BatchEvent::CommitFailed) => {
                self.failed = true;
            },
            _ => {},
        }
    }
}

proof fn lemma_prepared_indices_prefix(longer: Seq<bool>, shorter: Seq<bool>, upto: int)
    requires
        0 <= upto <= shorter.len() <= longer.len(),
        forall|i: int| 0 <= i < shorter.len() ==> longer[i] == shorter[i],
    ensures
        prepared_indices(longer, upto) == prepared_indices(shorter, upto),
    decreases upto,
{
    if upto > 0 {
        lemma_prepared_indices_prefix(longer, shorter, upto - 1);
    }
}

proof fn lemma_prepared_indices_members(outcomes: Seq<bool>, upto: int, k: int)
    requires
        0 <= upto <= outcomes.len() <= usize::MAX,
        0 <= k < prepared_indices(outcomes, upto).len(),
    ensures
        prepared_indices(outcomes, upto)[k] < upto,
        outcomes[prepared_indices(outcomes, upto)[k] as int],
    decreases upto,
{
    if upto > 0 {
        if outcomes[upto - 1] && k == prepared_indices(outcomes, upto - 1).len() {
        } else {
            lemma_prepared_indices_members(outcomes, upto - 1, k);
        }
    }
}

/// No file is written back before every file has been prepared or skipped.
pub proof fn law_nothing_written_before_all_prepared(run: BatchRun)
    requires
        run.wf(),
        run.spec_committed() > 0,
    ensures
        run.spec_outcomes().len() == run.spec_file_count(),
{
}

/// A failure while preparing leaves every file unmodified: nothing has been
/// written back, and the run only aborts from then on.
pub proof fn law_failed_preparation_writes_nothing(run: BatchRun)
    requires
        run.wf(),
        run.spec_failed(),
        run.spec_outcomes().len() < run.spec_file_count(),
    ensures
        run.spec_committed() == 0,
        run.spec_next_action() == BatchAction::Abort,
{
}

/// Only a file that was prepared is written back, and only when every file
/// has been prepared or skipped and nothing failed.
pub proof fn law_only_prepared_files_are_written(run: BatchRun)
    requires
        run.wf(),
        run.spec_next_action() matches BatchAction::Commit(_),
    ensures
        run.spec_next_action() matches BatchAction::Commit(i) && i < run.spec_file_count()
            && run.spec_outcomes()[i as int] && run.spec_outcomes().len() == run.spec_file_count()
            && !run.spec_failed(),
{
    let outcomes = run.spec_outcomes();
    lemma_prepared_indices_members(outcomes, outcomes.len() as int, run.spec_committed() as int);
}

} // verus!
