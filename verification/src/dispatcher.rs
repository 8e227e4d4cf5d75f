//! The batch dispatcher: one task per file, all launched together, one
//! outcome per task in the report, each under the path it belongs to.
//!
//! The dispatcher schedules nothing itself. It says which tasks to launch,
//! takes in what became of each, in whatever order they end, and hands out
//! the report once every task is accounted for.

use vstd::prelude::*;
use vstd::pervasive::unreached;
use crate::outcome::{UploadOutcome, UploadOutcomeView};
use crate::task::{UploadTask, UploadTaskView};

verus! {

/// What became of one launched task.
#[derive(Debug, PartialEq, Eq)]
pub enum TaskResult {
    /// The task ran to its end and produced this outcome.
    Completed { outcome: UploadOutcome },
    /// The task ended abnormally, without an outcome.
    Aborted,
}

/// The mathematical value of a [`TaskResult`].
pub enum TaskResultView {
    Completed { outcome: UploadOutcomeView },
    Aborted,
}

impl TaskResultView {
    /// The outcome that the report shows for a task that ended like this.
    pub open spec fn outcome(self) -> UploadOutcomeView {
        match self {
            TaskResultView::Completed { outcome } => outcome,
            TaskResultView::Aborted => UploadOutcomeView::TaskAborted,
        }
    }
}

impl View for TaskResult {
    type V = TaskResultView;

    open spec fn view(&self) -> TaskResultView {
        match self {
            TaskResult::Completed { outcome } => TaskResultView::Completed { outcome: outcome@ },
            TaskResult::Aborted => TaskResultView::Aborted,
        }
    }
}

impl DeepView for TaskResult {
    type V = TaskResultView;

    open spec fn deep_view(&self) -> TaskResultView {
        self@
    }
}

impl Clone for TaskResult {
    fn clone(&self) -> (copy: Self)
        ensures
            copy == *self,
    {
        match self {
            TaskResult::Completed { outcome } => TaskResult::Completed { outcome: outcome.clone() },
            TaskResult::Aborted => TaskResult::Aborted,
        }
    }
}

impl TaskResult {
    /// The outcome that the report shows for a task that ended like this:
    /// its own, or `TaskAborted` where it produced none.
    pub fn into_outcome(self) -> (outcome: UploadOutcome)
        ensures
            outcome@ == self@.outcome(),
    {
        match self {
            TaskResult::Completed { outcome } => outcome,
            TaskResult::Aborted => UploadOutcome::TaskAborted,
        }
    }
}

/// One line of the report: a path of the input and what became of its upload.
#[derive(Debug, PartialEq, Eq)]
pub struct ReportEntry {
    pub path: String,
    pub outcome: UploadOutcome,
}

/// The mathematical value of a [`ReportEntry`].
pub struct ReportEntryView {
    pub path: Seq<char>,
    pub outcome: UploadOutcomeView,
}

impl View for ReportEntry {
    type V = ReportEntryView;

    open spec fn view(&self) -> ReportEntryView {
        ReportEntryView { path: self.path@, outcome: self.outcome@ }
    }
}

impl DeepView for ReportEntry {
    type V = ReportEntryView;

    open spec fn deep_view(&self) -> ReportEntryView {
        self@
    }
}

/// The result of a batch: one entry per input path, in the order of the
/// input.
#[derive(Debug, PartialEq, Eq)]
pub struct BatchReport {
    pub entries: Vec<ReportEntry>,
}

impl View for BatchReport {
    type V = Seq<ReportEntryView>;

    open spec fn view(&self) -> Seq<ReportEntryView> {
        self.entries.deep_view()
    }
}

/// What the driver is to do with a new batch.
#[derive(Debug, PartialEq, Eq)]
pub enum DispatchAction {
    /// No files were given. There is nothing to launch and nothing to wait
    /// for; this is no error.
    NothingToDo,
    /// Launch every one of these tasks, each on its own, before waiting for
    /// any of them. Task `i` uploads the `i`-th path of the input.
    Launch { tasks: Vec<UploadTask> },
}

/// The mathematical value of a [`DispatchAction`].
pub enum DispatchActionView {
    NothingToDo,
    Launch { tasks: Seq<UploadTaskView> },
}

impl View for DispatchAction {
    type V = DispatchActionView;

    open spec fn view(&self) -> DispatchActionView {
        match self {
            DispatchAction::NothingToDo => DispatchActionView::NothingToDo,
            DispatchAction::Launch { tasks } => DispatchActionView::Launch {
                tasks: tasks.deep_view(),
            },
        }
    }
}

/// The tasks of a batch: one per path, in the order of the input, all bound
/// for the same endpoint.
pub open spec fn planned_tasks(paths: Seq<Seq<char>>, url: Seq<char>) -> Seq<UploadTaskView> {
    Seq::new(paths.len(), |i: int| UploadTaskView::for_path(paths[i], url))
}

/// A path of the batch and the outcome of its task, once that is known.
#[derive(Debug)]
struct Slot {
    path: String,
    outcome: Option<UploadOutcome>,
}

/// A batch under way: the paths of the input and, for each, the outcome of
/// its task once that is known.
#[derive(Debug)]
pub struct Dispatcher {
    slots: Vec<Slot>,
}

/// The mathematical value of a [`Dispatcher`].
pub struct DispatcherView {
    pub paths: Seq<Seq<char>>,
    pub slots: Seq<Option<UploadOutcomeView>>,
}

impl DispatcherView {
    /// Every path has its slot.
    pub open spec fn wf(self) -> bool {
        self.slots.len() == self.paths.len()
    }

    /// The batch for `paths`, with no outcome known yet.
    pub open spec fn start(paths: Seq<Seq<char>>) -> DispatcherView {
        DispatcherView { paths, slots: Seq::new(paths.len(), |i: int| None) }
    }

    /// What the driver is to do with the batch for `paths` and `url`.
    pub open spec fn first_action(paths: Seq<Seq<char>>, url: Seq<char>) -> DispatchActionView {
        if paths.len() == 0 {
            DispatchActionView::NothingToDo
        } else {
            DispatchActionView::Launch { tasks: planned_tasks(paths, url) }
        }
    }

    /// Task `index` is one of the batch and has no outcome yet.
    pub open spec fn awaits(self, index: int) -> bool {
        0 <= index < self.slots.len() && self.slots[index] is None
    }

    /// The batch after task `index` is reported to have ended in `result`.
    /// A report for a task that is not awaited changes nothing.
    pub open spec fn record(self, index: int, result: TaskResultView) -> DispatcherView {
        if self.awaits(index) {
            DispatcherView {
                paths: self.paths,
                slots: self.slots.update(index, Some(result.outcome())),
            }
        } else {
            self
        }
    }

    /// The batch after the results of a driver that waited for the tasks in
    /// the order of the input were taken in: `results[i]` is what became of
    /// task `i`. A task that already had its outcome keeps it, and a task
    /// beyond the results stays without one.
    pub open spec fn fill(self, results: Seq<TaskResultView>) -> DispatcherView {
        DispatcherView {
            paths: self.paths,
            slots: Seq::new(
                self.slots.len(),
                |i: int|
                    if self.slots[i] is None && i < results.len() {
                        Some(results[i].outcome())
                    } else {
                        self.slots[i]
                    },
            ),
        }
    }

    /// Every task has its outcome.
    pub open spec fn is_complete(self) -> bool {
        forall|i: int| 0 <= i < self.slots.len() ==> (#[trigger] self.slots[i]) is Some
    }

    /// The report of a complete batch.
    pub open spec fn report(self) -> Seq<ReportEntryView> {
        Seq::new(
            self.paths.len(),
            |i: int| ReportEntryView { path: self.paths[i], outcome: self.slots[i]->0 },
        )
    }
}

impl View for Dispatcher {
    type V = DispatcherView;

    closed spec fn view(&self) -> DispatcherView {
        DispatcherView {
            paths: Seq::new(self.slots.len() as nat, |i: int| self.slots[i].path@),
            slots: Seq::new(self.slots.len() as nat, |i: int| self.slots[i].outcome.deep_view()),
        }
    }
}

impl Dispatcher {
    /// Takes in a batch: the files at `paths`, all bound for `url`. Says
    /// which tasks to launch, one per path, or that there is nothing to do.
    pub fn new(paths: Vec<String>, url: &str) -> (batch: (Dispatcher, DispatchAction))
        ensures
            batch.0@ == DispatcherView::start(paths.deep_view()),
            batch.1@ == DispatcherView::first_action(paths.deep_view(), url@),
    {
        let mut tasks: Vec<UploadTask> = Vec::new();
        let mut slots: Vec<Slot> = Vec::new();
        let mut i: usize = 0;
        while i < paths.len()
            invariant
                i <= paths.len(),
                tasks.len() == i,
                slots.len() == i,
                forall|k: int|
                    0 <= k < i ==> (#[trigger] slots[k]).outcome is None && slots[k].path@
                        == paths[k]@,
                forall|k: int|
                    0 <= k < i ==> (#[trigger] tasks[k])@ == UploadTaskView::for_path(
                        paths[k]@,
                        url@,
                    ),
            decreases paths.len() - i,
        {
            tasks.push(UploadTask::new(paths[i].clone(), url.to_owned()));
            slots.push(Slot { path: paths[i].clone(), outcome: None });
            i += 1;
        }
        let action = if paths.len() == 0 {
            DispatchAction::NothingToDo
        } else {
            DispatchAction::Launch { tasks }
        };
        let dispatcher = Dispatcher { slots };
        proof {
            assert(dispatcher@.paths =~= paths.deep_view());
            assert(dispatcher@.slots =~= DispatcherView::start(paths.deep_view()).slots);
            if paths.len() > 0 {
                assert(tasks.deep_view() =~= planned_tasks(paths.deep_view(), url@));
            }
        }
        (dispatcher, action)
    }

    /// The number of tasks in the batch.
    pub fn len(&self) -> (count: usize)
        ensures
            count == self@.paths.len(),
    {
        self.slots.len()
    }

    /// Every path of a batch has its slot.
    pub proof fn lemma_wf(&self)
        ensures
            self@.wf(),
    {
    }

    /// Takes in what became of task `index`. The first report for a task of
    /// the batch is kept and answered with `true`; a report for a task that
    /// is not in the batch, or that already has its outcome, is dropped and
    /// answered with `false`.
    pub fn record(&mut self, index: usize, result: TaskResult) -> (kept: bool)
        ensures
            kept == old(self)@.awaits(index as int),
            final(self)@ == old(self)@.record(index as int, result@),
    {
        if index < self.slots.len() && self.slots[index].outcome.is_none() {
            let path = self.slots[index].path.clone();
            self.slots.set(index, Slot { path, outcome: Some(result.into_outcome()) });
            proof {
                assert(self@.paths =~= old(self)@.paths);
                assert(self@.slots =~= old(self)@.record(index as int, result@).slots);
            }
            true
        } else {
            false
        }
    }

    /// Takes in what became of every task at once, from a driver that
    /// waited for the tasks in the order of the input: `results[i]` is what
    /// became of task `i`. Then hands out the report, as [`Dispatcher::finish`]
    /// does: there is one only if every task is accounted for.
    pub fn collect(self, results: Vec<TaskResult>) -> (end: Result<BatchReport, Dispatcher>)
        ensures
            match end {
                Ok(report) => self@.fill(results.deep_view()).is_complete() && report@
                    == self@.fill(results.deep_view()).report(),
                Err(batch) => !self@.fill(results.deep_view()).is_complete() && batch@
                    == self@.fill(results.deep_view()),
            },
    {
        let mut batch = self;
        let mut i: usize = 0;
        proof {
            assert(self@.fill(results.deep_view().take(0)).slots =~= self@.slots);
        }
        while i < results.len()
            invariant
                i <= results.len(),
                batch@ == self@.fill(results.deep_view().take(i as int)),
            decreases results.len() - i,
        {
            batch.record(i, results[i].clone());
            proof {
                let taken = results.deep_view().take(i as int);
                let more = results.deep_view().take(i as int + 1);
                assert(more[i as int] == results[i as int]@);
                assert(batch@.slots =~= self@.fill(more).slots);
            }
            i += 1;
        }
        proof {
            assert(results.deep_view().take(i as int) =~= results.deep_view());
        }
        batch.finish()
    }

    /// Whether every task has its outcome.
    pub fn is_complete(&self) -> (complete: bool)
        ensures
            complete == self@.is_complete(),
    {
        let mut i: usize = 0;
        while i < self.slots.len()
            invariant
                i <= self.slots.len(),
                forall|k: int| 0 <= k < i ==> (#[trigger] self.slots[k]).outcome is Some,
            decreases self.slots.len() - i,
        {
            if self.slots[i].outcome.is_none() {
                proof {
                    assert(self@.slots[i as int] is None);
                }
                return false;
            }
            i += 1;
        }
        proof {
            assert forall|k: int| 0 <= k < self@.slots.len() implies (#[trigger] self@.slots[k])
                is Some by {
                assert(self.slots[k].outcome is Some);
            }
        }
        true
    }

    /// Hands out the report, once every task has its outcome. Until then
    /// there is no report, not even a partial one: the batch comes back as
    /// it is.
    pub fn finish(self) -> (end: Result<BatchReport, Dispatcher>)
        ensures
            match end {
                Ok(report) => self@.is_complete() && report@ == self@.report(),
                Err(batch) => !self@.is_complete() && batch@ == self@,
            },
    {
        if !self.is_complete() {
            return Err(self);
        }
        let mut entries: Vec<ReportEntry> = Vec::new();
        let mut i: usize = 0;
        while i < self.slots.len()
            invariant
                i <= self.slots.len(),
                self@.is_complete(),
                entries.len() == i,
                forall|k: int| 0 <= k < i ==> (#[trigger] entries[k])@ == self@.report()[k],
            decreases self.slots.len() - i,
        {
            proof {
                assert(self@.slots[i as int] is Some);
            }
            let outcome = match &self.slots[i].outcome {
                Some(outcome) => outcome.clone(),
                None => unreached(),
            };
            entries.push(ReportEntry { path: self.slots[i].path.clone(), outcome });
            i += 1;
        }
        let report = BatchReport { entries };
        proof {
            assert(report@ =~= self@.report());
        }
        Ok(report)
    }
}

} // verus!
