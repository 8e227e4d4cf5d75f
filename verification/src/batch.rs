//! Whole batches, and what holds of every one of them.
//!
//! A batch is modelled by what its driver reports to the dispatcher: for
//! each task that ended, its index and what became of it, in the order in
//! which the tasks ended. The laws below say what the report then holds.

use vstd::prelude::*;
use crate::dispatcher::{DispatcherView, ReportEntryView, TaskResultView, planned_tasks};
use crate::outcome::{UploadErrorView, UploadOutcomeView};
use crate::status::in_success_range;
use crate::task::UploadTaskView;
use crate::trace::{
    lemma_accepted_run, lemma_missing_file_run, lemma_rejected_run, outcome_of_run,
    rejected_events,
};
use crate::uploader::UploadEventView;

verus! {

/// The batch after each of `reports` was taken in, in order. A report is
/// the index of a task and what became of the task.
pub open spec fn record_all(
    batch: DispatcherView,
    reports: Seq<(int, TaskResultView)>,
) -> DispatcherView
    decreases reports.len(),
{
    if reports.len() == 0 {
        batch
    } else {
        record_all(batch.record(reports[0].0, reports[0].1), reports.drop_first())
    }
}

/// The reports of a driver that waits for the tasks in the order of the
/// input: task `i` ended in `results[i]`.
pub open spec fn in_order(results: Seq<TaskResultView>) -> Seq<(int, TaskResultView)> {
    Seq::new(results.len(), |i: int| (i, results[i]))
}

/// What the first of `reports` that speaks of task `index` says became of
/// it, if any does.
pub open spec fn first_report_for(reports: Seq<(int, TaskResultView)>, index: int) -> Option<
    TaskResultView,
>
    decreases reports.len(),
{
    if reports.len() == 0 {
        None
    } else if reports[0].0 == index {
        Some(reports[0].1)
    } else {
        first_report_for(reports.drop_first(), index)
    }
}

/// The report of the batch for `paths` whose task `i` ended in
/// `results[i]`: what the dispatcher hands out after it has taken in the
/// batch and then the results of a driver that waited for every task.
pub open spec fn dispatch_all(paths: Seq<Seq<char>>, results: Seq<TaskResultView>) -> Seq<
    ReportEntryView,
> {
    DispatcherView::start(paths).fill(results).report()
}

/// What becomes of a task whose driver reports `script` to the upload
/// machine: the outcome that the run ends in. A task without a script, or
/// one whose run never gets to an outcome, has ended abnormally.
pub open spec fn task_result(
    task: UploadTaskView,
    script: Option<Seq<UploadEventView>>,
) -> TaskResultView {
    match script {
        Some(events) => match outcome_of_run(task, events) {
            Some(outcome) => TaskResultView::Completed { outcome },
            None => TaskResultView::Aborted,
        },
        None => TaskResultView::Aborted,
    }
}

/// What becomes of every task of the batch for `paths` and `url` when task
/// `i` goes by `scripts[i]`.
pub open spec fn batch_results(
    paths: Seq<Seq<char>>,
    url: Seq<char>,
    scripts: Seq<Option<Seq<UploadEventView>>>,
) -> Seq<TaskResultView> {
    Seq::new(paths.len(), |i: int| task_result(planned_tasks(paths, url)[i], scripts[i]))
}

/// Taking in reports keeps the paths of the batch and a slot for each. The
/// slot of a task holds what it held before, if it held an outcome; else
/// the outcome of the first report for the task, if there is one; else
/// nothing. So every task gets one outcome at most, its first; what is
/// reported of other tasks, or of none of the batch, does not touch it.
pub proof fn lemma_first_report_counts(
    batch: DispatcherView,
    reports: Seq<(int, TaskResultView)>,
    index: int,
)
    requires
        batch.wf(),
        0 <= index < batch.slots.len(),
    ensures
        record_all(batch, reports).wf(),
        record_all(batch, reports).paths == batch.paths,
        record_all(batch, reports).slots[index] == match batch.slots[index] {
            Some(outcome) => Some(outcome),
            None => match first_report_for(reports, index) {
                Some(result) => Some(result.outcome()),
                None => None,
            },
        },
    decreases reports.len(),
{
    if reports.len() > 0 {
        lemma_first_report_counts(
            batch.record(reports[0].0, reports[0].1),
            reports.drop_first(),
            index,
        );
    }
}

/// The first report for a task is found at the first place where the task
/// is spoken of.
pub proof fn lemma_first_report_at(reports: Seq<(int, TaskResultView)>, index: int, place: int)
    requires
        0 <= place < reports.len(),
        reports[place].0 == index,
        forall|k: int| 0 <= k < place ==> (#[trigger] reports[k]).0 != index,
    ensures
        first_report_for(reports, index) == Some(reports[place].1),
    decreases place,
{
    if place > 0 {
        let rest = reports.drop_first();
        assert(reports[0].0 != index);
        assert(rest[place - 1] == reports[place]);
        assert forall|k: int| 0 <= k < place - 1 implies (#[trigger] rest[k]).0 != index by {
            assert(rest[k] == reports[k + 1]);
        }
        lemma_first_report_at(rest, index, place - 1);
    }
}

/// Once every task of a batch has been spoken of, in whatever order the
/// tasks ended and however often each was reported, the batch is complete
/// and its report has one entry per path, in the order of the input: the
/// path and the outcome of the first report for it.
pub proof fn lemma_report_any_order(paths: Seq<Seq<char>>, reports: Seq<(int, TaskResultView)>)
    requires
        forall|i: int| 0 <= i < paths.len() ==> first_report_for(reports, i) is Some,
    ensures
        record_all(DispatcherView::start(paths), reports).is_complete(),
        record_all(DispatcherView::start(paths), reports).report().len() == paths.len(),
        forall|i: int|
            0 <= i < paths.len() ==> #[trigger] record_all(
                DispatcherView::start(paths),
                reports,
            ).report()[i] == (ReportEntryView {
                path: paths[i],
                outcome: first_report_for(reports, i)->0.outcome(),
            }),
{
    let start = DispatcherView::start(paths);
    let end = record_all(start, reports);
    if paths.len() == 0 {
        lemma_nothing_taken(start, reports);
    } else {
        lemma_first_report_counts(start, reports, 0);
    }
    assert(end.paths == paths && end.wf());
    assert forall|i: int| 0 <= i < paths.len() implies (#[trigger] end.slots[i]) == Some(
        first_report_for(reports, i)->0.outcome(),
    ) by {
        lemma_first_report_counts(start, reports, i);
    }
}

/// A batch without tasks takes no report.
proof fn lemma_nothing_taken(batch: DispatcherView, reports: Seq<(int, TaskResultView)>)
    requires
        batch.slots.len() == 0,
    ensures
        record_all(batch, reports) == batch,
    decreases reports.len(),
{
    if reports.len() > 0 {
        lemma_nothing_taken(batch, reports.drop_first());
    }
}

/// No report for a task, no first report for it.
pub proof fn lemma_no_report(reports: Seq<(int, TaskResultView)>, index: int)
    requires
        forall|k: int| 0 <= k < reports.len() ==> (#[trigger] reports[k]).0 != index,
    ensures
        first_report_for(reports, index) is None,
    decreases reports.len(),
{
    if reports.len() > 0 {
        let rest = reports.drop_first();
        assert(reports[0].0 != index);
        assert forall|k: int| 0 <= k < rest.len() implies (#[trigger] rest[k]).0 != index by {
            assert(rest[k] == reports[k + 1]);
        }
        lemma_no_report(rest, index);
    }
}

/// Taking in the results of a driver that waited in the order of the input
/// is taking in its reports one by one.
pub proof fn lemma_fill_is_record_in_order(batch: DispatcherView, results: Seq<TaskResultView>)
    requires
        batch.wf(),
    ensures
        batch.fill(results) == record_all(batch, in_order(results)),
{
    let reports = in_order(results);
    let end = record_all(batch, reports);
    if batch.slots.len() == 0 {
        lemma_nothing_taken(batch, reports);
    } else {
        lemma_first_report_counts(batch, reports, 0);
    }
    assert forall|i: int| 0 <= i < batch.slots.len() implies batch.fill(results).slots[i]
        == end.slots[i] by {
        lemma_first_report_counts(batch, reports, i);
        if i < results.len() {
            lemma_first_report_at(reports, i, i);
        } else {
            lemma_no_report(reports, i);
        }
    }
    assert(batch.fill(results).slots =~= end.slots);
}

/// Once the driver has waited for every task, the batch is complete and
/// its report holds one entry per input path, in the order of the input:
/// entry `i` holds path `i` with the outcome of task `i`, its own where it
/// produced one, `TaskAborted` where it ended abnormally.
pub proof fn lemma_report_matches_input(paths: Seq<Seq<char>>, results: Seq<TaskResultView>)
    requires
        results.len() == paths.len(),
    ensures
        DispatcherView::start(paths).fill(results).is_complete(),
        dispatch_all(paths, results).len() == paths.len(),
        forall|i: int|
            0 <= i < paths.len() ==> #[trigger] dispatch_all(paths, results)[i] == (
            ReportEntryView { path: paths[i], outcome: results[i].outcome() }),
{
}

/// Without files there is nothing to do: no task is planned, the batch is
/// complete as it stands, and the report is empty.
pub proof fn lemma_empty_batch(url: Seq<char>)
    ensures
        DispatcherView::first_action(Seq::empty(), url) is NothingToDo,
        planned_tasks(Seq::empty(), url).len() == 0,
        DispatcherView::start(Seq::empty()).is_complete(),
        DispatcherView::start(Seq::empty()).report() == Seq::<ReportEntryView>::empty(),
        dispatch_all(Seq::empty(), Seq::empty()) == Seq::<ReportEntryView>::empty(),
{
    let none = Seq::<Seq<char>>::empty();
    assert(DispatcherView::start(none).report() =~= Seq::<ReportEntryView>::empty());
    assert(dispatch_all(none, Seq::empty()) =~= Seq::<ReportEntryView>::empty());
}

/// Tasks are isolated from each other: what the batch holds for a task
/// depends on the first report for that task alone. Whatever is reported of
/// the other tasks, in whatever order and however often, two runs of a batch
/// that agree on the first report for task `index` agree on its outcome.
pub proof fn lemma_tasks_are_isolated(
    batch: DispatcherView,
    reports: Seq<(int, TaskResultView)>,
    others: Seq<(int, TaskResultView)>,
    index: int,
)
    requires
        batch.wf(),
        0 <= index < batch.slots.len(),
        first_report_for(reports, index) == first_report_for(others, index),
    ensures
        record_all(batch, reports).slots[index] == record_all(batch, others).slots[index],
{
    lemma_first_report_counts(batch, reports, index);
    lemma_first_report_counts(batch, others, index);
}

/// The entry of a task in the report depends on what became of that task
/// alone: two batches of the same paths that agree on task `index` agree on
/// its entry, whatever became of the other tasks.
pub proof fn lemma_entries_are_independent(
    paths: Seq<Seq<char>>,
    results: Seq<TaskResultView>,
    others: Seq<TaskResultView>,
    index: int,
)
    requires
        results.len() == paths.len(),
        others.len() == paths.len(),
        0 <= index < paths.len(),
        results[index] == others[index],
    ensures
        dispatch_all(paths, results)[index] == dispatch_all(paths, others)[index],
{
    lemma_report_matches_input(paths, results);
    lemma_report_matches_input(paths, others);
}

/// A task that ends abnormally is reported as `TaskAborted`, and every
/// other task of the batch still has its own outcome in the report.
pub proof fn lemma_aborted_task(paths: Seq<Seq<char>>, results: Seq<TaskResultView>, index: int)
    requires
        results.len() == paths.len(),
        0 <= index < paths.len(),
        results[index] is Aborted,
    ensures
        dispatch_all(paths, results).len() == paths.len(),
        dispatch_all(paths, results)[index].outcome is TaskAborted,
        forall|i: int|
            0 <= i < paths.len() && i != index ==> (#[trigger] dispatch_all(
                paths,
                results,
            )[i]).outcome == results[i].outcome(),
{
    lemma_report_matches_input(paths, results);
}

/// Where every file has a name and opens, and the endpoint answers every
/// request with a status in the success range, the report holds one success
/// per input file, under the file's own name, whatever the sizes of the
/// files and however many there are.
pub proof fn lemma_all_accepted(
    paths: Seq<Seq<char>>,
    url: Seq<char>,
    sizes: Seq<u64>,
    statuses: Seq<u16>,
)
    requires
        sizes.len() == paths.len(),
        statuses.len() == paths.len(),
        forall|i: int|
            0 <= i < paths.len() ==> (#[trigger] planned_tasks(paths, url)[i]).file_name is Some,
        forall|i: int| 0 <= i < paths.len() ==> in_success_range(#[trigger] statuses[i]),
    ensures
        dispatch_all(paths, batch_results(paths, url, accepted_scripts(sizes, statuses))).len()
            == paths.len(),
        forall|i: int|
            0 <= i < paths.len() ==> #[trigger] dispatch_all(
                paths,
                batch_results(paths, url, accepted_scripts(sizes, statuses)),
            )[i] == (ReportEntryView {
                path: paths[i],
                outcome: UploadOutcomeView::Success {
                    name: planned_tasks(paths, url)[i].file_name->0,
                },
            }),
{
    let scripts = accepted_scripts(sizes, statuses);
    let results = batch_results(paths, url, scripts);
    lemma_report_matches_input(paths, results);
    assert forall|i: int| 0 <= i < paths.len() implies #[trigger] dispatch_all(paths, results)[i]
        == (ReportEntryView {
        path: paths[i],
        outcome: UploadOutcomeView::Success { name: planned_tasks(paths, url)[i].file_name->0 },
    }) by {
        lemma_accepted_run(planned_tasks(paths, url)[i], sizes[i], statuses[i]);
    }
}

/// What the drivers report when file `i` opens with `sizes[i]` bytes and
/// its request is answered with `statuses[i]`.
pub open spec fn accepted_scripts(sizes: Seq<u64>, statuses: Seq<u16>) -> Seq<
    Option<Seq<UploadEventView>>,
> {
    Seq::new(
        sizes.len(),
        |i: int|
            Some(
                seq![
                    UploadEventView::FileOpened { size: sizes[i] },
                    UploadEventView::ResponseReceived { status: statuses[i] },
                ],
            ),
    )
}

/// Where every file has a name and opens, and the endpoint answers every
/// request with the same status outside the success range and the same
/// body, every entry of the report is the HTTP status error with that
/// status and that body.
pub proof fn lemma_all_rejected(
    paths: Seq<Seq<char>>,
    url: Seq<char>,
    sizes: Seq<u64>,
    status: u16,
    body: Seq<char>,
)
    requires
        sizes.len() == paths.len(),
        forall|i: int|
            0 <= i < paths.len() ==> (#[trigger] planned_tasks(paths, url)[i]).file_name is Some,
        !in_success_range(status),
    ensures
        dispatch_all(paths, batch_results(paths, url, rejected_scripts(sizes, status, body))).len()
            == paths.len(),
        forall|i: int|
            0 <= i < paths.len() ==> #[trigger] dispatch_all(
                paths,
                batch_results(paths, url, rejected_scripts(sizes, status, body)),
            )[i] == (ReportEntryView {
                path: paths[i],
                outcome: UploadOutcomeView::Failure {
                    name: planned_tasks(paths, url)[i].file_name->0,
                    error: UploadErrorView::HttpStatus { status, body },
                },
            }),
{
    let scripts = rejected_scripts(sizes, status, body);
    let results = batch_results(paths, url, scripts);
    lemma_report_matches_input(paths, results);
    assert forall|i: int| 0 <= i < paths.len() implies #[trigger] dispatch_all(paths, results)[i]
        == (ReportEntryView {
        path: paths[i],
        outcome: UploadOutcomeView::Failure {
            name: planned_tasks(paths, url)[i].file_name->0,
            error: UploadErrorView::HttpStatus { status, body },
        },
    }) by {
        lemma_rejected_run(planned_tasks(paths, url)[i], sizes[i], status, Some(body));
    }
}

/// What the drivers report when file `i` opens with `sizes[i]` bytes and
/// every request is answered with `status`, not a success, and `body`.
pub open spec fn rejected_scripts(sizes: Seq<u64>, status: u16, body: Seq<char>) -> Seq<
    Option<Seq<UploadEventView>>,
> {
    Seq::new(sizes.len(), |i: int| Some(rejected_events(sizes[i], status, Some(body))))
}

/// A file that cannot be opened is reported with a file access error, and
/// what becomes of the other files of the batch is what would have become of
/// them anyway.
pub proof fn lemma_missing_file_is_isolated(
    paths: Seq<Seq<char>>,
    url: Seq<char>,
    scripts: Seq<Option<Seq<UploadEventView>>>,
    missing: int,
    detail: Seq<char>,
)
    requires
        scripts.len() == paths.len(),
        0 <= missing < paths.len(),
        planned_tasks(paths, url)[missing].file_name is Some,
        scripts[missing] == Some(seq![UploadEventView::FileUnavailable { detail }]),
    ensures
        dispatch_all(paths, batch_results(paths, url, scripts)).len() == paths.len(),
        dispatch_all(paths, batch_results(paths, url, scripts))[missing] == (ReportEntryView {
            path: paths[missing],
            outcome: UploadOutcomeView::Failure {
                name: planned_tasks(paths, url)[missing].file_name->0,
                error: UploadErrorView::FileAccess { detail },
            },
        }),
        forall|i: int|
            0 <= i < paths.len() && i != missing ==> #[trigger] dispatch_all(
                paths,
                batch_results(paths, url, scripts),
            )[i] == (ReportEntryView {
                path: paths[i],
                outcome: task_result(planned_tasks(paths, url)[i], scripts[i]).outcome(),
            }),
{
    let results = batch_results(paths, url, scripts);
    lemma_report_matches_input(paths, results);
    lemma_missing_file_run(planned_tasks(paths, url)[missing], detail);
}

} // verus!
