//! Whole runs of the upload machine, and what holds of every one of them.
//!
//! A run is what the machine tells its driver, in order, when the driver
//! reports a given sequence of events. The laws below hold whatever the
//! driver reports, also where it reports nonsense.

use vstd::prelude::*;
use crate::outcome::{UploadErrorView, UploadOutcomeView};
use crate::status::in_success_range;
use crate::task::UploadTaskView;
use crate::uploader::{Phase, UploadActionView, UploadEventView, UploadView};

verus! {

/// The actions that answer `events`, fed one by one to the upload in
/// `state`. The first event that does not fit ends the run.
pub open spec fn actions_from(state: UploadView, events: Seq<UploadEventView>) -> Seq<
    UploadActionView,
>
    decreases events.len(),
{
    if events.len() == 0 {
        Seq::empty()
    } else {
        match state.step(events.first()) {
            None => Seq::empty(),
            Some((next, action)) => seq![action] + actions_from(next, events.drop_first()),
        }
    }
}

/// Everything the driver is told during the upload of `task` while it
/// reports `events`: the first action, then the answer to each event.
pub open spec fn run(task: UploadTaskView, events: Seq<UploadEventView>) -> Seq<UploadActionView> {
    let (state, first) = UploadView::begin(task);
    seq![first] + actions_from(state, events)
}

/// The outcome that a run ends in, if it got that far.
pub open spec fn outcome_of_run(task: UploadTaskView, events: Seq<UploadEventView>) -> Option<
    UploadOutcomeView,
> {
    match run(task, events).last() {
        UploadActionView::Finish { outcome } => Some(outcome),
        _ => None,
    }
}

/// What a driver reports when the file opens with `size` bytes and the
/// endpoint answers with `status`, not a success, and `body` (`None` where
/// the body cannot be read).
pub open spec fn rejected_events(size: u64, status: u16, body: Option<Seq<char>>) -> Seq<
    UploadEventView,
> {
    seq![
        UploadEventView::FileOpened { size },
        UploadEventView::ResponseReceived { status },
        match body {
            Some(text) => UploadEventView::BodyRead { text },
            None => UploadEventView::BodyUnreadable,
        },
    ]
}

impl UploadActionView {
    /// That the action, where it ends an upload, ends it with an outcome
    /// that carries the display name of `task`.
    pub open spec fn names(self, task: UploadTaskView) -> bool {
        self matches UploadActionView::Finish { outcome } ==> outcome.name() == Some(
            task.display_name(),
        )
    }
}

/// The place of an action in the order of an upload: open, send, read the
/// body, finish.
pub open spec fn stage(action: UploadActionView) -> int {
    match action {
        UploadActionView::OpenFile { .. } => 0,
        UploadActionView::Send { .. } => 1,
        UploadActionView::ReadBody => 2,
        UploadActionView::Finish { .. } => 3,
    }
}

/// The least stage that an action given out in this phase can have.
spec fn next_stage(phase: Phase) -> int {
    match phase {
        Phase::Opening => 1,
        Phase::Sending => 2,
        Phase::ReadingBody { .. } => 3,
        Phase::Finished => 4,
    }
}

proof fn lemma_stages_rise_from(state: UploadView, events: Seq<UploadEventView>)
    ensures
        forall|i: int|
            0 <= i < actions_from(state, events).len() ==> next_stage(state.phase) <= stage(
                #[trigger] actions_from(state, events)[i],
            ),
        forall|i: int, j: int|
            0 <= i < j < actions_from(state, events).len() ==> stage(
                #[trigger] actions_from(state, events)[i],
            ) < stage(#[trigger] actions_from(state, events)[j]),
        forall|i: int|
            0 <= i < actions_from(state, events).len() ==> #[trigger] actions_from(
                state,
                events,
            )[i].names(state.task),
    decreases events.len(),
{
    if events.len() > 0 {
        match state.step(events.first()) {
            None => {},
            Some((next, action)) => {
                let rest = actions_from(next, events.drop_first());
                lemma_stages_rise_from(next, events.drop_first());
                assert(actions_from(state, events) == seq![action] + rest);
                assert(next_stage(state.phase) <= stage(action) < next_stage(next.phase));
                assert(action.names(state.task));
                assert(next.task == state.task);
            },
        }
    }
}

/// The actions of a run come in order and none comes twice: the file is
/// opened before the request is sent, the request is sent before a body is
/// read, and the outcome comes last. So a run opens the file at most once
/// and sends at most one request, whatever the driver reports: there is no
/// retry.
pub proof fn lemma_run_in_order(task: UploadTaskView, events: Seq<UploadEventView>)
    ensures
        forall|i: int, j: int|
            0 <= i < j < run(task, events).len() ==> stage(#[trigger] run(task, events)[i])
                < stage(#[trigger] run(task, events)[j]),
        1 <= run(task, events).len() <= 4,
{
    let (state, first) = UploadView::begin(task);
    let rest = actions_from(state, events);
    let all = run(task, events);
    lemma_stages_rise_from(state, events);
    assert(all == seq![first] + rest);
    assert(stage(first) < next_stage(state.phase));
    assert forall|i: int, j: int| 0 <= i < j < all.len() implies stage(#[trigger] all[i]) < stage(
        #[trigger] all[j],
    ) by {
        assert(all[j] == rest[j - 1]);
        if i > 0 {
            assert(all[i] == rest[i - 1]);
        }
    }
    if all.len() > 4 {
        assert(stage(all[0]) < stage(all[1]) < stage(all[2]) < stage(all[3]) < stage(all[4]));
    }
}

/// Whether `event` is an answer to `action`: what a driver may report after
/// it has done what the action asked for. Nothing answers an outcome.
pub open spec fn answers(event: UploadEventView, action: UploadActionView) -> bool {
    match action {
        UploadActionView::OpenFile { .. } => event is FileOpened || event is FileUnavailable,
        UploadActionView::Send { .. } => event is ResponseReceived || event is TransportFailed,
        UploadActionView::ReadBody => event is BodyRead || event is BodyUnreadable,
        UploadActionView::Finish { .. } => false,
    }
}

/// A driver is faithful when each event it reports answers the action it
/// was given last.
pub open spec fn faithful(task: UploadTaskView, events: Seq<UploadEventView>) -> bool
    decreases events.len(),
{
    events.len() > 0 ==> {
        let earlier = events.drop_last();
        &&& faithful(task, earlier)
        &&& run(task, earlier).len() == events.len()
        &&& answers(events.last(), run(task, earlier).last())
    }
}

/// The upload that `events` lead to from `state`.
spec fn state_after(state: UploadView, events: Seq<UploadEventView>) -> UploadView
    decreases events.len(),
{
    if events.len() == 0 {
        state
    } else {
        match state.step(events.first()) {
            None => state,
            Some((next, _)) => state_after(next, events.drop_first()),
        }
    }
}

proof fn lemma_one_more_event(
    state: UploadView,
    events: Seq<UploadEventView>,
    event: UploadEventView,
)
    requires
        actions_from(state, events).len() == events.len(),
    ensures
        actions_from(state, events.push(event)) == actions_from(state, events) + match state_after(
            state,
            events,
        ).step(event) {
            Some((_, action)) => seq![action],
            None => Seq::empty(),
        },
        events.len() > 0 ==> next_stage(state_after(state, events).phase) == stage(
            actions_from(state, events).last(),
        ) + 1,
    decreases events.len(),
{
    let more = events.push(event);
    if events.len() == 0 {
        assert(more.first() == event);
        assert(more.drop_first().len() == 0);
        match state.step(event) {
            None => {},
            Some((next, action)) => {
                assert(actions_from(next, more.drop_first()) == Seq::<UploadActionView>::empty());
                assert(actions_from(state, more) =~= seq![action]);
            },
        }
        assert(actions_from(state, events) == Seq::<UploadActionView>::empty());
        assert(actions_from(state, more) =~= actions_from(state, events) + match state.step(event) {
            Some((_, action)) => seq![action],
            None => Seq::empty(),
        });
    } else {
        let rest = events.drop_first();
        assert(state.step(events.first()) is Some);
        let (next, action) = state.step(events.first())->0;
        assert(actions_from(state, events) == seq![action] + actions_from(next, rest));
        assert(more.first() == events.first());
        assert(more.drop_first() =~= rest.push(event));
        lemma_one_more_event(next, rest, event);
        let tail = match state_after(next, rest).step(event) {
            Some((_, last)) => seq![last],
            None => Seq::empty(),
        };
        assert(actions_from(state, more) == seq![action] + actions_from(next, rest.push(event)));
        assert(seq![action] + (actions_from(next, rest) + tail) =~= (seq![action] + actions_from(
            next,
            rest,
        )) + tail);
        if rest.len() == 0 {
            assert(actions_from(next, rest) == Seq::<UploadActionView>::empty());
            assert(actions_from(state, events) =~= seq![action]);
        } else {
            assert(actions_from(state, events).last() == actions_from(next, rest).last());
        }
    }
}

/// Every report of a faithful driver is taken, and after three reports at
/// most the outcome is out: the driver is never left without an answer to
/// give, and never has to wait for an upload that does not end.
pub proof fn lemma_faithful_run_advances(task: UploadTaskView, events: Seq<UploadEventView>)
    requires
        faithful(task, events),
    ensures
        run(task, events).len() == events.len() + 1,
        events.len() <= 3,
        events.len() == 3 ==> run(task, events).last() is Finish,
    decreases events.len(),
{
    lemma_run_in_order(task, events);
    if events.len() > 0 {
        let earlier = events.drop_last();
        let (state, first) = UploadView::begin(task);
        lemma_faithful_run_advances(task, earlier);
        assert(earlier.push(events.last()) =~= events);
        assert(actions_from(state, earlier).len() == earlier.len());
        lemma_one_more_event(state, earlier, events.last());
        let before = run(task, earlier);
        if earlier.len() == 0 {
            assert(actions_from(state, earlier) == Seq::<UploadActionView>::empty());
            assert(before =~= seq![first]);
            assert(state_after(state, earlier) == state);
        } else {
            assert(before.last() == actions_from(state, earlier).last());
        }
        assert(state_after(state, earlier).step(events.last()) is Some);
        let all = run(task, events);
        if events.len() == 3 && !(all.last() is Finish) {
            assert(stage(all[0]) < stage(all[1]) < stage(all[2]) < stage(all[3]));
        }
    }
}

/// A driver that has not been given the outcome yet can always go on
/// faithfully: the action it was given last has an answer.
pub proof fn lemma_action_has_an_answer(action: UploadActionView)
    requires
        !(action is Finish),
    ensures
        exists|event: UploadEventView| answers(event, action),
{
    match action {
        UploadActionView::OpenFile { .. } => {
            assert(answers(UploadEventView::FileOpened { size: 0 }, action));
        },
        UploadActionView::Send { .. } => {
            assert(answers(UploadEventView::ResponseReceived { status: 200 }, action));
        },
        UploadActionView::ReadBody => {
            assert(answers(UploadEventView::BodyUnreadable, action));
        },
        UploadActionView::Finish { .. } => {},
    }
}

/// No run sends more than one request, and none opens the file more than
/// once.
pub proof fn lemma_no_retry(task: UploadTaskView, events: Seq<UploadEventView>, i: int, j: int)
    requires
        0 <= i < run(task, events).len(),
        0 <= j < run(task, events).len(),
        (run(task, events)[i] is Send && run(task, events)[j] is Send) || (run(task, events)[i]
            is OpenFile && run(task, events)[j] is OpenFile),
    ensures
        i == j,
{
    lemma_run_in_order(task, events);
}

/// Once the outcome is out, the run is over.
pub proof fn lemma_outcome_comes_last(task: UploadTaskView, events: Seq<UploadEventView>, i: int)
    requires
        0 <= i < run(task, events).len(),
        run(task, events)[i] is Finish,
    ensures
        i == run(task, events).len() - 1,
        outcome_of_run(task, events) == Some(run(task, events)[i]->outcome),
{
    lemma_run_in_order(task, events);
    let all = run(task, events);
    if i < all.len() - 1 {
        assert(stage(all[i]) < stage(all[i + 1]));
    }
}

/// A request is sent only for a file that has a name and was opened, and it
/// is the request for that file: one part called `file`, under the file's
/// own name, of the length that the driver found when it opened the file.
pub proof fn lemma_request_follows_open(
    task: UploadTaskView,
    events: Seq<UploadEventView>,
    i: int,
)
    requires
        0 <= i < run(task, events).len(),
        run(task, events)[i] is Send,
    ensures
        i == 1,
        run(task, events)[0] == (UploadActionView::OpenFile { path: task.path }),
        task.file_name is Some,
        events.len() > 0,
        events[0] is FileOpened,
        run(task, events)[1]->request == UploadView::begin(task).0.request(events[0]->size),
        run(task, events)[1]->request.file_name == task.file_name->0,
{
    lemma_run_in_order(task, events);
    let all = run(task, events);
    let (state, first) = UploadView::begin(task);
    assert(all[0] == first);
    if i > 1 {
        assert(stage(all[0]) < stage(all[1]) < stage(all[i]));
    }
    assert(all[1] == actions_from(state, events)[0]);
}

/// Every outcome that a run ends in carries the display name of the task,
/// and none is that of an aborted task.
pub proof fn lemma_outcome_names_task(task: UploadTaskView, events: Seq<UploadEventView>)
    ensures
        outcome_of_run(task, events) matches Some(outcome) ==> outcome.name() == Some(
            task.display_name(),
        ),
{
    let (state, first) = UploadView::begin(task);
    let rest = actions_from(state, events);
    let all = run(task, events);
    lemma_stages_rise_from(state, events);
    assert(all == seq![first] + rest);
    if rest.len() > 0 {
        assert(all.last() == rest[rest.len() - 1]);
        assert(rest[rest.len() - 1].names(state.task));
    } else {
        assert(all.last() == first);
    }
}

/// A path without a final segment fails at once as an invalid file name,
/// under the fallback name. Nothing is opened and nothing is sent, whatever
/// the driver goes on to report.
pub proof fn lemma_unnamed_file_run(task: UploadTaskView, events: Seq<UploadEventView>)
    requires
        task.file_name is None,
    ensures
        run(task, events) == seq![
            UploadActionView::Finish {
                outcome: UploadOutcomeView::Failure {
                    name: crate::task::fallback_name(),
                    error: UploadErrorView::InvalidFileName,
                },
            },
        ],
{
    let (state, first) = UploadView::begin(task);
    if events.len() > 0 {
        assert(state.step(events.first()) is None);
    }
    assert(actions_from(state, events) == Seq::<UploadActionView>::empty());
}

/// A file that cannot be opened ends the upload with a file access error
/// that carries the driver's detail. No request is sent.
pub proof fn lemma_missing_file_run(task: UploadTaskView, detail: Seq<char>)
    requires
        task.file_name is Some,
    ensures
        run(task, seq![UploadEventView::FileUnavailable { detail }]) == seq![
            UploadActionView::OpenFile { path: task.path },
            UploadActionView::Finish {
                outcome: UploadOutcomeView::Failure {
                    name: task.file_name->0,
                    error: UploadErrorView::FileAccess { detail },
                },
            },
        ],
{
    let events = seq![UploadEventView::FileUnavailable { detail }];
    let (state, first) = UploadView::begin(task);
    let (next, action) = state.step(events.first())->0;
    assert(events.drop_first().len() == 0);
    assert(actions_from(next, events.drop_first()) == Seq::<UploadActionView>::empty());
    assert(actions_from(state, events) == seq![action]);
}

/// A request that gets no response ends the upload with a transport error
/// that carries the driver's detail. It is not sent again.
pub proof fn lemma_transport_failure_run(task: UploadTaskView, size: u64, detail: Seq<char>)
    requires
        task.file_name is Some,
    ensures
        run(
            task,
            seq![
                UploadEventView::FileOpened { size },
                UploadEventView::TransportFailed { detail },
            ],
        ) == seq![
            UploadActionView::OpenFile { path: task.path },
            UploadActionView::Send { request: UploadView::begin(task).0.request(size) },
            UploadActionView::Finish {
                outcome: UploadOutcomeView::Failure {
                    name: task.file_name->0,
                    error: UploadErrorView::Transport { detail },
                },
            },
        ],
{
    let events = seq![
        UploadEventView::FileOpened { size },
        UploadEventView::TransportFailed { detail },
    ];
    let (opening, first) = UploadView::begin(task);
    let (sending, send) = opening.step(events[0])->0;
    let (finished, finish) = sending.step(events[1])->0;
    let tail = events.drop_first();
    assert(tail.first() == events[1]);
    assert(tail.drop_first().len() == 0);
    assert(actions_from(finished, tail.drop_first()) == Seq::<UploadActionView>::empty());
    assert(actions_from(sending, tail) == seq![finish]);
    assert(actions_from(opening, events) == seq![send, finish]);
}

/// A readable, named file and a response in the success range end the
/// upload in success, after one request, whatever the file's size.
pub proof fn lemma_accepted_run(task: UploadTaskView, size: u64, status: u16)
    requires
        task.file_name is Some,
        in_success_range(status),
    ensures
        run(
            task,
            seq![
                UploadEventView::FileOpened { size },
                UploadEventView::ResponseReceived { status },
            ],
        ) == seq![
            UploadActionView::OpenFile { path: task.path },
            UploadActionView::Send { request: UploadView::begin(task).0.request(size) },
            UploadActionView::Finish {
                outcome: UploadOutcomeView::Success { name: task.file_name->0 },
            },
        ],
        outcome_of_run(
            task,
            seq![
                UploadEventView::FileOpened { size },
                UploadEventView::ResponseReceived { status },
            ],
        ) == Some(UploadOutcomeView::Success { name: task.file_name->0 }),
{
    let events = seq![
        UploadEventView::FileOpened { size },
        UploadEventView::ResponseReceived { status },
    ];
    let (opening, first) = UploadView::begin(task);
    let (sending, send) = opening.step(events[0])->0;
    let (finished, finish) = sending.step(events[1])->0;
    let tail = events.drop_first();
    assert(tail.first() == events[1]);
    assert(tail.drop_first().len() == 0);
    assert(actions_from(finished, tail.drop_first()) == Seq::<UploadActionView>::empty());
    assert(actions_from(sending, tail) == seq![finish]);
    assert(actions_from(opening, events) == seq![send, finish]);
}

/// A response outside the success range ends the upload with an HTTP status
/// error that carries the status and the body as the driver read it; a body
/// that cannot be read counts as empty. The request is sent once.
pub proof fn lemma_rejected_run(
    task: UploadTaskView,
    size: u64,
    status: u16,
    body: Option<Seq<char>>,
)
    requires
        task.file_name is Some,
        !in_success_range(status),
    ensures
        run(task, rejected_events(size, status, body)) == seq![
            UploadActionView::OpenFile { path: task.path },
            UploadActionView::Send { request: UploadView::begin(task).0.request(size) },
            UploadActionView::ReadBody,
            UploadActionView::Finish {
                outcome: UploadOutcomeView::Failure {
                    name: task.file_name->0,
                    error: UploadErrorView::HttpStatus {
                        status,
                        body: match body {
                            Some(text) => text,
                            None => Seq::empty(),
                        },
                    },
                },
            },
        ],
        outcome_of_run(task, rejected_events(size, status, body)) == Some(
            UploadOutcomeView::Failure {
                name: task.file_name->0,
                error: UploadErrorView::HttpStatus {
                    status,
                    body: match body {
                        Some(text) => text,
                        None => Seq::empty(),
                    },
                },
            },
        ),
{
    let events = rejected_events(size, status, body);
    let (opening, first) = UploadView::begin(task);
    let (sending, send) = opening.step(events[0])->0;
    let (reading, read) = sending.step(events[1])->0;
    let (finished, finish) = reading.step(events[2])->0;
    let tail = events.drop_first();
    let tail2 = tail.drop_first();
    assert(tail.first() == events[1]);
    assert(tail2.first() == events[2]);
    assert(tail2.drop_first().len() == 0);
    assert(actions_from(finished, tail2.drop_first()) == Seq::<UploadActionView>::empty());
    assert(actions_from(reading, tail2) == seq![finish]);
    assert(actions_from(sending, tail) == seq![read, finish]);
    assert(actions_from(opening, events) == seq![send, read, finish]);
}

} // verus!
