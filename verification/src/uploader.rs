//! The streaming multipart upload of one file, as a state machine.
//!
//! The machine never touches a file or a socket. It tells its driver what to
//! do next ([`UploadAction`]), the driver does it and reports what happened
//! ([`UploadEvent`]). A run opens the file at most once and sends at most one
//! request; it never retries. The file's bytes never pass through here: the
//! driver streams them from the opened file into the request.

use vstd::prelude::*;
use crate::outcome::{UploadError, UploadErrorView, UploadOutcome, UploadOutcomeView};
use crate::status::{in_success_range, is_success_status};
use crate::task::{UploadTask, UploadTaskView};

verus! {

/// The name of the one part of the multipart form.
pub open spec fn part_name() -> Seq<char> {
    "file"@
}

/// The content type of the one part of the multipart form.
pub open spec fn part_content_type() -> Seq<char> {
    "application/octet-stream"@
}

/// How far an upload has come.
#[derive(Debug, Clone, Copy, PartialEq, Eq, Structural)]
pub enum Phase {
    /// The driver was told to open the file.
    Opening,
    /// The driver was told to send the request.
    Sending,
    /// A response with this status, not a success, came back; the driver was
    /// told to read its body.
    ReadingBody { status: u16 },
    /// The outcome was handed out. Nothing more happens.
    Finished,
}

/// What the driver reports back.
#[derive(Debug, PartialEq, Eq)]
pub enum UploadEvent {
    /// The file is open and its length in bytes is known.
    FileOpened { size: u64 },
    /// The file could not be opened, or its length could not be read.
    FileUnavailable { detail: String },
    /// A response arrived, with this status.
    ResponseReceived { status: u16 },
    /// No response arrived.
    TransportFailed { detail: String },
    /// The whole response body, as text.
    BodyRead { text: String },
    /// The response body could not be read.
    BodyUnreadable,
}

/// The mathematical value of an [`UploadEvent`].
pub enum UploadEventView {
    FileOpened { size: u64 },
    FileUnavailable { detail: Seq<char> },
    ResponseReceived { status: u16 },
    TransportFailed { detail: Seq<char> },
    BodyRead { text: Seq<char> },
    BodyUnreadable,
}

impl View for UploadEvent {
    type V = UploadEventView;

    open spec fn view(&self) -> UploadEventView {
        match self {
            UploadEvent::FileOpened { size } => UploadEventView::FileOpened { size: *size },
            UploadEvent::FileUnavailable { detail } => UploadEventView::FileUnavailable {
                detail: detail@,
            },
            UploadEvent::ResponseReceived { status } => UploadEventView::ResponseReceived {
                status: *status,
            },
            UploadEvent::TransportFailed { detail } => UploadEventView::TransportFailed {
                detail: detail@,
            },
            UploadEvent::BodyRead { text } => UploadEventView::BodyRead { text: text@ },
            UploadEvent::BodyUnreadable => UploadEventView::BodyUnreadable,
        }
    }
}

/// The one request of an upload: a POST to `url` whose body is a multipart
/// form of a single part. The part's content is the file that the driver
/// opened, streamed, `content_length` bytes long.
#[derive(Debug, PartialEq, Eq)]
pub struct UploadRequest {
    pub url: String,
    pub part_name: String,
    pub file_name: String,
    pub content_type: String,
    pub content_length: u64,
}

/// The mathematical value of an [`UploadRequest`].
pub struct UploadRequestView {
    pub url: Seq<char>,
    pub part_name: Seq<char>,
    pub file_name: Seq<char>,
    pub content_type: Seq<char>,
    pub content_length: u64,
}

impl View for UploadRequest {
    type V = UploadRequestView;

    open spec fn view(&self) -> UploadRequestView {
        UploadRequestView {
            url: self.url@,
            part_name: self.part_name@,
            file_name: self.file_name@,
            content_type: self.content_type@,
            content_length: self.content_length,
        }
    }
}

/// What the driver is to do next.
#[derive(Debug, PartialEq, Eq)]
pub enum UploadAction {
    /// Open the file at `path` for reading and find its length.
    OpenFile { path: String },
    /// Send this request, streaming the opened file as the part's content.
    Send { request: UploadRequest },
    /// Read the whole body of the response as text.
    ReadBody,
    /// Stop: this is the outcome of the upload.
    Finish { outcome: UploadOutcome },
}

/// The mathematical value of an [`UploadAction`].
pub enum UploadActionView {
    OpenFile { path: Seq<char> },
    Send { request: UploadRequestView },
    ReadBody,
    Finish { outcome: UploadOutcomeView },
}

impl View for UploadAction {
    type V = UploadActionView;

    open spec fn view(&self) -> UploadActionView {
        match self {
            UploadAction::OpenFile { path } => UploadActionView::OpenFile { path: path@ },
            UploadAction::Send { request } => UploadActionView::Send { request: request@ },
            UploadAction::ReadBody => UploadActionView::ReadBody,
            UploadAction::Finish { outcome } => UploadActionView::Finish { outcome: outcome@ },
        }
    }
}

/// One upload under way.
#[derive(Debug, PartialEq, Eq)]
pub struct Upload {
    task: UploadTask,
    phase: Phase,
}

/// The mathematical value of an [`Upload`].
pub struct UploadView {
    pub task: UploadTaskView,
    pub phase: Phase,
}

impl View for Upload {
    type V = UploadView;

    closed spec fn view(&self) -> UploadView {
        UploadView { task: self.task@, phase: self.phase }
    }
}

impl UploadView {
    /// The failure of this upload with the given error.
    pub open spec fn failure(self, error: UploadErrorView) -> UploadActionView {
        UploadActionView::Finish {
            outcome: UploadOutcomeView::Failure { name: self.task.display_name(), error },
        }
    }

    /// The success of this upload.
    pub open spec fn success(self) -> UploadActionView {
        UploadActionView::Finish {
            outcome: UploadOutcomeView::Success { name: self.task.display_name() },
        }
    }

    /// The request that this upload sends for a file of `size` bytes.
    pub open spec fn request(self, size: u64) -> UploadRequestView {
        UploadRequestView {
            url: self.task.url,
            part_name: part_name(),
            file_name: self.task.display_name(),
            content_type: part_content_type(),
            content_length: size,
        }
    }

    /// This upload in another phase.
    pub open spec fn at(self, phase: Phase) -> UploadView {
        UploadView { task: self.task, phase }
    }

    /// The first move. A task whose path names no file fails at once, and
    /// nothing is opened or sent for it; any other task has its file opened.
    pub open spec fn begin(task: UploadTaskView) -> (UploadView, UploadActionView) {
        let upload = UploadView { task, phase: Phase::Opening };
        match task.file_name {
            None => (
                upload.at(Phase::Finished),
                upload.failure(UploadErrorView::InvalidFileName),
            ),
            Some(_) => (upload, UploadActionView::OpenFile { path: task.path }),
        }
    }

    /// The move that answers `event`, or `None` where the event is not one
    /// that can follow the last action.
    pub open spec fn step(self, event: UploadEventView) -> Option<(UploadView, UploadActionView)> {
        match (self.phase, event) {
            (Phase::Opening, UploadEventView::FileOpened { size }) => Some(
                (self.at(Phase::Sending), UploadActionView::Send { request: self.request(size) }),
            ),
            (Phase::Opening, UploadEventView::FileUnavailable { detail }) => Some(
                (
                    self.at(Phase::Finished),
                    self.failure(UploadErrorView::FileAccess { detail }),
                ),
            ),
            (Phase::Sending, UploadEventView::ResponseReceived { status }) => Some(
                if in_success_range(status) {
                    (self.at(Phase::Finished), self.success())
                } else {
                    (self.at(Phase::ReadingBody { status }), UploadActionView::ReadBody)
                },
            ),
            (Phase::Sending, UploadEventView::TransportFailed { detail }) => Some(
                (
                    self.at(Phase::Finished),
                    self.failure(UploadErrorView::Transport { detail }),
                ),
            ),
            (Phase::ReadingBody { status }, UploadEventView::BodyRead { text }) => Some(
                (
                    self.at(Phase::Finished),
                    self.failure(UploadErrorView::HttpStatus { status, body: text }),
                ),
            ),
            (Phase::ReadingBody { status }, UploadEventView::BodyUnreadable) => Some(
                (
                    self.at(Phase::Finished),
                    self.failure(UploadErrorView::HttpStatus { status, body: Seq::empty() }),
                ),
            ),
            _ => None,
        }
    }
}

/// The value of an optional move.
pub open spec fn move_view(step: Option<(Upload, UploadAction)>) -> Option<
    (UploadView, UploadActionView),
> {
    match step {
        Some((upload, action)) => Some((upload@, action@)),
        None => None,
    }
}

impl Upload {
    /// Starts the upload of `task` and says what to do first.
    pub fn begin(task: UploadTask) -> (first: (Upload, UploadAction))
        ensures
            (first.0@, first.1@) == UploadView::begin(task@),
    {
        if task.file_name.is_none() {
            let action = UploadAction::Finish {
                outcome: UploadOutcome::Failure {
                    name: task.display_name(),
                    error: UploadError::InvalidFileName,
                },
            };
            (Upload { task, phase: Phase::Finished }, action)
        } else {
            let action = UploadAction::OpenFile { path: task.path.clone() };
            (Upload { task, phase: Phase::Opening }, action)
        }
    }

    /// How far the upload has come.
    pub fn phase(&self) -> (phase: Phase)
        ensures
            phase == self@.phase,
    {
        self.phase
    }

    /// The task that is being uploaded.
    pub fn task(&self) -> (task: &UploadTask)
        ensures
            task@ == self@.task,
    {
        &self.task
    }

    /// Takes in what the driver reports and says what to do next. An event
    /// that cannot follow the last action is answered with `None`: the
    /// driver has gone wrong, and the upload is over without an outcome.
    pub fn step(self, event: UploadEvent) -> (next: Option<(Upload, UploadAction)>)
        ensures
            move_view(next) == self@.step(event@),
    {
        let Upload { task, phase } = self;
        match (phase, event) {
            (Phase::Opening, UploadEvent::FileOpened { size }) => {
                proof {
                    reveal_strlit("file");
                    reveal_strlit("application/octet-stream");
                }
                let request = UploadRequest {
                    url: task.url.clone(),
                    part_name: "file".to_owned(),
                    file_name: task.display_name(),
                    content_type: "application/octet-stream".to_owned(),
                    content_length: size,
                };
                Some((Upload { task, phase: Phase::Sending }, UploadAction::Send { request }))
            },
            (Phase::Opening, UploadEvent::FileUnavailable { detail }) => {
                let action = Self::fail(&task, UploadError::FileAccess { detail });
                Some((Upload { task, phase: Phase::Finished }, action))
            },
            (Phase::Sending, UploadEvent::ResponseReceived { status }) => {
                if is_success_status(status) {
                    let action = UploadAction::Finish {
                        outcome: UploadOutcome::Success { name: task.display_name() },
                    };
                    Some((Upload { task, phase: Phase::Finished }, action))
                } else {
                    let upload = Upload { task, phase: Phase::ReadingBody { status } };
                    Some((upload, UploadAction::ReadBody))
                }
            },
            (Phase::Sending, UploadEvent::TransportFailed { detail }) => {
                let action = Self::fail(&task, UploadError::Transport { detail });
                Some((Upload { task, phase: Phase::Finished }, action))
            },
            (Phase::ReadingBody { status }, UploadEvent::BodyRead { text }) => {
                let action = Self::fail(&task, UploadError::HttpStatus { status, body: text });
                Some((Upload { task, phase: Phase::Finished }, action))
            },
            (Phase::ReadingBody { status }, UploadEvent::BodyUnreadable) => {
                let action = Self::fail(
                    &task,
                    UploadError::HttpStatus { status, body: String::new() },
                );
                Some((Upload { task, phase: Phase::Finished }, action))
            },
            _ => None,
        }
    }

    /// The action that ends the upload of `task` with `error`.
    fn fail(task: &UploadTask, error: UploadError) -> (action: UploadAction)
        ensures
            action@ == (UploadActionView::Finish {
                outcome: UploadOutcomeView::Failure { name: task@.display_name(), error: error@ },
            }),
    {
        UploadAction::Finish {
            outcome: UploadOutcome::Failure { name: task.display_name(), error },
        }
    }
}

} // verus!
