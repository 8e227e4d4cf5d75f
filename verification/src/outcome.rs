//! What one upload attempt can end in.

use vstd::prelude::*;

verus! {

/// Why an upload attempt failed.
#[derive(Debug, PartialEq, Eq)]
pub enum UploadError {
    /// The path has no final segment to name the file by. Nothing was opened
    /// and nothing was sent.
    InvalidFileName,
    /// The file could not be opened or its size could not be read.
    FileAccess { detail: String },
    /// The request did not get through: DNS, connect, TLS, timeout, or the
    /// body stream broke while it was being sent.
    Transport { detail: String },
    /// A response came back with a status outside the success range.
    HttpStatus { status: u16, body: String },
}

/// The mathematical value of an [`UploadError`].
pub enum UploadErrorView {
    InvalidFileName,
    FileAccess { detail: Seq<char> },
    Transport { detail: Seq<char> },
    HttpStatus { status: u16, body: Seq<char> },
}

impl View for UploadError {
    type V = UploadErrorView;

    open spec fn view(&self) -> UploadErrorView {
        match self {
            UploadError::InvalidFileName => UploadErrorView::InvalidFileName,
            UploadError::FileAccess { detail } => UploadErrorView::FileAccess { detail: detail@ },
            UploadError::Transport { detail } => UploadErrorView::Transport { detail: detail@ },
            UploadError::HttpStatus { status, body } => UploadErrorView::HttpStatus {
                status: *status,
                body: body@,
            },
        }
    }
}

impl Clone for UploadError {
    fn clone(&self) -> (copy: Self)
        ensures
            copy == *self,
    {
        match self {
            UploadError::InvalidFileName => UploadError::InvalidFileName,
            UploadError::FileAccess { detail } => UploadError::FileAccess {
                detail: detail.clone(),
            },
            UploadError::Transport { detail } => UploadError::Transport {
                detail: detail.clone(),
            },
            UploadError::HttpStatus { status, body } => UploadError::HttpStatus {
                status: *status,
                body: body.clone(),
            },
        }
    }
}

/// The result of one upload task. Every task ends in exactly one of these.
#[derive(Debug, PartialEq, Eq)]
pub enum UploadOutcome {
    /// The endpoint answered with a success status.
    Success { name: String },
    /// The attempt ended cleanly, without success.
    Failure { name: String, error: UploadError },
    /// The task itself ended abnormally before it produced an outcome.
    TaskAborted,
}

/// The mathematical value of an [`UploadOutcome`].
pub enum UploadOutcomeView {
    Success { name: Seq<char> },
    Failure { name: Seq<char>, error: UploadErrorView },
    TaskAborted,
}

impl UploadOutcomeView {
    /// The display name that the outcome carries; an aborted task carries none.
    pub open spec fn name(self) -> Option<Seq<char>> {
        match self {
            UploadOutcomeView::Success { name } => Some(name),
            UploadOutcomeView::Failure { name, .. } => Some(name),
            UploadOutcomeView::TaskAborted => None,
        }
    }
}

impl View for UploadOutcome {
    type V = UploadOutcomeView;

    open spec fn view(&self) -> UploadOutcomeView {
        match self {
            UploadOutcome::Success { name } => UploadOutcomeView::Success { name: name@ },
            UploadOutcome::Failure { name, error } => UploadOutcomeView::Failure {
                name: name@,
                error: error@,
            },
            UploadOutcome::TaskAborted => UploadOutcomeView::TaskAborted,
        }
    }
}

impl DeepView for UploadOutcome {
    type V = UploadOutcomeView;

    open spec fn deep_view(&self) -> UploadOutcomeView {
        self@
    }
}

impl Clone for UploadOutcome {
    fn clone(&self) -> (copy: Self)
        ensures
            copy == *self,
    {
        match self {
            UploadOutcome::Success { name } => UploadOutcome::Success { name: name.clone() },
            UploadOutcome::Failure { name, error } => UploadOutcome::Failure {
                name: name.clone(),
                error: error.clone(),
            },
            UploadOutcome::TaskAborted => UploadOutcome::TaskAborted,
        }
    }
}

} // verus!
