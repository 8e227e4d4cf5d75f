//! Decision core of a concurrent multipart file uploader.
//!
//! The crate holds no I/O. A driver opens files, talks HTTP and schedules
//! tasks; every decision it needs (what to do next, how to classify what
//! came back, how to assemble the per-file report) is taken here and proved.
//!
//! - [`task`]: a file to upload and the name it goes by.
//! - [`status`]: which response statuses count as success.
//! - [`outcome`]: what an upload can end in.
//! - [`uploader`]: the upload of one file, step by step.
//! - [`trace`]: what holds of every run of an upload.
//! - [`dispatcher`]: a batch of uploads and its report.
//! - [`batch`]: what holds of every batch.

pub mod batch;
pub mod dispatcher;
pub mod outcome;
pub mod status;
pub mod task;
pub mod trace;
pub mod uploader;
