//! One file to upload: its path, the name it is shown and sent under, and
//! the endpoint it goes to.

use vstd::prelude::*;

verus! {

/// The final component of a path, as `std::path::Path::file_name` finds it
/// in the path's text on the platform the crate is built for; `None` where
/// the path has none.
pub uninterp spec fn path_file_name(path: Seq<char>) -> Option<Seq<char>>;

/// The name a file goes by when its path has no final component.
pub open spec fn fallback_name() -> Seq<char> {
    "unknown"@
}

/// The display name that belongs to a final component.
pub open spec fn display_name_of(file_name: Option<Seq<char>>) -> Seq<char> {
    match file_name {
        Some(name) => name,
        None => fallback_name(),
    }
}

/// `std::path::Path::file_name` on the path that `path` spells.
///
/// Trusted: the call only parses the text of the path, so what it returns
/// is a function of that text, and `path_file_name` is the name of that
/// function. Nothing is claimed of which part of the text comes back. A
/// component of a path that was given as text is text too, so turning it
/// back into a string loses nothing.
#[verifier::external_body]
fn final_component(path: &str) -> (name: Option<String>)
    ensures
        name.deep_view() == path_file_name(path@),
{
    match std::path::Path::new(path).file_name() {
        Some(component) => match component.to_str() {
            Some(text) => Some(text.to_owned()),
            None => None,
        },
        None => None,
    }
}

/// One upload to make.
#[derive(Debug, PartialEq, Eq)]
pub struct UploadTask {
    /// Where the file is.
    pub path: String,
    /// The final component of `path`, if it has one.
    pub file_name: Option<String>,
    /// Where the file goes. Every task of a batch has the same.
    pub url: String,
}

/// The mathematical value of an [`UploadTask`].
pub struct UploadTaskView {
    pub path: Seq<char>,
    pub file_name: Option<Seq<char>>,
    pub url: Seq<char>,
}

impl UploadTaskView {
    /// The name the file is shown and sent under.
    pub open spec fn display_name(self) -> Seq<char> {
        display_name_of(self.file_name)
    }

    /// The task for `path` and `url`, named by the final component of `path`.
    pub open spec fn for_path(path: Seq<char>, url: Seq<char>) -> UploadTaskView {
        UploadTaskView { path, file_name: path_file_name(path), url }
    }
}

impl View for UploadTask {
    type V = UploadTaskView;

    open spec fn view(&self) -> UploadTaskView {
        UploadTaskView {
            path: self.path@,
            file_name: self.file_name.deep_view(),
            url: self.url@,
        }
    }
}

impl DeepView for UploadTask {
    type V = UploadTaskView;

    open spec fn deep_view(&self) -> UploadTaskView {
        self@
    }
}

impl Clone for UploadTask {
    fn clone(&self) -> (copy: Self)
        ensures
            copy == *self,
    {
        let file_name = match &self.file_name {
            Some(name) => Some(name.clone()),
            None => None,
        };
        UploadTask { path: self.path.clone(), file_name, url: self.url.clone() }
    }
}

impl UploadTask {
    /// The task for the file at `path`, bound for `url`. The path is taken
    /// as it is written; its final component becomes the file's name.
    pub fn new(path: String, url: String) -> (task: UploadTask)
        ensures
            task@ == UploadTaskView::for_path(path@, url@),
    {
        let file_name = final_component(path.as_str());
        UploadTask::from_parts(path, file_name, url)
    }

    /// The task with the given final component, already taken from the path.
    pub fn from_parts(path: String, file_name: Option<String>, url: String) -> (task: UploadTask)
        ensures
            task@ == (UploadTaskView {
                path: path@,
                file_name: file_name.deep_view(),
                url: url@,
            }),
    {
        UploadTask { path, file_name, url }
    }

    /// The name the file is shown and sent under: its final component, or
    /// `"unknown"` where the path has none.
    pub fn display_name(&self) -> (name: String)
        ensures
            name@ == self@.display_name(),
    {
        match &self.file_name {
            Some(name) => name.clone(),
            None => "unknown".to_owned(),
        }
    }
}

} // verus!
