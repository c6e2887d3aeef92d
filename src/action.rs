//! What a build asks of the file system, and how it fails.
use vstd::prelude::*;

verus! {

/// One file-system step of a build, in the order the build takes them.
#[derive(Debug, PartialEq, Eq)]
pub enum Action {
    /// Create a directory and its parents; nothing happens if it exists.
    CreateDirectory(String),
    /// Write `contents` to the file at `path`.
    WriteFile(String, String),
    /// Copy the file at the first path to the second.
    CopyFile(String, String),
    /// Delete the file at `path`.
    RemoveFile(String),
}

pub enum ActionView {
    CreateDirectory(Seq<char>),
    WriteFile(Seq<char>, Seq<char>),
    CopyFile(Seq<char>, Seq<char>),
    RemoveFile(Seq<char>),
}

impl View for Action {
    type V = ActionView;

    open spec fn view(&self) -> ActionView {
        match self {
            Action::CreateDirectory(p) => ActionView::CreateDirectory(p@),
            Action::WriteFile(p, c) => ActionView::WriteFile(p@, c@),
            Action::CopyFile(a, b) => ActionView::CopyFile(a@, b@),
            Action::RemoveFile(p) => ActionView::RemoveFile(p@),
        }
    }
}

/// The models of a sequence of actions.
pub open spec fn action_views(s: Seq<Action>) -> Seq<ActionView> {
    s.map_values(|a: Action| a@)
}

/// Why a build stopped. Every error is fatal.
#[derive(Debug, PartialEq, Eq)]
pub enum BuildError {
    /// The settings name no working file set.
    NoFiles,
    /// The settings name no root directory.
    NoRoot,
    /// The contents of the file at this path were not supplied.
    Unreadable(String),
    /// The data file at this path is not a JSON object of strings.
    InvalidData(String),
    /// The template at this path could not be rendered.
    Template(String),
}

pub enum ErrorView {
    NoFiles,
    NoRoot,
    Unreadable(Seq<char>),
    InvalidData(Seq<char>),
    Template(Seq<char>),
}

impl View for BuildError {
    type V = ErrorView;

    open spec fn view(&self) -> ErrorView {
        match self {
            BuildError::NoFiles => ErrorView::NoFiles,
            BuildError::NoRoot => ErrorView::NoRoot,
            BuildError::Unreadable(p) => ErrorView::Unreadable(p@),
            BuildError::InvalidData(p) => ErrorView::InvalidData(p@),
            BuildError::Template(p) => ErrorView::Template(p@),
        }
    }
}

/// Appends the actions of `more` to `actions`, in order.
pub fn append_actions(actions: &mut Vec<Action>, more: Vec<Action>)
    ensures
        action_views(final(actions)@) == action_views(old(actions)@) + action_views(more@),
{
    let ghost added = more@;
    let mut more = more;
    actions.append(&mut more);
    assert(action_views(actions@) =~= action_views(old(actions)@) + action_views(added));
}

} // verus!
