//! The ways in which an operation on a repository fails.

use crate::model::ErrorView;
use vstd::prelude::*;
use vstd::string::*;

verus! {

/// What was found to hold no commit.
#[derive(Debug, Clone, Copy, PartialEq, Eq)]
pub enum Scope {
    /// The repository: `HEAD` names no commit.
    Repository,
    /// The history that was asked about: the listing is empty.
    History,
}

/// Why an operation did not succeed.
#[derive(Debug, PartialEq, Eq)]
pub enum GitError {
    /// There is no commit where one was looked for.
    NoCommits(Scope),
    /// A path cannot be handed to the tool as text.
    InvalidPath,
    /// The tool could not be run, or wrote to its error stream; the text
    /// says what it reported.
    Transport(String),
    /// A file that a commit names cannot be resolved on disk; the text says
    /// why.
    FileResolution(String),
    /// The tool printed bytes that are not UTF-8.
    Encoding,
}

impl View for GitError {
    type V = ErrorView;

    open spec fn view(&self) -> ErrorView {
        match self {
            GitError::NoCommits(scope) => ErrorView::NoCommits(*scope),
            GitError::InvalidPath => ErrorView::InvalidPath,
            GitError::Transport(reason) => ErrorView::Transport(reason@),
            GitError::FileResolution(reason) => ErrorView::FileResolution(reason@),
            GitError::Encoding => ErrorView::Encoding,
        }
    }
}

impl ErrorView {
    /// The sentence that describes the error to a reader.
    pub open spec fn message(self) -> Seq<char> {
        match self {
            ErrorView::NoCommits(Scope::Repository) => "git repository does not contain any commit."@,
            ErrorView::NoCommits(Scope::History) => "repository has no commits"@,
            ErrorView::InvalidPath => "invalid path"@,
            ErrorView::Transport(reason) => reason,
            ErrorView::FileResolution(reason) => reason,
            ErrorView::Encoding => "command output is not valid UTF-8"@,
        }
    }
}

impl GitError {
    /// The sentence that describes the error to a reader.
    pub fn message(&self) -> (text: String)
        ensures
            text@ == self@.message(),
    {
        match self {
            GitError::NoCommits(Scope::Repository) => String::from_str(
                "git repository does not contain any commit.",
            ),
            GitError::NoCommits(Scope::History) => String::from_str("repository has no commits"),
            GitError::InvalidPath => String::from_str("invalid path"),
            GitError::Transport(reason) => reason.clone(),
            GitError::FileResolution(reason) => reason.clone(),
            GitError::Encoding => String::from_str("command output is not valid UTF-8"),
        }
    }
}

} // verus!
