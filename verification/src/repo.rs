//! The repository handle and the steps of its operations.
//!
//! An operation never runs the version-control tool itself. It hands out a
//! [`Step`]: a command to run or a file name to resolve, with the state that
//! takes the answer, or the operation's result. The caller performs what is
//! asked and resumes with the reply until the step is [`Step::Done`].

use crate::error::{GitError, Scope};
use crate::model::{
    branch_text, checkout_result, commit_text, files_text, open_step, reply_text, resolve_from,
    AfterResolveView, AfterRunView, ErrorView, OutcomeView, RepoView, StepView, UNBORN_HEAD,
};
use crate::text::{contains, first_line, from_utf8, last_line, split_lines};
use crate::transport::{stdout, text_result, Command, ResolveReply, RunReply};
use vstd::prelude::*;
use vstd::slice::slice_to_vec;
use vstd::string::*;
use vstd::utf8::*;

verus! {

/// A working tree, and the branch that it stood on when the handle was
/// made.
#[derive(Debug, PartialEq, Eq)]
pub struct Repo {
    /// Root directory of the working tree, as the bytes of its path.
    directory: Vec<u8>,
    /// The name of the branch, as the branch query printed it when the
    /// handle was made.
    current_branch: String,
}

impl View for Repo {
    type V = RepoView;

    closed spec fn view(&self) -> RepoView {
        RepoView { directory: self.directory@, current_branch: self.current_branch@ }
    }
}

/// What an operation that succeeded gives back.
#[derive(Debug, PartialEq, Eq)]
pub enum Outcome {
    /// The handle of the repository that was opened.
    Repository(Repo),
    /// The working tree was moved.
    CheckedOut,
    /// The identifier of the commit that was resolved.
    Commit(String),
    /// The subject line that was read.
    Message(String),
    /// The absolute paths of the files that were listed, in the order of the
    /// listing.
    Paths(Vec<Vec<u8>>),
}

impl View for Outcome {
    type V = OutcomeView;

    open spec fn view(&self) -> OutcomeView {
        match self {
            Outcome::Repository(repo) => OutcomeView::Repository(repo@),
            Outcome::CheckedOut => OutcomeView::CheckedOut,
            Outcome::Commit(commit) => OutcomeView::Commit(commit@),
            Outcome::Message(message) => OutcomeView::Message(message@),
            Outcome::Paths(paths) => OutcomeView::Paths(paths.deep_view()),
        }
    }
}

/// What an operation does with the answer to the command that it asked for.
#[derive(Debug, PartialEq, Eq)]
pub enum AfterRun {
    /// Open the repository in `directory` on the branch that was printed.
    Branch { directory: Vec<u8> },
    /// Give the commit that the listing ends with.
    Commit,
    /// Check out, in `directory`, the commit that the listing ends with.
    CommitThenCheckout { directory: Vec<u8> },
    /// Report that the working tree was moved.
    Checkout,
    /// Give the subject line that was printed.
    Message,
    /// Ask, in `directory`, for the files of the commit that the listing
    /// ends with.
    CommitThenFiles { directory: Vec<u8> },
    /// Resolve, in `directory`, the file names that were printed.
    Files { directory: Vec<u8> },
}

impl View for AfterRun {
    type V = AfterRunView;

    open spec fn view(&self) -> AfterRunView {
        match self {
            AfterRun::Branch { directory } => AfterRunView::Branch { directory: directory@ },
            AfterRun::Commit => AfterRunView::Commit,
            AfterRun::CommitThenCheckout { directory } => AfterRunView::CommitThenCheckout {
                directory: directory@,
            },
            AfterRun::Checkout => AfterRunView::Checkout,
            AfterRun::Message => AfterRunView::Message,
            AfterRun::CommitThenFiles { directory } => AfterRunView::CommitThenFiles {
                directory: directory@,
            },
            AfterRun::Files { directory } => AfterRunView::Files { directory: directory@ },
        }
    }
}

/// What a listing of files does with the answer to the resolution that it
/// asked for.
#[derive(Debug, PartialEq, Eq)]
pub struct AfterResolve {
    /// The root of the working tree, to which the names are relative.
    directory: Vec<u8>,
    /// The names that follow the one that is being resolved.
    remaining: Vec<String>,
    /// The paths of the names before it.
    resolved: Vec<Vec<u8>>,
}

impl View for AfterResolve {
    type V = AfterResolveView;

    closed spec fn view(&self) -> AfterResolveView {
        AfterResolveView {
            directory: self.directory@,
            remaining: self.remaining.deep_view(),
            resolved: self.resolved.deep_view(),
        }
    }
}

/// Where an operation stands.
#[derive(Debug, PartialEq, Eq)]
pub enum Step {
    /// Run `command`, and resume `next` with the answer.
    Run { command: Command, next: AfterRun },
    /// Resolve the file that `path` names relative to `directory` to an
    /// absolute path without symbolic links, and resume `rest` with the
    /// answer.
    Resolve { directory: Vec<u8>, path: String, rest: AfterResolve },
    /// The operation has ended with `result`.
    Done { result: Result<Outcome, GitError> },
}

impl View for Step {
    type V = StepView;

    open spec fn view(&self) -> StepView {
        match self {
            Step::Run { command, next } => StepView::Run { command: command@, next: next@ },
            Step::Resolve { directory, path, rest } => StepView::Resolve {
                directory: directory@,
                path: path@,
                rest: rest@,
            },
            Step::Done { result } => StepView::Done {
                result: match result {
                    Ok(outcome) => Ok(outcome@),
                    Err(error) => Err(error@),
                },
            },
        }
    }
}

/// What a reply to a query printed.
pub fn read_text(reply: RunReply) -> (result: Result<String, GitError>)
    ensures
        text_result(result) == reply_text(reply@),
{
    match reply {
        RunReply::NotRun(reason) => Err(GitError::Transport(reason)),
        RunReply::Exited(output) => stdout(output),
    }
}

/// Whether the reply to a checkout says that the working tree was moved. A
/// tool that exits with success has moved it, whatever it wrote on either
/// stream; one that does not has failed with what it wrote on its error
/// stream; one that could not be run has failed with the reason given.
pub fn read_checkout(reply: RunReply) -> (result: Result<(), GitError>)
    ensures
        match result {
            Ok(_) => checkout_result(reply@) == Ok::<(), ErrorView>(()),
            Err(error) => checkout_result(reply@) == Err::<(), ErrorView>(error@),
        },
{
    match reply {
        RunReply::NotRun(reason) => Err(GitError::Transport(reason)),
        RunReply::Exited(output) => {
            let done = match output.status {
                Some(code) => code == 0,
                None => false,
            };
            if done {
                Ok(())
            } else {
                match from_utf8(output.stderr) {
                    Some(reason) => Err(GitError::Transport(reason)),
                    None => Err(GitError::Encoding),
                }
            }
        },
    }
}

/// The commit that the reply to a history query resolves to: the last line
/// of the listing, and [`GitError::NoCommits`] where the listing is empty.
pub fn read_commit(reply: RunReply) -> (result: Result<String, GitError>)
    ensures
        text_result(result) == commit_text(reply@),
{
    let ghost seen = reply@;
    match read_text(reply) {
        Err(error) => Err(error),
        Ok(listing) => {
            proof {
                decode_utf8_encode_utf8(seen->Exited_0.stdout);
            }
            match last_line(listing.as_str()) {
                Some(commit) => Ok(commit),
                None => Err(GitError::NoCommits(Scope::History)),
            }
        },
    }
}

/// The file names that the reply to a file query lists, in order.
pub fn read_files(reply: RunReply) -> (result: Result<Vec<String>, GitError>)
    ensures
        match result {
            Ok(names) => files_text(reply@) == Ok::<Seq<Seq<char>>, ErrorView>(names.deep_view()),
            Err(error) => files_text(reply@) == Err::<Seq<Seq<char>>, ErrorView>(error@),
        },
{
    let ghost seen = reply@;
    match read_text(reply) {
        Err(error) => Err(error),
        Ok(listing) => {
            proof {
                decode_utf8_encode_utf8(seen->Exited_0.stdout);
            }
            Ok(split_lines(listing.as_str()))
        },
    }
}

/// Ask for the first of `names` in `directory`, or end with `resolved`
/// where none is left.
fn resolve_next(directory: Vec<u8>, names: Vec<String>, resolved: Vec<Vec<u8>>) -> (step: Step)
    ensures
        step@ == resolve_from(directory@, names.deep_view(), resolved.deep_view()),
{
    if names.len() == 0 {
        Step::Done { result: Ok(Outcome::Paths(resolved)) }
    } else {
        let mut remaining = names;
        let path = remaining.remove(0);
        assert(remaining.deep_view() =~= names.deep_view().drop_first());
        let root = directory.clone();
        Step::Resolve { directory: root, path, rest: AfterResolve { directory, remaining, resolved } }
    }
}

impl AfterRun {
    /// The step that follows once the command was answered with `reply`.
    pub fn resume(self, reply: RunReply) -> (step: Step)
        ensures
            step@ == self@.resume(reply@),
    {
        match self {
            AfterRun::Branch { directory } => match Repo::get_current_branch(reply) {
                Ok(current_branch) => Step::Done {
                    result: Ok(Outcome::Repository(Repo { directory, current_branch })),
                },
                Err(error) => Step::Done { result: Err(error) },
            },
            AfterRun::Commit => match read_commit(reply) {
                Ok(commit) => Step::Done { result: Ok(Outcome::Commit(commit)) },
                Err(error) => Step::Done { result: Err(error) },
            },
            AfterRun::CommitThenCheckout { directory } => match read_commit(reply) {
                Ok(commit) => Step::Run {
                    command: Command::checkout(directory, commit),
                    next: AfterRun::Checkout,
                },
                Err(error) => Step::Done { result: Err(error) },
            },
            AfterRun::Checkout => match read_checkout(reply) {
                Ok(_) => Step::Done { result: Ok(Outcome::CheckedOut) },
                Err(error) => Step::Done { result: Err(error) },
            },
            AfterRun::Message => match read_text(reply) {
                Ok(message) => Step::Done { result: Ok(Outcome::Message(message)) },
                Err(error) => Step::Done { result: Err(error) },
            },
            AfterRun::CommitThenFiles { directory } => match read_commit(reply) {
                Ok(commit) => Step::Run {
                    command: Command::files(directory.clone(), commit),
                    next: AfterRun::Files { directory },
                },
                Err(error) => Step::Done { result: Err(error) },
            },
            AfterRun::Files { directory } => match read_files(reply) {
                Ok(names) => {
                    let resolved: Vec<Vec<u8>> = Vec::new();
                    assert(resolved.deep_view() =~= Seq::<Seq<u8>>::empty());
                    resolve_next(directory, names, resolved)
                },
                Err(error) => Step::Done { result: Err(error) },
            },
        }
    }
}

impl AfterResolve {
    /// The step that follows once the resolution was answered with `reply`:
    /// the next name, all the paths where it was the last, or the failure.
    pub fn resume(self, reply: ResolveReply) -> (step: Step)
        ensures
            step@ == self@.resume(reply@),
    {
        match reply {
            ResolveReply::Resolved(path) => {
                let mut resolved = self.resolved;
                resolved.push(path);
                assert(path.deep_view() =~= path@);
                assert(resolved.deep_view() =~= self.resolved.deep_view().push(path@));
                resolve_next(self.directory, self.remaining, resolved)
            },
            ResolveReply::Unresolved(reason) => Step::Done {
                result: Err(GitError::FileResolution(reason)),
            },
        }
    }
}

impl Repo {
    /// First step of opening the repository in `directory`: the query for
    /// the branch that `HEAD` stands on. The operation ends with the handle,
    /// or with [`GitError::NoCommits`] where the directory holds no commit.
    pub fn new(directory: Vec<u8>) -> (step: Step)
        ensures
            step@ == open_step(directory@),
    {
        let command = Command::branch(directory.clone());
        Step::Run { command, next: AfterRun::Branch { directory } }
    }

    /// The branch that the reply to the branch query names: the first line
    /// of what the tool printed, without its line ending. Where the error
    /// stream reports that `HEAD` names no commit the failure is
    /// [`GitError::NoCommits`] of the repository; any other failure is
    /// passed on.
    pub fn get_current_branch(reply: RunReply) -> (result: Result<String, GitError>)
        ensures
            text_result(result) == branch_text(reply@),
    {
        match reply {
            RunReply::NotRun(reason) => Err(GitError::Transport(reason)),
            RunReply::Exited(output) => {
                let ghost seen = output@;
                match stdout(output) {
                    Err(GitError::Transport(reason)) => {
                        proof {
                            decode_utf8_encode_utf8(seen.stderr);
                        }
                        if contains(reason.as_str().as_bytes(), UNBORN_HEAD.as_bytes()) {
                            Err(GitError::NoCommits(Scope::Repository))
                        } else {
                            Err(GitError::Transport(reason))
                        }
                    },
                    Err(error) => Err(error),
                    Ok(printed) => {
                        proof {
                            decode_utf8_encode_utf8(seen.stdout);
                        }
                        Ok(first_line(printed.as_str()))
                    },
                }
            },
        }
    }

    /// The root directory of the working tree.
    pub fn directory(&self) -> (directory: &Vec<u8>)
        ensures
            directory@ == self@.directory,
    {
        &self.directory
    }

    /// The branch that the working tree stood on when the handle was made.
    pub fn current_branch(&self) -> (branch: &str)
        ensures
            branch@ == self@.current_branch,
    {
        self.current_branch.as_str()
    }

    /// The command that runs the tool with `args` in this repository.
    pub fn git(&self, args: Vec<String>) -> (command: Command)
        ensures
            command@ == self@.git(args.deep_view()),
    {
        Repo::git_in_dir(&self.directory, args)
    }

    /// The command that runs the tool with `args` in `dir`.
    pub fn git_in_dir(dir: &Vec<u8>, args: Vec<String>) -> (command: Command)
        ensures
            command@.directory == dir@,
            command@.args == args.deep_view(),
    {
        Command { directory: dir.clone(), args }
    }

    /// First step of moving the working tree back to the branch that it
    /// stood on when the handle was made.
    pub fn checkout_head(&self) -> (step: Step)
        ensures
            step@ == self@.checkout_head(),
    {
        self.checkout(self.current_branch.as_str())
    }

    /// First step of resolving the commit that `HEAD` stands on.
    pub fn current_commit(&self) -> (step: Step)
        ensures
            step@ == self@.nth_commit(1),
    {
        self.nth_commit(1)
    }

    /// First step of resolving the commit before the one that `HEAD` stands
    /// on.
    pub fn previous_commit(&self) -> (step: Step)
        ensures
            step@ == self@.nth_commit(2),
    {
        self.nth_commit(2)
    }

    /// First step of resolving the commit `nth` steps back from `HEAD`,
    /// where 1 is the commit that `HEAD` stands on: the query for the `nth`
    /// most recent identifiers. The operation ends with the last identifier
    /// of the listing, which is the oldest commit where the history is
    /// shorter than `nth`.
    pub fn nth_commit(&self, nth: usize) -> (step: Step)
        ensures
            step@ == self@.nth_commit(nth as nat),
    {
        Step::Run { command: Command::log(self.directory.clone(), nth), next: AfterRun::Commit }
    }

    /// First step of moving the working tree one commit back.
    pub fn checkout_last_commit(&self) -> (step: Step)
        ensures
            step@ == self@.checkout_last_commit(),
    {
        Step::Run {
            command: Command::log(self.directory.clone(), 2),
            next: AfterRun::CommitThenCheckout { directory: self.directory.clone() },
        }
    }

    /// First step of listing the files that the current commit changed.
    /// The operation ends with their absolute paths, or with the first
    /// failure to resolve one of them.
    pub fn edited_file_in_current_commit(&self) -> (step: Step)
        ensures
            step@ == self@.edited_file_in_current_commit(),
    {
        Step::Run {
            command: Command::log(self.directory.clone(), 1),
            next: AfterRun::CommitThenFiles { directory: self.directory.clone() },
        }
    }

    /// First step of resolving the commit before the last one that touched
    /// the path that `path` encodes.
    pub fn previous_commit_at_path(&self, path: &[u8]) -> (step: Step)
        ensures
            step@ == self@.nth_commit_at_path(2, path@),
    {
        self.nth_commit_at_path(2, path)
    }

    /// First step of moving the working tree one commit back in the history
    /// of the path that `path` encodes. The operation fails at once with
    /// [`GitError::InvalidPath`] where `path` is not UTF-8.
    pub fn checkout_previous_commit_at_path(&self, path: &[u8]) -> (step: Step)
        ensures
            step@ == self@.checkout_previous_commit_at_path(path@),
    {
        match from_utf8(slice_to_vec(path)) {
            Some(name) => Step::Run {
                command: Command::log_at(self.directory.clone(), 2, name),
                next: AfterRun::CommitThenCheckout { directory: self.directory.clone() },
            },
            None => Step::Done { result: Err(GitError::InvalidPath) },
        }
    }

    /// First step of moving the working tree to `object`, a commit
    /// identifier or a branch name. The operation succeeds where the tool
    /// exits with success, whatever it prints.
    pub fn checkout(&self, object: &str) -> (step: Step)
        ensures
            step@ == self@.checkout(object@),
    {
        Step::Run {
            command: Command::checkout(self.directory.clone(), String::from_str(object)),
            next: AfterRun::Checkout,
        }
    }

    /// First step of resolving the commit `nth` steps back in the history of
    /// the path that `path` encodes. The operation fails at once with
    /// [`GitError::InvalidPath`] where `path` is not UTF-8.
    pub fn nth_commit_at_path(&self, nth: usize, path: &[u8]) -> (step: Step)
        ensures
            step@ == self@.nth_commit_at_path(nth as nat, path@),
    {
        match from_utf8(slice_to_vec(path)) {
            Some(name) => Step::Run {
                command: Command::log_at(self.directory.clone(), nth, name),
                next: AfterRun::Commit,
            },
            None => Step::Done { result: Err(GitError::InvalidPath) },
        }
    }

    /// First step of reading the subject line of the current commit. The
    /// operation ends with all that the tool printed.
    pub fn current_commit_message(&self) -> (step: Step)
        ensures
            step@ == self@.current_commit_message(),
    {
        Step::Run { command: Command::message(self.directory.clone()), next: AfterRun::Message }
    }
}

} // verus!
