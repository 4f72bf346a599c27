//! What is exchanged with the caller, who runs the version-control tool and
//! looks files up on disk.

use crate::error::GitError;
use crate::model::{
    branch_args, checkout_args, files_args, log_args, log_args_at, message_args, stdout_text,
    CommandView, ErrorView, OutputView, ResolveReplyView, RunReplyView,
};
use crate::text::{decimal, from_utf8};
use vstd::prelude::*;
use vstd::string::*;

verus! {

/// One invocation of the version-control tool.
#[derive(Debug, PartialEq, Eq)]
pub struct Command {
    /// The working tree in which the tool runs, as the bytes of its path.
    pub directory: Vec<u8>,
    /// The arguments, in order.
    pub args: Vec<String>,
}

impl View for Command {
    type V = CommandView;

    open spec fn view(&self) -> CommandView {
        CommandView { directory: self.directory@, args: self.args.deep_view() }
    }
}

impl Command {
    /// The query for the branch that `HEAD` stands on.
    pub fn branch(directory: Vec<u8>) -> (command: Command)
        ensures
            command@ == (CommandView { directory: directory@, args: branch_args() }),
    {
        let mut args: Vec<String> = Vec::new();
        args.push(String::from_str("rev-parse"));
        args.push(String::from_str("--abbrev-ref"));
        args.push(String::from_str("HEAD"));
        assert(args.deep_view() =~= branch_args());
        Command { directory, args }
    }

    /// The query for the identifiers of the `n` most recent commits.
    pub fn log(directory: Vec<u8>, n: usize) -> (command: Command)
        ensures
            command@ == (CommandView { directory: directory@, args: log_args(n as nat) }),
    {
        let mut args: Vec<String> = Vec::new();
        args.push(String::from_str("log"));
        args.push(String::from_str("--format=%H"));
        args.push(String::from_str("-n"));
        args.push(decimal(n));
        assert(args.deep_view() =~= log_args(n as nat));
        Command { directory, args }
    }

    /// The query for the identifiers of the `n` most recent commits that
    /// touched `path`.
    pub fn log_at(directory: Vec<u8>, n: usize, path: String) -> (command: Command)
        ensures
            command@ == (CommandView { directory: directory@, args: log_args_at(n as nat, path@) }),
    {
        let mut args: Vec<String> = Vec::new();
        args.push(String::from_str("log"));
        args.push(String::from_str("--format=%H"));
        args.push(String::from_str("-n"));
        args.push(decimal(n));
        args.push(path);
        assert(args.deep_view() =~= log_args_at(n as nat, path@));
        Command { directory, args }
    }

    /// The order to move the working tree to `object`.
    pub fn checkout(directory: Vec<u8>, object: String) -> (command: Command)
        ensures
            command@ == (CommandView { directory: directory@, args: checkout_args(object@) }),
    {
        let mut args: Vec<String> = Vec::new();
        args.push(String::from_str("checkout"));
        args.push(object);
        assert(args.deep_view() =~= checkout_args(object@));
        Command { directory, args }
    }

    /// The query for the subject line of the current commit.
    pub fn message(directory: Vec<u8>) -> (command: Command)
        ensures
            command@ == (CommandView { directory: directory@, args: message_args() }),
    {
        let mut args: Vec<String> = Vec::new();
        args.push(String::from_str("log"));
        args.push(String::from_str("-1"));
        args.push(String::from_str("--pretty=format:%s"));
        assert(args.deep_view() =~= message_args());
        Command { directory, args }
    }

    /// The query for the names of the files that `commit` changed.
    pub fn files(directory: Vec<u8>, commit: String) -> (command: Command)
        ensures
            command@ == (CommandView { directory: directory@, args: files_args(commit@) }),
    {
        let mut args: Vec<String> = Vec::new();
        args.push(String::from_str("diff-tree"));
        args.push(String::from_str("--no-commit-id"));
        args.push(String::from_str("--name-only"));
        args.push(String::from_str("-r"));
        args.push(commit);
        assert(args.deep_view() =~= files_args(commit@));
        Command { directory, args }
    }
}

/// What an invocation that ran left behind.
#[derive(Debug, PartialEq, Eq)]
pub struct CommandOutput {
    /// The exit code, where the tool exited with one. It decides whether a
    /// checkout succeeded; a query is judged by its streams alone.
    pub status: Option<i32>,
    /// The bytes written to the output stream.
    pub stdout: Vec<u8>,
    /// The bytes written to the error stream.
    pub stderr: Vec<u8>,
}

impl View for CommandOutput {
    type V = OutputView;

    open spec fn view(&self) -> OutputView {
        OutputView { status: self.status, stdout: self.stdout@, stderr: self.stderr@ }
    }
}

/// The answer to a [`Command`].
#[derive(Debug, PartialEq, Eq)]
pub enum RunReply {
    /// The tool ran and ended.
    Exited(CommandOutput),
    /// The tool could not be run; the text says why.
    NotRun(String),
}

impl View for RunReply {
    type V = RunReplyView;

    open spec fn view(&self) -> RunReplyView {
        match self {
            RunReply::Exited(output) => RunReplyView::Exited(output@),
            RunReply::NotRun(reason) => RunReplyView::NotRun(reason@),
        }
    }
}

/// The answer to a request to resolve a file name.
#[derive(Debug, PartialEq, Eq)]
pub enum ResolveReply {
    /// The absolute path, free of symbolic links, as bytes.
    Resolved(Vec<u8>),
    /// The name resolves to nothing; the text says why.
    Unresolved(String),
}

impl View for ResolveReply {
    type V = ResolveReplyView;

    open spec fn view(&self) -> ResolveReplyView {
        match self {
            ResolveReply::Resolved(path) => ResolveReplyView::Resolved(path@),
            ResolveReply::Unresolved(reason) => ResolveReplyView::Unresolved(reason@),
        }
    }
}

/// The view of a text or an error.
pub open spec fn text_result(result: Result<String, GitError>) -> Result<Seq<char>, ErrorView> {
    match result {
        Ok(text) => Ok(text@),
        Err(error) => Err(error@),
    }
}

/// What a finished query printed. Anything on the error stream makes the
/// query a failure that carries that text, whatever the exit status says;
/// bytes that are not UTF-8, on the stream that is read, are an encoding
/// error.
pub fn stdout(output: CommandOutput) -> (result: Result<String, GitError>)
    ensures
        text_result(result) == stdout_text(output@),
{
    if output.stderr.len() > 0 {
        match from_utf8(output.stderr) {
            Some(reason) => Err(GitError::Transport(reason)),
            None => Err(GitError::Encoding),
        }
    } else {
        match from_utf8(output.stdout) {
            Some(text) => Ok(text),
            None => Err(GitError::Encoding),
        }
    }
}

} // verus!
