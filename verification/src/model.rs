//! The mathematical model of the navigation: what each request holds, and
//! what each reply leads to.
//!
//! The executable types of this crate are viewed as the types of this
//! module, and their contracts are stated over the functions defined here.

use crate::error::Scope;
use crate::text::{decimal_text, first_line_text, last_line_text, lines, occurs_in, texts};
use vstd::prelude::*;
use vstd::utf8::*;

verus! {

/// What the tool prints on its error stream when `HEAD` names no commit.
pub const UNBORN_HEAD: &'static str =
    "fatal: ambiguous argument 'HEAD': unknown revision or path not in the working tree.";

/// View of a [`crate::transport::Command`].
pub struct CommandView {
    pub directory: Seq<u8>,
    pub args: Seq<Seq<char>>,
}

/// View of a [`crate::transport::CommandOutput`].
pub struct OutputView {
    pub status: Option<i32>,
    pub stdout: Seq<u8>,
    pub stderr: Seq<u8>,
}

/// View of a [`crate::transport::RunReply`].
pub enum RunReplyView {
    Exited(OutputView),
    NotRun(Seq<char>),
}

/// View of a [`crate::transport::ResolveReply`].
pub enum ResolveReplyView {
    Resolved(Seq<u8>),
    Unresolved(Seq<char>),
}

/// View of a [`crate::error::GitError`].
pub enum ErrorView {
    NoCommits(Scope),
    InvalidPath,
    Transport(Seq<char>),
    FileResolution(Seq<char>),
    Encoding,
}

/// View of a [`crate::repo::Repo`].
pub struct RepoView {
    pub directory: Seq<u8>,
    pub current_branch: Seq<char>,
}

/// View of a [`crate::repo::Outcome`].
pub enum OutcomeView {
    Repository(RepoView),
    CheckedOut,
    Commit(Seq<char>),
    Message(Seq<char>),
    Paths(Seq<Seq<u8>>),
}

/// View of a [`crate::repo::AfterRun`].
pub enum AfterRunView {
    Branch { directory: Seq<u8> },
    Commit,
    CommitThenCheckout { directory: Seq<u8> },
    Checkout,
    Message,
    CommitThenFiles { directory: Seq<u8> },
    Files { directory: Seq<u8> },
}

/// View of a [`crate::repo::AfterResolve`].
pub struct AfterResolveView {
    pub directory: Seq<u8>,
    pub remaining: Seq<Seq<char>>,
    pub resolved: Seq<Seq<u8>>,
}

/// View of a [`crate::repo::Step`].
pub enum StepView {
    Run { command: CommandView, next: AfterRunView },
    Resolve { directory: Seq<u8>, path: Seq<char>, rest: AfterResolveView },
    Done { result: Result<OutcomeView, ErrorView> },
}

/// An answer of either kind, as the caller gives them one after the other.
pub enum ReplyView {
    Ran(RunReplyView),
    Looked(ResolveReplyView),
}

/// The step that ends an operation with `error`.
pub open spec fn failed(error: ErrorView) -> StepView {
    StepView::Done { result: Err(error) }
}

/// The step that ends an operation with `outcome`.
pub open spec fn finished(outcome: OutcomeView) -> StepView {
    StepView::Done { result: Ok(outcome) }
}

/// The arguments that ask which branch `HEAD` stands on.
pub open spec fn branch_args() -> Seq<Seq<char>> {
    seq!["rev-parse"@, "--abbrev-ref"@, "HEAD"@]
}

/// The arguments that ask for the identifiers of the `n` most recent
/// commits, newest first, one per line.
pub open spec fn log_args(n: nat) -> Seq<Seq<char>> {
    seq!["log"@, "--format=%H"@, "-n"@, decimal_text(n)]
}

/// The arguments that ask for the identifiers of the `n` most recent commits
/// that touched `path`, newest first, one per line.
pub open spec fn log_args_at(n: nat, path: Seq<char>) -> Seq<Seq<char>> {
    log_args(n).push(path)
}

/// The arguments that move the working tree to `object`.
pub open spec fn checkout_args(object: Seq<char>) -> Seq<Seq<char>> {
    seq!["checkout"@, object]
}

/// The arguments that ask for the subject line of the current commit.
pub open spec fn message_args() -> Seq<Seq<char>> {
    seq!["log"@, "-1"@, "--pretty=format:%s"@]
}

/// The arguments that ask for the names of the files that `commit` changed
/// against its parent, one per line.
pub open spec fn files_args(commit: Seq<char>) -> Seq<Seq<char>> {
    seq!["diff-tree"@, "--no-commit-id"@, "--name-only"@, "-r"@, commit]
}

/// What a finished query printed. Anything on the error stream is a
/// failure, whatever the exit status says; the streams must be UTF-8.
pub open spec fn stdout_text(output: OutputView) -> Result<Seq<char>, ErrorView> {
    if output.stderr.len() > 0 {
        if valid_utf8(output.stderr) {
            Err(ErrorView::Transport(decode_utf8(output.stderr)))
        } else {
            Err(ErrorView::Encoding)
        }
    } else if valid_utf8(output.stdout) {
        Ok(decode_utf8(output.stdout))
    } else {
        Err(ErrorView::Encoding)
    }
}

/// What a reply to a query printed.
pub open spec fn reply_text(reply: RunReplyView) -> Result<Seq<char>, ErrorView> {
    match reply {
        RunReplyView::NotRun(reason) => Err(ErrorView::Transport(reason)),
        RunReplyView::Exited(output) => stdout_text(output),
    }
}

/// The error stream says that `HEAD` names no commit.
pub open spec fn reports_unborn_head(output: OutputView) -> bool {
    &&& output.stderr.len() > 0
    &&& valid_utf8(output.stderr)
    &&& occurs_in(encode_utf8(UNBORN_HEAD@), output.stderr)
}

/// The branch that the reply to the branch query names: the first line of
/// what the tool printed, without its line ending. A repository without
/// commits is told apart from other failures.
pub open spec fn branch_text(reply: RunReplyView) -> Result<Seq<char>, ErrorView> {
    match reply {
        RunReplyView::Exited(output) if reports_unborn_head(output) => Err(
            ErrorView::NoCommits(Scope::Repository),
        ),
        _ => match reply_text(reply) {
            Err(error) => Err(error),
            Ok(_) => Ok(first_line_text(reply->Exited_0.stdout)),
        },
    }
}

/// The commit that the reply to a history query resolves to: the last line
/// of the listing. An empty listing is a history without commits.
pub open spec fn commit_text(reply: RunReplyView) -> Result<Seq<char>, ErrorView> {
    match reply_text(reply) {
        Err(error) => Err(error),
        Ok(_) => match last_line_text(reply->Exited_0.stdout) {
            Some(line) => Ok(line),
            None => Err(ErrorView::NoCommits(Scope::History)),
        },
    }
}

/// The exit status of a tool that did what it was asked to.
pub open spec fn succeeded(status: Option<i32>) -> bool {
    status == Some(0i32)
}

/// Whether the reply to a checkout says that the working tree was moved.
/// The exit status decides: a tool that exits with success has moved it,
/// whatever it wrote on either stream, and one that does not has failed
/// with what it wrote on its error stream.
pub open spec fn checkout_result(reply: RunReplyView) -> Result<(), ErrorView> {
    match reply {
        RunReplyView::NotRun(reason) => Err(ErrorView::Transport(reason)),
        RunReplyView::Exited(output) => if succeeded(output.status) {
            Ok(())
        } else if valid_utf8(output.stderr) {
            Err(ErrorView::Transport(decode_utf8(output.stderr)))
        } else {
            Err(ErrorView::Encoding)
        },
    }
}

/// The names that the reply to a file query lists, one per line.
pub open spec fn files_text(reply: RunReplyView) -> Result<Seq<Seq<char>>, ErrorView> {
    match reply_text(reply) {
        Err(error) => Err(error),
        Ok(_) => Ok(texts(lines(reply->Exited_0.stdout))),
    }
}

/// What remains to do once `resolved` holds the paths of the names before
/// `names`: resolve the first of `names` in `directory`, or end with all
/// the paths.
pub open spec fn resolve_from(
    directory: Seq<u8>,
    names: Seq<Seq<char>>,
    resolved: Seq<Seq<u8>>,
) -> StepView {
    if names.len() == 0 {
        finished(OutcomeView::Paths(resolved))
    } else {
        StepView::Resolve {
            directory,
            path: names[0],
            rest: AfterResolveView { directory, remaining: names.drop_first(), resolved },
        }
    }
}

impl AfterRunView {
    /// The step that follows when the command was answered with `reply`.
    pub open spec fn resume(self, reply: RunReplyView) -> StepView {
        match self {
            AfterRunView::Branch { directory } => match branch_text(reply) {
                Ok(current_branch) => finished(
                    OutcomeView::Repository(RepoView { directory, current_branch }),
                ),
                Err(error) => failed(error),
            },
            AfterRunView::Commit => match commit_text(reply) {
                Ok(commit) => finished(OutcomeView::Commit(commit)),
                Err(error) => failed(error),
            },
            AfterRunView::CommitThenCheckout { directory } => match commit_text(reply) {
                Ok(commit) => StepView::Run {
                    command: CommandView { directory, args: checkout_args(commit) },
                    next: AfterRunView::Checkout,
                },
                Err(error) => failed(error),
            },
            AfterRunView::Checkout => match checkout_result(reply) {
                Ok(_) => finished(OutcomeView::CheckedOut),
                Err(error) => failed(error),
            },
            AfterRunView::Message => match reply_text(reply) {
                Ok(message) => finished(OutcomeView::Message(message)),
                Err(error) => failed(error),
            },
            AfterRunView::CommitThenFiles { directory } => match commit_text(reply) {
                Ok(commit) => StepView::Run {
                    command: CommandView { directory, args: files_args(commit) },
                    next: AfterRunView::Files { directory },
                },
                Err(error) => failed(error),
            },
            AfterRunView::Files { directory } => match files_text(reply) {
                Ok(names) => resolve_from(directory, names, Seq::empty()),
                Err(error) => failed(error),
            },
        }
    }
}

impl AfterResolveView {
    /// The step that follows when the resolution was answered with `reply`.
    pub open spec fn resume(self, reply: ResolveReplyView) -> StepView {
        match reply {
            ResolveReplyView::Resolved(path) => resolve_from(
                self.directory,
                self.remaining,
                self.resolved.push(path),
            ),
            ResolveReplyView::Unresolved(reason) => failed(ErrorView::FileResolution(reason)),
        }
    }
}

/// Where the operation that stands at `step` ends when the caller answers
/// its requests with `replies`, in order. `None` where the replies do not
/// fit the requests, stop before the end, or go on behind it.
pub open spec fn conclusion(step: StepView, replies: Seq<ReplyView>) -> Option<
    Result<OutcomeView, ErrorView>,
>
    decreases replies.len(),
{
    match step {
        StepView::Done { result } => if replies.len() == 0 {
            Some(result)
        } else {
            None
        },
        StepView::Run { command, next } => if replies.len() > 0 && replies[0] is Ran {
            conclusion(next.resume(replies[0]->Ran_0), replies.drop_first())
        } else {
            None
        },
        StepView::Resolve { directory, path, rest } => if replies.len() > 0 && replies[0] is Looked {
            conclusion(rest.resume(replies[0]->Looked_0), replies.drop_first())
        } else {
            None
        },
    }
}

/// The step at which the operation that stands at `step` arrives when the
/// caller answers its requests with `replies`, in order. `None` where the
/// replies do not fit the requests or go on behind the end.
pub open spec fn reached(step: StepView, replies: Seq<ReplyView>) -> Option<StepView>
    decreases replies.len(),
{
    if replies.len() == 0 {
        Some(step)
    } else {
        match step {
            StepView::Done { result } => None,
            StepView::Run { command, next } => if replies[0] is Ran {
                reached(next.resume(replies[0]->Ran_0), replies.drop_first())
            } else {
                None
            },
            StepView::Resolve { directory, path, rest } => if replies[0] is Looked {
                reached(rest.resume(replies[0]->Looked_0), replies.drop_first())
            } else {
                None
            },
        }
    }
}

/// The first step of opening the repository in `directory`.
pub open spec fn open_step(directory: Seq<u8>) -> StepView {
    StepView::Run {
        command: CommandView { directory, args: branch_args() },
        next: AfterRunView::Branch { directory },
    }
}

impl RepoView {
    /// The command that runs the tool with `args` in this repository.
    pub open spec fn git(self, args: Seq<Seq<char>>) -> CommandView {
        CommandView { directory: self.directory, args }
    }

    /// First step of resolving the commit `n` steps back from `HEAD`.
    pub open spec fn nth_commit(self, n: nat) -> StepView {
        StepView::Run { command: self.git(log_args(n)), next: AfterRunView::Commit }
    }

    /// First step of resolving the commit `n` steps back in the history of
    /// the path that `path` encodes.
    pub open spec fn nth_commit_at_path(self, n: nat, path: Seq<u8>) -> StepView {
        if valid_utf8(path) {
            StepView::Run {
                command: self.git(log_args_at(n, decode_utf8(path))),
                next: AfterRunView::Commit,
            }
        } else {
            failed(ErrorView::InvalidPath)
        }
    }

    /// First step of moving the working tree to `object`.
    pub open spec fn checkout(self, object: Seq<char>) -> StepView {
        StepView::Run { command: self.git(checkout_args(object)), next: AfterRunView::Checkout }
    }

    /// First step of moving the working tree back to the branch that it
    /// stood on when the handle was made.
    pub open spec fn checkout_head(self) -> StepView {
        self.checkout(self.current_branch)
    }

    /// First step of moving the working tree one commit back.
    pub open spec fn checkout_last_commit(self) -> StepView {
        StepView::Run {
            command: self.git(log_args(2)),
            next: AfterRunView::CommitThenCheckout { directory: self.directory },
        }
    }

    /// First step of moving the working tree one commit back in the history
    /// of the path that `path` encodes.
    pub open spec fn checkout_previous_commit_at_path(self, path: Seq<u8>) -> StepView {
        if valid_utf8(path) {
            StepView::Run {
                command: self.git(log_args_at(2, decode_utf8(path))),
                next: AfterRunView::CommitThenCheckout { directory: self.directory },
            }
        } else {
            failed(ErrorView::InvalidPath)
        }
    }

    /// First step of listing the files that the current commit changed.
    pub open spec fn edited_file_in_current_commit(self) -> StepView {
        StepView::Run {
            command: self.git(log_args(1)),
            next: AfterRunView::CommitThenFiles { directory: self.directory },
        }
    }

    /// First step of reading the subject line of the current commit.
    pub open spec fn current_commit_message(self) -> StepView {
        StepView::Run { command: self.git(message_args()), next: AfterRunView::Message }
    }
}

} // verus!
