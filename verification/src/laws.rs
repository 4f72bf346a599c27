//! What holds of the operations, whatever the caller answers.
//!
//! The laws are stated over [`conclusion`], the result that an operation
//! reaches when its requests are answered with a given sequence of replies,
//! and over [`reached`], the step at which it then stands.

use crate::error::Scope;
use crate::model::{
    checkout_result, commit_text, conclusion, files_args, files_text, finished, open_step,
    reached, reports_unborn_head, resolve_from, succeeded, AfterResolveView, AfterRunView,
    CommandView, ErrorView, OutcomeView, OutputView, RepoView, ReplyView, ResolveReplyView,
    RunReplyView, StepView,
};
use crate::text::{
    is_line, law_lines_of_listing, law_listing_is_utf8, lemma_line_end, lines, listing,
};
use vstd::prelude::*;
use vstd::utf8::*;

verus! {

/// The reply of a tool that ran, printed `stdout` and kept its error stream
/// empty.
pub open spec fn printed(status: Option<i32>, stdout: Seq<u8>) -> ReplyView {
    ReplyView::Ran(RunReplyView::Exited(OutputView { status, stdout, stderr: Seq::empty() }))
}

/// The replies that resolve one name after the other to `paths`.
pub open spec fn looked_up(paths: Seq<Seq<u8>>) -> Seq<ReplyView> {
    Seq::new(paths.len(), |i: int| ReplyView::Looked(ResolveReplyView::Resolved(paths[i])))
}

/// How many identifiers a history of `len` commits yields when `n` are
/// asked for.
pub open spec fn listed(n: nat, len: nat) -> nat {
    if n <= len {
        n
    } else {
        len
    }
}

/// A command's reply leads to whatever the state that takes it says.
proof fn lemma_after_run(
    command: CommandView,
    next: AfterRunView,
    reply: RunReplyView,
    more: Seq<ReplyView>,
)
    ensures
        conclusion(StepView::Run { command, next }, seq![ReplyView::Ran(reply)] + more)
            == conclusion(next.resume(reply), more),
        reached(StepView::Run { command, next }, seq![ReplyView::Ran(reply)] + more) == reached(
            next.resume(reply),
            more,
        ),
{
    let replies = seq![ReplyView::Ran(reply)] + more;
    assert(replies[0] == ReplyView::Ran(reply));
    assert(replies.drop_first() =~= more);
}

/// A resolution's reply leads to whatever the state that takes it says.
proof fn lemma_after_resolve(
    directory: Seq<u8>,
    path: Seq<char>,
    rest: AfterResolveView,
    reply: ResolveReplyView,
    more: Seq<ReplyView>,
)
    ensures
        conclusion(
            StepView::Resolve { directory, path, rest },
            seq![ReplyView::Looked(reply)] + more,
        ) == conclusion(rest.resume(reply), more),
        reached(StepView::Resolve { directory, path, rest }, seq![ReplyView::Looked(reply)] + more)
            == reached(rest.resume(reply), more),
{
    let replies = seq![ReplyView::Looked(reply)] + more;
    assert(replies[0] == ReplyView::Looked(reply));
    assert(replies.drop_first() =~= more);
}

/// One reply is one reply followed by none.
proof fn lemma_single(reply: ReplyView)
    ensures
        seq![reply] + Seq::<ReplyView>::empty() == seq![reply],
{
    assert(seq![reply] + Seq::<ReplyView>::empty() =~= seq![reply]);
}

/// Opening a directory without commits fails with
/// [`ErrorView::NoCommits`] of the repository: where the tool reports on
/// its error stream that `HEAD` names no commit, no handle is made,
/// whatever the directory, the exit status and the output stream are, and
/// nothing of either stream is in the error.
pub proof fn law_open_without_commits(directory: Seq<u8>, output: OutputView)
    requires
        reports_unborn_head(output),
    ensures
        conclusion(open_step(directory), seq![ReplyView::Ran(RunReplyView::Exited(output))])
            == Some(Err::<OutcomeView, ErrorView>(ErrorView::NoCommits(Scope::Repository))),
        ErrorView::NoCommits(Scope::Repository).message()
            == "git repository does not contain any commit."@,
{
    let reply = RunReplyView::Exited(output);
    lemma_after_run(
        open_step(directory)->command,
        AfterRunView::Branch { directory },
        reply,
        Seq::empty(),
    );
    lemma_single(ReplyView::Ran(reply));
}

/// Opening a directory captures the name of the branch and not the line
/// ending behind it: where the tool prints `branch` on a line, or `branch`
/// alone, the handle holds the directory and the text of `branch`.
pub proof fn law_open_captures_branch(directory: Seq<u8>, status: Option<i32>, branch: Seq<u8>)
    requires
        valid_utf8(branch),
        is_line(branch),
    ensures
        conclusion(open_step(directory), seq![printed(status, listing(seq![branch]))]) == Some(
            Ok::<OutcomeView, ErrorView>(
                OutcomeView::Repository(
                    RepoView { directory, current_branch: decode_utf8(branch) },
                ),
            ),
        ),
        conclusion(open_step(directory), seq![printed(status, branch)]) == Some(
            Ok::<OutcomeView, ErrorView>(
                OutcomeView::Repository(
                    RepoView { directory, current_branch: decode_utf8(branch) },
                ),
            ),
        ),
{
    let one = seq![branch];
    assert(one[0] == branch);
    law_lines_of_listing(one);
    law_listing_is_utf8(one);
    let with_feed = RunReplyView::Exited(
        OutputView { status, stdout: listing(one), stderr: Seq::empty() },
    );
    let alone = RunReplyView::Exited(OutputView { status, stdout: branch, stderr: Seq::empty() });
    if branch.len() > 0 {
        lemma_line_end(branch, branch.len() as int);
        assert(lines(branch) =~= seq![branch]);
    } else {
        assert(lines(branch) =~= Seq::<Seq<u8>>::empty());
        assert(decode_utf8(branch) =~= Seq::<char>::empty());
    }
    lemma_after_run(
        open_step(directory)->command,
        AfterRunView::Branch { directory },
        with_feed,
        Seq::empty(),
    );
    lemma_after_run(
        open_step(directory)->command,
        AfterRunView::Branch { directory },
        alone,
        Seq::empty(),
    );
    lemma_single(ReplyView::Ran(with_feed));
    lemma_single(ReplyView::Ran(alone));
}

/// Resolving the commit `n` steps back asks once, in the directory of the
/// handle, for the `n` most recent identifiers, and gives the `n`th
/// identifier of the history, counted from the newest, or the oldest one
/// where the history is shorter than `n`: against a tool that prints the
/// `n` most recent identifiers of `history`, or all of them where there are
/// fewer, the result is the last that it printed. The same holds of the
/// history of a path.
pub proof fn law_nth_commit_degrades_to_oldest(
    repo: RepoView,
    history: Seq<Seq<u8>>,
    n: nat,
    path: Seq<u8>,
    status: Option<i32>,
)
    requires
        n >= 1,
        history.len() >= 1,
        forall|i: int| 0 <= i < history.len() ==> is_line(#[trigger] history[i]),
        forall|i: int| 0 <= i < history.len() ==> valid_utf8(#[trigger] history[i]),
        valid_utf8(path),
    ensures
        repo.nth_commit(n)->command == (CommandView {
            directory: repo.directory,
            args: seq!["log"@, "--format=%H"@, "-n"@, crate::text::decimal_text(n)],
        }),
        conclusion(
            repo.nth_commit(n),
            seq![printed(status, listing(history.take(listed(n, history.len()) as int)))],
        ) == Some(
            Ok::<OutcomeView, ErrorView>(
                OutcomeView::Commit(decode_utf8(history[listed(n, history.len()) - 1])),
            ),
        ),
        conclusion(
            repo.nth_commit_at_path(n, path),
            seq![printed(status, listing(history.take(listed(n, history.len()) as int)))],
        ) == Some(
            Ok::<OutcomeView, ErrorView>(
                OutcomeView::Commit(decode_utf8(history[listed(n, history.len()) - 1])),
            ),
        ),
{
    let k = listed(n, history.len()) as int;
    let shown = history.take(k);
    let stdout = listing(shown);
    let reply = RunReplyView::Exited(OutputView { status, stdout, stderr: Seq::empty() });
    assert forall|i: int| 0 <= i < shown.len() implies is_line(#[trigger] shown[i]) by {
        assert(shown[i] == history[i]);
    }
    assert forall|i: int| 0 <= i < shown.len() implies valid_utf8(#[trigger] shown[i]) by {
        assert(shown[i] == history[i]);
    }
    law_lines_of_listing(shown);
    law_listing_is_utf8(shown);
    assert(lines(stdout).last() == history[k - 1]);
    assert(commit_text(reply) == Ok::<Seq<char>, ErrorView>(decode_utf8(history[k - 1])));
    lemma_single(ReplyView::Ran(reply));
    lemma_after_run(repo.nth_commit(n)->command, AfterRunView::Commit, reply, Seq::empty());
    lemma_after_run(
        repo.nth_commit_at_path(n, path)->command,
        AfterRunView::Commit,
        reply,
        Seq::empty(),
    );
}

/// Stepping back in a history that holds nothing fails, and moves nothing:
/// where the history query prints no line, resolving a commit, globally or
/// at a path, and checking out the previous commit, globally or at a path,
/// end with [`ErrorView::NoCommits`] of the history after that one reply,
/// before any checkout is asked for.
pub proof fn law_empty_history_is_an_error(
    repo: RepoView,
    n: nat,
    path: Seq<u8>,
    status: Option<i32>,
)
    requires
        valid_utf8(path),
    ensures
        conclusion(repo.nth_commit(n), seq![printed(status, Seq::empty())]) == Some(
            Err::<OutcomeView, ErrorView>(ErrorView::NoCommits(Scope::History)),
        ),
        conclusion(repo.nth_commit_at_path(n, path), seq![printed(status, Seq::empty())]) == Some(
            Err::<OutcomeView, ErrorView>(ErrorView::NoCommits(Scope::History)),
        ),
        conclusion(repo.checkout_last_commit(), seq![printed(status, Seq::empty())]) == Some(
            Err::<OutcomeView, ErrorView>(ErrorView::NoCommits(Scope::History)),
        ),
        conclusion(
            repo.checkout_previous_commit_at_path(path),
            seq![printed(status, Seq::empty())],
        ) == Some(Err::<OutcomeView, ErrorView>(ErrorView::NoCommits(Scope::History))),
{
    let reply = RunReplyView::Exited(
        OutputView { status, stdout: Seq::empty(), stderr: Seq::empty() },
    );
    assert(lines(Seq::<u8>::empty()) =~= Seq::<Seq<u8>>::empty());
    assert(commit_text(reply) == Err::<Seq<char>, ErrorView>(ErrorView::NoCommits(Scope::History)));
    lemma_single(ReplyView::Ran(reply));
    lemma_after_run(repo.nth_commit(n)->command, AfterRunView::Commit, reply, Seq::empty());
    lemma_after_run(
        repo.nth_commit_at_path(n, path)->command,
        AfterRunView::Commit,
        reply,
        Seq::empty(),
    );
    lemma_after_run(
        repo.checkout_last_commit()->command,
        AfterRunView::CommitThenCheckout { directory: repo.directory },
        reply,
        Seq::empty(),
    );
    lemma_after_run(
        repo.checkout_previous_commit_at_path(path)->command,
        AfterRunView::CommitThenCheckout { directory: repo.directory },
        reply,
        Seq::empty(),
    );
}

/// A path that is not text is refused before anything is asked of the
/// tool.
pub proof fn law_invalid_path_asks_nothing(repo: RepoView, n: nat, path: Seq<u8>)
    requires
        !valid_utf8(path),
    ensures
        conclusion(repo.nth_commit_at_path(n, path), Seq::empty()) == Some(
            Err::<OutcomeView, ErrorView>(ErrorView::InvalidPath),
        ),
        conclusion(repo.checkout_previous_commit_at_path(path), Seq::empty()) == Some(
            Err::<OutcomeView, ErrorView>(ErrorView::InvalidPath),
        ),
{
}

/// Checking out the head asks for the checkout of the branch that was
/// active when the handle was made, by its name without a line ending, in
/// the directory of the handle, and for nothing else. The request is a
/// function of the handle alone, which no operation changes: checkouts made
/// in between, by the handle or from outside, do not alter it.
pub proof fn law_checkout_head_asks_for_captured_branch(
    directory: Seq<u8>,
    status: Option<i32>,
    branch: Seq<u8>,
    repo: RepoView,
)
    requires
        valid_utf8(branch),
        is_line(branch),
        conclusion(open_step(directory), seq![printed(status, listing(seq![branch]))]) == Some(
            Ok::<OutcomeView, ErrorView>(OutcomeView::Repository(repo)),
        ),
    ensures
        repo.checkout_head() == (StepView::Run {
            command: CommandView { directory, args: seq!["checkout"@, decode_utf8(branch)] },
            next: AfterRunView::Checkout,
        }),
{
    law_open_captures_branch(directory, status, branch);
}

/// A checkout goes by the exit status. Where the tool exits with success
/// the working tree was moved, whatever the tool wrote on either stream;
/// where it exits otherwise the checkout fails with what the tool wrote on
/// its error stream; where it could not be run the checkout fails with the
/// reason given.
pub proof fn law_checkout_follows_the_exit_status(
    repo: RepoView,
    object: Seq<char>,
    reply: RunReplyView,
)
    ensures
        conclusion(repo.checkout(object), seq![ReplyView::Ran(reply)]) == Some(
            match reply {
                RunReplyView::Exited(output) => if succeeded(output.status) {
                    Ok::<OutcomeView, ErrorView>(OutcomeView::CheckedOut)
                } else if valid_utf8(output.stderr) {
                    Err::<OutcomeView, ErrorView>(
                        ErrorView::Transport(decode_utf8(output.stderr)),
                    )
                } else {
                    Err::<OutcomeView, ErrorView>(ErrorView::Encoding)
                },
                RunReplyView::NotRun(reason) => Err::<OutcomeView, ErrorView>(
                    ErrorView::Transport(reason),
                ),
            },
        ),
        conclusion(repo.checkout_head(), seq![ReplyView::Ran(reply)]) == conclusion(
            repo.checkout(repo.current_branch),
            seq![ReplyView::Ran(reply)],
        ),
{
    lemma_single(ReplyView::Ran(reply));
    lemma_after_run(repo.checkout(object)->command, AfterRunView::Checkout, reply, Seq::empty());
}

/// Stepping back checks out exactly the commit that the history query
/// resolved to, in the directory of the handle, and ends as that checkout
/// ends.
pub proof fn law_step_back_checks_out_the_resolved_commit(
    repo: RepoView,
    path: Seq<u8>,
    listing: RunReplyView,
    commit: Seq<char>,
    moved: RunReplyView,
)
    requires
        valid_utf8(path),
        commit_text(listing) == Ok::<Seq<char>, ErrorView>(commit),
    ensures
        repo.checkout_last_commit()->next.resume(listing) == repo.checkout(commit),
        repo.checkout_previous_commit_at_path(path)->next.resume(listing) == repo.checkout(commit),
        conclusion(
            repo.checkout_last_commit(),
            seq![ReplyView::Ran(listing), ReplyView::Ran(moved)],
        ) == conclusion(repo.checkout(commit), seq![ReplyView::Ran(moved)]),
        conclusion(
            repo.checkout_previous_commit_at_path(path),
            seq![ReplyView::Ran(listing), ReplyView::Ran(moved)],
        ) == conclusion(repo.checkout(commit), seq![ReplyView::Ran(moved)]),
{
    let both = seq![ReplyView::Ran(listing), ReplyView::Ran(moved)];
    assert(both =~= seq![ReplyView::Ran(listing)] + seq![ReplyView::Ran(moved)]);
    lemma_after_run(
        repo.checkout_last_commit()->command,
        repo.checkout_last_commit()->next,
        listing,
        seq![ReplyView::Ran(moved)],
    );
    lemma_after_run(
        repo.checkout_previous_commit_at_path(path)->command,
        repo.checkout_previous_commit_at_path(path)->next,
        listing,
        seq![ReplyView::Ran(moved)],
    );
}

/// The message of the current commit is all that the tool printed, to the
/// byte: nothing is trimmed from the subject line and nothing is added to
/// it.
pub proof fn law_message_is_what_was_printed(
    repo: RepoView,
    status: Option<i32>,
    subject: Seq<char>,
)
    ensures
        conclusion(repo.current_commit_message(), seq![printed(status, encode_utf8(subject))])
            == Some(Ok::<OutcomeView, ErrorView>(OutcomeView::Message(subject))),
{
    let output = OutputView { status, stdout: encode_utf8(subject), stderr: Seq::empty() };
    let reply = RunReplyView::Exited(output);
    encode_utf8_valid_utf8(subject);
    encode_utf8_decode_utf8(subject);
    lemma_single(ReplyView::Ran(reply));
    lemma_after_run(
        repo.current_commit_message()->command,
        AfterRunView::Message,
        reply,
        Seq::empty(),
    );
}

/// Anything on the error stream fails a query with that text, whatever the
/// exit status and the output stream are.
pub proof fn law_error_stream_is_failure(repo: RepoView, n: nat, output: OutputView)
    requires
        output.stderr.len() > 0,
        valid_utf8(output.stderr),
    ensures
        conclusion(repo.nth_commit(n), seq![ReplyView::Ran(RunReplyView::Exited(output))]) == Some(
            Err::<OutcomeView, ErrorView>(ErrorView::Transport(decode_utf8(output.stderr))),
        ),
        conclusion(
            repo.current_commit_message(),
            seq![ReplyView::Ran(RunReplyView::Exited(output))],
        ) == Some(Err::<OutcomeView, ErrorView>(ErrorView::Transport(decode_utf8(output.stderr)))),
{
    let reply = RunReplyView::Exited(output);
    lemma_single(ReplyView::Ran(reply));
    lemma_after_run(repo.nth_commit(n)->command, AfterRunView::Commit, reply, Seq::empty());
    lemma_after_run(
        repo.current_commit_message()->command,
        AfterRunView::Message,
        reply,
        Seq::empty(),
    );
}

/// Every name is resolved in the same directory, one after the other, in
/// the order of the names: once the first names have resolved to `paths`,
/// the listing stands before the next name, in `directory`, with `paths`
/// behind the paths that were there before.
pub proof fn law_names_are_resolved_in_the_directory(
    directory: Seq<u8>,
    names: Seq<Seq<char>>,
    resolved: Seq<Seq<u8>>,
    paths: Seq<Seq<u8>>,
)
    requires
        paths.len() <= names.len(),
    ensures
        reached(resolve_from(directory, names, resolved), looked_up(paths)) == Some(
            resolve_from(directory, names.skip(paths.len() as int), resolved + paths),
        ),
        paths.len() < names.len() ==> ({
            let step = resolve_from(directory, names.skip(paths.len() as int), resolved + paths);
            step is Resolve && step->directory == directory && step->path
                == names[paths.len() as int]
        }),
    decreases paths.len(),
{
    if paths.len() == 0 {
        assert(names.skip(0) =~= names);
        assert(resolved + paths =~= resolved);
    } else {
        let first = ResolveReplyView::Resolved(paths[0]);
        let more = looked_up(paths.drop_first());
        let rest = AfterResolveView { directory, remaining: names.drop_first(), resolved };
        assert(looked_up(paths) =~= seq![ReplyView::Looked(first)] + more);
        lemma_after_resolve(directory, names[0], rest, first, more);
        law_names_are_resolved_in_the_directory(
            directory,
            names.drop_first(),
            resolved.push(paths[0]),
            paths.drop_first(),
        );
        assert(names.drop_first().skip(paths.len() - 1) =~= names.skip(paths.len() as int));
        assert(resolved.push(paths[0]) + paths.drop_first() =~= resolved + paths);
    }
}

/// Where every name resolves, the listing ends with one path for each
/// name, in the order of the names, behind the paths that were there
/// before.
pub proof fn law_names_resolve_in_order(
    directory: Seq<u8>,
    names: Seq<Seq<char>>,
    resolved: Seq<Seq<u8>>,
    paths: Seq<Seq<u8>>,
)
    requires
        names.len() == paths.len(),
    ensures
        conclusion(resolve_from(directory, names, resolved), looked_up(paths)) == Some(
            Ok::<OutcomeView, ErrorView>(OutcomeView::Paths(resolved + paths)),
        ),
    decreases names.len(),
{
    if names.len() == 0 {
        assert(resolved + paths =~= resolved);
        assert(resolve_from(directory, names, resolved) == finished(OutcomeView::Paths(resolved)));
    } else {
        let first = ResolveReplyView::Resolved(paths[0]);
        let more = looked_up(paths.drop_first());
        let rest = AfterResolveView { directory, remaining: names.drop_first(), resolved };
        assert(looked_up(paths) =~= seq![ReplyView::Looked(first)] + more);
        lemma_after_resolve(directory, names[0], rest, first, more);
        law_names_resolve_in_order(
            directory,
            names.drop_first(),
            resolved.push(paths[0]),
            paths.drop_first(),
        );
        assert(resolved.push(paths[0]) + paths.drop_first() =~= resolved + paths);
    }
}

/// The first name that does not resolve fails the listing with the reason
/// given, and no path of the names before it is handed out.
pub proof fn law_first_unresolved_name_fails(
    directory: Seq<u8>,
    names: Seq<Seq<char>>,
    resolved: Seq<Seq<u8>>,
    paths: Seq<Seq<u8>>,
    reason: Seq<char>,
)
    requires
        paths.len() < names.len(),
    ensures
        conclusion(
            resolve_from(directory, names, resolved),
            looked_up(paths).push(ReplyView::Looked(ResolveReplyView::Unresolved(reason))),
        ) == Some(Err::<OutcomeView, ErrorView>(ErrorView::FileResolution(reason))),
    decreases paths.len(),
{
    let last = ReplyView::Looked(ResolveReplyView::Unresolved(reason));
    let replies = looked_up(paths).push(last);
    let rest = AfterResolveView { directory, remaining: names.drop_first(), resolved };
    if paths.len() == 0 {
        assert(replies =~= seq![last] + Seq::<ReplyView>::empty());
        lemma_after_resolve(
            directory,
            names[0],
            rest,
            ResolveReplyView::Unresolved(reason),
            Seq::empty(),
        );
    } else {
        let first = ResolveReplyView::Resolved(paths[0]);
        let more = looked_up(paths.drop_first()).push(last);
        assert(replies =~= seq![ReplyView::Looked(first)] + more);
        lemma_after_resolve(directory, names[0], rest, first, more);
        law_first_unresolved_name_fails(
            directory,
            names.drop_first(),
            resolved.push(paths[0]),
            paths.drop_first(),
            reason,
        );
    }
}

/// The files of the current commit are the names that the file query
/// lists, each resolved in the directory of the handle, in the order of
/// the listing. Where the head resolves to a commit, the file query is made
/// for that commit; once the first names have resolved to `paths`, the
/// operation asks for the next listed name in the directory of the handle;
/// and where every name has resolved it ends with one path per listed
/// name.
pub proof fn law_edited_files_follow_the_listing(
    repo: RepoView,
    head: RunReplyView,
    files: RunReplyView,
    paths: Seq<Seq<u8>>,
)
    requires
        commit_text(head) is Ok,
        files_text(files) is Ok,
        paths.len() <= files_text(files)->Ok_0.len(),
    ensures
        repo.edited_file_in_current_commit()->next.resume(head)->command == repo.git(
            files_args(commit_text(head)->Ok_0),
        ),
        reached(
            repo.edited_file_in_current_commit(),
            seq![ReplyView::Ran(head), ReplyView::Ran(files)] + looked_up(paths),
        ) == Some(
            resolve_from(
                repo.directory,
                files_text(files)->Ok_0.skip(paths.len() as int),
                paths,
            ),
        ),
        paths.len() < files_text(files)->Ok_0.len() ==> ({
            let names = files_text(files)->Ok_0;
            let step = resolve_from(repo.directory, names.skip(paths.len() as int), paths);
            step is Resolve && step->directory == repo.directory && step->path
                == names[paths.len() as int]
        }),
        paths.len() == files_text(files)->Ok_0.len() ==> conclusion(
            repo.edited_file_in_current_commit(),
            seq![ReplyView::Ran(head), ReplyView::Ran(files)] + looked_up(paths),
        ) == Some(Ok::<OutcomeView, ErrorView>(OutcomeView::Paths(paths))),
{
    let start = repo.edited_file_in_current_commit();
    let second = start->next.resume(head);
    let names = files_text(files)->Ok_0;
    let replies = seq![ReplyView::Ran(head), ReplyView::Ran(files)] + looked_up(paths);
    let tail = seq![ReplyView::Ran(files)] + looked_up(paths);
    assert(replies =~= seq![ReplyView::Ran(head)] + tail);
    lemma_after_run(start->command, start->next, head, tail);
    lemma_after_run(
        second->command,
        AfterRunView::Files { directory: repo.directory },
        files,
        looked_up(paths),
    );
    law_names_are_resolved_in_the_directory(repo.directory, names, Seq::empty(), paths);
    assert(Seq::<Seq<u8>>::empty() + paths =~= paths);
    if paths.len() == names.len() {
        law_names_resolve_in_order(repo.directory, names, Seq::empty(), paths);
    }
}

} // verus!
