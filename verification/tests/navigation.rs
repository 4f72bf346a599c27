use commit_nav::error::{GitError, Scope};
use commit_nav::repo::{AfterRun, Outcome, Repo, Step};
use commit_nav::transport::{Command, CommandOutput, ResolveReply, RunReply};

const ROOT: &str = "/work/repo";
const UNBORN: &str = "fatal: ambiguous argument 'HEAD': unknown revision or path not in the working tree.\nUse '--' to separate paths from revisions, like this:\n'git <command> [<revision>...] -- [<file>...]'\n";

struct Commit {
    id: String,
    subject: String,
    files: Vec<String>,
}

/// A version-control tool that answers from memory.
struct Tool {
    branch: String,
    /// Oldest first.
    commits: Vec<Commit>,
    /// How many commits lie at or below the working tree's position.
    position: usize,
    /// The files that exist on disk, relative to the root.
    on_disk: Vec<String>,
    /// Every command that was run, in order.
    seen: Vec<Vec<String>>,
}

impl Tool {
    fn empty() -> Tool {
        Tool {
            branch: "main".to_string(),
            commits: Vec::new(),
            position: 0,
            on_disk: Vec::new(),
            seen: Vec::new(),
        }
    }

    /// A repository with one commit, which adds a README.
    fn init() -> Tool {
        let mut tool = Tool::empty();
        tool.commit("add README", &["README.md"]);
        tool
    }

    fn commit(&mut self, subject: &str, files: &[&str]) -> String {
        let id = format!("{:040x}", 0xc0ffee00u64 + self.commits.len() as u64);
        for file in files {
            if !self.on_disk.iter().any(|f| f == file) {
                self.on_disk.push(file.to_string());
            }
        }
        self.commits.push(Commit {
            id: id.clone(),
            subject: subject.to_string(),
            files: files.iter().map(|f| f.to_string()).collect(),
        });
        self.position = self.commits.len();
        id
    }

    fn printed(stdout: String) -> RunReply {
        RunReply::Exited(CommandOutput {
            status: Some(0),
            stdout: stdout.into_bytes(),
            stderr: Vec::new(),
        })
    }

    fn complained(stderr: String) -> RunReply {
        RunReply::Exited(CommandOutput {
            status: Some(128),
            stdout: Vec::new(),
            stderr: stderr.into_bytes(),
        })
    }

    fn history(&self, count: &str, path: Option<&str>) -> RunReply {
        let count: usize = count.parse().unwrap();
        let mut listing = String::new();
        let mut shown = 0;
        for commit in self.commits[..self.position].iter().rev() {
            if shown == count {
                break;
            }
            let touches = match path {
                None => true,
                Some(path) => commit.files.iter().any(|f| format!("{}/{}", ROOT, f) == path),
            };
            if touches {
                listing.push_str(&commit.id);
                listing.push('\n');
                shown += 1;
            }
        }
        Tool::printed(listing)
    }

    fn run(&mut self, command: &Command) -> RunReply {
        assert_eq!(command.directory, ROOT.as_bytes());
        self.seen.push(command.args.clone());
        let args: Vec<&str> = command.args.iter().map(|a| a.as_str()).collect();
        match args.as_slice() {
            ["rev-parse", "--abbrev-ref", "HEAD"] => {
                if self.commits.is_empty() {
                    RunReply::Exited(CommandOutput {
                        status: Some(128),
                        stdout: b"HEAD\n".to_vec(),
                        stderr: UNBORN.as_bytes().to_vec(),
                    })
                } else {
                    Tool::printed(format!("{}\n", self.branch))
                }
            }
            ["log", "--format=%H", "-n", count] => self.history(count, None),
            ["log", "--format=%H", "-n", count, path] => self.history(count, Some(path)),
            ["checkout", object] => {
                if let Some(at) = self.commits.iter().position(|c| c.id == *object) {
                    self.position = at + 1;
                    RunReply::Exited(CommandOutput {
                        status: Some(0),
                        stdout: Vec::new(),
                        stderr: format!("HEAD is now at {}\n", object).into_bytes(),
                    })
                } else if *object == self.branch {
                    self.position = self.commits.len();
                    RunReply::Exited(CommandOutput {
                        status: Some(0),
                        stdout: Vec::new(),
                        stderr: format!("Switched to branch '{}'\n", self.branch).into_bytes(),
                    })
                } else {
                    RunReply::Exited(CommandOutput {
                        status: Some(1),
                        stdout: Vec::new(),
                        stderr: format!("error: pathspec '{}' did not match\n", object)
                            .into_bytes(),
                    })
                }
            }
            ["log", "-1", "--pretty=format:%s"] => {
                Tool::printed(self.commits[self.position - 1].subject.clone())
            }
            ["diff-tree", "--no-commit-id", "--name-only", "-r", commit] => {
                match self.commits.iter().find(|c| c.id == *commit) {
                    Some(found) => {
                        let mut listing = String::new();
                        for file in &found.files {
                            listing.push_str(file);
                            listing.push('\n');
                        }
                        Tool::printed(listing)
                    }
                    None => Tool::complained(format!("fatal: bad object {}\n", commit)),
                }
            }
            _ => Tool::complained("git: unknown command\n".to_string()),
        }
    }

    fn resolve(&self, directory: &[u8], name: &str) -> ResolveReply {
        if directory == ROOT.as_bytes() && self.on_disk.iter().any(|f| f == name) {
            ResolveReply::Resolved(format!("{}/{}", ROOT, name).into_bytes())
        } else {
            ResolveReply::Unresolved("No such file or directory (os error 2)".to_string())
        }
    }
}

/// Perform what `step` asks for until the operation ends.
fn run(step: Step, tool: &mut Tool) -> Result<Outcome, GitError> {
    let mut step = step;
    loop {
        step = match step {
            Step::Run { command, next } => next.resume(tool.run(&command)),
            Step::Resolve { directory, path, rest } => {
                rest.resume(tool.resolve(&directory, &path))
            }
            Step::Done { result } => return result,
        };
    }
}

fn open(tool: &mut Tool) -> Repo {
    match run(Repo::new(ROOT.as_bytes().to_vec()), tool) {
        Ok(Outcome::Repository(repo)) => repo,
        other => panic!("no handle: {:?}", other),
    }
}

fn path(file: &str) -> Vec<u8> {
    format!("{}/{}", ROOT, file).into_bytes()
}

fn message(repo: &Repo, tool: &mut Tool) -> String {
    match run(repo.current_commit_message(), tool) {
        Ok(Outcome::Message(text)) => text,
        other => panic!("no message: {:?}", other),
    }
}

fn commit_of(step: Step, tool: &mut Tool) -> String {
    match run(step, tool) {
        Ok(Outcome::Commit(id)) => id,
        other => panic!("no commit: {:?}", other),
    }
}

fn strings(args: &[&str]) -> Vec<String> {
    args.iter().map(|a| a.to_string()).collect()
}

#[test]
fn inexistent_previous_commit_detected() {
    let mut tool = Tool::init();
    let repo = open(&mut tool);
    let file1 = path("file1.txt");
    run(repo.checkout_previous_commit_at_path(&file1), &mut tool).unwrap_err();
}

#[test]
fn previous_commit_is_retrieved() {
    let mut tool = Tool::init();
    let repo = open(&mut tool);
    let _file1 = path("file1.txt");
    let file2 = path("file2.txt");
    {
        tool.commit("file2-1", &["file2.txt"]);
        tool.commit("file1", &["file1.txt"]);
        tool.commit("file2-2", &["file2.txt"]);
    }
    run(repo.checkout_previous_commit_at_path(&file2), &mut tool).unwrap();
    assert_eq!(message(&repo, &mut tool), "file2-1");
}

#[test]
fn current_commit_is_retrieved() {
    let mut tool = Tool::init();
    let repo = open(&mut tool);
    let commit_message = "file1 message";
    {
        tool.commit(commit_message, &["file1.txt"]);
    }
    assert_eq!(message(&repo, &mut tool), commit_message);
}

#[test]
fn opening_a_directory_without_commits_fails() {
    let mut tool = Tool::empty();
    let result = run(Repo::new(ROOT.as_bytes().to_vec()), &mut tool);
    assert_eq!(result, Err(GitError::NoCommits(Scope::Repository)));
    assert_eq!(
        GitError::NoCommits(Scope::Repository).message(),
        "git repository does not contain any commit."
    );
    assert_eq!(tool.seen, vec![strings(&["rev-parse", "--abbrev-ref", "HEAD"])]);
}

#[test]
fn opening_asks_for_the_branch_in_the_directory() {
    match Repo::new(b"/some/where".to_vec()) {
        Step::Run { command, next } => {
            assert_eq!(command.directory, b"/some/where".to_vec());
            assert_eq!(command.args, strings(&["rev-parse", "--abbrev-ref", "HEAD"]));
            assert_eq!(next, AfterRun::Branch { directory: b"/some/where".to_vec() });
        }
        other => panic!("no command: {:?}", other),
    }
}

#[test]
fn opening_captures_the_branch_name() {
    let mut tool = Tool::init();
    let repo = open(&mut tool);
    assert_eq!(repo.current_branch(), "main");
    assert_eq!(repo.directory(), &ROOT.as_bytes().to_vec());
}

#[test]
fn the_branch_is_the_first_line_without_its_ending() {
    assert_eq!(
        Repo::get_current_branch(Tool::printed("main\n".to_string())),
        Ok("main".to_string())
    );
    assert_eq!(
        Repo::get_current_branch(Tool::printed("feature/x\r\n".to_string())),
        Ok("feature/x".to_string())
    );
    assert_eq!(
        Repo::get_current_branch(Tool::printed("main".to_string())),
        Ok("main".to_string())
    );
    assert_eq!(
        Repo::get_current_branch(Tool::printed("HEAD\nmore\n".to_string())),
        Ok("HEAD".to_string())
    );
    assert_eq!(Repo::get_current_branch(Tool::printed(String::new())), Ok(String::new()));
}

#[test]
fn the_unborn_head_report_leaks_nothing_of_the_streams() {
    let reply = RunReply::Exited(CommandOutput {
        status: Some(128),
        stdout: b"HEAD\n".to_vec(),
        stderr: UNBORN.as_bytes().to_vec(),
    });
    match Repo::get_current_branch(reply) {
        Err(error) => {
            assert_eq!(error, GitError::NoCommits(Scope::Repository));
            assert_eq!(error.message(), "git repository does not contain any commit.");
        }
        other => panic!("no failure: {:?}", other),
    }
}

#[test]
fn other_failures_of_the_branch_query_are_passed_on() {
    let reply = Tool::complained("fatal: not a git repository\n".to_string());
    assert_eq!(
        Repo::get_current_branch(reply),
        Err(GitError::Transport("fatal: not a git repository\n".to_string()))
    );
    assert_eq!(
        Repo::get_current_branch(RunReply::NotRun("No such file or directory".to_string())),
        Err(GitError::Transport("No such file or directory".to_string()))
    );
}

#[test]
fn a_tool_that_cannot_run_does_not_mean_no_commits() {
    let reason = UNBORN.to_string();
    assert_eq!(
        Repo::get_current_branch(RunReply::NotRun(reason.clone())),
        Err(GitError::Transport(reason))
    );
}

#[test]
fn the_unborn_head_report_is_found_anywhere_on_the_error_stream() {
    let reply = Tool::complained(format!("warning: x\n{}hint: y\n", UNBORN));
    assert_eq!(Repo::get_current_branch(reply), Err(GitError::NoCommits(Scope::Repository)));
}

#[test]
fn nth_commit_counts_back_from_head() {
    let mut tool = Tool::empty();
    let c1 = tool.commit("one", &["a.txt"]);
    let c2 = tool.commit("two", &["b.txt"]);
    let c3 = tool.commit("three", &["c.txt"]);
    let repo = open(&mut tool);
    assert_eq!(commit_of(repo.nth_commit(1), &mut tool), c3);
    assert_eq!(commit_of(repo.nth_commit(2), &mut tool), c2);
    assert_eq!(commit_of(repo.nth_commit(3), &mut tool), c1);
    assert_eq!(commit_of(repo.current_commit(), &mut tool), c3);
    assert_eq!(commit_of(repo.previous_commit(), &mut tool), c2);
}

#[test]
fn nth_commit_beyond_the_history_is_the_oldest_commit() {
    let mut tool = Tool::empty();
    let c1 = tool.commit("one", &["a.txt"]);
    tool.commit("two", &["b.txt"]);
    tool.commit("three", &["c.txt"]);
    let repo = open(&mut tool);
    assert_eq!(commit_of(repo.nth_commit(5), &mut tool), c1);
    assert_eq!(commit_of(repo.nth_commit(4), &mut tool), c1);
}

#[test]
fn nth_commit_of_an_empty_listing_is_an_error() {
    let repo = open(&mut Tool::init());
    match repo.nth_commit(1) {
        Step::Run { next, .. } => {
            assert_eq!(
                next.resume(Tool::printed(String::new())),
                Step::Done { result: Err(GitError::NoCommits(Scope::History)) }
            );
        }
        other => panic!("no command: {:?}", other),
    }
}

#[test]
fn previous_commit_at_path_skips_commits_of_other_files() {
    let mut tool = Tool::init();
    let first_a = tool.commit("a, first", &["a.txt"]);
    tool.commit("b", &["b.txt"]);
    let second_a = tool.commit("a, second", &["a.txt"]);
    let repo = open(&mut tool);
    let a = path("a.txt");
    assert_eq!(commit_of(repo.previous_commit_at_path(&a), &mut tool), first_a);
    assert_eq!(commit_of(repo.nth_commit_at_path(1, &a), &mut tool), second_a);
    assert_eq!(commit_of(repo.nth_commit_at_path(7, &a), &mut tool), first_a);
}

#[test]
fn checkout_previous_commit_at_path_without_history_moves_nothing() {
    let mut tool = Tool::init();
    tool.commit("a", &["a.txt"]);
    let repo = open(&mut tool);
    let before = tool.position;
    let result = run(repo.checkout_previous_commit_at_path(&path("never.txt")), &mut tool);
    assert_eq!(result, Err(GitError::NoCommits(Scope::History)));
    assert_eq!(tool.position, before);
    assert!(tool.seen.iter().all(|args| args[0] != "checkout"));
}

#[test]
fn a_path_that_is_not_text_is_refused_at_once() {
    let mut tool = Tool::init();
    let repo = open(&mut tool);
    let asked = tool.seen.len();
    let bad = vec![0x2f, 0x66, 0xff, 0x6f];
    assert_eq!(
        repo.checkout_previous_commit_at_path(&bad),
        Step::Done { result: Err(GitError::InvalidPath) }
    );
    assert_eq!(
        repo.nth_commit_at_path(1, &bad),
        Step::Done { result: Err(GitError::InvalidPath) }
    );
    assert_eq!(
        run(repo.previous_commit_at_path(&bad), &mut tool),
        Err(GitError::InvalidPath)
    );
    assert_eq!(tool.seen.len(), asked);
}

#[test]
fn checkout_head_asks_for_the_captured_branch() {
    let mut tool = Tool::init();
    tool.commit("two", &["b.txt"]);
    tool.commit("three", &["c.txt"]);
    let repo = open(&mut tool);
    assert_eq!(run(repo.checkout_last_commit(), &mut tool), Ok(Outcome::CheckedOut));
    assert_eq!(run(repo.checkout_last_commit(), &mut tool), Ok(Outcome::CheckedOut));
    assert_eq!(message(&repo, &mut tool), "add README");
    match repo.checkout_head() {
        Step::Run { command, next } => {
            assert_eq!(command.directory, ROOT.as_bytes().to_vec());
            assert_eq!(command.args, strings(&["checkout", "main"]));
            assert_eq!(next, AfterRun::Checkout);
        }
        other => panic!("no command: {:?}", other),
    }
    assert_eq!(run(repo.checkout_head(), &mut tool), Ok(Outcome::CheckedOut));
    assert_eq!(message(&repo, &mut tool), "three");
}

#[test]
fn checkout_last_commit_steps_back_one_commit() {
    let mut tool = Tool::init();
    let two = tool.commit("two", &["b.txt"]);
    tool.commit("three", &["c.txt"]);
    let repo = open(&mut tool);
    assert_eq!(run(repo.checkout_last_commit(), &mut tool), Ok(Outcome::CheckedOut));
    assert_eq!(message(&repo, &mut tool), "two");
    assert_eq!(tool.seen.last().unwrap(), &strings(&["log", "-1", "--pretty=format:%s"]));
    assert!(tool.seen.contains(&vec!["checkout".to_string(), two]));
}

#[test]
fn checkout_succeeds_whatever_the_tool_prints() {
    let repo = open(&mut Tool::init());
    match repo.checkout("abc") {
        Step::Run { command, next } => {
            assert_eq!(command.args, strings(&["checkout", "abc"]));
            let reply = RunReply::Exited(CommandOutput {
                status: Some(0),
                stdout: vec![0xff],
                stderr: b"Note: switching to 'abc'.\n".to_vec(),
            });
            assert_eq!(next.resume(reply), Step::Done { result: Ok(Outcome::CheckedOut) });
        }
        other => panic!("no command: {:?}", other),
    }
}

#[test]
fn checkout_fails_on_a_failing_exit_status() {
    let mut tool = Tool::init();
    let repo = open(&mut tool);
    let before = tool.position;
    assert_eq!(
        run(repo.checkout("no-such-thing"), &mut tool),
        Err(GitError::Transport("error: pathspec 'no-such-thing' did not match\n".to_string()))
    );
    assert_eq!(tool.position, before);
}

#[test]
fn checkout_fails_when_the_tool_was_killed() {
    let repo = open(&mut Tool::init());
    match repo.checkout("abc") {
        Step::Run { next, .. } => {
            let reply = RunReply::Exited(CommandOutput {
                status: None,
                stdout: Vec::new(),
                stderr: Vec::new(),
            });
            assert_eq!(
                next.resume(reply),
                Step::Done { result: Err(GitError::Transport(String::new())) }
            );
        }
        other => panic!("no command: {:?}", other),
    }
}

#[test]
fn a_failed_checkout_with_a_garbled_error_stream_is_an_encoding_error() {
    let repo = open(&mut Tool::init());
    match repo.checkout("abc") {
        Step::Run { next, .. } => {
            let reply = RunReply::Exited(CommandOutput {
                status: Some(1),
                stdout: Vec::new(),
                stderr: vec![0xfe],
            });
            assert_eq!(next.resume(reply), Step::Done { result: Err(GitError::Encoding) });
        }
        other => panic!("no command: {:?}", other),
    }
}

#[test]
fn checkout_head_returns_to_the_branch_after_detours() {
    let mut tool = Tool::init();
    tool.commit("two", &["b.txt"]);
    tool.commit("three", &["b.txt"]);
    let repo = open(&mut tool);
    run(repo.checkout_last_commit(), &mut tool).unwrap();
    run(repo.checkout_previous_commit_at_path(&path("b.txt")), &mut tool).unwrap();
    assert_ne!(tool.position, tool.commits.len());
    assert_eq!(run(repo.checkout_head(), &mut tool), Ok(Outcome::CheckedOut));
    assert_eq!(tool.position, tool.commits.len());
    assert_eq!(tool.seen.last().unwrap(), &strings(&["checkout", "main"]));
}

#[test]
fn files_are_resolved_in_the_directory_of_the_handle() {
    let mut tool = Tool::init();
    let id = tool.commit("add a", &["a.txt", "b.txt"]);
    let repo = open(&mut tool);
    let listing = Tool::printed(format!("{}\n", id));
    let names = Tool::printed("a.txt\nb.txt\n".to_string());
    let second = match repo.edited_file_in_current_commit() {
        Step::Run { command, next } => {
            assert_eq!(command.args, strings(&["log", "--format=%H", "-n", "1"]));
            next.resume(listing)
        }
        other => panic!("no command: {:?}", other),
    };
    let third = match second {
        Step::Run { command, next } => {
            assert_eq!(command.directory, ROOT.as_bytes().to_vec());
            next.resume(names)
        }
        other => panic!("no command: {:?}", other),
    };
    let fourth = match third {
        Step::Resolve { directory, path, rest } => {
            assert_eq!(directory, ROOT.as_bytes().to_vec());
            assert_eq!(path, "a.txt");
            rest.resume(ResolveReply::Resolved(b"/work/repo/a.txt".to_vec()))
        }
        other => panic!("no resolution: {:?}", other),
    };
    match fourth {
        Step::Resolve { directory, path, .. } => {
            assert_eq!(directory, ROOT.as_bytes().to_vec());
            assert_eq!(path, "b.txt");
        }
        other => panic!("no resolution: {:?}", other),
    }
}

#[test]
fn checkout_fails_when_the_tool_cannot_run() {
    let repo = open(&mut Tool::init());
    match repo.checkout("abc") {
        Step::Run { next, .. } => {
            assert_eq!(
                next.resume(RunReply::NotRun("permission denied".to_string())),
                Step::Done { result: Err(GitError::Transport("permission denied".to_string())) }
            );
        }
        other => panic!("no command: {:?}", other),
    }
}

#[test]
fn a_failed_history_query_stops_the_step_back() {
    let repo = open(&mut Tool::init());
    match repo.checkout_last_commit() {
        Step::Run { next, .. } => {
            assert_eq!(
                next.resume(Tool::complained("fatal: bad revision\n".to_string())),
                Step::Done { result: Err(GitError::Transport("fatal: bad revision\n".to_string())) }
            );
        }
        other => panic!("no command: {:?}", other),
    }
}

#[test]
fn edited_file_of_a_commit_that_added_one_file() {
    let mut tool = Tool::init();
    tool.commit("add a", &["a.txt"]);
    let repo = open(&mut tool);
    assert_eq!(
        run(repo.edited_file_in_current_commit(), &mut tool),
        Ok(Outcome::Paths(vec![b"/work/repo/a.txt".to_vec()]))
    );
}

#[test]
fn edited_files_come_in_the_order_of_the_listing() {
    let mut tool = Tool::init();
    tool.commit("several", &["z.txt", "src/a.rs", "b.txt"]);
    let repo = open(&mut tool);
    assert_eq!(
        run(repo.edited_file_in_current_commit(), &mut tool),
        Ok(Outcome::Paths(vec![
            b"/work/repo/z.txt".to_vec(),
            b"/work/repo/src/a.rs".to_vec(),
            b"/work/repo/b.txt".to_vec(),
        ]))
    );
}

#[test]
fn a_commit_without_files_lists_nothing() {
    let mut tool = Tool::init();
    tool.commit("empty", &[]);
    let repo = open(&mut tool);
    assert_eq!(run(repo.edited_file_in_current_commit(), &mut tool), Ok(Outcome::Paths(Vec::new())));
}

#[test]
fn a_listed_file_that_is_gone_fails_the_listing() {
    let mut tool = Tool::init();
    tool.commit("several", &["a.txt", "b.txt", "c.txt"]);
    tool.on_disk.retain(|f| f != "b.txt");
    let repo = open(&mut tool);
    assert_eq!(
        run(repo.edited_file_in_current_commit(), &mut tool),
        Err(GitError::FileResolution("No such file or directory (os error 2)".to_string()))
    );
}

#[test]
fn edited_files_are_those_of_the_commit_that_head_stands_on() {
    let mut tool = Tool::init();
    let two = tool.commit("two", &["b.txt"]);
    tool.commit("three", &["c.txt"]);
    let repo = open(&mut tool);
    run(repo.checkout_last_commit(), &mut tool).unwrap();
    assert_eq!(
        run(repo.edited_file_in_current_commit(), &mut tool),
        Ok(Outcome::Paths(vec![b"/work/repo/b.txt".to_vec()]))
    );
    assert!(tool.seen.contains(&strings(&[
        "diff-tree",
        "--no-commit-id",
        "--name-only",
        "-r",
        &two
    ])));
}

#[test]
fn the_message_is_the_subject_line_as_printed() {
    let mut tool = Tool::init();
    tool.commit("Fix the frobnicator: it frobbed twice", &["frob.rs"]);
    let repo = open(&mut tool);
    assert_eq!(message(&repo, &mut tool), "Fix the frobnicator: it frobbed twice");
}

#[test]
fn the_message_is_not_trimmed() {
    let repo = open(&mut Tool::init());
    match repo.current_commit_message() {
        Step::Run { command, next } => {
            assert_eq!(command.args, strings(&["log", "-1", "--pretty=format:%s"]));
            assert_eq!(
                next.resume(Tool::printed("  spaced out \n".to_string())),
                Step::Done { result: Ok(Outcome::Message("  spaced out \n".to_string())) }
            );
        }
        other => panic!("no command: {:?}", other),
    }
}

#[test]
fn a_query_fails_on_output_that_is_not_utf8() {
    let repo = open(&mut Tool::init());
    let garbled = RunReply::Exited(CommandOutput {
        status: Some(0),
        stdout: vec![0x61, 0x0a, 0xff, 0x0a, 0x62, 0x0a],
        stderr: Vec::new(),
    });
    match repo.nth_commit(1) {
        Step::Run { next, .. } => {
            assert_eq!(next.resume(garbled), Step::Done { result: Err(GitError::Encoding) });
        }
        other => panic!("no command: {:?}", other),
    }
}

#[test]
fn queries_are_not_cached() {
    let mut tool = Tool::init();
    let repo = open(&mut tool);
    let first = commit_of(repo.current_commit(), &mut tool);
    let second = tool.commit("more", &["more.txt"]);
    assert_ne!(first, second);
    assert_eq!(commit_of(repo.current_commit(), &mut tool), second);
}

#[test]
fn git_builds_a_command_in_the_directory_of_the_handle() {
    let repo = open(&mut Tool::init());
    let command = repo.git(strings(&["status", "--short"]));
    assert_eq!(command.directory, ROOT.as_bytes().to_vec());
    assert_eq!(command.args, strings(&["status", "--short"]));
    let other = Repo::git_in_dir(&b"/else/where".to_vec(), strings(&["init"]));
    assert_eq!(other.directory, b"/else/where".to_vec());
    assert_eq!(other.args, strings(&["init"]));
}
