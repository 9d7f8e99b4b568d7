//! What a call of the version-control tool gave, and how it is read.
//!
//! The library runs no process. Its caller runs the tool and hands back an
//! `Option<CommandOutput>`: `None` where the tool could not be started.

use crate::text::{one, trim, trimmed, with};
use vstd::prelude::*;

verus! {

/// What a finished process left: whether it succeeded, and what it wrote.
#[derive(Debug)]
pub struct CommandOutput {
    pub success: bool,
    pub stdout: String,
    pub stderr: String,
}

/// A `CommandOutput` as plain values.
pub ghost struct OutputView {
    pub success: bool,
    pub stdout: Seq<char>,
    pub stderr: Seq<char>,
}

impl View for CommandOutput {
    type V = OutputView;

    open spec fn view(&self) -> OutputView {
        OutputView { success: self.success, stdout: self.stdout@, stderr: self.stderr@ }
    }
}

impl DeepView for CommandOutput {
    type V = OutputView;

    open spec fn deep_view(&self) -> OutputView {
        self@
    }
}

/// Why a call of the tool counts as failed.
#[derive(Debug)]
pub enum GitError {
    /// The tool could not be started.
    NotRun,
    /// The tool ended with a failure; this is what it wrote to its error
    /// stream, without the whitespace around it.
    Failed(String),
}

/// A `GitError` as plain values.
pub ghost enum GitErrorView {
    NotRun,
    Failed(Seq<char>),
}

impl View for GitError {
    type V = GitErrorView;

    open spec fn view(&self) -> GitErrorView {
        match self {
            GitError::NotRun => GitErrorView::NotRun,
            GitError::Failed(message) => GitErrorView::Failed(message@),
        }
    }
}

impl GitError {
    /// The error as one line of text.
    pub fn message(&self) -> (text: String)
        ensures
            text@ == match self@ {
                GitErrorView::NotRun => "failed to run git"@,
                GitErrorView::Failed(m) => m,
            },
    {
        match self {
            GitError::NotRun => "failed to run git".to_owned(),
            GitError::Failed(m) => m.clone(),
        }
    }
}

/// Why the call that gave `output` failed, where it did.
pub open spec fn failure_of(output: Option<OutputView>) -> Option<GitErrorView> {
    match output {
        None => Some(GitErrorView::NotRun),
        Some(o) => if o.success {
            None
        } else {
            Some(GitErrorView::Failed(trimmed(o.stderr)))
        },
    }
}

/// What a call wrote, for a caller to whom a failed call and an empty answer
/// are the same as no answer.
pub open spec fn answer_of(output: Option<OutputView>) -> Option<Seq<char>> {
    match output {
        Some(o) => if o.success && trimmed(o.stdout).len() > 0 {
            Some(trimmed(o.stdout))
        } else {
            None
        },
        None => None,
    }
}

/// Whether a call succeeded. It failed where the tool did not start or ended
/// with a failure.
pub fn git_check(output: Option<&CommandOutput>) -> (done: Result<(), GitError>)
    ensures
        done is Ok <==> failure_of(output.deep_view()) is None,
        done matches Err(e) ==> failure_of(output.deep_view()) == Some(e@),
{
    match output {
        None => Err(GitError::NotRun),
        Some(o) => {
            if o.success {
                Ok(())
            } else {
                Err(GitError::Failed(trim(o.stderr.as_str())))
            }
        },
    }
}

/// What a call that has to succeed wrote, without the whitespace around it.
pub fn git_stdout(output: Option<&CommandOutput>) -> (answer: Result<String, GitError>)
    ensures
        answer is Ok <==> failure_of(output.deep_view()) is None,
        answer matches Ok(text) ==> output.deep_view() matches Some(o) && text@ == trimmed(
            o.stdout,
        ),
        answer matches Err(e) ==> failure_of(output.deep_view()) == Some(e@),
{
    match output {
        None => Err(GitError::NotRun),
        Some(o) => {
            if o.success {
                Ok(trim(o.stdout.as_str()))
            } else {
                Err(GitError::Failed(trim(o.stderr.as_str())))
            }
        },
    }
}

/// What a call wrote, without the whitespace around it; `None` where the call
/// failed or wrote nothing.
pub fn git_stdout_opt(output: Option<&CommandOutput>) -> (answer: Option<String>)
    ensures
        answer.deep_view() == answer_of(output.deep_view()),
{
    match output {
        None => None,
        Some(o) => {
            if o.success {
                let text = trim(o.stdout.as_str());
                if text.as_str().is_empty() {
                    None
                } else {
                    Some(text)
                }
            } else {
                None
            }
        },
    }
}

/// The arguments that ask the tool for the address of the remote.
pub fn origin_url_args() -> (args: Vec<String>)
    ensures
        args.deep_view() == seq!["remote"@, "get-url"@, "origin"@],
{
    let args = with(with(one("remote"), "get-url"), "origin");
    assert(args.deep_view() =~= seq!["remote"@, "get-url"@, "origin"@]);
    args
}

/// The arguments that ask the tool which reference the head of the remote
/// stands for.
pub fn origin_head_args() -> (args: Vec<String>)
    ensures
        args.deep_view() == seq!["symbolic-ref"@, "--quiet"@, "refs/remotes/origin/HEAD"@],
{
    let args = with(with(one("symbolic-ref"), "--quiet"), "refs/remotes/origin/HEAD");
    assert(args.deep_view() =~= seq!["symbolic-ref"@, "--quiet"@, "refs/remotes/origin/HEAD"@]);
    args
}

/// The arguments that ask the tool for the branch that is checked out.
pub fn show_current_args() -> (args: Vec<String>)
    ensures
        args.deep_view() == seq!["branch"@, "--show-current"@],
{
    let args = with(one("branch"), "--show-current");
    assert(args.deep_view() =~= seq!["branch"@, "--show-current"@]);
    args
}

/// The arguments that ask the tool what `HEAD` stands for.
pub fn head_ref_args() -> (args: Vec<String>)
    ensures
        args.deep_view() == seq!["rev-parse"@, "--abbrev-ref"@, "HEAD"@],
{
    let args = with(with(one("rev-parse"), "--abbrev-ref"), "HEAD");
    assert(args.deep_view() =~= seq!["rev-parse"@, "--abbrev-ref"@, "HEAD"@]);
    args
}

/// The arguments that ask the tool for the changes in a working tree.
pub fn changes_args() -> (args: Vec<String>)
    ensures
        args.deep_view() == seq!["status"@, "--porcelain"@],
{
    let args = with(one("status"), "--porcelain");
    assert(args.deep_view() =~= seq!["status"@, "--porcelain"@]);
    args
}

/// The arguments that ask the tool of the hosting platform whether it can
/// reach the repository.
pub fn platform_probe_args() -> (args: Vec<String>)
    ensures
        args.deep_view() == seq!["repo"@, "view"@],
{
    let args = with(one("repo"), "view");
    assert(args.deep_view() =~= seq!["repo"@, "view"@]);
    args
}

/// The arguments that ask the tool of the hosting platform for the state of
/// the merged pull request of `branch`.
pub fn merged_pr_args(branch: &str) -> (args: Vec<String>)
    ensures
        args.deep_view() == seq![
            "pr"@,
            "list"@,
            "--head"@,
            branch@,
            "--state"@,
            "merged"@,
            "--json"@,
            "state"@,
            "--jq"@,
            ".[0].state"@,
        ],
{
    let args = with(
        with(
            with(
                with(
                    with(with(with(with(with(one("pr"), "list"), "--head"), branch), "--state"), "merged"),
                    "--json",
                ),
                "state",
            ),
            "--jq",
        ),
        ".[0].state",
    );
    assert(args.deep_view() =~= seq![
        "pr"@,
        "list"@,
        "--head"@,
        branch@,
        "--state"@,
        "merged"@,
        "--json"@,
        "state"@,
        "--jq"@,
        ".[0].state"@,
    ]);
    args
}

} // verus!
