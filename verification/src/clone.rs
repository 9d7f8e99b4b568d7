//! Creating a space: the calls of the version-control tool that clone the
//! repository and put the space on its branch.

use crate::text::{join_text, one, with};
use vstd::prelude::*;

verus! {

/// What is to be created: where, on which branch, and from which reference a
/// new branch starts.
#[derive(Debug)]
pub struct ClonePlan {
    pub path: String,
    pub branch: Option<String>,
    pub base_ref: String,
}

/// Why no clone is made.
#[derive(Debug)]
pub enum CloneError {
    /// Something stands already where the clone would go.
    AlreadyExists(String),
}

impl CloneError {
    /// The error as one line of text; it names the place.
    pub fn message(&self) -> (text: String)
        ensures
            self matches CloneError::AlreadyExists(path) && text@ == "Clone already exists: "@
                + path@,
    {
        match self {
            CloneError::AlreadyExists(path) => join_text("Clone already exists: ", path.as_str()),
        }
    }
}

/// From where the clone is made: the address of the remote, or the repository
/// itself where it has no remote.
pub open spec fn clone_source(repo_root: Seq<char>, origin_url: Option<Seq<char>>) -> Seq<char> {
    match origin_url {
        Some(url) => url,
        None => repo_root,
    }
}

/// The arguments of the call that clones, taking from the mirror what it has.
pub open spec fn clone_command(
    repo_root: Seq<char>,
    mirror_dir: Seq<char>,
    origin_url: Option<Seq<char>>,
    path: Seq<char>,
) -> Seq<Seq<char>> {
    seq![
        "clone"@,
        "--reference-if-able"@,
        mirror_dir,
        clone_source(repo_root, origin_url),
        path,
    ]
}

/// The call that creates the clone of `plan`.
///
/// `exists` says whether something stands at the path of the plan already; then
/// no clone is made. `origin_url` is the address of the remote of the
/// repository, where it has one.
pub fn create_clone(
    exists: bool,
    repo_root: &str,
    mirror_dir: &str,
    origin_url: Option<&str>,
    plan: &ClonePlan,
) -> (call: Result<Vec<String>, CloneError>)
    ensures
        call is Ok <==> !exists,
        call matches Ok(args) ==> args.deep_view() == clone_command(
            repo_root@,
            mirror_dir@,
            origin_url.deep_view(),
            plan.path@,
        ),
        call matches Err(e) ==> e matches CloneError::AlreadyExists(path) && path@ == plan.path@,
{
    if exists {
        return Err(CloneError::AlreadyExists(plan.path.clone()));
    }
    let source = match origin_url {
        Some(url) => url,
        None => repo_root,
    };
    let args = with(
        with(with(with(one("clone"), "--reference-if-able"), mirror_dir), source),
        plan.path.as_str(),
    );
    assert(args.deep_view() =~= clone_command(
        repo_root@,
        mirror_dir@,
        origin_url.deep_view(),
        plan.path@,
    ));
    Ok(args)
}

/// The reference under which the mirror knows the branch `branch` of the remote.
pub fn remote_ref(branch: &str) -> (name: String)
    ensures
        name@ == "refs/remotes/origin/"@ + branch@,
{
    join_text("refs/remotes/origin/", branch)
}

/// The reference under which the mirror knows its own branch `branch`.
pub fn local_ref(branch: &str) -> (name: String)
    ensures
        name@ == "refs/heads/"@ + branch@,
{
    join_text("refs/heads/", branch)
}

/// The arguments of the call that asks whether the reference `name` exists.
pub fn show_ref_args(name: &str) -> (args: Vec<String>)
    ensures
        args.deep_view() == seq!["show-ref"@, "--verify"@, "--quiet"@, name@],
{
    let args = with(with(with(one("show-ref"), "--verify"), "--quiet"), name);
    assert(args.deep_view() =~= seq!["show-ref"@, "--verify"@, "--quiet"@, name@]);
    args
}

/// The arguments of the call that puts a new clone on `branch`. Where the
/// remote has the branch, a local branch is created that follows it. Else,
/// where the mirror has the branch, it is checked out. Else the branch is
/// created from `base_ref`.
pub open spec fn checkout_command(
    branch: Seq<char>,
    base_ref: Seq<char>,
    on_remote: bool,
    in_mirror: bool,
) -> Seq<Seq<char>> {
    if on_remote {
        seq!["checkout"@, "-b"@, branch, "origin/"@ + branch]
    } else if in_mirror {
        seq!["checkout"@, branch]
    } else {
        seq!["checkout"@, "-b"@, branch, base_ref]
    }
}

/// The call that puts the clone of `plan` on `branch`.
///
/// `on_remote` says whether `remote_ref` of the branch exists in the mirror,
/// `in_mirror` whether `local_ref` of it does.
pub fn checkout_branch(plan: &ClonePlan, branch: &str, on_remote: bool, in_mirror: bool) -> (args:
    Vec<String>)
    ensures
        args.deep_view() == checkout_command(branch@, plan.base_ref@, on_remote, in_mirror),
{
    if on_remote {
        let start = join_text("origin/", branch);
        let args = with(with(with(one("checkout"), "-b"), branch), start.as_str());
        assert(args.deep_view() =~= checkout_command(branch@, plan.base_ref@, on_remote, in_mirror));
        args
    } else if in_mirror {
        let args = with(one("checkout"), branch);
        assert(args.deep_view() =~= checkout_command(branch@, plan.base_ref@, on_remote, in_mirror));
        args
    } else {
        let args = with(with(with(one("checkout"), "-b"), branch), plan.base_ref.as_str());
        assert(args.deep_view() =~= checkout_command(branch@, plan.base_ref@, on_remote, in_mirror));
        args
    }
}

} // verus!
