//! The mirror: one bare copy of the remote, shared by all spaces of a
//! repository, made when it is first needed and refreshed on demand.

use crate::text::{one, with};
use vstd::prelude::*;

verus! {

/// The arguments of the call that makes the mirror of the repository.
pub open spec fn mirror_command(repo_root: Seq<char>, mirror_dir: Seq<char>) -> Seq<Seq<char>> {
    seq!["clone"@, "--mirror"@, repo_root, mirror_dir]
}

/// The call that makes the mirror, or `None` where the mirror is there:
/// `exists` says whether it is. A mirror that exists is left as it is.
pub fn ensure_mirror(exists: bool, repo_root: &str, mirror_dir: &str) -> (call: Option<Vec<String>>)
    ensures
        call is None <==> exists,
        call matches Some(args) ==> args.deep_view() == mirror_command(repo_root@, mirror_dir@),
{
    if exists {
        return None;
    }
    let args = with(with(with(one("clone"), "--mirror"), repo_root), mirror_dir);
    assert(args.deep_view() =~= mirror_command(repo_root@, mirror_dir@));
    Some(args)
}

/// The arguments of the call that brings the branches and tags of the
/// repository itself into the mirror.
pub open spec fn local_fetch_command(repo_root: Seq<char>) -> Seq<Seq<char>> {
    seq!["fetch"@, repo_root, "+refs/heads/*:refs/heads/*"@, "+refs/tags/*:refs/tags/*"@]
}

/// The calls that refresh the mirror, in order. Where the repository has a
/// remote, the mirror is pointed at it and fetches from it; in any case it
/// fetches from the repository itself.
pub open spec fn update_commands(repo_root: Seq<char>, origin_url: Option<Seq<char>>) -> Seq<
    Seq<Seq<char>>,
> {
    match origin_url {
        Some(url) => seq![
            seq!["remote"@, "set-url"@, "origin"@, url],
            seq!["fetch"@, "--prune"@, "origin"@],
            local_fetch_command(repo_root),
        ],
        None => seq![local_fetch_command(repo_root)],
    }
}

/// The calls that refresh the mirror, to be made in the mirror's directory, in
/// order. None of them has to succeed: a refresh is best effort.
pub fn update_mirror(repo_root: &str, origin_url: Option<&str>) -> (calls: Vec<Vec<String>>)
    ensures
        calls.deep_view() == update_commands(repo_root@, origin_url.deep_view()),
{
    let mut calls: Vec<Vec<String>> = Vec::new();
    match origin_url {
        Some(url) => {
            let set_url = with(with(with(one("remote"), "set-url"), "origin"), url);
            assert(set_url.deep_view() =~= seq!["remote"@, "set-url"@, "origin"@, url@]);
            let fetch = with(with(one("fetch"), "--prune"), "origin");
            assert(fetch.deep_view() =~= seq!["fetch"@, "--prune"@, "origin"@]);
            calls.push(set_url);
            calls.push(fetch);
        },
        None => {},
    }
    let local = with(
        with(with(one("fetch"), repo_root), "+refs/heads/*:refs/heads/*"),
        "+refs/tags/*:refs/tags/*",
    );
    assert(local.deep_view() =~= local_fetch_command(repo_root@));
    calls.push(local);
    assert(calls.deep_view() =~= update_commands(repo_root@, origin_url.deep_view()));
    calls
}

} // verus!
