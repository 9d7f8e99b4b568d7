//! The path resolver: where the clones and the mirror of a repository live, how
//! a space is named on disk, and which branch is the default.

use crate::config::{cfg_default, default_value, ConfigStore, StoreView};
use crate::fspath::{
    file_name_of, is_relative_path, joined_path, parent_of, path_file_name, path_is_relative,
    path_join, path_parent,
};
use crate::git::{failure_of, git_stdout, CommandOutput, GitError};
use crate::text::{
    chars_of, join_text, one, same_text, string_of, strip_prefix, trimmed, with, without_prefix,
};
use vstd::prelude::*;

verus! {

/// A character that may not stand in the name of a space on disk.
pub open spec fn is_reserved(c: char) -> bool {
    ||| c == '/'
    ||| c == '\\'
    ||| c == ' '
    ||| c == ':'
    ||| c == '*'
    ||| c == '?'
    ||| c == '"'
    ||| c == '<'
    ||| c == '>'
    ||| c == '|'
    ||| c == '#'
}

/// What stands for `c` in a name on disk: a dash for a reserved character.
pub open spec fn replaced(c: char) -> char {
    if is_reserved(c) {
        '-'
    } else {
        c
    }
}

/// `s` without the dashes at its beginning.
pub open spec fn strip_front(s: Seq<char>) -> Seq<char>
    decreases s.len(),
{
    if s.len() > 0 && s[0] == '-' {
        strip_front(s.drop_first())
    } else {
        s
    }
}

/// `s` without the dashes at its end.
pub open spec fn strip_back(s: Seq<char>) -> Seq<char>
    decreases s.len(),
{
    if s.len() > 0 && s.last() == '-' {
        strip_back(s.drop_last())
    } else {
        s
    }
}

/// The name on disk for the name `name`: every reserved character becomes a
/// dash, and the dashes at both ends are taken off.
pub open spec fn sanitized(name: Seq<char>) -> Seq<char> {
    strip_back(strip_front(name.map_values(|c: char| replaced(c))))
}

/// Past `a` dashes and before anything else, `strip_front` leaves what follows.
proof fn lemma_strip_front_at(s: Seq<char>, a: int)
    requires
        0 <= a <= s.len(),
        forall|k: int| 0 <= k < a ==> s[k] == '-',
        a < s.len() ==> s[a] != '-',
    ensures
        strip_front(s) == s.subrange(a, s.len() as int),
    decreases a,
{
    if a == 0 {
        assert(s.subrange(0, s.len() as int) =~= s);
    } else {
        assert(s[0] == '-');
        let t = s.drop_first();
        assert forall|k: int| 0 <= k < a - 1 implies t[k] == '-' by {
            assert(t[k] == s[k + 1]);
        }
        lemma_strip_front_at(t, a - 1);
        assert(t.subrange(a - 1, t.len() as int) =~= s.subrange(a, s.len() as int));
    }
}

/// Before the dashes from `b` on and after anything else, `strip_back` leaves
/// what comes before.
proof fn lemma_strip_back_at(s: Seq<char>, b: int)
    requires
        0 <= b <= s.len(),
        forall|k: int| b <= k < s.len() ==> s[k] == '-',
        b > 0 ==> s[b - 1] != '-',
    ensures
        strip_back(s) == s.subrange(0, b),
    decreases s.len() - b,
{
    if b == s.len() {
        assert(s.subrange(0, b) =~= s);
    } else {
        assert(s.last() == '-');
        let t = s.drop_last();
        lemma_strip_back_at(t, b);
        assert(t.subrange(0, b) =~= s.subrange(0, b));
    }
}

/// A name without reserved characters that neither begins nor ends with a dash.
pub open spec fn is_clean(s: Seq<char>) -> bool {
    &&& forall|k: int| 0 <= k < s.len() ==> !is_reserved(#[trigger] s[k])
    &&& s.len() > 0 ==> s[0] != '-' && s.last() != '-'
}

/// What `strip_front` leaves is an end of `s` that does not begin with a dash.
proof fn lemma_strip_front_is_suffix(s: Seq<char>) -> (a: int)
    ensures
        0 <= a <= s.len(),
        strip_front(s) == s.subrange(a, s.len() as int),
        a < s.len() ==> s[a] != '-',
    decreases s.len(),
{
    if s.len() > 0 && s[0] == '-' {
        let t = s.drop_first();
        let a = lemma_strip_front_is_suffix(t);
        assert(t.subrange(a, t.len() as int) =~= s.subrange(a + 1, s.len() as int));
        a + 1
    } else {
        assert(s.subrange(0, s.len() as int) =~= s);
        0
    }
}

/// What `strip_back` leaves is a beginning of `s` that does not end with a dash.
proof fn lemma_strip_back_is_prefix(s: Seq<char>) -> (b: int)
    ensures
        0 <= b <= s.len(),
        strip_back(s) == s.subrange(0, b),
        b > 0 ==> s[b - 1] != '-',
    decreases s.len(),
{
    if s.len() > 0 && s.last() == '-' {
        let t = s.drop_last();
        let b = lemma_strip_back_is_prefix(t);
        assert(t.subrange(0, b) =~= s.subrange(0, b));
        b
    } else {
        assert(s.subrange(0, s.len() as int) =~= s);
        s.len() as int
    }
}

/// A sanitized name is clean.
pub proof fn lemma_sanitized_is_clean(name: Seq<char>)
    ensures
        is_clean(sanitized(name)),
{
    let m = name.map_values(|c: char| replaced(c));
    let a = lemma_strip_front_is_suffix(m);
    let f = strip_front(m);
    let b = lemma_strip_back_is_prefix(f);
    let out = sanitized(name);
    assert(out == f.subrange(0, b));
    assert forall|k: int| 0 <= k < out.len() implies !is_reserved(#[trigger] out[k]) by {
        assert(out[k] == f[k]);
        assert(f[k] == m[a + k]);
        assert(m[a + k] == replaced(name[a + k]));
    }
    if out.len() > 0 {
        assert(out[0] == f[0]);
        assert(f[0] == m[a]);
        assert(out.last() == f[b - 1]);
    }
}

/// A clean name is its own sanitized form.
pub proof fn lemma_clean_is_fixed(s: Seq<char>)
    requires
        is_clean(s),
    ensures
        sanitized(s) == s,
{
    let m = s.map_values(|c: char| replaced(c));
    assert(m =~= s);
}

/// Sanitizing a name twice gives what sanitizing it once gives.
pub proof fn lemma_sanitize_idempotent(name: Seq<char>)
    ensures
        sanitized(sanitized(name)) == sanitized(name),
{
    lemma_sanitized_is_clean(name);
    lemma_clean_is_fixed(sanitized(name));
}

/// Whether `c` is a reserved character.
fn reserved(c: char) -> (r: bool)
    ensures
        r == is_reserved(c),
{
    c == '/' || c == '\\' || c == ' ' || c == ':' || c == '*' || c == '?' || c == '"' || c == '<'
        || c == '>' || c == '|' || c == '#'
}

/// The name under which the space `name` is kept on disk: each of the
/// characters `/ \ : * ? " < > | #` and the blank becomes a dash, and the
/// dashes at both ends are taken off. A name that went through this comes out
/// of it unchanged.
pub fn sanitize_branch_name(name: &str) -> (clean: String)
    ensures
        clean@ == sanitized(name@),
        sanitized(clean@) == clean@,
{
    let chars = chars_of(name);
    let mut mapped: Vec<char> = Vec::new();
    let mut i: usize = 0;
    while i < chars.len()
        invariant
            i <= chars.len(),
            mapped@ == chars@.take(i as int).map_values(|c: char| replaced(c)),
        decreases chars.len() - i,
    {
        let c = chars[i];
        let r = if reserved(c) {
            '-'
        } else {
            c
        };
        mapped.push(r);
        assert(mapped@ =~= chars@.take(i as int + 1).map_values(|c: char| replaced(c)));
        i = i + 1;
    }
    assert(chars@.take(chars.len() as int) =~= chars@);
    let mut from: usize = 0;
    while from < mapped.len() && mapped[from] == '-'
        invariant
            from <= mapped.len(),
            forall|k: int| 0 <= k < from ==> mapped@[k] == '-',
        decreases mapped.len() - from,
    {
        from = from + 1;
    }
    let mut to: usize = mapped.len();
    while to > from && mapped[to - 1] == '-'
        invariant
            from <= to <= mapped.len(),
            forall|k: int| to <= k < mapped.len() ==> mapped@[k] == '-',
        decreases to,
    {
        to = to - 1;
    }
    proof {
        lemma_strip_front_at(mapped@, from as int);
        let f = mapped@.subrange(from as int, mapped.len() as int);
        assert forall|k: int| to - from <= k < f.len() implies f[k] == '-' by {
            assert(f[k] == mapped@[from + k]);
        }
        if to > from {
            assert(f[to - from - 1] == mapped@[to - 1]);
        }
        lemma_strip_back_at(f, to - from);
        assert(f.subrange(0, to - from) =~= mapped@.subrange(from as int, to as int));
        lemma_sanitize_idempotent(name@);
    }
    string_of(&mapped, from, to)
}

/// The root of the repository, from what the tool answered when asked for the
/// top level of the working tree.
pub fn repo_root(answer: Option<&CommandOutput>) -> (root: Result<String, GitError>)
    ensures
        root is Ok <==> failure_of(answer.deep_view()) is None,
        root matches Ok(path) ==> answer.deep_view() matches Some(o) && path@ == trimmed(o.stdout),
        root matches Err(e) ==> failure_of(answer.deep_view()) == Some(e@),
{
    git_stdout(answer)
}

/// The arguments that ask the tool for the top level of the working tree.
pub fn repo_root_args() -> (args: Vec<String>)
    ensures
        args.deep_view() == seq!["rev-parse"@, "--show-toplevel"@],
{
    let args = with(one("rev-parse"), "--show-toplevel");
    assert(args.deep_view() =~= seq!["rev-parse"@, "--show-toplevel"@]);
    args
}

/// The home directory as it is used in a path: `~` where none is known.
pub open spec fn home_or_tilde(home: Option<Seq<char>>) -> Seq<char> {
    match home {
        Some(h) => h,
        None => "~"@,
    }
}

/// `path` with a leading `~` replaced by the home directory. Only `~` alone
/// and `~/` at the beginning stand for it.
pub open spec fn expanded_home(path: Seq<char>, home: Option<Seq<char>>) -> Seq<char> {
    if path == "~"@ {
        home_or_tilde(home)
    } else {
        match without_prefix(path, "~/"@) {
            Some(rest) => joined_path(home_or_tilde(home), rest),
            None => path,
        }
    }
}

/// `path` with a leading `~` replaced by the home directory `home`; where no
/// home directory is known, `~` stays.
pub fn expand_home(path: &str, home: Option<&str>) -> (expanded: String)
    ensures
        expanded@ == expanded_home(path@, home.deep_view()),
{
    let base = match home {
        Some(h) => h,
        None => "~",
    };
    if same_text(path, "~") {
        return base.to_owned();
    }
    match strip_prefix(path, "~/") {
        Some(rest) => path_join(base, rest.as_str()),
        None => path.to_owned(),
    }
}

/// Why a location could not be derived.
#[derive(Clone, Copy, Debug, PartialEq, Eq, Structural)]
pub enum PathError {
    /// The repository lies at the top of the file system: no directory beside
    /// it can hold its clones.
    NoParent,
}

/// A configured directory as a path: `~` expanded, and a relative path taken
/// from the root of the repository.
pub open spec fn configured_dir(
    configured: Seq<char>,
    repo_root: Seq<char>,
    home: Option<Seq<char>>,
) -> Seq<char> {
    let dir = expanded_home(configured, home);
    if is_relative_path(dir) {
        joined_path(repo_root, dir)
    } else {
        dir
    }
}

/// The name of the repository at `repo_root`: the last component of its path,
/// or `repo` where the path has none.
pub open spec fn repo_name_of(repo_root: Seq<char>) -> Seq<char> {
    match file_name_of(repo_root) {
        Some(name) => name,
        None => "repo"@,
    }
}

/// The directory of the clones as configured for `store`.
pub open spec fn configured_clones_dir(store: StoreView, env_value: Option<Seq<char>>) -> Seq<
    char,
> {
    default_value(store, "spaces.clones.dir"@, "SPACES_CLONES_DIR"@, env_value, ""@, None)
}

/// The directory that holds the clones: the configured one, or the directory
/// beside the repository that is named after it with `-clones` behind. `None`
/// where nothing is configured and the repository has no directory above it.
pub open spec fn clones_dir_of(
    store: StoreView,
    repo_root: Seq<char>,
    env_value: Option<Seq<char>>,
    home: Option<Seq<char>>,
) -> Option<Seq<char>> {
    let configured = configured_clones_dir(store, env_value);
    if configured.len() > 0 {
        Some(configured_dir(configured, repo_root, home))
    } else {
        match parent_of(repo_root) {
            Some(parent) => Some(joined_path(parent, repo_name_of(repo_root) + "-clones"@)),
            None => None,
        }
    }
}

/// Makes a path of a configured directory.
fn resolve_configured(configured: &str, repo_root: &str, home: Option<&str>) -> (dir: String)
    ensures
        dir@ == configured_dir(configured@, repo_root@, home.deep_view()),
{
    let dir = expand_home(configured, home);
    if path_is_relative(dir.as_str()) {
        path_join(repo_root, dir.as_str())
    } else {
        dir
    }
}

/// The name of the repository at `repo_root`.
fn repo_name(repo_root: &str) -> (name: String)
    ensures
        name@ == repo_name_of(repo_root@),
{
    match path_file_name(repo_root) {
        Some(name) => name,
        None => "repo".to_owned(),
    }
}

/// The directory that holds the clones of the repository at `repo_root`.
///
/// The setting `spaces.clones.dir` decides, then the environment variable
/// `SPACES_CLONES_DIR`, whose value is `env_value`. Where neither says anything,
/// it is the directory beside the repository, named after it with `-clones`
/// behind; a repository without a directory above it has none.
pub fn clones_dir(
    store: &ConfigStore,
    repo_root: &str,
    env_value: Option<&str>,
    home: Option<&str>,
) -> (dir: Result<String, PathError>)
    ensures
        dir is Ok <==> clones_dir_of(store@, repo_root@, env_value.deep_view(), home.deep_view())
            is Some,
        dir matches Ok(d) ==> clones_dir_of(
            store@,
            repo_root@,
            env_value.deep_view(),
            home.deep_view(),
        ) == Some(d@),
        dir is Err ==> dir == Err::<String, PathError>(PathError::NoParent),
{
    let configured = cfg_default(
        store,
        "spaces.clones.dir",
        "SPACES_CLONES_DIR",
        env_value,
        "",
        None,
    );
    if !configured.as_str().is_empty() {
        return Ok(resolve_configured(configured.as_str(), repo_root, home));
    }
    let name = repo_name(repo_root);
    match path_parent(repo_root) {
        Some(parent) => {
            let leaf = join_text(name.as_str(), "-clones");
            Ok(path_join(parent.as_str(), leaf.as_str()))
        },
        None => Err(PathError::NoParent),
    }
}

/// The text that stands before the name of a space in the name of its clone.
///
/// The setting `spaces.clones.prefix` decides, then the environment variable
/// `SPACES_CLONES_PREFIX`, whose value is `env_value`; else it is empty.
pub fn clones_prefix(store: &ConfigStore, env_value: Option<&str>) -> (prefix: String)
    ensures
        prefix@ == default_value(
            store@,
            "spaces.clones.prefix"@,
            "SPACES_CLONES_PREFIX"@,
            env_value.deep_view(),
            ""@,
            None,
        ),
{
    cfg_default(store, "spaces.clones.prefix", "SPACES_CLONES_PREFIX", env_value, "", None)
}

/// The directory of the mirror as configured for `store`.
pub open spec fn configured_mirror_dir(store: StoreView, env_value: Option<Seq<char>>) -> Seq<
    char,
> {
    default_value(store, "spaces.mirrors.dir"@, "SPACES_MIRRORS_DIR"@, env_value, ""@, None)
}

/// The directory of the mirror: the configured one, or
/// `.cache/spaces/mirrors` below the home directory, and below that the name of
/// the repository.
pub open spec fn mirror_dir_of(
    store: StoreView,
    repo_root: Seq<char>,
    env_value: Option<Seq<char>>,
    home: Option<Seq<char>>,
) -> Seq<char> {
    let configured = configured_mirror_dir(store, env_value);
    if configured.len() > 0 {
        configured_dir(configured, repo_root, home)
    } else {
        joined_path(
            joined_path(
                joined_path(joined_path(home_or_tilde(home), ".cache"@), "spaces"@),
                "mirrors"@,
            ),
            repo_name_of(repo_root),
        )
    }
}

/// The directory that holds the mirror of the repository at `repo_root`.
///
/// The setting `spaces.mirrors.dir` decides, then the environment variable
/// `SPACES_MIRRORS_DIR`, whose value is `env_value`. Where neither says
/// anything, the mirror lies below the home directory.
pub fn mirror_dir(
    store: &ConfigStore,
    repo_root: &str,
    env_value: Option<&str>,
    home: Option<&str>,
) -> (dir: String)
    ensures
        dir@ == mirror_dir_of(store@, repo_root@, env_value.deep_view(), home.deep_view()),
{
    let configured = cfg_default(
        store,
        "spaces.mirrors.dir",
        "SPACES_MIRRORS_DIR",
        env_value,
        "",
        None,
    );
    if !configured.as_str().is_empty() {
        return resolve_configured(configured.as_str(), repo_root, home);
    }
    let name = repo_name(repo_root);
    let base = match home {
        Some(h) => h,
        None => "~",
    };
    let a = path_join(base, ".cache");
    let b = path_join(a.as_str(), "spaces");
    let c = path_join(b.as_str(), "mirrors");
    path_join(c.as_str(), name.as_str())
}

/// The branch that the remote names as its head, where `origin_head` is a
/// reference below `refs/remotes/origin/`.
pub open spec fn remote_head_branch(origin_head: Option<Seq<char>>) -> Option<Seq<char>> {
    match origin_head {
        Some(head) => without_prefix(head, "refs/remotes/origin/"@),
        None => None,
    }
}

/// The default branch as configured for `store`; `auto` where nothing is.
pub open spec fn configured_default_branch(store: StoreView, env_value: Option<Seq<char>>) -> Seq<
    char,
> {
    default_value(store, "spaces.defaultBranch"@, "SPACES_DEFAULT_BRANCH"@, env_value, "auto"@, None)
}

/// The default branch: the configured one unless it is `auto`; else the head
/// of the remote; else `main` where the remote has it, `master` where it has
/// that, and `main` where it has neither.
pub open spec fn default_branch_of(
    store: StoreView,
    env_value: Option<Seq<char>>,
    origin_head: Option<Seq<char>>,
    has_main: bool,
    has_master: bool,
) -> Seq<char> {
    let configured = configured_default_branch(store, env_value);
    if configured != "auto"@ {
        configured
    } else if remote_head_branch(origin_head) is Some {
        remote_head_branch(origin_head)->0
    } else if has_main {
        "main"@
    } else if has_master {
        "master"@
    } else {
        "main"@
    }
}

/// The branch from which new branches start unless another is named.
///
/// `origin_head` is what the tool answered when asked which reference the head
/// of the remote stands for; `has_main` and `has_master` say whether the remote
/// has these branches.
pub fn default_branch(
    store: &ConfigStore,
    env_value: Option<&str>,
    origin_head: Option<&str>,
    has_main: bool,
    has_master: bool,
) -> (branch: String)
    ensures
        branch@ == default_branch_of(
            store@,
            env_value.deep_view(),
            origin_head.deep_view(),
            has_main,
            has_master,
        ),
{
    let configured = cfg_default(
        store,
        "spaces.defaultBranch",
        "SPACES_DEFAULT_BRANCH",
        env_value,
        "auto",
        None,
    );
    if !same_text(configured.as_str(), "auto") {
        return configured;
    }
    match origin_head {
        Some(head) => {
            match strip_prefix(head, "refs/remotes/origin/") {
                Some(branch) => {
                    return branch;
                },
                None => {},
            }
        },
        None => {},
    }
    if has_main {
        "main".to_owned()
    } else if has_master {
        "master".to_owned()
    } else {
        "main".to_owned()
    }
}

} // verus!
