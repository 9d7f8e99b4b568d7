//! The target resolver: from what a user calls a space to the space on disk.

use crate::fspath::{file_name_of, joined_path, path_file_name, path_join};
use crate::paths::{sanitize_branch_name, sanitized};
use crate::text::{join_text, same_text, strip_prefix, trim, trimmed, without_prefix};
use vstd::prelude::*;

verus! {

/// A resolved space.
#[derive(Debug)]
pub struct Target {
    /// Whether this is the main repository, not a clone.
    pub is_main: bool,
    /// Where the space lies.
    pub path: String,
    /// What the user calls it.
    pub name: String,
    /// The branch that is checked out in it.
    pub branch: String,
}

/// A `Target` as plain values.
pub ghost struct TargetView {
    pub is_main: bool,
    pub path: Seq<char>,
    pub name: Seq<char>,
    pub branch: Seq<char>,
}

impl View for Target {
    type V = TargetView;

    open spec fn view(&self) -> TargetView {
        TargetView {
            is_main: self.is_main,
            path: self.path@,
            name: self.name@,
            branch: self.branch@,
        }
    }
}

/// Why no space was resolved.
#[derive(Debug)]
pub enum TargetError {
    /// No space of this name exists.
    NotFound(String),
}

impl TargetError {
    /// The error as one line of text; it names what was asked for.
    pub fn message(&self) -> (text: String)
        ensures
            self matches TargetError::NotFound(id) && text@ == "Target not found for space: "@
                + id@,
    {
        match self {
            TargetError::NotFound(id) => join_text("Target not found for space: ", id.as_str()),
        }
    }
}

/// The branch of a working tree, from two answers of the tool: `shown` to the
/// question for the current branch, `head` to the question what `HEAD` stands
/// for, which counts where the first gave nothing. `HEAD` itself means that no
/// branch is checked out.
pub open spec fn branch_of(shown: Option<Seq<char>>, head: Option<Seq<char>>) -> Option<Seq<char>> {
    let answer = if shown is Some {
        shown
    } else {
        head
    };
    match answer {
        Some(b) => if b == "HEAD"@ {
            Some("(detached)"@)
        } else if b.len() > 0 {
            Some(b)
        } else {
            None
        },
        None => None,
    }
}

/// The branch that is checked out in a working tree: `(detached)` where none
/// is, `None` where the tool gave no answer.
pub fn current_branch(shown: Option<&str>, head: Option<&str>) -> (branch: Option<String>)
    ensures
        branch.deep_view() == branch_of(shown.deep_view(), head.deep_view()),
{
    let answer = match shown {
        Some(s) => Some(s),
        None => head,
    };
    match answer {
        Some(b) => {
            if same_text(b, "HEAD") {
                Some("(detached)".to_owned())
            } else if !b.is_empty() {
                Some(b.to_owned())
            } else {
                None
            }
        },
        None => None,
    }
}

/// Where the space `identifier` lies, if it exists: the main repository for
/// `1`, else the directory below `clones_dir` that is named by the prefix and
/// the sanitized identifier.
pub open spec fn target_path_of(
    identifier: Seq<char>,
    repo_root: Seq<char>,
    clones_dir: Seq<char>,
    prefix: Seq<char>,
) -> Seq<char> {
    if identifier == "1"@ {
        repo_root
    } else {
        joined_path(clones_dir, prefix + sanitized(identifier))
    }
}

/// Where the space `identifier` lies, if it exists.
pub fn target_path(identifier: &str, repo_root: &str, clones_dir: &str, prefix: &str) -> (path:
    String)
    ensures
        path@ == target_path_of(identifier@, repo_root@, clones_dir@, prefix@),
{
    if same_text(identifier, "1") {
        repo_root.to_owned()
    } else {
        let folder = sanitize_branch_name(identifier);
        let leaf = join_text(prefix, folder.as_str());
        path_join(clones_dir, leaf.as_str())
    }
}

/// The space that `identifier` resolves to, or `None` where there is none.
///
/// `1` is always the main repository, whatever the clones directory holds: its
/// name is `main`, and its branch is `unknown` where none could be found out.
/// Any other identifier is a clone, which exists where its directory does; it
/// keeps the name under which it was asked for, and counts as detached where
/// no branch could be found out.
pub open spec fn resolved(
    identifier: Seq<char>,
    repo_root: Seq<char>,
    clones_dir: Seq<char>,
    prefix: Seq<char>,
    is_dir: bool,
    branch: Option<Seq<char>>,
) -> Option<TargetView> {
    if identifier == "1"@ {
        Some(
            TargetView {
                is_main: true,
                path: repo_root,
                name: "main"@,
                branch: match branch {
                    Some(b) => b,
                    None => "unknown"@,
                },
            },
        )
    } else if is_dir {
        Some(
            TargetView {
                is_main: false,
                path: target_path_of(identifier, repo_root, clones_dir, prefix),
                name: identifier,
                branch: match branch {
                    Some(b) => b,
                    None => "(detached)"@,
                },
            },
        )
    } else {
        None
    }
}

/// Resolves what a user calls a space.
///
/// `is_dir` says whether a directory stands at `target_path` of the same
/// arguments, and `branch` is the `current_branch` of that place. The
/// identifier `1` resolves to the main repository whatever `is_dir` says. For
/// every other identifier the clone has to exist; where it does not, the error
/// names the identifier.
pub fn resolve_target(
    identifier: &str,
    repo_root: &str,
    clones_dir: &str,
    prefix: &str,
    is_dir: bool,
    branch: Option<&str>,
) -> (target: Result<Target, TargetError>)
    ensures
        target is Ok <==> (identifier@ == "1"@ || is_dir),
        target matches Ok(t) ==> resolved(
            identifier@,
            repo_root@,
            clones_dir@,
            prefix@,
            is_dir,
            branch.deep_view(),
        ) == Some(t@),
        target matches Err(e) ==> e matches TargetError::NotFound(id) && id@ == identifier@,
        identifier@ == "1"@ ==> (target matches Ok(t) && t.is_main && t.path@ == repo_root@),
{
    if same_text(identifier, "1") {
        let branch = match branch {
            Some(b) => b.to_owned(),
            None => "unknown".to_owned(),
        };
        return Ok(
            Target { is_main: true, path: repo_root.to_owned(), name: "main".to_owned(), branch },
        );
    }
    if is_dir {
        let branch = match branch {
            Some(b) => b.to_owned(),
            None => "(detached)".to_owned(),
        };
        let path = target_path(identifier, repo_root, clones_dir, prefix);
        return Ok(Target { is_main: false, path, name: identifier.to_owned(), branch });
    }
    Err(TargetError::NotFound(identifier.to_owned()))
}

/// The state of a space: `missing` where its directory is not there; `detached`
/// where no branch is checked out or none could be found out; `dirty` where
/// the tool reports changes; else `ok`.
pub open spec fn status_of(exists: bool, branch: Option<Seq<char>>, changes: Option<Seq<char>>) -> Seq<
    char,
> {
    if !exists {
        "missing"@
    } else if branch is None || branch == Some("(detached)"@) {
        "detached"@
    } else if changes matches Some(c) && trimmed(c).len() > 0 {
        "dirty"@
    } else {
        "ok"@
    }
}

/// The state of a space.
///
/// `exists` says whether its directory is there, `branch` is its
/// `current_branch`, and `changes` is what the tool lists as changed in it.
pub fn status(exists: bool, branch: Option<&str>, changes: Option<&str>) -> (state: String)
    ensures
        state@ == status_of(exists, branch.deep_view(), changes.deep_view()),
{
    if !exists {
        return "missing".to_owned();
    }
    match branch {
        Some(b) => {
            if same_text(b, "(detached)") {
                return "detached".to_owned();
            }
        },
        None => {
            return "detached".to_owned();
        },
    }
    match changes {
        Some(c) => {
            if !trim(c).as_str().is_empty() {
                return "dirty".to_owned();
            }
        },
        None => {},
    }
    "ok".to_owned()
}

/// The name of the space whose clone lies at `path`: the last component of the
/// path, without `prefix` where it begins with it; `space` where the path has
/// no last component.
pub open spec fn space_name_of(path: Seq<char>, prefix: Seq<char>) -> Seq<char> {
    let name = match file_name_of(path) {
        Some(n) => n,
        None => "space"@,
    };
    match without_prefix(name, prefix) {
        Some(rest) => rest,
        None => name,
    }
}

/// The name of the space whose clone lies at `path`.
pub fn space_name(path: &str, prefix: &str) -> (name: String)
    ensures
        name@ == space_name_of(path@, prefix@),
{
    let name = match path_file_name(path) {
        Some(n) => n,
        None => "space".to_owned(),
    };
    match strip_prefix(name.as_str(), prefix) {
        Some(rest) => rest,
        None => name,
    }
}

} // verus!
