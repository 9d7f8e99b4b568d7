//! The lifecycle orchestrator: what each command decides before and between
//! the steps that touch the disk, the tool, or the terminal.

use crate::cli::{
    CleanArgs, ConfigArgs, CopyArgs, MirrorsArgs, MirrorsCommand, NewArgs, RmArgs, RunArgs,
};
use crate::clone::ClonePlan;
use crate::config::Scope;
use crate::fspath::{
    file_name_of, joined_path, path_file_name, path_has_base, path_join, path_starts_with,
};
use crate::hooks::{verdict_of, HookPhase, HookVerdict};
use crate::order::{deduped, lemma_deduped_no_duplicates, lemma_merged_concat, merge_into};
use crate::paths::{lemma_sanitize_idempotent, sanitize_branch_name, sanitized};
use crate::targets::{space_name, space_name_of, target_path_of, Target};
use crate::text::{
    decimal, digits_of, has_prefix, join_text, same_text, starts_with, trim, trimmed,
};
use vstd::prelude::*;

verus! {

/// What `config` is asked to do.
#[derive(Clone, Copy, Debug, PartialEq, Eq, Structural)]
pub enum ConfigAction {
    Get,
    SetValue,
    Unset,
    Add,
    List,
}

impl ConfigAction {
    /// Whether the action changes settings.
    pub open spec fn writes(self) -> bool {
        self == ConfigAction::SetValue || self == ConfigAction::Add || self == ConfigAction::Unset
    }
}

/// The action that the word `word` names, if it names one.
pub open spec fn action_of(word: Seq<char>) -> Option<ConfigAction> {
    if word == "get"@ {
        Some(ConfigAction::Get)
    } else if word == "set"@ {
        Some(ConfigAction::SetValue)
    } else if word == "unset"@ {
        Some(ConfigAction::Unset)
    } else if word == "add"@ {
        Some(ConfigAction::Add)
    } else if word == "list"@ {
        Some(ConfigAction::List)
    } else {
        None
    }
}

/// The scope that the word `word` names, with or without two dashes before it.
pub open spec fn scope_of(word: Seq<char>) -> Option<Scope> {
    if word == "--global"@ || word == "global"@ {
        Some(Scope::Global)
    } else if word == "--local"@ || word == "local"@ {
        Some(Scope::Local)
    } else if word == "--system"@ || word == "system"@ {
        Some(Scope::System)
    } else {
        None
    }
}

/// What has been read of the arguments of `config`.
pub ghost struct ParsedView {
    pub scope: Scope,
    pub action: Option<ConfigAction>,
    pub key: Option<Seq<char>>,
    pub value: Option<Seq<char>>,
    pub extras: Seq<Seq<char>>,
}

/// Before any argument is read: the scope is `Auto`, and nothing is known.
pub open spec fn nothing_parsed() -> ParsedView {
    ParsedView { scope: Scope::Auto, action: None, key: None, value: None, extras: Seq::empty() }
}

/// What one more argument adds. A word that names a scope or an action sets
/// it, the last one counting. Of the other words the first is the key; the
/// next is the value, where the action read so far is `set` or `add`; all
/// others are extra.
pub open spec fn parse_step(p: ParsedView, word: Seq<char>) -> ParsedView {
    if scope_of(word) is Some {
        ParsedView { scope: scope_of(word)->0, ..p }
    } else if action_of(word) is Some {
        ParsedView { action: action_of(word), ..p }
    } else if p.key is None {
        ParsedView { key: Some(word), ..p }
    } else if p.value is None && (p.action == Some(ConfigAction::SetValue) || p.action == Some(
        ConfigAction::Add,
    )) {
        ParsedView { value: Some(word), ..p }
    } else {
        ParsedView { extras: p.extras.push(word), ..p }
    }
}

/// What the arguments `words` come to, read from left to right.
pub open spec fn parsed(words: Seq<Seq<char>>) -> ParsedView
    decreases words.len(),
{
    if words.len() == 0 {
        nothing_parsed()
    } else {
        parse_step(parsed(words.drop_last()), words.last())
    }
}

/// The action that is carried out: the one named, else `list` where no key was
/// given, else `get`.
pub open spec fn chosen_action(p: ParsedView) -> ConfigAction {
    match p.action {
        Some(a) => a,
        None => if p.key is None {
            ConfigAction::List
        } else {
            ConfigAction::Get
        },
    }
}

/// The scope that a write goes to: `Local` where none was named.
pub open spec fn write_scope(scope: Scope) -> Scope {
    if scope == Scope::Auto {
        Scope::Local
    } else {
        scope
    }
}

/// A request to the configuration resolver.
#[derive(Debug)]
pub enum ConfigRequest {
    /// Print the values of `key` under `scope`.
    Get { key: String, scope: Scope, ignored: Vec<String> },
    /// Set `key` to `value` under `scope`.
    SetValue { key: String, value: String, scope: Scope, ignored: Vec<String> },
    /// Add `value` to `key` under `scope`.
    Add { key: String, value: String, scope: Scope, ignored: Vec<String> },
    /// Remove the values of `key` under `scope`. `warn` says that arguments
    /// were given that this action has no use for.
    Unset { key: String, scope: Scope, ignored: Vec<String>, warn: bool },
    /// List the settings under `scope`. `warn` says that arguments were given
    /// that this action has no use for.
    List { scope: Scope, warn: bool },
}

/// A `ConfigRequest` as plain values.
pub ghost enum RequestView {
    Get { key: Seq<char>, scope: Scope, ignored: Seq<Seq<char>> },
    SetValue { key: Seq<char>, value: Seq<char>, scope: Scope, ignored: Seq<Seq<char>> },
    Add { key: Seq<char>, value: Seq<char>, scope: Scope, ignored: Seq<Seq<char>> },
    Unset { key: Seq<char>, scope: Scope, ignored: Seq<Seq<char>>, warn: bool },
    List { scope: Scope, warn: bool },
}

impl View for ConfigRequest {
    type V = RequestView;

    open spec fn view(&self) -> RequestView {
        match self {
            ConfigRequest::Get { key, scope, ignored } => RequestView::Get {
                key: key@,
                scope: *scope,
                ignored: ignored.deep_view(),
            },
            ConfigRequest::SetValue { key, value, scope, ignored } => RequestView::SetValue {
                key: key@,
                value: value@,
                scope: *scope,
                ignored: ignored.deep_view(),
            },
            ConfigRequest::Add { key, value, scope, ignored } => RequestView::Add {
                key: key@,
                value: value@,
                scope: *scope,
                ignored: ignored.deep_view(),
            },
            ConfigRequest::Unset { key, scope, ignored, warn } => RequestView::Unset {
                key: key@,
                scope: *scope,
                ignored: ignored.deep_view(),
                warn: *warn,
            },
            ConfigRequest::List { scope, warn } => RequestView::List { scope: *scope, warn: *warn },
        }
    }
}

/// Why a command was refused before it did anything.
#[derive(Clone, Copy, Debug, PartialEq, Eq, Structural)]
pub enum CliError {
    /// A write to the settings of the machine was asked for.
    SystemWrite,
    /// `config get` without a key.
    ConfigGetUsage,
    /// `config set` without a key or without a value.
    ConfigSetUsage,
    /// `config add` without a key or without a value.
    ConfigAddUsage,
    /// `config unset` without a key.
    ConfigUnsetUsage,
    /// `new` with a base reference and no branch.
    FromWithoutBranch,
    /// `new` without a name, where nobody can be asked for one.
    NameRequiredNonInteractive,
    /// `new` without a name, and none was given when asked.
    NameRequired,
    /// `rm` without a space to remove.
    RmUsage,
    /// `run` without a command to run.
    RunUsage,
    /// `copy` without a pattern, given or configured.
    NoPatterns,
    /// `copy` without a space to copy to.
    CopyUsage,
    /// `copy --all` where no space exists.
    NoSpaces,
}

/// The text of an error.
pub open spec fn message_of(e: CliError) -> Seq<char> {
    match e {
        CliError::SystemWrite => "--system not supported for write operations"@,
        CliError::ConfigGetUsage => "Usage: spaces config get <key> [--local|--global|--system]"@,
        CliError::ConfigSetUsage => "Usage: spaces config set <key> <value> [--local|--global]"@,
        CliError::ConfigAddUsage => "Usage: spaces config add <key> <value> [--local|--global]"@,
        CliError::ConfigUnsetUsage => "Usage: spaces config unset <key> [--local|--global]"@,
        CliError::FromWithoutBranch => "--from requires --branch"@,
        CliError::NameRequiredNonInteractive => "Space name required in non-interactive mode"@,
        CliError::NameRequired => "Space name required"@,
        CliError::RmUsage => "Usage: spaces rm <space|id> [<space|id>...] [--force] [--yes]"@,
        CliError::RunUsage => "Usage: spaces run <space|id> -- <command...>"@,
        CliError::NoPatterns =>
            "No patterns specified. Use '-- <pattern>...' or configure spaces.copy.include"@,
        CliError::CopyUsage =>
            "Usage: spaces copy <space>... [-n] [-a] [--from <space>] [-- <pattern>...]"@,
        CliError::NoSpaces => "No spaces found"@,
    }
}

impl CliError {
    /// The error as one line of text.
    pub fn message(&self) -> (text: &'static str)
        ensures
            text@ == message_of(*self),
    {
        match self {
            CliError::SystemWrite => "--system not supported for write operations",
            CliError::ConfigGetUsage => "Usage: spaces config get <key> [--local|--global|--system]",
            CliError::ConfigSetUsage => "Usage: spaces config set <key> <value> [--local|--global]",
            CliError::ConfigAddUsage => "Usage: spaces config add <key> <value> [--local|--global]",
            CliError::ConfigUnsetUsage => "Usage: spaces config unset <key> [--local|--global]",
            CliError::FromWithoutBranch => "--from requires --branch",
            CliError::NameRequiredNonInteractive => "Space name required in non-interactive mode",
            CliError::NameRequired => "Space name required",
            CliError::RmUsage => "Usage: spaces rm <space|id> [<space|id>...] [--force] [--yes]",
            CliError::RunUsage => "Usage: spaces run <space|id> -- <command...>",
            CliError::NoPatterns =>
                "No patterns specified. Use '-- <pattern>...' or configure spaces.copy.include",
            CliError::CopyUsage =>
                "Usage: spaces copy <space>... [-n] [-a] [--from <space>] [-- <pattern>...]",
            CliError::NoSpaces => "No spaces found",
        }
    }
}

/// What the arguments read come to: a request, or the reason why there is
/// none. A write under `System` is refused whatever else was given. `get`, `set`,
/// `add` and `unset` need a key, `set` and `add` a value too. A write for which
/// no scope was named goes to `Local`.
pub open spec fn request_of(p: ParsedView) -> Result<RequestView, CliError> {
    let action = chosen_action(p);
    if p.scope == Scope::System && action.writes() {
        Err(CliError::SystemWrite)
    } else {
        match action {
            ConfigAction::Get => match p.key {
                Some(key) => Ok(RequestView::Get { key, scope: p.scope, ignored: p.extras }),
                None => Err(CliError::ConfigGetUsage),
            },
            ConfigAction::SetValue => if p.key is Some && p.value is Some {
                Ok(
                    RequestView::SetValue {
                        key: p.key->0,
                        value: p.value->0,
                        scope: write_scope(p.scope),
                        ignored: p.extras,
                    },
                )
            } else {
                Err(CliError::ConfigSetUsage)
            },
            ConfigAction::Add => if p.key is Some && p.value is Some {
                Ok(
                    RequestView::Add {
                        key: p.key->0,
                        value: p.value->0,
                        scope: write_scope(p.scope),
                        ignored: p.extras,
                    },
                )
            } else {
                Err(CliError::ConfigAddUsage)
            },
            ConfigAction::Unset => match p.key {
                Some(key) => Ok(
                    RequestView::Unset {
                        key,
                        scope: write_scope(p.scope),
                        ignored: p.extras,
                        warn: p.extras.len() > 0 || p.value is Some,
                    },
                ),
                None => Err(CliError::ConfigUnsetUsage),
            },
            ConfigAction::List => Ok(
                RequestView::List { scope: p.scope, warn: p.key is Some || p.extras.len() > 0 },
            ),
        }
    }
}

/// The action that `word` names.
fn action_named(word: &str) -> (action: Option<ConfigAction>)
    ensures
        action == action_of(word@),
{
    if same_text(word, "get") {
        Some(ConfigAction::Get)
    } else if same_text(word, "set") {
        Some(ConfigAction::SetValue)
    } else if same_text(word, "unset") {
        Some(ConfigAction::Unset)
    } else if same_text(word, "add") {
        Some(ConfigAction::Add)
    } else if same_text(word, "list") {
        Some(ConfigAction::List)
    } else {
        None
    }
}

/// The scope that `word` names.
fn scope_named(word: &str) -> (scope: Option<Scope>)
    ensures
        scope == scope_of(word@),
{
    if same_text(word, "--global") || same_text(word, "global") {
        Some(Scope::Global)
    } else if same_text(word, "--local") || same_text(word, "local") {
        Some(Scope::Local)
    } else if same_text(word, "--system") || same_text(word, "system") {
        Some(Scope::System)
    } else {
        None
    }
}

/// Reads the arguments of `config` and says what is asked for.
///
/// The arguments are read from left to right. Words that name a scope or an
/// action may stand anywhere. Without an action, a key alone asks for its
/// values, and no key asks for the list. Nothing is written under `System`.
pub fn cmd_config(args: &ConfigArgs) -> (request: Result<ConfigRequest, CliError>)
    ensures
        request is Ok <==> request_of(parsed(args.args.deep_view())) is Ok,
        request matches Ok(r) ==> request_of(parsed(args.args.deep_view())) == Ok::<
            RequestView,
            CliError,
        >(r@),
        request matches Err(e) ==> request_of(parsed(args.args.deep_view())) == Err::<
            RequestView,
            CliError,
        >(e),
{
    let words = &args.args;
    let mut scope = Scope::Auto;
    let mut action: Option<ConfigAction> = None;
    let mut key: Option<String> = None;
    let mut value: Option<String> = None;
    let mut extras: Vec<String> = Vec::new();
    let mut i: usize = 0;
    assert(words.deep_view().take(0) =~= Seq::empty());
    assert(extras.deep_view() =~= Seq::empty());
    while i < words.len()
        invariant
            i <= words.len(),
            parsed(words.deep_view().take(i as int)) == (ParsedView {
                scope,
                action,
                key: key.deep_view(),
                value: value.deep_view(),
                extras: extras.deep_view(),
            }),
        decreases words.len() - i,
    {
        let ghost before = extras.deep_view();
        let ghost upto = words.deep_view().take(i as int + 1);
        assert(upto.drop_last() =~= words.deep_view().take(i as int));
        assert(upto.last() == words[i as int]@);
        let word = words[i].as_str();
        match scope_named(word) {
            Some(s) => {
                scope = s;
            },
            None => {
                match action_named(word) {
                    Some(a) => {
                        action = Some(a);
                    },
                    None => {
                        let takes_value = match action {
                            Some(ConfigAction::SetValue) => true,
                            Some(ConfigAction::Add) => true,
                            _ => false,
                        };
                        if key.is_none() {
                            key = Some(word.to_owned());
                        } else if value.is_none() && takes_value {
                            value = Some(word.to_owned());
                        } else {
                            extras.push(word.to_owned());
                            assert(extras.deep_view() =~= before.push(word@));
                        }
                    },
                }
            },
        }
        i = i + 1;
    }
    assert(words.deep_view().take(words.len() as int) =~= words.deep_view());
    let chosen = match action {
        Some(a) => a,
        None => if key.is_none() {
            ConfigAction::List
        } else {
            ConfigAction::Get
        },
    };
    let is_write = match chosen {
        ConfigAction::SetValue => true,
        ConfigAction::Add => true,
        ConfigAction::Unset => true,
        _ => false,
    };
    if scope == Scope::System && is_write {
        return Err(CliError::SystemWrite);
    }
    let resolved = if scope == Scope::Auto {
        Scope::Local
    } else {
        scope
    };
    match chosen {
        ConfigAction::Get => match key {
            Some(key) => Ok(ConfigRequest::Get { key, scope, ignored: extras }),
            None => Err(CliError::ConfigGetUsage),
        },
        ConfigAction::SetValue => match (key, value) {
            (Some(key), Some(value)) => Ok(
                ConfigRequest::SetValue { key, value, scope: resolved, ignored: extras },
            ),
            _ => Err(CliError::ConfigSetUsage),
        },
        ConfigAction::Add => match (key, value) {
            (Some(key), Some(value)) => Ok(
                ConfigRequest::Add { key, value, scope: resolved, ignored: extras },
            ),
            _ => Err(CliError::ConfigAddUsage),
        },
        ConfigAction::Unset => match key {
            Some(key) => {
                let warn = extras.len() > 0 || value.is_some();
                Ok(ConfigRequest::Unset { key, scope: resolved, ignored: extras, warn })
            },
            None => Err(CliError::ConfigUnsetUsage),
        },
        ConfigAction::List => {
            let warn = key.is_some() || extras.len() > 0;
            Ok(ConfigRequest::List { scope, warn })
        },
    }
}

/// No request that `config` gives writes under `System`, and none writes under
/// `Auto`: a write has its source.
pub proof fn lemma_config_writes_resolved(p: ParsedView)
    ensures
        match request_of(p) {
            Ok(RequestView::SetValue { scope, .. }) => scope == Scope::Local || scope == Scope::Global,
            Ok(RequestView::Add { scope, .. }) => scope == Scope::Local || scope == Scope::Global,
            Ok(RequestView::Unset { scope, .. }) => scope == Scope::Local || scope
                == Scope::Global,
            _ => true,
        },
{
}

/// What `new` is to do.
#[derive(Debug)]
pub struct NewPlan {
    /// The name of the space, as the user gave it.
    pub space: String,
    /// The clone to create.
    pub clone: ClonePlan,
    /// Whether the mirror is refreshed before the clone is made.
    pub fetch: bool,
    /// Whether the configured files and directories are copied into the clone.
    pub copy: bool,
}

/// A `NewPlan` as plain values.
pub ghost struct NewPlanView {
    pub space: Seq<char>,
    pub path: Seq<char>,
    pub branch: Option<Seq<char>>,
    pub base_ref: Seq<char>,
    pub fetch: bool,
    pub copy: bool,
}

impl View for NewPlan {
    type V = NewPlanView;

    open spec fn view(&self) -> NewPlanView {
        NewPlanView {
            space: self.space@,
            path: self.clone.path@,
            branch: self.clone.branch.deep_view(),
            base_ref: self.clone.base_ref@,
            fetch: self.fetch,
            copy: self.copy,
        }
    }
}

/// Whether `new` has to ask for the name of the space: no name was given,
/// asking is allowed, and the other arguments are in order.
pub open spec fn asks_for_name(
    name: Option<Seq<char>>,
    branch: Option<Seq<char>>,
    from: Option<Seq<char>>,
    yes: bool,
) -> bool {
    name is None && !yes && !(from is Some && branch is None)
}

/// Whether `new` has to ask for the name of the space.
pub fn needs_name(args: &NewArgs) -> (ask: bool)
    ensures
        ask == asks_for_name(
            args.name.deep_view(),
            args.branch.deep_view(),
            args.from.deep_view(),
            args.yes,
        ),
{
    args.name.is_none() && !args.yes && !(args.from.is_some() && args.branch.is_none())
}

/// The folder of the space `space` below `clones_dir`: the prefix, then the
/// sanitized name.
pub open spec fn clone_path_of(clones_dir: Seq<char>, prefix: Seq<char>, space: Seq<char>) -> Seq<
    char,
> {
    joined_path(clones_dir, prefix + sanitized(space))
}

/// What `new` comes to. A base reference needs a branch. The name is the one
/// given, else the one that was typed when asked; without a name there is no
/// space. A new branch starts from the base reference given, else from the
/// default branch.
pub open spec fn new_plan_of(
    name: Option<Seq<char>>,
    branch: Option<Seq<char>>,
    from: Option<Seq<char>>,
    no_fetch: bool,
    no_copy: bool,
    yes: bool,
    typed: Option<Seq<char>>,
    clones_dir: Seq<char>,
    prefix: Seq<char>,
    default_branch: Seq<char>,
) -> Result<NewPlanView, CliError> {
    if from is Some && branch is None {
        Err(CliError::FromWithoutBranch)
    } else if name is None && yes {
        Err(CliError::NameRequiredNonInteractive)
    } else if name is None && !(typed matches Some(t) && t.len() > 0) {
        Err(CliError::NameRequired)
    } else {
        let space = match name {
            Some(n) => n,
            None => typed->0,
        };
        Ok(
            NewPlanView {
                space,
                path: clone_path_of(clones_dir, prefix, space),
                branch,
                base_ref: match from {
                    Some(f) => f,
                    None => default_branch,
                },
                fetch: !no_fetch,
                copy: !no_copy,
            },
        )
    }
}

/// Decides what `new` creates.
///
/// `typed` is what the user typed when asked for the name, where `needs_name`
/// said to ask; `default_branch` is the default branch of the repository.
pub fn cmd_new(
    args: &NewArgs,
    typed: Option<&str>,
    clones_dir: &str,
    prefix: &str,
    default_branch: &str,
) -> (plan: Result<NewPlan, CliError>)
    ensures
        match plan {
            Ok(p) => new_plan_of(
                args.name.deep_view(),
                args.branch.deep_view(),
                args.from.deep_view(),
                args.no_fetch,
                args.no_copy,
                args.yes,
                typed.deep_view(),
                clones_dir@,
                prefix@,
                default_branch@,
            ) == Ok::<NewPlanView, CliError>(p@),
            Err(e) => new_plan_of(
                args.name.deep_view(),
                args.branch.deep_view(),
                args.from.deep_view(),
                args.no_fetch,
                args.no_copy,
                args.yes,
                typed.deep_view(),
                clones_dir@,
                prefix@,
                default_branch@,
            ) == Err::<NewPlanView, CliError>(e),
        },
{
    if args.from.is_some() && args.branch.is_none() {
        return Err(CliError::FromWithoutBranch);
    }
    let space = match &args.name {
        Some(n) => n.clone(),
        None => {
            if args.yes {
                return Err(CliError::NameRequiredNonInteractive);
            }
            match typed {
                Some(t) => {
                    if t.is_empty() {
                        return Err(CliError::NameRequired);
                    }
                    t.to_owned()
                },
                None => {
                    return Err(CliError::NameRequired);
                },
            }
        },
    };
    let folder = sanitize_branch_name(space.as_str());
    let leaf = join_text(prefix, folder.as_str());
    let path = path_join(clones_dir, leaf.as_str());
    let base_ref = match &args.from {
        Some(f) => f.clone(),
        None => default_branch.to_owned(),
    };
    let branch = match &args.branch {
        Some(b) => Some(b.clone()),
        None => None,
    };
    Ok(
        NewPlan {
            space,
            clone: ClonePlan { path, branch, base_ref },
            fetch: !args.no_fetch,
            copy: !args.no_copy,
        },
    )
}

/// A space is found again where it was created: resolving the name under
/// which `new` made a clone leads to the path of that clone. So does resolving
/// the sanitized name, since sanitizing a second time changes nothing.
pub proof fn lemma_resolve_finds_created(
    name: Seq<char>,
    repo_root: Seq<char>,
    clones_dir: Seq<char>,
    prefix: Seq<char>,
)
    requires
        name != "1"@,
    ensures
        target_path_of(name, repo_root, clones_dir, prefix) == clone_path_of(
            clones_dir,
            prefix,
            name,
        ),
        sanitized(name) != "1"@ ==> target_path_of(
            sanitized(name),
            repo_root,
            clones_dir,
            prefix,
        ) == clone_path_of(clones_dir, prefix, name),
{
    lemma_sanitize_idempotent(name);
}

/// `path` lies below `dir`, and is not `dir` itself.
pub open spec fn strictly_below(path: Seq<char>, dir: Seq<char>) -> bool {
    path_has_base(path, dir) && !path_has_base(dir, path)
}

/// Why a directory is not removed.
#[derive(Debug)]
pub enum RemoveError {
    /// The directory does not lie below the clones directory.
    OutsideClonesDir(String),
    /// The directory holds no marker of the version-control tool.
    NotARepository(String),
}

impl RemoveError {
    /// The error as one line of text; it names the directory.
    pub fn message(&self) -> (text: String)
        ensures
            match self {
                RemoveError::OutsideClonesDir(path) => text@
                    == "Refusing to remove path outside clones dir: "@ + path@,
                RemoveError::NotARepository(path) => text@
                    == "Refusing to remove non-git directory: "@ + path@,
            },
    {
        match self {
            RemoveError::OutsideClonesDir(path) => join_text(
                "Refusing to remove path outside clones dir: ",
                path.as_str(),
            ),
            RemoveError::NotARepository(path) => join_text(
                "Refusing to remove non-git directory: ",
                path.as_str(),
            ),
        }
    }
}

/// Where the marker of the version-control tool stands in the clone at `path`.
pub fn marker_path(path: &str) -> (marker: String)
    ensures
        marker@ == joined_path(path@, ".git"@),
{
    path_join(path, ".git")
}

/// Whether the directory `path` may be removed as a clone.
///
/// It may where it lies strictly below `clones_dir` and holds the marker of
/// the version-control tool; `has_marker` says whether something stands at
/// `marker_path`. Nothing overrides a refusal.
pub fn safe_remove_clone(path: &str, clones_dir: &str, has_marker: bool) -> (allowed: Result<
    (),
    RemoveError,
>)
    ensures
        allowed is Ok <==> may_remove(path@, clones_dir@, has_marker),
        allowed matches Err(RemoveError::OutsideClonesDir(p)) ==> p@ == path@ && !strictly_below(
            path@,
            clones_dir@,
        ),
        allowed matches Err(RemoveError::NotARepository(p)) ==> p@ == path@ && strictly_below(
            path@,
            clones_dir@,
        ) && !has_marker,
{
    if !path_starts_with(path, clones_dir) || path_starts_with(clones_dir, path) {
        return Err(RemoveError::OutsideClonesDir(path.to_owned()));
    }
    if !has_marker {
        return Err(RemoveError::NotARepository(path.to_owned()));
    }
    Ok(())
}

/// What `rm` does with one space.
#[derive(Clone, Copy, Debug, PartialEq, Eq, Structural)]
pub enum RmStep {
    /// The main repository is never removed.
    SkipMain,
    /// The hooks before the removal failed, and nothing forces it.
    SkipHookFailed,
    /// The clone is removed; `forced` says that the hooks before it failed.
    Remove { forced: bool },
}

/// Whether `rm` was given a space to remove.
pub fn rm_usage(args: &RmArgs) -> (ok: Result<(), CliError>)
    ensures
        ok is Ok <==> args.targets.len() > 0,
        ok is Err ==> ok == Err::<(), CliError>(CliError::RmUsage),
{
    if args.targets.len() == 0 {
        Err(CliError::RmUsage)
    } else {
        Ok(())
    }
}

/// What `rm` does with one space, as far as the space and the hooks say.
pub open spec fn rm_step_of(is_main: bool, pre_hooks_ok: bool, force: bool) -> RmStep {
    if is_main {
        RmStep::SkipMain
    } else if !pre_hooks_ok && !force {
        RmStep::SkipHookFailed
    } else {
        RmStep::Remove { forced: !pre_hooks_ok }
    }
}

/// `rm` goes by the verdict on the hooks before a removal: a clone is kept
/// exactly where they say to stop, and a removal counts as forced exactly where
/// they say to go on with a warning.
pub proof fn lemma_rm_follows_hooks(pre_hooks_ok: bool, force: bool)
    ensures
        rm_step_of(false, pre_hooks_ok, force) == match verdict_of(
            HookPhase::PreRemove,
            pre_hooks_ok,
            force,
        ) {
            HookVerdict::Stop => RmStep::SkipHookFailed,
            HookVerdict::Continue => RmStep::Remove { forced: false },
            HookVerdict::ContinueWarned => RmStep::Remove { forced: true },
        },
{
}

/// Whether a directory may be removed as a clone: it lies strictly below the
/// clones directory and holds the marker of the version-control tool.
pub open spec fn may_remove(path: Seq<char>, clones_dir: Seq<char>, has_marker: bool) -> bool {
    strictly_below(path, clones_dir) && has_marker
}

/// What `rm` does with one space; `None` where the removal is refused, which
/// ends the command.
pub open spec fn rm_outcome(
    is_main: bool,
    pre_hooks_ok: bool,
    force: bool,
    path: Seq<char>,
    clones_dir: Seq<char>,
    has_marker: bool,
) -> Option<RmStep> {
    let step = rm_step_of(is_main, pre_hooks_ok, force);
    if step is Remove && !may_remove(path, clones_dir, has_marker) {
        None
    } else {
        Some(step)
    }
}

/// Decides what `rm` does with the space `target`.
///
/// `pre_hooks_ok` says whether the hooks before the removal succeeded, and
/// `has_marker` whether the clone holds the marker of the version-control
/// tool. The main repository is passed over. Failed hooks keep the clone
/// unless `force` is set. A clone is removed only where `safe_remove_clone`
/// allows it: `force` does not override that, and the refusal ends the command.
pub fn cmd_rm(
    target: &Target,
    clones_dir: &str,
    has_marker: bool,
    pre_hooks_ok: bool,
    force: bool,
) -> (step: Result<RmStep, RemoveError>)
    ensures
        step matches Ok(s) ==> rm_outcome(
            target.is_main,
            pre_hooks_ok,
            force,
            target.path@,
            clones_dir@,
            has_marker,
        ) == Some(s),
        step is Err <==> rm_outcome(
            target.is_main,
            pre_hooks_ok,
            force,
            target.path@,
            clones_dir@,
            has_marker,
        ) is None,
        step matches Err(RemoveError::OutsideClonesDir(p)) ==> p@ == target.path@
            && !strictly_below(target.path@, clones_dir@),
        step matches Err(RemoveError::NotARepository(p)) ==> p@ == target.path@ && strictly_below(
            target.path@,
            clones_dir@,
        ) && !has_marker,
{
    if target.is_main {
        return Ok(RmStep::SkipMain);
    }
    if !pre_hooks_ok && !force {
        return Ok(RmStep::SkipHookFailed);
    }
    match safe_remove_clone(target.path.as_str(), clones_dir, has_marker) {
        Ok(()) => Ok(RmStep::Remove { forced: !pre_hooks_ok }),
        Err(e) => Err(e),
    }
}

/// A directory that does not lie below the clones directory, or that holds no
/// marker of the version-control tool, is never removed: whatever the hooks
/// did, and whether or not the removal is forced.
pub proof fn lemma_unsafe_target_never_removed(
    is_main: bool,
    pre_hooks_ok: bool,
    force: bool,
    path: Seq<char>,
    clones_dir: Seq<char>,
    has_marker: bool,
)
    requires
        !path_has_base(path, clones_dir) || !has_marker,
    ensures
        !may_remove(path, clones_dir, has_marker),
        !(rm_outcome(is_main, pre_hooks_ok, force, path, clones_dir, has_marker) matches Some(
            RmStep::Remove { .. },
        )),
{
}

/// What `go` reports of a space: what it is, and its branch. The path is
/// printed apart from these.
pub open spec fn go_notes(is_main: bool, name: Seq<char>, branch: Seq<char>) -> Seq<Seq<char>> {
    seq![
        if is_main {
            "Main repo"@
        } else {
            "Space: "@ + name
        },
        "Branch: "@ + branch,
    ]
}

/// What `go` reports of the space `target`, line by line.
pub fn cmd_go(target: &Target) -> (notes: Vec<String>)
    ensures
        notes.deep_view() == go_notes(target.is_main, target.name@, target.branch@),
{
    let mut notes: Vec<String> = Vec::new();
    if target.is_main {
        notes.push("Main repo".to_owned());
    } else {
        notes.push(join_text("Space: ", target.name.as_str()));
    }
    notes.push(join_text("Branch: ", target.branch.as_str()));
    assert(notes.deep_view() =~= go_notes(target.is_main, target.name@, target.branch@));
    notes
}

/// Whether `run` was given a command to run.
pub fn cmd_run(args: &RunArgs) -> (ok: Result<(), CliError>)
    ensures
        ok is Ok <==> args.cmd.len() > 0,
        ok is Err ==> ok == Err::<(), CliError>(CliError::RunUsage),
{
    if args.cmd.len() == 0 {
        Err(CliError::RunUsage)
    } else {
        Ok(())
    }
}

/// A directory below the clones directory counts as a clone where its name
/// begins with the prefix. One whose path has no last component counts too.
pub open spec fn is_clone_dir(dir: Seq<char>, prefix: Seq<char>) -> bool {
    match file_name_of(dir) {
        Some(name) => has_prefix(name, prefix),
        None => true,
    }
}

/// The directories of `dirs` that count as clones, in order.
pub open spec fn clone_dirs_of(dirs: Seq<Seq<char>>, prefix: Seq<char>) -> Seq<Seq<char>>
    decreases dirs.len(),
{
    if dirs.len() == 0 {
        Seq::empty()
    } else {
        let head = clone_dirs_of(dirs.drop_last(), prefix);
        if is_clone_dir(dirs.last(), prefix) {
            head.push(dirs.last())
        } else {
            head
        }
    }
}

/// The clones among `dirs`, the directories that lie directly below the clones
/// directory.
pub fn list_clone_dirs(dirs: &Vec<String>, prefix: &str) -> (clones: Vec<String>)
    ensures
        clones.deep_view() == clone_dirs_of(dirs.deep_view(), prefix@),
{
    let mut clones: Vec<String> = Vec::new();
    let mut i: usize = 0;
    assert(dirs.deep_view().take(0) =~= Seq::empty());
    assert(clones.deep_view() =~= Seq::empty());
    while i < dirs.len()
        invariant
            i <= dirs.len(),
            clones.deep_view() == clone_dirs_of(dirs.deep_view().take(i as int), prefix@),
        decreases dirs.len() - i,
    {
        let ghost before = clones.deep_view();
        let ghost upto = dirs.deep_view().take(i as int + 1);
        assert(upto.drop_last() =~= dirs.deep_view().take(i as int));
        assert(upto.last() == dirs[i as int]@);
        let keep = match path_file_name(dirs[i].as_str()) {
            Some(name) => starts_with(name.as_str(), prefix),
            None => true,
        };
        if keep {
            clones.push(dirs[i].clone());
            assert(clones.deep_view() =~= before.push(dirs[i as int]@));
        }
        i = i + 1;
    }
    assert(dirs.deep_view().take(dirs.len() as int) =~= dirs.deep_view());
    clones
}

/// The names of the spaces whose clones lie at `clones`.
pub open spec fn space_names_of(clones: Seq<Seq<char>>, prefix: Seq<char>) -> Seq<Seq<char>> {
    clones.map_values(|dir: Seq<char>| space_name_of(dir, prefix))
}

/// The names of the spaces among `dirs`, the directories that lie directly
/// below the clones directory. That there is no space is an error.
pub fn list_space_names(dirs: &Vec<String>, prefix: &str) -> (names: Result<Vec<String>, CliError>)
    ensures
        names is Ok <==> clone_dirs_of(dirs.deep_view(), prefix@).len() > 0,
        names matches Ok(n) ==> n.deep_view() == space_names_of(
            clone_dirs_of(dirs.deep_view(), prefix@),
            prefix@,
        ),
        names is Err ==> names == Err::<Vec<String>, CliError>(CliError::NoSpaces),
{
    let clones = list_clone_dirs(dirs, prefix);
    let mut names: Vec<String> = Vec::new();
    let mut i: usize = 0;
    while i < clones.len()
        invariant
            i <= clones.len(),
            names.len() == i,
            forall|k: int|
                0 <= k < i ==> #[trigger] names.deep_view()[k] == space_name_of(
                    clones.deep_view()[k],
                    prefix@,
                ),
        decreases clones.len() - i,
    {
        let ghost before = names.deep_view();
        assert(clones.deep_view()[i as int] == clones[i as int]@);
        let name = space_name(clones[i].as_str(), prefix);
        let ghost nv = name@;
        names.push(name);
        assert(names.deep_view() =~= before.push(nv));
        i = i + 1;
    }
    if names.len() == 0 {
        return Err(CliError::NoSpaces);
    }
    assert(names.deep_view() =~= space_names_of(clones.deep_view(), prefix@));
    Ok(names)
}

/// What `copy` is to do.
#[derive(Debug)]
pub struct CopyRequest {
    /// The space to copy from.
    pub source: String,
    /// The patterns of the files to copy.
    pub patterns: Vec<String>,
    /// The spaces to copy to.
    pub targets: Vec<String>,
    /// Whether the copy is only reported.
    pub dry_run: bool,
}

/// A `CopyRequest` as plain values.
pub ghost struct CopyRequestView {
    pub source: Seq<char>,
    pub patterns: Seq<Seq<char>>,
    pub targets: Seq<Seq<char>>,
    pub dry_run: bool,
}

impl View for CopyRequest {
    type V = CopyRequestView;

    open spec fn view(&self) -> CopyRequestView {
        CopyRequestView {
            source: self.source@,
            patterns: self.patterns.deep_view(),
            targets: self.targets.deep_view(),
            dry_run: self.dry_run,
        }
    }
}

/// Where the two pattern files of the repository at `repo_root` lie. Each holds
/// one pattern on a line; both add to the configured include patterns.
pub fn pattern_files(repo_root: &str) -> (files: (String, String))
    ensures
        files.0@ == joined_path(repo_root@, ".worktreeinclude"@),
        files.1@ == joined_path(repo_root@, ".spacesinclude"@),
{
    (path_join(repo_root, ".worktreeinclude"), path_join(repo_root, ".spacesinclude"))
}

/// The patterns that are configured for copying: those of the settings, then
/// those of the two pattern files, each once, where it came first.
pub open spec fn configured_patterns(
    settings: Seq<Seq<char>>,
    worktree_file: Seq<Seq<char>>,
    spaces_file: Seq<Seq<char>>,
) -> Seq<Seq<char>> {
    deduped(settings + worktree_file + spaces_file)
}

/// The patterns that are configured for copying.
pub fn gather_patterns(
    settings: Vec<String>,
    worktree_file: &Vec<String>,
    spaces_file: &Vec<String>,
) -> (patterns: Vec<String>)
    ensures
        patterns.deep_view() == configured_patterns(
            settings.deep_view(),
            worktree_file.deep_view(),
            spaces_file.deep_view(),
        ),
        patterns.deep_view().no_duplicates(),
{
    let mut patterns: Vec<String> = Vec::new();
    assert(patterns.deep_view() =~= Seq::empty());
    merge_into(&mut patterns, &settings);
    merge_into(&mut patterns, worktree_file);
    merge_into(&mut patterns, spaces_file);
    proof {
        let e = Seq::<Seq<char>>::empty();
        lemma_merged_concat(e, settings.deep_view(), worktree_file.deep_view());
        lemma_merged_concat(
            e,
            settings.deep_view() + worktree_file.deep_view(),
            spaces_file.deep_view(),
        );
        lemma_deduped_no_duplicates(
            settings.deep_view() + worktree_file.deep_view() + spaces_file.deep_view(),
        );
    }
    patterns
}

/// What `copy` comes to. The patterns are those given, else those configured;
/// without patterns nothing is copied. The source is the space named, else the
/// main repository. The targets are all spaces where all are asked for, else
/// those given; without targets nothing is copied.
pub open spec fn copy_request_of(
    given_patterns: Seq<Seq<char>>,
    given_targets: Seq<Seq<char>>,
    from: Option<Seq<char>>,
    all: bool,
    dry_run: bool,
    configured: Seq<Seq<char>>,
    spaces: Seq<Seq<char>>,
) -> Result<CopyRequestView, CliError> {
    let patterns = if given_patterns.len() > 0 {
        given_patterns
    } else {
        configured
    };
    let targets = if all {
        spaces
    } else {
        given_targets
    };
    if patterns.len() == 0 {
        Err(CliError::NoPatterns)
    } else if all && spaces.len() == 0 {
        Err(CliError::NoSpaces)
    } else if !all && given_targets.len() == 0 {
        Err(CliError::CopyUsage)
    } else {
        Ok(
            CopyRequestView {
                source: match from {
                    Some(f) => f,
                    None => "1"@,
                },
                patterns,
                targets,
                dry_run,
            },
        )
    }
}

/// The strings of `items`, copied.
fn copy_of(items: &Vec<String>) -> (copy: Vec<String>)
    ensures
        copy.deep_view() == items.deep_view(),
{
    let mut copy: Vec<String> = Vec::new();
    let mut i: usize = 0;
    while i < items.len()
        invariant
            i <= items.len(),
            copy.len() == i,
            forall|k: int| 0 <= k < i ==> #[trigger] copy.deep_view()[k] == items.deep_view()[k],
        decreases items.len() - i,
    {
        let ghost before = copy.deep_view();
        assert(items.deep_view()[i as int] == items[i as int]@);
        copy.push(items[i].clone());
        assert(copy.deep_view() =~= before.push(items[i as int]@));
        i = i + 1;
    }
    assert(copy.deep_view() =~= items.deep_view());
    copy
}

/// Decides what `copy` copies, from where, and to which spaces.
///
/// `configured` holds the patterns that `gather_patterns` gave, and `spaces`
/// the names of all spaces, as `list_space_names` found them.
pub fn cmd_copy(args: &CopyArgs, configured: &Vec<String>, spaces: &Vec<String>) -> (request:
    Result<CopyRequest, CliError>)
    ensures
        match request {
            Ok(r) => copy_request_of(
                args.patterns.deep_view(),
                args.targets.deep_view(),
                args.from.deep_view(),
                args.all,
                args.dry_run,
                configured.deep_view(),
                spaces.deep_view(),
            ) == Ok::<CopyRequestView, CliError>(r@),
            Err(e) => copy_request_of(
                args.patterns.deep_view(),
                args.targets.deep_view(),
                args.from.deep_view(),
                args.all,
                args.dry_run,
                configured.deep_view(),
                spaces.deep_view(),
            ) == Err::<CopyRequestView, CliError>(e),
        },
{
    let patterns = if args.patterns.len() > 0 {
        copy_of(&args.patterns)
    } else {
        copy_of(configured)
    };
    if patterns.len() == 0 {
        return Err(CliError::NoPatterns);
    }
    let targets = if args.all {
        if spaces.len() == 0 {
            return Err(CliError::NoSpaces);
        }
        copy_of(spaces)
    } else {
        if args.targets.len() == 0 {
            return Err(CliError::CopyUsage);
        }
        copy_of(&args.targets)
    };
    let source = match &args.from {
        Some(f) => f.clone(),
        None => "1".to_owned(),
    };
    Ok(CopyRequest { source, patterns, targets, dry_run: args.dry_run })
}

/// Two paths name the same place: each begins with the components of the other.
pub open spec fn same_place(a: Seq<char>, b: Seq<char>) -> bool {
    path_has_base(a, b) && path_has_base(b, a)
}

/// Whether copying from `source` to `target` is passed over, because both are
/// the same place.
pub fn copy_skips(source: &Target, target: &Target) -> (skip: bool)
    ensures
        skip == same_place(source.path@, target.path@),
{
    path_starts_with(source.path.as_str(), target.path.as_str()) && path_starts_with(
        target.path.as_str(),
        source.path.as_str(),
    )
}

/// What `clean` makes of a clone before it asks anyone.
#[derive(Clone, Copy, Debug, PartialEq, Eq, Structural)]
pub enum CleanCheck {
    /// The clone is kept, and counted as passed over.
    Skip,
    /// The clone is on the branch of the main repository; it is kept, and not
    /// counted.
    Pass,
    /// The clone is a candidate: the state of its pull request decides.
    Inspect,
}

/// What `clean` makes of a clone before it asks anyone. A clone without a
/// branch is kept; so is one on the branch of the main repository; so is one
/// with changes.
pub open spec fn clean_check_of(branch: Option<Seq<char>>, main_branch: Seq<char>, dirty: bool) -> CleanCheck {
    match branch {
        None => CleanCheck::Skip,
        Some(b) => if b == "(detached)"@ || b.len() == 0 {
            CleanCheck::Skip
        } else if b == main_branch {
            CleanCheck::Pass
        } else if dirty {
            CleanCheck::Skip
        } else {
            CleanCheck::Inspect
        },
    }
}

/// Decides whether `clean` looks further at a clone.
///
/// `branch` is the `current_branch` of the clone, `main_branch` that of the
/// main repository, empty where it has none, and `dirty` says whether the
/// clone has changes.
pub fn clean_candidate(branch: Option<&str>, main_branch: &str, dirty: bool) -> (check: CleanCheck)
    ensures
        check == clean_check_of(branch.deep_view(), main_branch@, dirty),
{
    match branch {
        None => CleanCheck::Skip,
        Some(b) => {
            if same_text(b, "(detached)") || b.is_empty() {
                CleanCheck::Skip
            } else if same_text(b, main_branch) {
                CleanCheck::Pass
            } else if dirty {
                CleanCheck::Skip
            } else {
                CleanCheck::Inspect
            }
        },
    }
}

/// What `clean` does with a candidate.
#[derive(Clone, Copy, Debug, PartialEq, Eq, Structural)]
pub enum CleanStep {
    /// Its pull request is not merged: the clone is kept, and not counted.
    Keep,
    /// A dry run: the clone would be removed.
    WouldRemove,
    /// The clone is removed.
    Remove,
    /// The user decides.
    Ask,
    /// The user said no: the clone is kept, and counted as passed over.
    Skip,
}

/// What `clean` does with a candidate whose pull request has the state
/// `pr_state`. Only a merged one leads to a removal: reported in a dry run,
/// done at once where `yes` is set, else left to the user.
pub open spec fn clean_step_of(pr_state: Option<Seq<char>>, dry_run: bool, yes: bool) -> CleanStep {
    if pr_state == Some("MERGED"@) {
        if dry_run {
            CleanStep::WouldRemove
        } else if yes {
            CleanStep::Remove
        } else {
            CleanStep::Ask
        }
    } else {
        CleanStep::Keep
    }
}

/// Decides what `clean` does with a candidate.
pub fn cmd_clean(args: &CleanArgs, pr_state: Option<&str>) -> (step: CleanStep)
    ensures
        step == clean_step_of(pr_state.deep_view(), args.dry_run, args.yes),
{
    let merged_pr = match pr_state {
        Some(state) => same_text(state, "MERGED"),
        None => false,
    };
    if merged_pr {
        if args.dry_run {
            CleanStep::WouldRemove
        } else if args.yes {
            CleanStep::Remove
        } else {
            CleanStep::Ask
        }
    } else {
        CleanStep::Keep
    }
}

/// What `clean` does once the user has answered.
pub fn clean_answer(confirmed: bool) -> (step: CleanStep)
    ensures
        step == if confirmed {
            CleanStep::Remove
        } else {
            CleanStep::Skip
        },
{
    if confirmed {
        CleanStep::Remove
    } else {
        CleanStep::Skip
    }
}

/// How a clone counts in the summary of `clean`.
#[derive(Clone, Copy, Debug, PartialEq, Eq, Structural)]
pub enum CleanCount {
    /// It was removed, or would be in a dry run.
    Removed,
    /// It was passed over.
    Skipped,
    /// It does not count.
    Neither,
}

/// How a clone counts that `clean` did not look further at.
pub fn count_of_check(check: CleanCheck) -> (count: CleanCount)
    ensures
        count == if check == CleanCheck::Skip {
            CleanCount::Skipped
        } else {
            CleanCount::Neither
        },
{
    match check {
        CleanCheck::Skip => CleanCount::Skipped,
        _ => CleanCount::Neither,
    }
}

/// How a candidate counts, by what was done with it.
pub open spec fn count_of(step: CleanStep) -> CleanCount {
    match step {
        CleanStep::Remove => CleanCount::Removed,
        CleanStep::WouldRemove => CleanCount::Removed,
        CleanStep::Skip => CleanCount::Skipped,
        CleanStep::Keep => CleanCount::Neither,
        CleanStep::Ask => CleanCount::Neither,
    }
}

/// How a candidate counts, by what was done with it.
pub fn count_of_step(step: CleanStep) -> (count: CleanCount)
    ensures
        count == count_of(step),
{
    match step {
        CleanStep::Remove => CleanCount::Removed,
        CleanStep::WouldRemove => CleanCount::Removed,
        CleanStep::Skip => CleanCount::Skipped,
        CleanStep::Keep => CleanCount::Neither,
        CleanStep::Ask => CleanCount::Neither,
    }
}

/// The line that sums up a run of `clean`.
pub open spec fn clean_summary_of(dry_run: bool, removed: nat, skipped: nat) -> Seq<char> {
    (if dry_run {
        "Dry run complete. Would remove: "@
    } else {
        "Merged cleanup complete. Removed: "@
    }) + digits_of(removed) + ", Skipped: "@ + digits_of(skipped)
}

/// The line that sums up a run of `clean` in which `removed` clones were
/// removed, or would have been, and `skipped` were passed over.
pub fn clean_summary(dry_run: bool, removed: usize, skipped: usize) -> (line: String)
    ensures
        line@ == clean_summary_of(dry_run, removed as nat, skipped as nat),
{
    let mut line = if dry_run {
        "Dry run complete. Would remove: ".to_owned()
    } else {
        "Merged cleanup complete. Removed: ".to_owned()
    };
    line.append(decimal(removed).as_str());
    line.append(", Skipped: ");
    line.append(decimal(skipped).as_str());
    line
}

/// Whether `mirrors` is asked to refresh the mirror.
pub fn mirrors_update(args: &MirrorsArgs) -> (update: bool)
    ensures
        update == args.command is Some,
{
    match args.command {
        Some(MirrorsCommand::Update) => true,
        None => false,
    }
}

/// What `mirrors` prints: after a refresh that the mirror was updated, else
/// where the mirror lies and whether it is there.
pub open spec fn mirrors_lines(update: bool, mirror_dir: Seq<char>, exists: bool) -> Seq<Seq<char>> {
    if update {
        seq!["updated: "@ + mirror_dir]
    } else {
        seq![
            mirror_dir,
            if exists {
                "status: present"@
            } else {
                "status: missing"@
            },
        ]
    }
}

/// What `mirrors` prints. `exists` says whether the mirror is there.
pub fn cmd_mirrors(args: &MirrorsArgs, mirror_dir: &str, exists: bool) -> (lines: Vec<String>)
    ensures
        lines.deep_view() == mirrors_lines(args.command is Some, mirror_dir@, exists),
{
    let mut lines: Vec<String> = Vec::new();
    if mirrors_update(args) {
        lines.push(join_text("updated: ", mirror_dir));
    } else {
        lines.push(mirror_dir.to_owned());
        if exists {
            lines.push("status: present".to_owned());
        } else {
            lines.push("status: missing".to_owned());
        }
    }
    assert(lines.deep_view() =~= mirrors_lines(args.command is Some, mirror_dir@, exists));
    lines
}

/// With what `doctor` begins: its title, and what the version-control tool
/// says of itself, where it could be run.
pub open spec fn doctor_head_lines(tool_version: Option<Seq<char>>) -> Seq<Seq<char>> {
    seq![
        "Running spaces health check..."@,
        Seq::empty(),
        match tool_version {
            Some(v) => "[OK] Git: "@ + trimmed(v),
            None => "[x] Git: not found"@,
        },
    ]
}

/// With what `doctor` begins. `tool_version` is what the version-control tool
/// wrote when asked for its version, `None` where it could not be run.
pub fn doctor_head(tool_version: Option<&str>) -> (lines: Vec<String>)
    ensures
        lines.deep_view() == doctor_head_lines(tool_version.deep_view()),
{
    let mut lines: Vec<String> = Vec::new();
    lines.push("Running spaces health check...".to_owned());
    lines.push(String::new());
    match tool_version {
        Some(v) => {
            lines.push(join_text("[OK] Git: ", trim(v).as_str()));
        },
        None => {
            lines.push("[x] Git: not found".to_owned());
        },
    }
    assert(lines.deep_view() =~= doctor_head_lines(tool_version.deep_view()));
    lines
}

/// What `doctor` reports of a repository: where its clones and its mirror lie,
/// whether the mirror is there, and its default branch.
pub open spec fn doctor_lines(
    clones_dir: Seq<char>,
    mirror_dir: Seq<char>,
    mirror_present: bool,
    default_branch: Seq<char>,
) -> Seq<Seq<char>> {
    seq![
        "[OK] Clones dir: "@ + clones_dir,
        "[OK] Mirrors dir: "@ + mirror_dir,
        "[OK] Mirror present: "@ + (if mirror_present {
            "yes"@
        } else {
            "no"@
        }),
        "[OK] Default branch: "@ + default_branch,
    ]
}

/// What `doctor` reports of a repository.
pub fn cmd_doctor(clones_dir: &str, mirror_dir: &str, mirror_present: bool, default_branch: &str) -> (lines:
    Vec<String>)
    ensures
        lines.deep_view() == doctor_lines(
            clones_dir@,
            mirror_dir@,
            mirror_present,
            default_branch@,
        ),
{
    let mut lines: Vec<String> = Vec::new();
    lines.push(join_text("[OK] Clones dir: ", clones_dir));
    lines.push(join_text("[OK] Mirrors dir: ", mirror_dir));
    if mirror_present {
        lines.push(join_text("[OK] Mirror present: ", "yes"));
    } else {
        lines.push(join_text("[OK] Mirror present: ", "no"));
    }
    lines.push(join_text("[OK] Default branch: ", default_branch));
    assert(lines.deep_view() =~= doctor_lines(
        clones_dir@,
        mirror_dir@,
        mirror_present,
        default_branch@,
    ));
    lines
}

} // verus!
