use spaces::config::{ConfigStore, Source};
use spaces::git::{
    changes_args, git_check, git_stdout, git_stdout_opt, head_ref_args, merged_pr_args,
    origin_head_args, origin_url_args, platform_probe_args, show_current_args, CommandOutput,
    GitError,
};
use spaces::paths::{
    clones_dir, clones_prefix, default_branch, expand_home, mirror_dir, repo_root, repo_root_args,
    sanitize_branch_name, PathError,
};
use spaces::targets::{
    current_branch, resolve_target, space_name, status, target_path, TargetError,
};

fn output(success: bool, stdout: &str, stderr: &str) -> CommandOutput {
    CommandOutput { success, stdout: stdout.to_string(), stderr: stderr.to_string() }
}

#[test]
fn sanitize_replaces_reserved_characters() {
    assert_eq!(sanitize_branch_name("feature/login"), "feature-login");
    assert_eq!(sanitize_branch_name("a\\b c:d*e?f\"g<h>i|j#k"), "a-b-c-d-e-f-g-h-i-j-k");
    assert_eq!(sanitize_branch_name("plain"), "plain");
    assert_eq!(sanitize_branch_name("dots.and_under-scores"), "dots.and_under-scores");
}

#[test]
fn sanitize_trims_dashes_at_both_ends() {
    assert_eq!(sanitize_branch_name("/feature/"), "feature");
    assert_eq!(sanitize_branch_name("--a--b--"), "a--b");
    assert_eq!(sanitize_branch_name("  x  "), "x");
    assert_eq!(sanitize_branch_name("///"), "");
    assert_eq!(sanitize_branch_name("-"), "");
    assert_eq!(sanitize_branch_name(""), "");
}

#[test]
fn sanitize_is_idempotent_on_examples() {
    for name in ["feature/login", "/a b/", "--x--", "###", "ünï/cødé", "a", ""] {
        let once = sanitize_branch_name(name);
        let twice = sanitize_branch_name(&once);
        assert_eq!(once, twice);
    }
}

#[test]
fn expand_home_replaces_a_leading_tilde() {
    assert_eq!(expand_home("~", Some("/home/u")), "/home/u");
    assert_eq!(expand_home("~/clones", Some("/home/u")), "/home/u/clones");
    assert_eq!(expand_home("~", None), "~");
    assert_eq!(expand_home("~/clones", None), "~/clones");
}

#[test]
fn expand_home_leaves_other_paths() {
    assert_eq!(expand_home("/abs/path", Some("/home/u")), "/abs/path");
    assert_eq!(expand_home("rel/~/x", Some("/home/u")), "rel/~/x");
    assert_eq!(expand_home("~user/x", Some("/home/u")), "~user/x");
    assert_eq!(expand_home("", Some("/home/u")), "");
}

#[test]
fn clones_dir_defaults_to_a_sibling_of_the_repository() {
    let store = ConfigStore::new();
    assert_eq!(clones_dir(&store, "/work/repo", None, None), Ok("/work/repo-clones".to_string()));
    assert_eq!(clones_dir(&store, "/repo", None, None), Ok("/repo-clones".to_string()));
}

#[test]
fn clones_dir_without_a_parent_is_an_error() {
    let store = ConfigStore::new();
    assert_eq!(clones_dir(&store, "/", None, None), Err(PathError::NoParent));
}

#[test]
fn clones_dir_follows_setting_then_environment() {
    let mut store = ConfigStore::new();
    assert_eq!(
        clones_dir(&store, "/work/repo", Some("/env/clones"), None),
        Ok("/env/clones".to_string())
    );
    store.insert(Source::Global, "spaces.clones.dir", "~/c");
    assert_eq!(
        clones_dir(&store, "/work/repo", Some("/env/clones"), Some("/home/u")),
        Ok("/home/u/c".to_string())
    );
    store.insert(Source::Local, "spaces.clones.dir", "rel/dir");
    assert_eq!(
        clones_dir(&store, "/work/repo", None, Some("/home/u")),
        Ok("/work/repo/rel/dir".to_string())
    );
}

#[test]
fn clones_prefix_defaults_to_empty() {
    let mut store = ConfigStore::new();
    assert_eq!(clones_prefix(&store, None), "");
    assert_eq!(clones_prefix(&store, Some("env-")), "env-");
    store.insert(Source::File, "spaces.clones.prefix", "file-");
    assert_eq!(clones_prefix(&store, Some("env-")), "file-");
}

#[test]
fn mirror_dir_defaults_below_the_home_directory() {
    let store = ConfigStore::new();
    assert_eq!(
        mirror_dir(&store, "/work/repo", None, Some("/home/u")),
        "/home/u/.cache/spaces/mirrors/repo"
    );
    assert_eq!(mirror_dir(&store, "/work/repo", None, None), "~/.cache/spaces/mirrors/repo");
    assert_eq!(mirror_dir(&store, "/", None, Some("/h")), "/h/.cache/spaces/mirrors/repo");
}

#[test]
fn mirror_dir_follows_setting_then_environment() {
    let mut store = ConfigStore::new();
    assert_eq!(mirror_dir(&store, "/work/repo", Some("m"), None), "/work/repo/m");
    store.insert(Source::System, "spaces.mirrors.dir", "/var/mirrors");
    assert_eq!(mirror_dir(&store, "/work/repo", Some("m"), None), "/var/mirrors");
}

#[test]
fn default_branch_configured_wins_unless_auto() {
    let mut store = ConfigStore::new();
    store.insert(Source::Local, "spaces.defaultBranch", "develop");
    assert_eq!(
        default_branch(&store, None, Some("refs/remotes/origin/main"), true, true),
        "develop"
    );
    let mut auto = ConfigStore::new();
    auto.insert(Source::Local, "spaces.defaultBranch", "auto");
    assert_eq!(default_branch(&auto, None, Some("refs/remotes/origin/trunk"), true, true), "trunk");
    assert_eq!(default_branch(&ConfigStore::new(), Some("envb"), None, true, true), "envb");
}

#[test]
fn default_branch_probes_remote_head_then_main_then_master() {
    let store = ConfigStore::new();
    assert_eq!(default_branch(&store, None, Some("refs/remotes/origin/trunk"), true, true), "trunk");
    assert_eq!(default_branch(&store, None, Some("refs/heads/odd"), false, true), "master");
    assert_eq!(default_branch(&store, None, None, true, true), "main");
    assert_eq!(default_branch(&store, None, None, true, false), "main");
    assert_eq!(default_branch(&store, None, None, false, true), "master");
    assert_eq!(default_branch(&store, None, None, false, false), "main");
}

#[test]
fn repo_root_reads_the_answer_of_the_tool() {
    assert_eq!(repo_root_args(), vec!["rev-parse".to_string(), "--show-toplevel".to_string()]);
    let ok = output(true, "/work/repo\n", "");
    match repo_root(Some(&ok)) {
        Ok(root) => assert_eq!(root, "/work/repo"),
        Err(_) => panic!("a successful call gives the root"),
    }
    let failed = output(false, "", "fatal: not a git repository\n");
    match repo_root(Some(&failed)) {
        Err(GitError::Failed(message)) => assert_eq!(message, "fatal: not a git repository"),
        _ => panic!("a failed call gives its error text"),
    }
    assert!(matches!(repo_root(None), Err(GitError::NotRun)));
}

#[test]
fn command_output_is_trimmed() {
    let ok = output(true, "  value \n", "");
    assert_eq!(git_stdout_opt(Some(&ok)), Some("value".to_string()));
    match git_stdout(Some(&ok)) {
        Ok(text) => assert_eq!(text, "value"),
        Err(_) => panic!("a successful call gives its output"),
    }
    assert!(git_check(Some(&ok)).is_ok());
}

#[test]
fn empty_or_failed_output_is_no_answer() {
    assert_eq!(git_stdout_opt(Some(&output(true, " \n", ""))), None);
    assert_eq!(git_stdout_opt(Some(&output(false, "value", "err"))), None);
    assert_eq!(git_stdout_opt(None), None);
    match git_stdout(Some(&output(true, "\n", ""))) {
        Ok(text) => assert_eq!(text, ""),
        Err(_) => panic!("an empty answer is still an answer"),
    }
}

#[test]
fn failed_calls_report_the_error_stream() {
    let failed = output(false, "out", "  boom \n");
    match git_check(Some(&failed)) {
        Err(e) => assert_eq!(e.message(), "boom"),
        Ok(()) => panic!("a failed call is an error"),
    }
    match git_check(None) {
        Err(e) => assert_eq!(e.message(), "failed to run git"),
        Ok(()) => panic!("a call that did not run is an error"),
    }
    assert!(matches!(git_stdout(None), Err(GitError::NotRun)));
}

#[test]
fn current_branch_prefers_the_first_answer() {
    assert_eq!(current_branch(Some("main"), Some("other")), Some("main".to_string()));
    assert_eq!(current_branch(None, Some("feature")), Some("feature".to_string()));
    assert_eq!(current_branch(None, Some("HEAD")), Some("(detached)".to_string()));
    assert_eq!(current_branch(Some("HEAD"), None), Some("(detached)".to_string()));
    assert_eq!(current_branch(None, None), None);
    assert_eq!(current_branch(Some(""), Some("x")), None);
}

#[test]
fn target_path_is_prefix_and_sanitized_name_below_clones_dir() {
    assert_eq!(target_path("feature/x", "/r", "/r-clones", "sp-"), "/r-clones/sp-feature-x");
    assert_eq!(target_path("plain", "/r", "/r-clones", ""), "/r-clones/plain");
    assert_eq!(target_path("1", "/r", "/r-clones", "sp-"), "/r");
}

#[test]
fn identifier_one_is_always_the_main_repository() {
    for is_dir in [true, false] {
        match resolve_target("1", "/work/repo", "/work/repo-clones", "sp-", is_dir, Some("main")) {
            Ok(target) => {
                assert!(target.is_main);
                assert_eq!(target.path, "/work/repo");
                assert_eq!(target.name, "main");
                assert_eq!(target.branch, "main");
            }
            Err(_) => panic!("the main repository always resolves"),
        }
    }
}

#[test]
fn main_repository_branch_fallbacks() {
    match resolve_target("1", "/r", "/c", "", false, Some("(detached)")) {
        Ok(target) => assert_eq!(target.branch, "(detached)"),
        Err(_) => panic!("the main repository always resolves"),
    }
    match resolve_target("1", "/r", "/c", "", false, None) {
        Ok(target) => assert_eq!(target.branch, "unknown"),
        Err(_) => panic!("the main repository always resolves"),
    }
}

#[test]
fn clone_resolves_when_its_directory_exists() {
    match resolve_target("feature/x", "/r", "/r-clones", "sp-", true, Some("feature/x")) {
        Ok(target) => {
            assert!(!target.is_main);
            assert_eq!(target.path, "/r-clones/sp-feature-x");
            assert_eq!(target.name, "feature/x");
            assert_eq!(target.branch, "feature/x");
        }
        Err(_) => panic!("an existing clone resolves"),
    }
    match resolve_target("x", "/r", "/r-clones", "", true, None) {
        Ok(target) => assert_eq!(target.branch, "(detached)"),
        Err(_) => panic!("an existing clone resolves"),
    }
}

#[test]
fn missing_clone_is_not_found_and_names_the_identifier() {
    match resolve_target("feature/x", "/r", "/r-clones", "sp-", false, None) {
        Err(TargetError::NotFound(id)) => assert_eq!(id, "feature/x"),
        Ok(_) => panic!("a missing clone does not resolve"),
    }
    let error = TargetError::NotFound("feature/x".to_string());
    assert_eq!(error.message(), "Target not found for space: feature/x");
}

#[test]
fn status_of_a_space() {
    assert_eq!(status(false, Some("main"), Some(" M file")), "missing");
    assert_eq!(status(true, None, None), "detached");
    assert_eq!(status(true, Some("(detached)"), Some(" M file")), "detached");
    assert_eq!(status(true, Some("main"), Some(" M file\n")), "dirty");
    assert_eq!(status(true, Some("main"), Some("  \n")), "ok");
    assert_eq!(status(true, Some("main"), None), "ok");
}

#[test]
fn space_name_strips_the_prefix() {
    assert_eq!(space_name("/r-clones/sp-feature-x", "sp-"), "feature-x");
    assert_eq!(space_name("/r-clones/feature-x", "sp-"), "feature-x");
    assert_eq!(space_name("/r-clones/feature-x/", ""), "feature-x");
    assert_eq!(space_name("/", "sp-"), "space");
    assert_eq!(space_name("/r-clones/sp-", "sp-"), "");
}

fn words(items: &[&str]) -> Vec<String> {
    items.iter().map(|s| s.to_string()).collect()
}

#[test]
fn questions_to_the_tools() {
    assert_eq!(origin_url_args(), words(&["remote", "get-url", "origin"]));
    assert_eq!(
        origin_head_args(),
        words(&["symbolic-ref", "--quiet", "refs/remotes/origin/HEAD"])
    );
    assert_eq!(show_current_args(), words(&["branch", "--show-current"]));
    assert_eq!(head_ref_args(), words(&["rev-parse", "--abbrev-ref", "HEAD"]));
    assert_eq!(changes_args(), words(&["status", "--porcelain"]));
    assert_eq!(platform_probe_args(), words(&["repo", "view"]));
    assert_eq!(
        merged_pr_args("feat"),
        words(&[
            "pr", "list", "--head", "feat", "--state", "merged", "--json", "state", "--jq",
            ".[0].state",
        ])
    );
}
