use spaces::copy::{
    copy_dir_recursive, copy_directories, copy_patterns, include_glob, is_unsafe_pattern,
    parse_pattern_file, unsafe_among, EntryKind, ExcludeSet, Expansion, FoundPath, TreeAction,
    WalkEntry,
};

fn strs(items: &[&str]) -> Vec<String> {
    items.iter().map(|s| s.to_string()).collect()
}

fn file(path: &str) -> FoundPath {
    FoundPath { path: path.to_string(), is_file: true }
}

fn found(paths: &[&str]) -> Expansion {
    Expansion::Found(paths.iter().map(|p| file(p)).collect())
}

fn entry(path: &str, name: &str, kind: EntryKind) -> WalkEntry {
    WalkEntry { path: path.to_string(), name: name.to_string(), kind }
}

/// What expanding `pattern` over the files `tree` below `/src` gives, one
/// directory level at a time as a glob on disk does.
fn expand(pattern: &str, tree: &[&str]) -> Expansion {
    let options = glob::MatchOptions {
        case_sensitive: true,
        require_literal_separator: true,
        require_literal_leading_dot: false,
    };
    let compiled = glob::Pattern::new(pattern).unwrap();
    let mut paths = Vec::new();
    for name in tree {
        if compiled.matches_with(name, options) {
            paths.push(file(&format!("/src/{name}")));
        }
    }
    Expansion::Found(paths)
}

fn rels(items: &[spaces::copy::CopyItem]) -> Vec<String> {
    items.iter().map(|item| item.rel.clone()).collect()
}

#[test]
fn unsafe_pattern_each_form() {
    assert!(is_unsafe_pattern("/etc/passwd"));
    assert!(is_unsafe_pattern("/"));
    assert!(is_unsafe_pattern(".."));
    assert!(is_unsafe_pattern("../x"));
    assert!(is_unsafe_pattern("a/../b"));
    assert!(is_unsafe_pattern("a/.."));
    assert!(is_unsafe_pattern("/.."));
}

#[test]
fn safe_patterns_are_not_flagged() {
    assert!(!is_unsafe_pattern(""));
    assert!(!is_unsafe_pattern("*.env"));
    assert!(!is_unsafe_pattern("a/b"));
    assert!(!is_unsafe_pattern("..a"));
    assert!(!is_unsafe_pattern("a.."));
    assert!(!is_unsafe_pattern("a/..b/c"));
    assert!(!is_unsafe_pattern("a/b../c"));
    assert!(!is_unsafe_pattern("./a"));
    assert!(!is_unsafe_pattern("..."));
}

#[test]
fn exclude_set_drops_unsafe_and_malformed_patterns() {
    let set = ExcludeSet::new(&strs(&["../*", "[", "*.log", "/abs/*"]));
    assert!(set.excludes("build.log"));
    assert!(!set.excludes("build.txt"));
    assert!(!set.excludes("../x"));
    assert!(!set.excludes("/abs/x"));
    assert!(!set.excludes("["));
}

#[test]
fn exclude_star_crosses_directories() {
    let set = ExcludeSet::new(&strs(&["secrets/*"]));
    assert!(set.excludes("secrets/a.yaml"));
    assert!(set.excludes("secrets/deep/a.yaml"));
    assert!(!set.excludes("public/a.yaml"));
}

#[test]
fn empty_exclude_set_excludes_nothing() {
    let set = ExcludeSet::new(&Vec::new());
    assert!(!set.excludes("a"));
    assert!(!set.excludes(""));
}

#[test]
fn pattern_file_skips_blank_lines_and_comments() {
    let content = "*.env\n\n  # comment\n#another\n  config/*.yaml  \r\n\t\nlast";
    assert_eq!(parse_pattern_file(Some(content)), strs(&["*.env", "config/*.yaml", "last"]));
}

#[test]
fn pattern_file_that_is_absent_or_empty_gives_nothing() {
    assert_eq!(parse_pattern_file(None), Vec::<String>::new());
    assert_eq!(parse_pattern_file(Some("")), Vec::<String>::new());
    assert_eq!(parse_pattern_file(Some("\n\n")), Vec::<String>::new());
}

#[test]
fn include_glob_roots_the_pattern_and_strips_dot_slash() {
    assert_eq!(include_glob("/src", "*.env"), Some("/src/*.env".to_string()));
    assert_eq!(include_glob("/src", "./conf/*.yaml"), Some("/src/conf/*.yaml".to_string()));
    assert_eq!(include_glob("/src/", "a"), Some("/src/a".to_string()));
}

#[test]
fn include_glob_refuses_unsafe_patterns() {
    assert_eq!(include_glob("/src", "../*"), None);
    assert_eq!(include_glob("/src", "/etc/*"), None);
    assert_eq!(include_glob("/src", "a/../../b"), None);
    assert_eq!(include_glob("/src", ".."), None);
}

#[test]
fn single_level_glob_copies_only_top_level_match() {
    let tree = ["a.env", "b.txt", "sub/c.env"];
    let includes = strs(&["*.env"]);
    let expansions = vec![expand("*.env", &tree)];
    let outcome = copy_patterns("/src", "/dst", &includes, &Vec::new(), &expansions, false);
    assert_eq!(outcome.count(), 1);
    assert_eq!(outcome.items.len(), 1);
    assert_eq!(outcome.items[0].rel, "a.env");
    assert_eq!(outcome.items[0].from, "/src/a.env");
    assert_eq!(outcome.items[0].to, "/dst/a.env");
    assert!(outcome.failed.is_none());
    assert!(!outcome.dry_run);
}

#[test]
fn exclude_one_file_of_an_included_directory() {
    let tree = ["secrets/a.yaml", "secrets/prod.yaml", "secrets/z.yaml", "secrets/note.txt"];
    let includes = strs(&["secrets/*.yaml"]);
    let excludes = strs(&["secrets/prod.yaml"]);
    let expansions = vec![expand("secrets/*.yaml", &tree)];
    let outcome = copy_patterns("/src", "/dst", &includes, &excludes, &expansions, false);
    assert_eq!(rels(&outcome.items), strs(&["secrets/a.yaml", "secrets/z.yaml"]));
    assert_eq!(outcome.count(), 2);
    assert_eq!(outcome.items[1].to, "/dst/secrets/z.yaml");
}

#[test]
fn exclude_of_the_whole_directory_leaves_nothing() {
    let tree = ["secrets/a.yaml", "secrets/prod.yaml"];
    let includes = strs(&["secrets/*.yaml"]);
    let excludes = strs(&["secrets/*", "secrets/prod.yaml"]);
    let expansions = vec![expand("secrets/*.yaml", &tree)];
    let outcome = copy_patterns("/src", "/dst", &includes, &excludes, &expansions, false);
    assert_eq!(outcome.count(), 0);
}

#[test]
fn dry_run_and_real_run_select_the_same() {
    let includes = strs(&["*.env", "conf/*"]);
    let excludes = strs(&["conf/skip*"]);
    let expansions = vec![
        found(&["/src/a.env", "/src/b.env"]),
        found(&["/src/conf/x", "/src/conf/skip.me", "/src/conf/y"]),
    ];
    let dry = copy_patterns("/src", "/dst", &includes, &excludes, &expansions, true);
    let real = copy_patterns("/src", "/dst", &includes, &excludes, &expansions, false);
    assert_eq!(dry.count(), 4);
    assert_eq!(real.count(), 4);
    assert_eq!(rels(&dry.items), rels(&real.items));
    assert_eq!(rels(&real.items), strs(&["a.env", "b.env", "conf/x", "conf/y"]));
    assert!(dry.dry_run);
    assert!(!real.dry_run);
}

#[test]
fn overlapping_patterns_copy_a_file_once() {
    let includes = strs(&["*.env", "a.*"]);
    let expansions = vec![found(&["/src/a.env", "/src/b.env"]), found(&["/src/a.env", "/src/a.txt"])];
    let outcome = copy_patterns("/src", "/dst", &includes, &Vec::new(), &expansions, false);
    assert_eq!(rels(&outcome.items), strs(&["a.env", "b.env", "a.txt"]));
}

#[test]
fn unsafe_include_is_passed_over_whatever_was_found_for_it() {
    let includes = strs(&["../*", "*.env"]);
    let with_loot = vec![found(&["/src/../secret", "/src/x"]), found(&["/src/a.env"])];
    let without = vec![found(&[]), found(&["/src/a.env"])];
    let a = copy_patterns("/src", "/dst", &includes, &Vec::new(), &with_loot, false);
    let b = copy_patterns("/src", "/dst", &includes, &Vec::new(), &without, false);
    assert_eq!(rels(&a.items), strs(&["a.env"]));
    assert_eq!(rels(&a.items), rels(&b.items));
    assert!(a.failed.is_none());
}

#[test]
fn unsafe_exclude_excludes_nothing() {
    let includes = strs(&["*"]);
    let excludes = strs(&["/src/*", "../*", "a/../*"]);
    let expansions = vec![found(&["/src/a", "/src/b"])];
    let outcome = copy_patterns("/src", "/dst", &includes, &excludes, &expansions, false);
    assert_eq!(rels(&outcome.items), strs(&["a", "b"]));
}

#[test]
fn paths_outside_the_source_root_are_not_copied() {
    let includes = strs(&["*"]);
    let expansions = vec![found(&["/elsewhere/a", "/src/b", "/srcx/c"])];
    let outcome = copy_patterns("/src", "/dst", &includes, &Vec::new(), &expansions, false);
    assert_eq!(rels(&outcome.items), strs(&["b"]));
}

#[test]
fn malformed_glob_ends_the_run_and_keeps_what_came_before() {
    let includes = strs(&["*.env", "a[", "*.txt"]);
    let expansions = vec![found(&["/src/a.env"]), Expansion::Invalid, found(&["/src/b.txt"])];
    let outcome = copy_patterns("/src", "/dst", &includes, &Vec::new(), &expansions, false);
    assert_eq!(rels(&outcome.items), strs(&["a.env"]));
    assert_eq!(outcome.failed, Some("a[".to_string()));
}

#[test]
fn no_includes_or_no_matches_is_no_error() {
    let none = copy_patterns("/src", "/dst", &Vec::new(), &Vec::new(), &Vec::new(), false);
    assert_eq!(none.count(), 0);
    assert!(none.failed.is_none());
    let includes = strs(&["*.env"]);
    let nothing = copy_patterns("/src", "/dst", &includes, &Vec::new(), &vec![found(&[])], false);
    assert_eq!(nothing.count(), 0);
    assert!(nothing.failed.is_none());
    let missing = copy_patterns("/src", "/dst", &includes, &Vec::new(), &Vec::new(), false);
    assert_eq!(missing.count(), 0);
}

#[test]
fn directories_match_by_name_and_are_excluded_by_relative_path() {
    let entries = vec![
        entry("/src/node_modules", "node_modules", EntryKind::Dir),
        entry("/src/node_modules/pkg", "pkg", EntryKind::Dir),
        entry("/src/web/node_modules", "node_modules", EntryKind::Dir),
        entry("/src/old/node_modules", "node_modules", EntryKind::Dir),
        entry("/src/node_modules.txt", "node_modules", EntryKind::File),
        entry("/src/web", "web", EntryKind::Dir),
    ];
    let outcome = copy_directories(
        "/src",
        "/dst",
        &strs(&["node_modules"]),
        &strs(&["old/*"]),
        &entries,
    );
    assert_eq!(outcome.count(), 2);
    assert_eq!(outcome.warnings(), Vec::<String>::new());
    let items = outcome.items;
    assert_eq!(rels(&items), strs(&["node_modules", "web/node_modules"]));
    assert_eq!(items[1].from, "/src/web/node_modules");
    assert_eq!(items[1].to, "/dst/web/node_modules");
}

#[test]
fn directories_matched_by_two_patterns_are_copied_twice() {
    let entries = vec![entry("/src/cache", "cache", EntryKind::Dir)];
    let outcome =
        copy_directories("/src", "/dst", &strs(&["cache", "c*"]), &Vec::new(), &entries);
    assert_eq!(rels(&outcome.items), strs(&["cache", "cache"]));
}

#[test]
fn directories_unsafe_or_malformed_patterns_copy_nothing() {
    let entries = vec![
        entry("/src/..", "..", EntryKind::Dir),
        entry("/src/a", "a", EntryKind::Dir),
    ];
    let outcome = copy_directories(
        "/src",
        "/dst",
        &strs(&["..", "[", "/a"]),
        &strs(&["../x", "ok"]),
        &entries,
    );
    assert_eq!(outcome.items.len(), 0);
    assert_eq!(outcome.skipped, strs(&["..", "/a"]));
    assert_eq!(outcome.ignored, strs(&["../x"]));
    assert_eq!(
        outcome.warnings(),
        strs(&[
            "Skipping unsafe exclude pattern: ../x",
            "Skipping unsafe pattern: ..",
            "Skipping unsafe pattern: /a",
        ])
    );
    let none = copy_directories("/src", "/dst", &Vec::new(), &strs(&["../x"]), &entries);
    assert_eq!(none.items.len(), 0);
    assert_eq!(none.warnings(), Vec::<String>::new());
}

#[test]
fn recursive_copy_skips_the_root_and_excluded_entries() {
    let entries = vec![
        entry("/src/d", "d", EntryKind::Dir),
        entry("/src/d/sub", "sub", EntryKind::Dir),
        entry("/src/d/sub/f.txt", "f.txt", EntryKind::File),
        entry("/src/d/skip.log", "skip.log", EntryKind::File),
        entry("/src/d/link", "link", EntryKind::Symlink),
        entry("/src/d/pipe", "pipe", EntryKind::Other),
        entry("/other/x", "x", EntryKind::File),
    ];
    let excludes = ExcludeSet::new(&strs(&["*.log"]));
    let actions = copy_dir_recursive("/src/d", "/dst/d", &excludes, &entries);
    assert_eq!(actions.len(), 3);
    match &actions[0] {
        TreeAction::MakeDir { to } => assert_eq!(to, "/dst/d/sub"),
        _ => panic!("a directory is made first"),
    }
    match &actions[1] {
        TreeAction::CopyFile { from, to } => {
            assert_eq!(from, "/src/d/sub/f.txt");
            assert_eq!(to, "/dst/d/sub/f.txt");
        }
        _ => panic!("then the file is copied"),
    }
    match &actions[2] {
        TreeAction::Link { from, to } => {
            assert_eq!(from, "/src/d/link");
            assert_eq!(to, "/dst/d/link");
        }
        _ => panic!("then the link is made"),
    }
}

#[test]
fn unsafe_patterns_are_reported_in_order() {
    assert_eq!(
        unsafe_among(&strs(&["*.env", "../x", "a/b", "/abs", "c/.."])),
        strs(&["../x", "/abs", "c/.."])
    );
    assert_eq!(unsafe_among(&strs(&["a", "b"])), Vec::<String>::new());
}

#[test]
fn report_lists_files_and_sums_up() {
    let includes = strs(&["*"]);
    let expansions = vec![found(&["/src/a", "/src/b"])];
    let real = copy_patterns("/src", "/dst", &includes, &Vec::new(), &expansions, false);
    assert_eq!(real.report(), strs(&["Copied a", "Copied b", "Copied 2 file(s)"]));
    let dry = copy_patterns("/src", "/dst", &includes, &Vec::new(), &expansions, true);
    assert_eq!(
        dry.report(),
        strs(&[
            "[dry-run] Would copy: a",
            "[dry-run] Would copy: b",
            "[dry-run] Would copy 2 file(s)",
        ])
    );
    let none = copy_patterns("/src", "/dst", &includes, &Vec::new(), &vec![found(&[])], true);
    assert_eq!(none.report(), Vec::<String>::new());
}

#[test]
fn only_regular_files_are_copied() {
    let includes = strs(&["*"]);
    let expansions = vec![Expansion::Found(vec![
        FoundPath { path: "/src/dir".to_string(), is_file: false },
        file("/src/a"),
        FoundPath { path: "/src/socket".to_string(), is_file: false },
    ])];
    let outcome = copy_patterns("/src", "/dst", &includes, &Vec::new(), &expansions, false);
    assert_eq!(rels(&outcome.items), strs(&["a"]));
}

#[test]
fn warnings_name_the_unsafe_patterns_that_were_left_aside() {
    let includes = strs(&["../up", "*.env", "a[", "/late"]);
    let excludes = strs(&["fine", "/abs", "x/.."]);
    let expansions = vec![found(&[]), found(&["/src/a.env"]), Expansion::Invalid, found(&[])];
    let outcome = copy_patterns("/src", "/dst", &includes, &excludes, &expansions, true);
    assert_eq!(outcome.skipped, strs(&["../up"]));
    assert_eq!(outcome.ignored, strs(&["/abs", "x/.."]));
    assert_eq!(
        outcome.warnings(),
        strs(&[
            "Skipping unsafe exclude pattern: /abs",
            "Skipping unsafe exclude pattern: x/..",
            "Skipping unsafe pattern: ../up",
        ])
    );
    let nothing = copy_patterns("/src", "/dst", &Vec::new(), &excludes, &Vec::new(), true);
    assert_eq!(nothing.warnings(), Vec::<String>::new());
}

#[test]
fn directory_report_lists_and_sums_up() {
    let entries = vec![
        entry("/src/a", "a", EntryKind::Dir),
        entry("/src/b/a", "a", EntryKind::Dir),
    ];
    let outcome = copy_directories("/src", "/dst", &strs(&["a"]), &Vec::new(), &entries);
    assert_eq!(
        outcome.report(),
        strs(&["Copied directory a", "Copied directory b/a", "Copied 2 directories"])
    );
    let none = copy_directories("/src", "/dst", &strs(&["zzz"]), &Vec::new(), &entries);
    assert_eq!(none.report(), Vec::<String>::new());
}
