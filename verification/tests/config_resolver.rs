use spaces::config::{
    add_args, cfg_add, cfg_default, cfg_get, cfg_get_all, cfg_list, cfg_set, cfg_unset,
    entry_values, file_get_all_args, file_list_args, get_all_args, label_of, list_args,
    load_listing, load_values, setting_keys,
    parse_listed_line, resolve_write_scope, scope_flag, set_args, spacesrc_path, unset_args,
    ConfigError, ConfigStore, Scope, Source,
};

fn strs(items: &[&str]) -> Vec<String> {
    items.iter().map(|s| s.to_string()).collect()
}

fn sample() -> ConfigStore {
    let mut store = ConfigStore::new();
    store.insert(Source::Local, "spaces.copy.include", "*.env");
    store.insert(Source::Local, "spaces.copy.include", "local.only");
    store.insert(Source::File, "spaces.copy.include", "shared/*");
    store.insert(Source::File, "spaces.copy.include", "*.env");
    store.insert(Source::Global, "spaces.copy.include", "global.cfg");
    store.insert(Source::Global, "spaces.copy.include", "shared/*");
    store.insert(Source::System, "spaces.copy.include", "*.env");
    store.insert(Source::System, "spaces.copy.include", "system.cfg");
    store.insert(Source::Global, "user.name", "someone");
    store
}

#[test]
fn scope_flags() {
    assert_eq!(scope_flag(Scope::Auto), "");
    assert_eq!(scope_flag(Scope::Local), "--local");
    assert_eq!(scope_flag(Scope::Global), "--global");
    assert_eq!(scope_flag(Scope::System), "--system");
}

#[test]
fn settings_file_lies_at_the_repository_root() {
    assert_eq!(spacesrc_path("/work/repo"), "/work/repo/.spacesrc");
}

#[test]
fn new_store_is_empty() {
    let store = ConfigStore::new();
    assert_eq!(store.local.len(), 0);
    assert_eq!(store.file.len(), 0);
    assert_eq!(store.global.len(), 0);
    assert_eq!(store.system.len(), 0);
    assert_eq!(cfg_get_all(&store, "spaces.x", Scope::Auto), Vec::<String>::new());
    assert_eq!(cfg_get(&store, "spaces.x", Scope::Local), None);
}

#[test]
fn insert_appends_to_one_source_only() {
    let mut store = ConfigStore::new();
    store.insert(Source::File, "k", "v1");
    store.insert(Source::File, "k", "v2");
    assert_eq!(store.file.len(), 2);
    assert_eq!(store.local.len(), 0);
    assert_eq!(store.entries(Source::File).len(), 2);
    assert_eq!(store.entries(Source::File)[1].value, "v2");
    assert_eq!(store.entries(Source::Global).len(), 0);
    assert_eq!(entry_values(&store.file, "k"), strs(&["v1", "v2"]));
    assert_eq!(entry_values(&store.file, "other"), Vec::<String>::new());
}

#[test]
fn single_scope_gives_its_values_as_they_stand() {
    let store = sample();
    assert_eq!(
        cfg_get_all(&store, "spaces.copy.include", Scope::Local),
        strs(&["*.env", "local.only"])
    );
    assert_eq!(
        cfg_get_all(&store, "spaces.copy.include", Scope::Global),
        strs(&["global.cfg", "shared/*"])
    );
    assert_eq!(
        cfg_get_all(&store, "spaces.copy.include", Scope::System),
        strs(&["*.env", "system.cfg"])
    );
    assert_eq!(cfg_get_all(&store, "missing", Scope::Local), Vec::<String>::new());
}

#[test]
fn single_scope_keeps_repeated_values() {
    let mut store = ConfigStore::new();
    store.insert(Source::Local, "k", "v");
    store.insert(Source::Local, "k", "v");
    assert_eq!(cfg_get_all(&store, "k", Scope::Local), strs(&["v", "v"]));
    assert_eq!(cfg_get_all(&store, "k", Scope::Auto), strs(&["v"]));
}

#[test]
fn auto_scope_merges_in_order_without_duplicates() {
    let store = sample();
    assert_eq!(
        cfg_get_all(&store, "spaces.copy.include", Scope::Auto),
        strs(&["*.env", "local.only", "shared/*", "global.cfg", "system.cfg"])
    );
}

#[test]
fn single_value_is_the_first() {
    let store = sample();
    assert_eq!(cfg_get(&store, "spaces.copy.include", Scope::Global), Some("global.cfg".into()));
    assert_eq!(cfg_get(&store, "spaces.copy.include", Scope::Auto), Some("*.env".into()));
    assert_eq!(cfg_get(&store, "user.name", Scope::Auto), Some("someone".into()));
    assert_eq!(cfg_get(&store, "user.name", Scope::Local), None);
}

#[test]
fn default_falls_back_to_the_literal_when_everything_is_empty() {
    let store = ConfigStore::new();
    assert_eq!(cfg_default(&store, "spaces.defaultBranch", "", None, "auto", None), "auto");
    assert_eq!(cfg_default(&store, "spaces.any", "SPACES_ANY", None, "fb", None), "fb");
    assert_eq!(cfg_default(&store, "spaces.any", "SPACES_ANY", Some(""), "fb", Some("k")), "fb");
    assert_eq!(cfg_default(&store, "spaces.any", "SPACES_ANY", None, "", None), "");
}

#[test]
fn default_precedence_local_file_auto_env_fallback() {
    let key = "spaces.clones.dir";
    let mut store = ConfigStore::new();
    assert_eq!(cfg_default(&store, key, "E", Some("from-env"), "fb", None), "from-env");
    store.insert(Source::System, key, "from-system");
    assert_eq!(cfg_default(&store, key, "E", Some("from-env"), "fb", None), "from-system");
    store.insert(Source::Global, key, "from-global");
    assert_eq!(cfg_default(&store, key, "E", Some("from-env"), "fb", None), "from-global");
    store.insert(Source::File, key, "from-file");
    assert_eq!(cfg_default(&store, key, "E", Some("from-env"), "fb", None), "from-file");
    store.insert(Source::Local, key, "from-local");
    assert_eq!(cfg_default(&store, key, "E", Some("from-env"), "fb", None), "from-local");
}

#[test]
fn default_passes_over_empty_values() {
    let key = "spaces.clones.prefix";
    let mut store = ConfigStore::new();
    store.insert(Source::Local, key, "");
    store.insert(Source::File, key, "");
    assert_eq!(cfg_default(&store, key, "E", Some("env"), "fb", None), "env");
    store.insert(Source::Global, key, "g");
    // under Auto the first value is the empty one of Local, so Auto gives nothing
    assert_eq!(cfg_default(&store, key, "E", Some("env"), "fb", None), "env");
}

#[test]
fn default_asks_the_file_under_its_own_key() {
    let mut store = ConfigStore::new();
    store.insert(Source::File, "clones.dir", "file-alt");
    store.insert(Source::Global, "spaces.clones.dir", "global");
    assert_eq!(
        cfg_default(&store, "spaces.clones.dir", "", None, "fb", Some("clones.dir")),
        "file-alt"
    );
    assert_eq!(cfg_default(&store, "spaces.clones.dir", "", None, "fb", None), "global");
}

#[test]
fn default_ignores_the_environment_when_no_variable_is_named() {
    let store = ConfigStore::new();
    assert_eq!(cfg_default(&store, "k", "", Some("value"), "fb", None), "fb");
    assert_eq!(cfg_default(&store, "k", "NAME", Some("value"), "fb", None), "value");
}

#[test]
fn write_scope_resolution() {
    assert_eq!(resolve_write_scope(Scope::Auto), Ok(Source::Local));
    assert_eq!(resolve_write_scope(Scope::Local), Ok(Source::Local));
    assert_eq!(resolve_write_scope(Scope::Global), Ok(Source::Global));
    assert_eq!(resolve_write_scope(Scope::System), Err(ConfigError::SystemReadOnly));
}

#[test]
fn set_under_auto_writes_local_and_unset_empties_it() {
    let mut store = sample();
    assert_eq!(cfg_set(&mut store, "spaces.clones.prefix", "sp-", Scope::Auto), Ok(()));
    assert_eq!(cfg_get_all(&store, "spaces.clones.prefix", Scope::Local), strs(&["sp-"]));
    assert_eq!(cfg_get_all(&store, "spaces.clones.prefix", Scope::Global), Vec::<String>::new());
    assert_eq!(cfg_unset(&mut store, "spaces.clones.prefix", Scope::Auto), Ok(()));
    assert_eq!(cfg_get_all(&store, "spaces.clones.prefix", Scope::Local), Vec::<String>::new());
    // other keys stay
    assert_eq!(
        cfg_get_all(&store, "spaces.copy.include", Scope::Local),
        strs(&["*.env", "local.only"])
    );
}

#[test]
fn set_replaces_all_values_of_the_key() {
    let mut store = sample();
    assert_eq!(cfg_set(&mut store, "spaces.copy.include", "only", Scope::Local), Ok(()));
    assert_eq!(cfg_get_all(&store, "spaces.copy.include", Scope::Local), strs(&["only"]));
    assert_eq!(cfg_set(&mut store, "spaces.copy.include", "g", Scope::Global), Ok(()));
    assert_eq!(cfg_get_all(&store, "spaces.copy.include", Scope::Global), strs(&["g"]));
    assert_eq!(cfg_get_all(&store, "user.name", Scope::Global), strs(&["someone"]));
}

#[test]
fn add_appends_a_value() {
    let mut store = sample();
    assert_eq!(cfg_add(&mut store, "spaces.copy.include", "more", Scope::Auto), Ok(()));
    assert_eq!(
        cfg_get_all(&store, "spaces.copy.include", Scope::Local),
        strs(&["*.env", "local.only", "more"])
    );
    assert_eq!(cfg_add(&mut store, "spaces.copy.include", "gmore", Scope::Global), Ok(()));
    assert_eq!(
        cfg_get_all(&store, "spaces.copy.include", Scope::Global),
        strs(&["global.cfg", "shared/*", "gmore"])
    );
}

#[test]
fn unset_of_a_missing_key_is_no_error() {
    let mut store = ConfigStore::new();
    assert_eq!(cfg_unset(&mut store, "spaces.none", Scope::Local), Ok(()));
    assert_eq!(cfg_unset(&mut store, "spaces.none", Scope::Global), Ok(()));
    assert_eq!(store.local.len(), 0);
}

#[test]
fn writes_under_system_are_refused_and_change_nothing() {
    let mut store = sample();
    assert_eq!(cfg_set(&mut store, "k", "v", Scope::System), Err(ConfigError::SystemReadOnly));
    assert_eq!(cfg_add(&mut store, "k", "v", Scope::System), Err(ConfigError::SystemReadOnly));
    assert_eq!(
        cfg_unset(&mut store, "spaces.copy.include", Scope::System),
        Err(ConfigError::SystemReadOnly)
    );
    assert_eq!(store.system.len(), 2);
    assert_eq!(store.local.len(), 2);
    assert_eq!(
        cfg_get_all(&store, "spaces.copy.include", Scope::System),
        strs(&["*.env", "system.cfg"])
    );
}

#[test]
fn source_labels() {
    assert_eq!(label_of(Source::Local), "local");
    assert_eq!(label_of(Source::File), ".spacesrc");
    assert_eq!(label_of(Source::Global), "global");
    assert_eq!(label_of(Source::System), "system");
}

#[test]
fn list_of_one_scope_shows_only_this_tools_keys() {
    let store = sample();
    assert_eq!(
        cfg_list(&store, Scope::Global),
        strs(&["spaces.copy.include=global.cfg", "spaces.copy.include=shared/*"])
    );
    assert_eq!(
        cfg_list(&store, Scope::Local),
        strs(&["spaces.copy.include=*.env", "spaces.copy.include=local.only"])
    );
    assert_eq!(cfg_list(&ConfigStore::new(), Scope::System), Vec::<String>::new());
}

#[test]
fn list_under_auto_labels_lines_and_shows_each_once() {
    let store = sample();
    assert_eq!(
        cfg_list(&store, Scope::Auto),
        strs(&[
            "spaces.copy.include=*.env [local]",
            "spaces.copy.include=local.only [local]",
            "spaces.copy.include=shared/* [.spacesrc]",
            "spaces.copy.include=global.cfg [global]",
            "spaces.copy.include=system.cfg [system]",
        ])
    );
}

#[test]
fn command_lines_for_reading() {
    assert_eq!(get_all_args(Scope::Local, "k"), strs(&["config", "--local", "--get-all", "k"]));
    assert_eq!(get_all_args(Scope::Auto, "k"), strs(&["config", "--get-all", "k"]));
    assert_eq!(get_all_args(Scope::Global, "k"), strs(&["config", "--global", "--get-all", "k"]));
    assert_eq!(get_all_args(Scope::System, "k"), strs(&["config", "--system", "--get-all", "k"]));
    assert_eq!(
        file_get_all_args("/r/.spacesrc", "k"),
        strs(&["config", "-f", "/r/.spacesrc", "--get-all", "k"])
    );
    assert_eq!(
        list_args(Scope::Local),
        strs(&["config", "--local", "--get-regexp", "^spaces\\."])
    );
    assert_eq!(list_args(Scope::Auto), strs(&["config", "--get-regexp", "^spaces\\."]));
    assert_eq!(
        file_list_args("/r/.spacesrc"),
        strs(&["config", "-f", "/r/.spacesrc", "--get-regexp", "^spaces\\."])
    );
}

#[test]
fn command_lines_for_writing() {
    assert_eq!(set_args(Scope::Local, "k", "v"), strs(&["config", "--local", "k", "v"]));
    assert_eq!(set_args(Scope::Auto, "k", "v"), strs(&["config", "k", "v"]));
    assert_eq!(add_args(Scope::Global, "k", "v"), strs(&["config", "--global", "--add", "k", "v"]));
    assert_eq!(unset_args(Scope::Local, "k"), strs(&["config", "--local", "--unset-all", "k"]));
}

#[test]
fn listed_line_splits_at_the_first_blank() {
    let entry = parse_listed_line("spaces.hook.postcreate npm install --silent");
    assert_eq!(entry.key, "spaces.hook.postcreate");
    assert_eq!(entry.value, "npm install --silent");
    let bare = parse_listed_line("spaces.flag");
    assert_eq!(bare.key, "spaces.flag");
    assert_eq!(bare.value, "");
    let empty_value = parse_listed_line("spaces.flag ");
    assert_eq!(empty_value.key, "spaces.flag");
    assert_eq!(empty_value.value, "");
}

#[test]
fn answers_of_the_tool_are_loaded_line_by_line() {
    let mut store = ConfigStore::new();
    load_values(&mut store, Source::Global, "spaces.copy.include", Some("*.env\nconf/*"));
    load_values(&mut store, Source::Global, "spaces.copy.exclude", None);
    load_values(&mut store, Source::File, "spaces.copy.include", Some("one"));
    assert_eq!(
        cfg_get_all(&store, "spaces.copy.include", Scope::Global),
        strs(&["*.env", "conf/*"])
    );
    assert_eq!(cfg_get_all(&store, "spaces.copy.exclude", Scope::Global), Vec::<String>::new());
    assert_eq!(store.file.len(), 1);
    let mut listed = ConfigStore::new();
    load_listing(
        &mut listed,
        Source::Local,
        Some("spaces.clones.prefix sp-\nspaces.hook.postcreate make all\nspaces.flag"),
    );
    load_listing(&mut listed, Source::System, None);
    assert_eq!(
        cfg_list(&listed, Scope::Local),
        strs(&["spaces.clones.prefix=sp-", "spaces.hook.postcreate=make all", "spaces.flag="])
    );
    assert_eq!(listed.system.len(), 0);
}

#[test]
fn keys_of_the_settings() {
    assert_eq!(
        setting_keys(),
        strs(&[
            "spaces.clones.dir",
            "spaces.clones.prefix",
            "spaces.mirrors.dir",
            "spaces.defaultBranch",
            "spaces.copy.include",
            "spaces.copy.exclude",
            "spaces.copy.includeDirs",
            "spaces.copy.excludeDirs",
        ])
    );
}
