//! The configuration resolver: settings held in four sources, read one scope at
//! a time or merged, with a fixed precedence.

use crate::fspath::{joined_path, path_join};
use crate::order::{
    deduped, first_at, holds, lemma_deduped_first_seen_order, lemma_deduped_no_duplicates,
    lemma_merged_concat, merge_into, merged,
};
use crate::text::{
    chars_of, find_char, first_index_of, has_prefix, join_text, lines, lines_of, one, same_text,
    slice_of, starts_with, with,
};
use vstd::prelude::*;

verus! {

/// The scope of a configuration request. `Auto` is the merged view of all
/// sources; it can be read, and a write under it goes to `Local`.
#[derive(Clone, Copy, Debug, PartialEq, Eq, Structural)]
pub enum Scope {
    Auto,
    Local,
    Global,
    System,
}

/// A place that holds settings: the untracked settings of one clone, the settings
/// file at the root of the repository, those of the user, and those of the machine.
#[derive(Clone, Copy, Debug, PartialEq, Eq, Structural)]
pub enum Source {
    Local,
    File,
    Global,
    System,
}

/// The command-line flag that selects `scope`; empty for `Auto`.
pub open spec fn scope_flag_text(scope: Scope) -> Seq<char> {
    match scope {
        Scope::Auto => ""@,
        Scope::Local => "--local"@,
        Scope::Global => "--global"@,
        Scope::System => "--system"@,
    }
}

/// The command-line flag that selects `scope`; empty for `Auto`.
pub fn scope_flag(scope: Scope) -> (flag: &'static str)
    ensures
        flag@ == scope_flag_text(scope),
{
    match scope {
        Scope::Auto => "",
        Scope::Local => "--local",
        Scope::Global => "--global",
        Scope::System => "--system",
    }
}

/// The path of the settings file of the repository at `repo_root`.
pub fn spacesrc_path(repo_root: &str) -> (path: String)
    ensures
        path@ == joined_path(repo_root@, ".spacesrc"@),
{
    path_join(repo_root, ".spacesrc")
}

/// The keys of the settings that decide where things lie and what is copied.
pub open spec fn setting_keys_of() -> Seq<Seq<char>> {
    seq![
        "spaces.clones.dir"@,
        "spaces.clones.prefix"@,
        "spaces.mirrors.dir"@,
        "spaces.defaultBranch"@,
        "spaces.copy.include"@,
        "spaces.copy.exclude"@,
        "spaces.copy.includeDirs"@,
        "spaces.copy.excludeDirs"@,
    ]
}

/// The keys of the settings that decide where things lie and what is copied:
/// those that a store has to hold before a command can be planned. The hooks
/// of a phase have a key of their own.
pub fn setting_keys() -> (keys: Vec<String>)
    ensures
        keys.deep_view() == setting_keys_of(),
{
    let keys = with(
        with(
            with(
                with(
                    with(
                        with(
                            with(one("spaces.clones.dir"), "spaces.clones.prefix"),
                            "spaces.mirrors.dir",
                        ),
                        "spaces.defaultBranch",
                    ),
                    "spaces.copy.include",
                ),
                "spaces.copy.exclude",
            ),
            "spaces.copy.includeDirs",
        ),
        "spaces.copy.excludeDirs",
    );
    assert(keys.deep_view() =~= setting_keys_of());
    keys
}

/// One setting: a key and one value of it.
#[derive(Debug)]
pub struct ConfigEntry {
    pub key: String,
    pub value: String,
}

/// A `ConfigEntry` as plain sequences of characters.
pub ghost struct EntryView {
    pub key: Seq<char>,
    pub value: Seq<char>,
}

impl View for ConfigEntry {
    type V = EntryView;

    open spec fn view(&self) -> EntryView {
        EntryView { key: self.key@, value: self.value@ }
    }
}

impl DeepView for ConfigEntry {
    type V = EntryView;

    open spec fn deep_view(&self) -> EntryView {
        self@
    }
}

/// The settings of the four sources. Each source holds its entries in the order
/// in which they were written; a key may have several values in one source.
#[derive(Debug)]
pub struct ConfigStore {
    pub local: Vec<ConfigEntry>,
    pub file: Vec<ConfigEntry>,
    pub global: Vec<ConfigEntry>,
    pub system: Vec<ConfigEntry>,
}

/// A `ConfigStore` as plain values.
pub ghost struct StoreView {
    pub local: Seq<EntryView>,
    pub file: Seq<EntryView>,
    pub global: Seq<EntryView>,
    pub system: Seq<EntryView>,
}

impl View for ConfigStore {
    type V = StoreView;

    open spec fn view(&self) -> StoreView {
        StoreView {
            local: self.local.deep_view(),
            file: self.file.deep_view(),
            global: self.global.deep_view(),
            system: self.system.deep_view(),
        }
    }
}

impl StoreView {
    /// The entries of one source.
    pub open spec fn entries(self, source: Source) -> Seq<EntryView> {
        match source {
            Source::Local => self.local,
            Source::File => self.file,
            Source::Global => self.global,
            Source::System => self.system,
        }
    }

    /// The store with the entries of one source replaced.
    pub open spec fn with_entries(self, source: Source, entries: Seq<EntryView>) -> StoreView {
        match source {
            Source::Local => StoreView { local: entries, ..self },
            Source::File => StoreView { file: entries, ..self },
            Source::Global => StoreView { global: entries, ..self },
            Source::System => StoreView { system: entries, ..self },
        }
    }
}

/// The values that `entries` hold for `key`, in order.
pub open spec fn values_of(entries: Seq<EntryView>, key: Seq<char>) -> Seq<Seq<char>>
    decreases entries.len(),
{
    if entries.len() == 0 {
        Seq::empty()
    } else {
        let head = values_of(entries.drop_last(), key);
        if entries.last().key == key {
            head.push(entries.last().value)
        } else {
            head
        }
    }
}

/// The values of `key` under `scope`. A single source gives its values as they
/// stand. `Auto` gives those of `Local`, then of the settings file, then of
/// `Global`, then of `System`, each value once, where it came first.
pub open spec fn all_values(store: StoreView, key: Seq<char>, scope: Scope) -> Seq<Seq<char>> {
    match scope {
        Scope::Local => values_of(store.local, key),
        Scope::Global => values_of(store.global, key),
        Scope::System => values_of(store.system, key),
        Scope::Auto => deduped(
            values_of(store.local, key) + values_of(store.file, key) + values_of(store.global, key)
                + values_of(store.system, key),
        ),
    }
}

/// The single value of a key among `values`: the first one.
pub open spec fn single(values: Seq<Seq<char>>) -> Option<Seq<char>> {
    if values.len() > 0 {
        Some(values[0])
    } else {
        None
    }
}

/// A candidate decides a default where it is there and not empty.
pub open spec fn decides(candidate: Option<Seq<char>>) -> bool {
    candidate matches Some(v) && v.len() > 0
}

/// The key under which the settings file is asked: `file_key` where one is
/// given, else `key`.
pub open spec fn key_in_file(key: Seq<char>, file_key: Option<Seq<char>>) -> Seq<char> {
    match file_key {
        Some(k) => k,
        None => key,
    }
}

/// The value that the environment offers: none where no variable is named.
pub open spec fn env_candidate(env_name: Seq<char>, env_value: Option<Seq<char>>) -> Option<
    Seq<char>,
> {
    if env_name.len() > 0 {
        env_value
    } else {
        None
    }
}

/// The default for `key`: the first of these that is not empty. The single
/// value under `Local`; the single value in the settings file; the single value
/// under `Auto`; the value of the environment variable; `fallback`, which is
/// taken as it is.
pub open spec fn default_value(
    store: StoreView,
    key: Seq<char>,
    env_name: Seq<char>,
    env_value: Option<Seq<char>>,
    fallback: Seq<char>,
    file_key: Option<Seq<char>>,
) -> Seq<char> {
    let local = single(all_values(store, key, Scope::Local));
    let file = single(values_of(store.file, key_in_file(key, file_key)));
    let auto = single(all_values(store, key, Scope::Auto));
    let env = env_candidate(env_name, env_value);
    if decides(local) {
        local->0
    } else if decides(file) {
        file->0
    } else if decides(auto) {
        auto->0
    } else if decides(env) {
        env->0
    } else {
        fallback
    }
}

impl ConfigStore {
    /// A store without settings.
    pub fn new() -> (store: ConfigStore)
        ensures
            store@.local.len() == 0,
            store@.file.len() == 0,
            store@.global.len() == 0,
            store@.system.len() == 0,
    {
        ConfigStore { local: Vec::new(), file: Vec::new(), global: Vec::new(), system: Vec::new() }
    }

    /// Records that `source` holds `value` for `key`, after what it holds already.
    pub fn insert(&mut self, source: Source, key: &str, value: &str)
        ensures
            final(self)@ == old(self)@.with_entries(
                source,
                old(self)@.entries(source).push(EntryView { key: key@, value: value@ }),
            ),
    {
        let entry = ConfigEntry { key: key.to_owned(), value: value.to_owned() };
        let ghost ev = entry@;
        match source {
            Source::Local => {
                let ghost before = self.local.deep_view();
                self.local.push(entry);
                assert(self.local.deep_view() =~= before.push(ev));
            },
            Source::File => {
                let ghost before = self.file.deep_view();
                self.file.push(entry);
                assert(self.file.deep_view() =~= before.push(ev));
            },
            Source::Global => {
                let ghost before = self.global.deep_view();
                self.global.push(entry);
                assert(self.global.deep_view() =~= before.push(ev));
            },
            Source::System => {
                let ghost before = self.system.deep_view();
                self.system.push(entry);
                assert(self.system.deep_view() =~= before.push(ev));
            },
        }
    }

    /// The entries of one source.
    pub fn entries(&self, source: Source) -> (entries: &Vec<ConfigEntry>)
        ensures
            entries.deep_view() == self@.entries(source),
    {
        match source {
            Source::Local => &self.local,
            Source::File => &self.file,
            Source::Global => &self.global,
            Source::System => &self.system,
        }
    }
}

/// The values that `entries` hold for `key`, in order.
pub fn entry_values(entries: &Vec<ConfigEntry>, key: &str) -> (values: Vec<String>)
    ensures
        values.deep_view() == values_of(entries.deep_view(), key@),
{
    let mut values: Vec<String> = Vec::new();
    let mut i: usize = 0;
    assert(entries.deep_view().take(0) =~= Seq::empty());
    assert(values.deep_view() =~= Seq::empty());
    while i < entries.len()
        invariant
            i <= entries.len(),
            values.deep_view() == values_of(entries.deep_view().take(i as int), key@),
        decreases entries.len() - i,
    {
        let ghost before = values.deep_view();
        let ghost upto = entries.deep_view().take(i as int + 1);
        assert(upto.drop_last() =~= entries.deep_view().take(i as int));
        assert(upto.last() == entries[i as int]@);
        if same_text(entries[i].key.as_str(), key) {
            values.push(entries[i].value.clone());
            assert(values.deep_view() =~= before.push(entries[i as int].value@));
        }
        i = i + 1;
    }
    assert(entries.deep_view().take(entries.len() as int) =~= entries.deep_view());
    values
}

/// The values of `key` under `scope`, in order. A key that a scope does not hold
/// has no values there; that is no error.
pub fn cfg_get_all(store: &ConfigStore, key: &str, scope: Scope) -> (values: Vec<String>)
    ensures
        values.deep_view() == all_values(store@, key@, scope),
        scope == Scope::Auto ==> values.deep_view().no_duplicates(),
{
    match scope {
        Scope::Local => entry_values(&store.local, key),
        Scope::Global => entry_values(&store.global, key),
        Scope::System => entry_values(&store.system, key),
        Scope::Auto => {
            let mut out: Vec<String> = Vec::new();
            assert(out.deep_view() =~= Seq::empty());
            let local = entry_values(&store.local, key);
            let file = entry_values(&store.file, key);
            let global = entry_values(&store.global, key);
            let system = entry_values(&store.system, key);
            merge_into(&mut out, &local);
            merge_into(&mut out, &file);
            merge_into(&mut out, &global);
            merge_into(&mut out, &system);
            proof {
                let e = Seq::<Seq<char>>::empty();
                let (l, f, g, s) = (
                    local.deep_view(),
                    file.deep_view(),
                    global.deep_view(),
                    system.deep_view(),
                );
                lemma_merged_concat(e, l, f);
                lemma_merged_concat(e, l + f, g);
                lemma_merged_concat(e, l + f + g, s);
                lemma_deduped_no_duplicates(l + f + g + s);
            }
            out
        },
    }
}

/// The single value of `key` under `scope`: the first of its values, or `None`
/// where it has none.
pub fn cfg_get(store: &ConfigStore, key: &str, scope: Scope) -> (value: Option<String>)
    ensures
        value.deep_view() == single(all_values(store@, key@, scope)),
{
    let values = cfg_get_all(store, key, scope);
    if values.len() > 0 {
        assert(values.deep_view()[0] == values[0]@);
        Some(values[0].clone())
    } else {
        None
    }
}

/// The default for `key`.
///
/// The first of these that is not empty is returned: the single value under
/// `Local`; the single value in the settings file, asked under `file_key` where
/// one is given; the single value under `Auto`; `env_value`, the value of the
/// environment variable `env_name`, where a variable is named; and at last
/// `fallback` as it is. So there is always a value, and it is not empty where
/// `fallback` is not.
pub fn cfg_default(
    store: &ConfigStore,
    key: &str,
    env_name: &str,
    env_value: Option<&str>,
    fallback: &str,
    file_key: Option<&str>,
) -> (value: String)
    ensures
        value@ == default_value(
            store@,
            key@,
            env_name@,
            env_value.deep_view(),
            fallback@,
            file_key.deep_view(),
        ),
        fallback@.len() > 0 ==> value@.len() > 0,
{
    match cfg_get(store, key, Scope::Local) {
        Some(v) => {
            if !v.as_str().is_empty() {
                return v;
            }
        },
        None => {},
    }
    let asked = match file_key {
        Some(k) => k,
        None => key,
    };
    let in_file = entry_values(&store.file, asked);
    if in_file.len() > 0 {
        assert(in_file.deep_view()[0] == in_file[0]@);
        if !in_file[0].as_str().is_empty() {
            return in_file[0].clone();
        }
    }
    match cfg_get(store, key, Scope::Auto) {
        Some(v) => {
            if !v.as_str().is_empty() {
                return v;
            }
        },
        None => {},
    }
    if !env_name.is_empty() {
        match env_value {
            Some(v) => {
                if !v.is_empty() {
                    return v.to_owned();
                }
            },
            None => {},
        }
    }
    fallback.to_owned()
}

/// A default is never empty where the fallback is not, whatever the sources and
/// the environment hold.
pub proof fn lemma_default_never_empty(
    store: StoreView,
    key: Seq<char>,
    env_name: Seq<char>,
    env_value: Option<Seq<char>>,
    fallback: Seq<char>,
    file_key: Option<Seq<char>>,
)
    requires
        fallback.len() > 0,
    ensures
        default_value(store, key, env_name, env_value, fallback, file_key).len() > 0,
{
}

/// With every source and the environment empty, the default is the fallback.
pub proof fn lemma_default_of_empty_store(
    store: StoreView,
    key: Seq<char>,
    env_name: Seq<char>,
    fallback: Seq<char>,
    file_key: Option<Seq<char>>,
)
    requires
        store.local.len() == 0,
        store.file.len() == 0,
        store.global.len() == 0,
        store.system.len() == 0,
    ensures
        default_value(store, key, env_name, None, fallback, file_key) == fallback,
{
    let e = Seq::<Seq<char>>::empty();
    assert(e + e =~= e);
}

/// The values of a key under `Auto` hold no value twice, and come in the order
/// in which the sources first gave them: `Local`, the settings file, `Global`,
/// `System`.
pub proof fn lemma_auto_values_first_seen(store: StoreView, key: Seq<char>, i: int, j: int) -> (at: (
    int,
    int,
))
    requires
        0 <= i < j < all_values(store, key, Scope::Auto).len(),
    ensures
        all_values(store, key, Scope::Auto).no_duplicates(),
        first_at(
            values_of(store.local, key) + values_of(store.file, key) + values_of(
                store.global,
                key,
            ) + values_of(store.system, key),
            all_values(store, key, Scope::Auto)[i],
            at.0,
        ),
        first_at(
            values_of(store.local, key) + values_of(store.file, key) + values_of(
                store.global,
                key,
            ) + values_of(store.system, key),
            all_values(store, key, Scope::Auto)[j],
            at.1,
        ),
        at.0 < at.1,
{
    let all = values_of(store.local, key) + values_of(store.file, key) + values_of(
        store.global,
        key,
    ) + values_of(store.system, key);
    lemma_deduped_no_duplicates(all);
    lemma_deduped_first_seen_order(all, i, j)
}

/// Why a configuration request was refused.
#[derive(Clone, Copy, Debug, PartialEq, Eq, Structural)]
pub enum ConfigError {
    /// The settings of the machine are read-only here.
    SystemReadOnly,
}

/// The source that a write under `scope` goes to: `Local` for `Auto`, and none
/// for `System`, which cannot be written.
pub open spec fn write_target(scope: Scope) -> Option<Source> {
    match scope {
        Scope::Auto => Some(Source::Local),
        Scope::Local => Some(Source::Local),
        Scope::Global => Some(Source::Global),
        Scope::System => None,
    }
}

/// The source that a write under `scope` goes to, or the reason why there is none.
pub fn resolve_write_scope(scope: Scope) -> (target: Result<Source, ConfigError>)
    ensures
        match target {
            Ok(source) => write_target(scope) == Some(source),
            Err(e) => write_target(scope) is None && e == ConfigError::SystemReadOnly,
        },
{
    match scope {
        Scope::Auto => Ok(Source::Local),
        Scope::Local => Ok(Source::Local),
        Scope::Global => Ok(Source::Global),
        Scope::System => Err(ConfigError::SystemReadOnly),
    }
}

/// `entries` without those of `key`.
pub open spec fn without_key(entries: Seq<EntryView>, key: Seq<char>) -> Seq<EntryView>
    decreases entries.len(),
{
    if entries.len() == 0 {
        Seq::empty()
    } else {
        let head = without_key(entries.drop_last(), key);
        if entries.last().key == key {
            head
        } else {
            head.push(entries.last())
        }
    }
}

/// The store after `key` is set to `value` under `scope`: the source written to
/// holds `value` as the only value of `key`. Nothing changes under `System`.
pub open spec fn after_set(store: StoreView, key: Seq<char>, value: Seq<char>, scope: Scope) -> StoreView {
    match write_target(scope) {
        Some(source) => store.with_entries(
            source,
            without_key(store.entries(source), key).push(EntryView { key, value }),
        ),
        None => store,
    }
}

/// The store after `value` is added to `key` under `scope`: the source written
/// to holds it after the values that `key` had. Nothing changes under `System`.
pub open spec fn after_add(store: StoreView, key: Seq<char>, value: Seq<char>, scope: Scope) -> StoreView {
    match write_target(scope) {
        Some(source) => store.with_entries(
            source,
            store.entries(source).push(EntryView { key, value }),
        ),
        None => store,
    }
}

/// The store after `key` is unset under `scope`: the source written to holds no
/// value of `key`. Nothing changes under `System`.
pub open spec fn after_unset(store: StoreView, key: Seq<char>, scope: Scope) -> StoreView {
    match write_target(scope) {
        Some(source) => store.with_entries(source, without_key(store.entries(source), key)),
        None => store,
    }
}

/// Removes the entries of `key` from `entries`.
fn remove_key(entries: &mut Vec<ConfigEntry>, key: &str)
    ensures
        final(entries).deep_view() == without_key(old(entries).deep_view(), key@),
{
    let mut kept: Vec<ConfigEntry> = Vec::new();
    let mut i: usize = 0;
    assert(entries.deep_view().take(0) =~= Seq::empty());
    assert(kept.deep_view() =~= Seq::empty());
    while i < entries.len()
        invariant
            i <= entries.len(),
            entries.deep_view() == old(entries).deep_view(),
            kept.deep_view() == without_key(entries.deep_view().take(i as int), key@),
        decreases entries.len() - i,
    {
        let ghost before = kept.deep_view();
        let ghost upto = entries.deep_view().take(i as int + 1);
        assert(upto.drop_last() =~= entries.deep_view().take(i as int));
        assert(upto.last() == entries[i as int]@);
        if !same_text(entries[i].key.as_str(), key) {
            let entry = ConfigEntry { key: entries[i].key.clone(), value: entries[i].value.clone() };
            kept.push(entry);
            assert(kept.deep_view() =~= before.push(entries[i as int]@));
        }
        i = i + 1;
    }
    assert(entries.deep_view().take(entries.len() as int) =~= entries.deep_view());
    *entries = kept;
}

/// Appends the entry of `key` and `value` to `entries`.
fn push_entry(entries: &mut Vec<ConfigEntry>, key: &str, value: &str)
    ensures
        final(entries).deep_view() == old(entries).deep_view().push(
            EntryView { key: key@, value: value@ },
        ),
{
    let entry = ConfigEntry { key: key.to_owned(), value: value.to_owned() };
    let ghost ev = entry@;
    let ghost before = entries.deep_view();
    entries.push(entry);
    assert(entries.deep_view() =~= before.push(ev));
}

/// Sets `key` to the single value `value` under `scope`.
///
/// A write under `Auto` goes to `Local`. A write under `System` is refused, and
/// the store stays as it is.
pub fn cfg_set(store: &mut ConfigStore, key: &str, value: &str, scope: Scope) -> (done: Result<
    (),
    ConfigError,
>)
    ensures
        done is Ok <==> scope != Scope::System,
        done is Err ==> done == Err::<(), ConfigError>(ConfigError::SystemReadOnly),
        final(store)@ == after_set(old(store)@, key@, value@, scope),
{
    match resolve_write_scope(scope) {
        Ok(Source::Global) => {
            remove_key(&mut store.global, key);
            push_entry(&mut store.global, key, value);
            Ok(())
        },
        Ok(_) => {
            remove_key(&mut store.local, key);
            push_entry(&mut store.local, key, value);
            Ok(())
        },
        Err(e) => Err(e),
    }
}

/// Adds `value` to the values of `key` under `scope`.
///
/// A write under `Auto` goes to `Local`. A write under `System` is refused, and
/// the store stays as it is.
pub fn cfg_add(store: &mut ConfigStore, key: &str, value: &str, scope: Scope) -> (done: Result<
    (),
    ConfigError,
>)
    ensures
        done is Ok <==> scope != Scope::System,
        done is Err ==> done == Err::<(), ConfigError>(ConfigError::SystemReadOnly),
        final(store)@ == after_add(old(store)@, key@, value@, scope),
{
    match resolve_write_scope(scope) {
        Ok(Source::Global) => {
            push_entry(&mut store.global, key, value);
            Ok(())
        },
        Ok(_) => {
            push_entry(&mut store.local, key, value);
            Ok(())
        },
        Err(e) => Err(e),
    }
}

/// Removes every value of `key` under `scope`. A key without values is left
/// without values: that is no error.
///
/// A write under `Auto` goes to `Local`. A write under `System` is refused, and
/// the store stays as it is.
pub fn cfg_unset(store: &mut ConfigStore, key: &str, scope: Scope) -> (done: Result<
    (),
    ConfigError,
>)
    ensures
        done is Ok <==> scope != Scope::System,
        done is Err ==> done == Err::<(), ConfigError>(ConfigError::SystemReadOnly),
        final(store)@ == after_unset(old(store)@, key@, scope),
{
    match resolve_write_scope(scope) {
        Ok(Source::Global) => {
            remove_key(&mut store.global, key);
            Ok(())
        },
        Ok(_) => {
            remove_key(&mut store.local, key);
            Ok(())
        },
        Err(e) => Err(e),
    }
}

/// Without the entries of a key, no value of it is left, and the values of the
/// other keys stay.
pub proof fn lemma_values_without_key(entries: Seq<EntryView>, gone: Seq<char>, key: Seq<char>)
    ensures
        values_of(without_key(entries, gone), key) == if key == gone {
            Seq::<Seq<char>>::empty()
        } else {
            values_of(entries, key)
        },
    decreases entries.len(),
{
    if entries.len() > 0 {
        lemma_values_without_key(entries.drop_last(), gone, key);
        let head = without_key(entries.drop_last(), gone);
        if entries.last().key != gone {
            assert(head.push(entries.last()).drop_last() =~= head);
        }
    }
}

/// Setting a key under `Auto` writes to `Local`, and the values of the key under
/// `Local` are then the new value alone.
pub proof fn lemma_set_then_get(store: StoreView, key: Seq<char>, value: Seq<char>, scope: Scope)
    requires
        scope == Scope::Auto || scope == Scope::Local,
    ensures
        after_set(store, key, value, scope) == after_set(store, key, value, Scope::Local),
        all_values(after_set(store, key, value, scope), key, Scope::Local) == seq![value],
{
    let rest = without_key(store.local, key);
    lemma_values_without_key(store.local, key, key);
    assert(rest.push(EntryView { key, value }).drop_last() =~= rest);
    assert(Seq::<Seq<char>>::empty().push(value) =~= seq![value]);
}

/// Setting a key under `Global` leaves it with the new value alone there.
pub proof fn lemma_set_then_get_global(store: StoreView, key: Seq<char>, value: Seq<char>)
    ensures
        all_values(after_set(store, key, value, Scope::Global), key, Scope::Global) == seq![value],
{
    let rest = without_key(store.global, key);
    lemma_values_without_key(store.global, key, key);
    assert(rest.push(EntryView { key, value }).drop_last() =~= rest);
    assert(Seq::<Seq<char>>::empty().push(value) =~= seq![value]);
}

/// Adding a value to a key puts it after the values that the key had.
pub proof fn lemma_add_then_get(store: StoreView, key: Seq<char>, value: Seq<char>, scope: Scope)
    requires
        scope == Scope::Auto || scope == Scope::Local,
    ensures
        all_values(after_add(store, key, value, scope), key, Scope::Local) == all_values(
            store,
            key,
            Scope::Local,
        ).push(value),
{
    assert(store.local.push(EntryView { key, value }).drop_last() =~= store.local);
}

/// After a key is unset under a scope that can be written, it has no values
/// under that scope.
pub proof fn lemma_unset_then_get(store: StoreView, key: Seq<char>, scope: Scope)
    requires
        scope == Scope::Local || scope == Scope::Global,
    ensures
        all_values(after_unset(store, key, scope), key, scope) == Seq::<Seq<char>>::empty(),
{
    lemma_values_without_key(store.local, key, key);
    lemma_values_without_key(store.global, key, key);
}

/// A write to one key leaves the values of every other key as they were, under
/// every scope.
pub proof fn lemma_write_keeps_other_keys(
    store: StoreView,
    key: Seq<char>,
    value: Seq<char>,
    scope: Scope,
    other: Seq<char>,
    read: Scope,
)
    requires
        other != key,
    ensures
        all_values(after_set(store, key, value, scope), other, read) == all_values(
            store,
            other,
            read,
        ),
        all_values(after_add(store, key, value, scope), other, read) == all_values(
            store,
            other,
            read,
        ),
        all_values(after_unset(store, key, scope), other, read) == all_values(store, other, read),
{
    lemma_values_without_key(store.local, key, other);
    lemma_values_without_key(store.global, key, other);
    let e = EntryView { key, value };
    assert(without_key(store.local, key).push(e).drop_last() =~= without_key(store.local, key));
    assert(without_key(store.global, key).push(e).drop_last() =~= without_key(store.global, key));
    assert(store.local.push(e).drop_last() =~= store.local);
    assert(store.global.push(e).drop_last() =~= store.global);
}

/// A key of this tool: one below the root `spaces.`.
pub open spec fn in_namespace(key: Seq<char>) -> bool {
    has_prefix(key, "spaces."@)
}

/// The line that lists an entry: key, `=`, value.
pub open spec fn entry_line(entry: EntryView) -> Seq<char> {
    entry.key + "="@ + entry.value
}

/// The name under which a source is shown.
pub open spec fn source_label(source: Source) -> Seq<char> {
    match source {
        Source::Local => "local"@,
        Source::File => ".spacesrc"@,
        Source::Global => "global"@,
        Source::System => "system"@,
    }
}

/// A line with the label of its source behind it, in square brackets.
pub open spec fn labelled(line: Seq<char>, source: Source) -> Seq<char> {
    line + " ["@ + source_label(source) + "]"@
}

/// The lines of the entries of `entries` whose key is one of this tool, in order.
pub open spec fn source_lines(entries: Seq<EntryView>) -> Seq<Seq<char>>
    decreases entries.len(),
{
    if entries.len() == 0 {
        Seq::empty()
    } else {
        let head = source_lines(entries.drop_last());
        if in_namespace(entries.last().key) {
            head.push(entry_line(entries.last()))
        } else {
            head
        }
    }
}

/// A listing under way: the lines shown so far, and what each says without its
/// label.
pub ghost struct Listing {
    pub seen: Seq<Seq<char>>,
    pub lines: Seq<Seq<char>>,
}

/// The listing `start` extended by the lines `raw` of `source`. A line that was
/// shown for an earlier source is not shown again.
pub open spec fn listed(start: Listing, raw: Seq<Seq<char>>, source: Source) -> Listing
    decreases raw.len(),
{
    if raw.len() == 0 {
        start
    } else {
        let head = listed(start, raw.drop_last(), source);
        if head.seen.contains(raw.last()) {
            head
        } else {
            Listing {
                seen: head.seen.push(raw.last()),
                lines: head.lines.push(labelled(raw.last(), source)),
            }
        }
    }
}

/// The listing of all four sources: `Local`, the settings file, `Global`, `System`.
pub open spec fn full_listing(store: StoreView) -> Listing {
    let start = Listing { seen: Seq::empty(), lines: Seq::empty() };
    let a = listed(start, source_lines(store.local), Source::Local);
    let b = listed(a, source_lines(store.file), Source::File);
    let c = listed(b, source_lines(store.global), Source::Global);
    listed(c, source_lines(store.system), Source::System)
}

/// The lines that list the settings under `scope`. A single source gives one
/// line for each of its entries. `Auto` goes through all four sources and gives
/// each line once, with the label of the first source that has it.
pub open spec fn list_lines(store: StoreView, scope: Scope) -> Seq<Seq<char>> {
    match scope {
        Scope::Local => source_lines(store.local),
        Scope::Global => source_lines(store.global),
        Scope::System => source_lines(store.system),
        Scope::Auto => full_listing(store).lines,
    }
}

/// The name under which a source is shown.
pub fn label_of(source: Source) -> (label: &'static str)
    ensures
        label@ == source_label(source),
{
    match source {
        Source::Local => "local",
        Source::File => ".spacesrc",
        Source::Global => "global",
        Source::System => "system",
    }
}

/// The lines of the entries of `entries` whose key is one of this tool.
fn lines_of_source(entries: &Vec<ConfigEntry>) -> (out: Vec<String>)
    ensures
        out.deep_view() == source_lines(entries.deep_view()),
{
    let mut out: Vec<String> = Vec::new();
    let mut i: usize = 0;
    assert(entries.deep_view().take(0) =~= Seq::empty());
    assert(out.deep_view() =~= Seq::empty());
    while i < entries.len()
        invariant
            i <= entries.len(),
            out.deep_view() == source_lines(entries.deep_view().take(i as int)),
        decreases entries.len() - i,
    {
        let ghost before = out.deep_view();
        let ghost upto = entries.deep_view().take(i as int + 1);
        assert(upto.drop_last() =~= entries.deep_view().take(i as int));
        assert(upto.last() == entries[i as int]@);
        if starts_with(entries[i].key.as_str(), "spaces.") {
            let mut line = join_text(entries[i].key.as_str(), "=");
            line.append(entries[i].value.as_str());
            let ghost lv = line@;
            out.push(line);
            assert(out.deep_view() =~= before.push(lv));
        }
        i = i + 1;
    }
    assert(entries.deep_view().take(entries.len() as int) =~= entries.deep_view());
    out
}

/// Extends a listing by the lines `raw` of `source`.
fn list_into(seen: &mut Vec<String>, lines: &mut Vec<String>, raw: &Vec<String>, source: Source)
    ensures
        (Listing { seen: final(seen).deep_view(), lines: final(lines).deep_view() }) == listed(
            (Listing { seen: old(seen).deep_view(), lines: old(lines).deep_view() }),
            raw.deep_view(),
            source,
        ),
{
    let ghost start = Listing { seen: seen.deep_view(), lines: lines.deep_view() };
    let mut i: usize = 0;
    assert(raw.deep_view().take(0) =~= Seq::empty());
    while i < raw.len()
        invariant
            i <= raw.len(),
            (Listing { seen: seen.deep_view(), lines: lines.deep_view() }) == listed(
                start,
                raw.deep_view().take(i as int),
                source,
            ),
        decreases raw.len() - i,
    {
        let ghost seen_before = seen.deep_view();
        let ghost lines_before = lines.deep_view();
        let ghost upto = raw.deep_view().take(i as int + 1);
        assert(upto.drop_last() =~= raw.deep_view().take(i as int));
        assert(upto.last() == raw[i as int]@);
        if !holds(seen, raw[i].as_str()) {
            let mut shown = join_text(raw[i].as_str(), " [");
            shown.append(label_of(source));
            shown.append("]");
            let ghost sv = shown@;
            seen.push(raw[i].clone());
            lines.push(shown);
            assert(seen.deep_view() =~= seen_before.push(raw[i as int]@));
            assert(lines.deep_view() =~= lines_before.push(sv));
        }
        i = i + 1;
    }
    assert(raw.deep_view().take(raw.len() as int) =~= raw.deep_view());
}

/// The lines that list the settings of this tool under `scope`.
///
/// Each line is a key, `=`, and a value. Under `Auto` the sources are gone
/// through from `Local` to `System`; a line stands once, and ends with the label
/// of the first source that has it: `[local]`, `[.spacesrc]`, `[global]` or
/// `[system]`.
pub fn cfg_list(store: &ConfigStore, scope: Scope) -> (lines: Vec<String>)
    ensures
        lines.deep_view() == list_lines(store@, scope),
{
    match scope {
        Scope::Local => lines_of_source(&store.local),
        Scope::Global => lines_of_source(&store.global),
        Scope::System => lines_of_source(&store.system),
        Scope::Auto => {
            let mut seen: Vec<String> = Vec::new();
            let mut lines: Vec<String> = Vec::new();
            assert(seen.deep_view() =~= Seq::empty());
            assert(lines.deep_view() =~= Seq::empty());
            let local = lines_of_source(&store.local);
            list_into(&mut seen, &mut lines, &local, Source::Local);
            let file = lines_of_source(&store.file);
            list_into(&mut seen, &mut lines, &file, Source::File);
            let global = lines_of_source(&store.global);
            list_into(&mut seen, &mut lines, &global, Source::Global);
            let system = lines_of_source(&store.system);
            list_into(&mut seen, &mut lines, &system, Source::System);
            lines
        },
    }
}

/// `line` is `said` with the label of one of the sources behind it.
pub open spec fn shows(line: Seq<char>, said: Seq<char>) -> bool {
    ||| line == labelled(said, Source::Local)
    ||| line == labelled(said, Source::File)
    ||| line == labelled(said, Source::Global)
    ||| line == labelled(said, Source::System)
}

/// What holds of a listing: every line shown is what it says with a label
/// behind it, and nothing is said twice.
pub open spec fn sound_listing(l: Listing) -> bool {
    &&& l.seen.len() == l.lines.len()
    &&& l.seen.no_duplicates()
    &&& forall|i: int| 0 <= i < l.lines.len() ==> shows(#[trigger] l.lines[i], l.seen[i])
}

/// Extending a listing keeps it sound, and what it says is what it said merged
/// with the new lines.
pub proof fn lemma_listed_sound(start: Listing, raw: Seq<Seq<char>>, source: Source)
    requires
        sound_listing(start),
    ensures
        sound_listing(listed(start, raw, source)),
        listed(start, raw, source).seen == merged(start.seen, raw),
    decreases raw.len(),
{
    if raw.len() > 0 {
        lemma_listed_sound(start, raw.drop_last(), source);
        let head = listed(start, raw.drop_last(), source);
        if !head.seen.contains(raw.last()) {
            let out = listed(start, raw, source);
            assert(out.seen == head.seen.push(raw.last()));
            assert(out.lines == head.lines.push(labelled(raw.last(), source)));
            assert forall|i: int| 0 <= i < out.lines.len() implies shows(
                #[trigger] out.lines[i],
                out.seen[i],
            ) by {
                if i < head.lines.len() {
                    assert(out.lines[i] == head.lines[i]);
                    assert(out.seen[i] == head.seen[i]);
                }
            }
        }
    }
}

/// The listing under `Auto` shows no setting twice: what its lines say, without
/// the labels, are the lines of `Local`, the settings file, `Global` and
/// `System`, each once, where it came first.
pub proof fn lemma_auto_listing_unique(store: StoreView)
    ensures
        sound_listing(full_listing(store)),
        full_listing(store).seen == deduped(
            source_lines(store.local) + source_lines(store.file) + source_lines(store.global)
                + source_lines(store.system),
        ),
        list_lines(store, Scope::Auto).len() == full_listing(store).seen.len(),
{
    let e = Seq::<Seq<char>>::empty();
    let start = Listing { seen: e, lines: e };
    let (l, f, g, s) = (
        source_lines(store.local),
        source_lines(store.file),
        source_lines(store.global),
        source_lines(store.system),
    );
    let a = listed(start, l, Source::Local);
    let b = listed(a, f, Source::File);
    let c = listed(b, g, Source::Global);
    lemma_listed_sound(start, l, Source::Local);
    lemma_listed_sound(a, f, Source::File);
    lemma_listed_sound(b, g, Source::Global);
    lemma_listed_sound(c, s, Source::System);
    lemma_merged_concat(e, l, f);
    lemma_merged_concat(e, l + f, g);
    lemma_merged_concat(e, l + f + g, s);
}

/// The arguments of a `config` call of the version-control tool under `scope`,
/// followed by `tail`: the flag of the scope comes second, and `Auto` has none.
pub open spec fn config_command(scope: Scope, tail: Seq<Seq<char>>) -> Seq<Seq<char>> {
    if scope == Scope::Auto {
        seq!["config"@] + tail
    } else {
        seq!["config"@, scope_flag_text(scope)] + tail
    }
}

/// The arguments of a `config` call on the settings file `file`, followed by `tail`.
pub open spec fn file_command(file: Seq<char>, tail: Seq<Seq<char>>) -> Seq<Seq<char>> {
    seq!["config"@, "-f"@, file] + tail
}

/// The beginning of a `config` call under `scope`.
fn config_head(scope: Scope) -> (args: Vec<String>)
    ensures
        args.deep_view() == config_command(scope, Seq::empty()),
{
    let args = one("config");
    match scope {
        Scope::Auto => {
            assert(seq!["config"@] + Seq::<Seq<char>>::empty() =~= seq!["config"@]);
            args
        },
        _ => {
            let args = with(args, scope_flag(scope));
            assert(seq!["config"@, scope_flag_text(scope)] + Seq::<Seq<char>>::empty()
                =~= seq!["config"@].push(scope_flag_text(scope)));
            args
        },
    }
}

/// The beginning of a `config` call on the settings file `file`.
fn file_head(file: &str) -> (args: Vec<String>)
    ensures
        args.deep_view() == file_command(file@, Seq::empty()),
{
    let args = with(with(one("config"), "-f"), file);
    assert(args.deep_view() =~= file_command(file@, Seq::empty()));
    args
}

/// The call that reads all values of `key` under `scope`.
pub fn get_all_args(scope: Scope, key: &str) -> (args: Vec<String>)
    ensures
        args.deep_view() == config_command(scope, seq!["--get-all"@, key@]),
{
    let args = with(with(config_head(scope), "--get-all"), key);
    assert(args.deep_view() =~= config_command(scope, seq!["--get-all"@, key@]));
    args
}

/// The call that reads all values of `key` in the settings file `file`.
pub fn file_get_all_args(file: &str, key: &str) -> (args: Vec<String>)
    ensures
        args.deep_view() == file_command(file@, seq!["--get-all"@, key@]),
{
    let args = with(with(file_head(file), "--get-all"), key);
    assert(args.deep_view() =~= file_command(file@, seq!["--get-all"@, key@]));
    args
}

/// The call that lists the settings of this tool under `scope`.
pub fn list_args(scope: Scope) -> (args: Vec<String>)
    ensures
        args.deep_view() == config_command(scope, seq!["--get-regexp"@, "^spaces\\."@]),
{
    let args = with(with(config_head(scope), "--get-regexp"), "^spaces\\.");
    assert(args.deep_view() =~= config_command(scope, seq!["--get-regexp"@, "^spaces\\."@]));
    args
}

/// The call that lists the settings of this tool in the settings file `file`.
pub fn file_list_args(file: &str) -> (args: Vec<String>)
    ensures
        args.deep_view() == file_command(file@, seq!["--get-regexp"@, "^spaces\\."@]),
{
    let args = with(with(file_head(file), "--get-regexp"), "^spaces\\.");
    assert(args.deep_view() =~= file_command(file@, seq!["--get-regexp"@, "^spaces\\."@]));
    args
}

/// The call that sets `key` to `value` under `scope`.
pub fn set_args(scope: Scope, key: &str, value: &str) -> (args: Vec<String>)
    ensures
        args.deep_view() == config_command(scope, seq![key@, value@]),
{
    let args = with(with(config_head(scope), key), value);
    assert(args.deep_view() =~= config_command(scope, seq![key@, value@]));
    args
}

/// The call that adds `value` to `key` under `scope`.
pub fn add_args(scope: Scope, key: &str, value: &str) -> (args: Vec<String>)
    ensures
        args.deep_view() == config_command(scope, seq!["--add"@, key@, value@]),
{
    let args = with(with(with(config_head(scope), "--add"), key), value);
    assert(args.deep_view() =~= config_command(scope, seq!["--add"@, key@, value@]));
    args
}

/// The call that removes all values of `key` under `scope`.
pub fn unset_args(scope: Scope, key: &str) -> (args: Vec<String>)
    ensures
        args.deep_view() == config_command(scope, seq!["--unset-all"@, key@]),
{
    let args = with(with(config_head(scope), "--unset-all"), key);
    assert(args.deep_view() =~= config_command(scope, seq!["--unset-all"@, key@]));
    args
}

/// The entry that a line of a listing stands for: the key is what comes before
/// the first blank, the value what comes after it. A line without a blank is a
/// key with an empty value.
pub open spec fn entry_of_line(line: Seq<char>) -> EntryView {
    let at = first_index_of(line, ' ');
    if at < line.len() {
        EntryView { key: line.subrange(0, at), value: line.subrange(at + 1, line.len() as int) }
    } else {
        EntryView { key: line, value: Seq::empty() }
    }
}

/// Reads one line of a listing of the version-control tool, which writes a key,
/// a blank, and the value.
pub fn parse_listed_line(line: &str) -> (entry: ConfigEntry)
    ensures
        entry@ == entry_of_line(line@),
{
    let chars = chars_of(line);
    let at = find_char(&chars, ' ');
    if at < chars.len() {
        let key = slice_of(line, 0, at);
        let value = slice_of(line, at + 1, chars.len());
        ConfigEntry { key, value }
    } else {
        let value = String::new();
        ConfigEntry { key: line.to_owned(), value }
    }
}

/// One entry of `key` for each of `values`, in order.
pub open spec fn entries_for(key: Seq<char>, values: Seq<Seq<char>>) -> Seq<EntryView> {
    Seq::new(values.len(), |i: int| EntryView { key, value: values[i] })
}

/// The entries that the lines `listed` of a listing stand for.
pub open spec fn entries_listed(listed: Seq<Seq<char>>) -> Seq<EntryView> {
    Seq::new(listed.len(), |i: int| entry_of_line(listed[i]))
}

/// The lines of an answer of the tool; none where it gave no answer.
pub open spec fn answer_lines(answer: Option<Seq<char>>) -> Seq<Seq<char>> {
    match answer {
        Some(text) => lines_of(text),
        None => Seq::empty(),
    }
}

/// The lines of an answer of the tool.
fn lines_of_answer(answer: Option<&str>) -> (all: Vec<String>)
    ensures
        all.deep_view() == answer_lines(answer.deep_view()),
{
    match answer {
        Some(text) => lines(text),
        None => {
            let all: Vec<String> = Vec::new();
            assert(all.deep_view() =~= Seq::empty());
            all
        },
    }
}

/// Records what the tool answered when asked for all values of `key` in
/// `source`: one value on each line. No answer records nothing.
pub fn load_values(store: &mut ConfigStore, source: Source, key: &str, answer: Option<&str>)
    ensures
        final(store)@ == old(store)@.with_entries(
            source,
            old(store)@.entries(source) + entries_for(key@, answer_lines(answer.deep_view())),
        ),
{
    let all = lines_of_answer(answer);
    let ghost start = store@;
    let mut i: usize = 0;
    assert(start.entries(source) + entries_for(key@, all.deep_view().take(0)) =~= start.entries(
        source,
    ));
    assert(start.with_entries(source, start.entries(source)) == start);
    while i < all.len()
        invariant
            i <= all.len(),
            store@ == start.with_entries(
                source,
                start.entries(source) + entries_for(key@, all.deep_view().take(i as int)),
            ),
        decreases all.len() - i,
    {
        assert(all.deep_view()[i as int] == all[i as int]@);
        store.insert(source, key, all[i].as_str());
        assert(start.entries(source) + entries_for(key@, all.deep_view().take(i as int + 1)) =~= (
        start.entries(source) + entries_for(key@, all.deep_view().take(i as int))).push(
            EntryView { key: key@, value: all[i as int]@ },
        ));
        i = i + 1;
    }
    assert(all.deep_view().take(all.len() as int) =~= all.deep_view());
}

/// Records what the tool answered when asked to list the settings of `source`:
/// on each line a key, a blank, and a value. No answer records nothing.
pub fn load_listing(store: &mut ConfigStore, source: Source, answer: Option<&str>)
    ensures
        final(store)@ == old(store)@.with_entries(
            source,
            old(store)@.entries(source) + entries_listed(answer_lines(answer.deep_view())),
        ),
{
    let all = lines_of_answer(answer);
    let ghost start = store@;
    let mut i: usize = 0;
    assert(start.entries(source) + entries_listed(all.deep_view().take(0)) =~= start.entries(
        source,
    ));
    assert(start.with_entries(source, start.entries(source)) == start);
    while i < all.len()
        invariant
            i <= all.len(),
            store@ == start.with_entries(
                source,
                start.entries(source) + entries_listed(all.deep_view().take(i as int)),
            ),
        decreases all.len() - i,
    {
        assert(all.deep_view()[i as int] == all[i as int]@);
        let entry = parse_listed_line(all[i].as_str());
        store.insert(source, entry.key.as_str(), entry.value.as_str());
        assert(start.entries(source) + entries_listed(all.deep_view().take(i as int + 1)) =~= (
        start.entries(source) + entries_listed(all.deep_view().take(i as int))).push(
            entry_of_line(all[i as int]@),
        ));
        i = i + 1;
    }
    assert(all.deep_view().take(all.len() as int) =~= all.deep_view());
}

} // verus!
