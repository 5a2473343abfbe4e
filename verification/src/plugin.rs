//! Plugin descriptions (one per supported application), environment
//! expansion of their paths, and the plugin manager with its per-plugin
//! executable overrides.

use vstd::prelude::*;

use crate::config::probe;
use crate::config::ConfigError;
use crate::text::replace_all;
use crate::text::replace_spec;
use crate::text::str_eq;

verus! {

// ---------------------------------------------------------------------------
// Errors
// ---------------------------------------------------------------------------

/// Errors of plugin handling and flow execution.
#[derive(Debug)]
pub enum PluginError {
    /// An I/O operation failed; the text is the system's message.
    Io(String),
    /// A plugin file could not be (de)serialized; the text is the parser's message.
    Serde(String),
    /// A directory operation failed.
    Config(ConfigError),
    /// No plugin with this id exists.
    NotFound(String),
    /// No executable path is known for this plugin.
    NoExePath(String),
    /// A flow step failed.
    FlowFailed(String),
}

impl PluginError {
    /// The user-facing message of the error.
    pub open spec fn message_spec(&self) -> Seq<char> {
        match self {
            PluginError::Io(m) => "IO 错误: "@ + m@,
            PluginError::Serde(m) => "序列化错误: "@ + m@,
            PluginError::Config(e) => "配置错误: "@ + e.message_spec(),
            PluginError::NotFound(id) => "插件不存在: "@ + id@,
            PluginError::NoExePath(id) => "插件路径未配置: "@ + id@,
            PluginError::FlowFailed(m) => "流程执行失败: "@ + m@,
        }
    }

    /// The user-facing message of the error.
    pub fn message(&self) -> (res: String)
        ensures
            res@ == self.message_spec(),
    {
        let (prefix, detail) = match self {
            PluginError::Io(m) => ("IO 错误: ", m.clone()),
            PluginError::Serde(m) => ("序列化错误: ", m.clone()),
            PluginError::Config(e) => ("配置错误: ", e.message()),
            PluginError::NotFound(id) => ("插件不存在: ", id.clone()),
            PluginError::NoExePath(id) => ("插件路径未配置: ", id.clone()),
            PluginError::FlowFailed(m) => ("流程执行失败: ", m.clone()),
        };
        let mut res = prefix.to_owned();
        res.append(detail.as_str());
        res
    }
}

// ---------------------------------------------------------------------------
// Plugin description
// ---------------------------------------------------------------------------

/// A data directory that a plugin backs up and restores.
#[derive(Clone, Debug)]
pub struct DataDirSpec {
    /// Path, with `%VAR%` placeholders.
    pub path: String,
    /// Human-readable label.
    pub label: String,
    /// Only these sub-directories take part; all when empty.
    pub include_subdirs: Vec<String>,
}

/// Where the application keeps its machine id.
#[derive(Clone, Debug)]
pub struct MachineIdSpec {
    /// `"file"` or `"registry"`.
    pub spec_type: String,
    /// File path, or registry key path.
    pub path: String,
    /// Registry value name (for `"registry"`).
    pub key: Option<String>,
    /// Human-readable label.
    pub label: String,
}

/// A trace of a login that clearing the login state removes.
#[derive(Clone, Debug)]
pub struct LoginArtifactSpec {
    /// `"file"` or `"dir"`.
    pub artifact_type: String,
    /// Path, with `%VAR%` placeholders.
    pub path: String,
    /// Registry value name, where one applies.
    pub key: Option<String>,
}

/// One step of a flow.
#[derive(Clone, Copy, Debug, PartialEq, Eq, Structural)]
pub enum FlowStep {
    /// Wait for the application to exit, killing it, for at most `timeout` ms.
    EnsureNotRunningOrKill { timeout: u64 },
    /// Back the data directories up into the account's snapshot.
    BackupCurrent,
    /// Restore the data directories from the account's snapshot.
    RestoreSnapshot,
    /// Write the account's bound machine id.
    WriteMachineId,
    /// Remove the machine id.
    ResetMachineId,
    /// Write a fresh random machine id and refresh the telemetry ids.
    RegenerateMachineId,
    /// Remove the login artifacts.
    DeleteLoginArtifacts,
    /// Start the application.
    LaunchExe,
    /// Pause for `ms` milliseconds.
    Sleep { ms: u64 },
}

/// The description of one supported application.
#[derive(Clone, Debug)]
pub struct PluginConfig {
    pub id: String,
    pub name: String,
    pub version: String,
    pub icon: String,
    pub homepage: String,
    /// Process names (to detect and stop the application).
    pub process_names: Vec<String>,
    /// Candidate executable paths, with `%VAR%` placeholders.
    pub exe_candidates: Vec<String>,
    /// Data directories to back up and restore.
    pub data_dirs: Vec<DataDirSpec>,
    /// Directory and file names that a backup skips.
    pub skip_items: Vec<String>,
    /// Where the machine id lives.
    pub machine_id: MachineIdSpec,
    /// Traces removed when the login state is cleared.
    pub login_artifacts: Vec<LoginArtifactSpec>,
    /// Steps of switching accounts.
    pub switch_flow: Vec<FlowStep>,
    /// Steps of clearing the login state.
    pub clear_login_flow: Vec<FlowStep>,
}

/// The timeout of `ensure_not_running_or_kill` when a plugin gives none.
pub fn default_timeout() -> (res: u64)
    ensures
        res == 5000,
{
    5000
}

// ---------------------------------------------------------------------------
// Environment expansion
// ---------------------------------------------------------------------------

/// The values of the environment variables that plugin paths may name;
/// `None` where the variable is not set.
pub struct EnvValues {
    pub appdata: Option<String>,
    pub userprofile: Option<String>,
    pub localappdata: Option<String>,
    pub temp: Option<String>,
    pub programfiles: Option<String>,
    pub programfiles_x86: Option<String>,
}

/// `s` with `placeholder` replaced by the variable's value where it is set.
pub open spec fn substitute_spec(s: Seq<char>, placeholder: Seq<char>, value: Option<String>) -> Seq<
    char,
> {
    match value {
        Some(v) => replace_spec(s, placeholder, v@),
        None => s,
    }
}

/// `path` with `%APPDATA%`, `%USERPROFILE%`, `%LOCALAPPDATA%`, `%TEMP%`,
/// `%PROGRAMFILES%` and `%PROGRAMFILES(X86)%` replaced, in this order, by the
/// values of the variables that are set.
pub open spec fn expand_env_spec(path: Seq<char>, env: EnvValues) -> Seq<char> {
    let s1 = substitute_spec(path, "%APPDATA%"@, env.appdata);
    let s2 = substitute_spec(s1, "%USERPROFILE%"@, env.userprofile);
    let s3 = substitute_spec(s2, "%LOCALAPPDATA%"@, env.localappdata);
    let s4 = substitute_spec(s3, "%TEMP%"@, env.temp);
    let s5 = substitute_spec(s4, "%PROGRAMFILES%"@, env.programfiles);
    substitute_spec(s5, "%PROGRAMFILES(X86)%"@, env.programfiles_x86)
}

fn substitute(s: String, placeholder: &str, value: &Option<String>) -> (res: String)
    requires
        placeholder@.len() > 0,
    ensures
        res@ == substitute_spec(s@, placeholder@, *value),
{
    match value {
        Some(v) => replace_all(s.as_str(), placeholder, v.as_str()),
        None => s,
    }
}

/// Expands the environment placeholders of a path (see `expand_env_spec`).
pub fn expand_env(path: &str, env: &EnvValues) -> (res: String)
    ensures
        res@ == expand_env_spec(path@, *env),
{
    proof {
        reveal_strlit("%APPDATA%");
        reveal_strlit("%USERPROFILE%");
        reveal_strlit("%LOCALAPPDATA%");
        reveal_strlit("%TEMP%");
        reveal_strlit("%PROGRAMFILES%");
        reveal_strlit("%PROGRAMFILES(X86)%");
    }
    let s = path.to_owned();
    let s = substitute(s, "%APPDATA%", &env.appdata);
    let s = substitute(s, "%USERPROFILE%", &env.userprofile);
    let s = substitute(s, "%LOCALAPPDATA%", &env.localappdata);
    let s = substitute(s, "%TEMP%", &env.temp);
    let s = substitute(s, "%PROGRAMFILES%", &env.programfiles);
    substitute(s, "%PROGRAMFILES(X86)%", &env.programfiles_x86)
}

proof fn lemma_replace_without_percent(s: Seq<char>, pat: Seq<char>, to: Seq<char>)
    requires
        pat.len() > 0,
        pat[0] == '%',
        !s.contains('%'),
    ensures
        replace_spec(s, pat, to) == s,
    decreases s.len(),
{
    if s.len() > 0 {
        assert(s[0] != '%');
        if pat.len() <= s.len() {
            assert(s.take(pat.len() as int)[0] != pat[0]);
        }
        assert(!s.skip(1).contains('%')) by {
            if s.skip(1).contains('%') {
                let k = choose|k: int| 0 <= k < s.skip(1).len() && s.skip(1)[k] == '%';
                assert(s[k + 1] == '%');
            }
        }
        lemma_replace_without_percent(s.skip(1), pat, to);
        assert(seq![s[0]] + s.skip(1) =~= s);
    }
}

proof fn lemma_substitute_without_percent(s: Seq<char>, pat: Seq<char>, value: Option<String>)
    requires
        pat.len() > 0,
        pat[0] == '%',
        !s.contains('%'),
    ensures
        substitute_spec(s, pat, value) == s,
{
    if let Some(v) = value {
        lemma_replace_without_percent(s, pat, v@);
    }
}

/// A path without `%` is left as it is, whatever the environment holds.
pub proof fn lemma_expand_env_without_placeholder(path: Seq<char>, env: EnvValues)
    requires
        !path.contains('%'),
    ensures
        expand_env_spec(path, env) == path,
{
    reveal_strlit("%APPDATA%");
    reveal_strlit("%USERPROFILE%");
    reveal_strlit("%LOCALAPPDATA%");
    reveal_strlit("%TEMP%");
    reveal_strlit("%PROGRAMFILES%");
    reveal_strlit("%PROGRAMFILES(X86)%");
    lemma_substitute_without_percent(path, "%APPDATA%"@, env.appdata);
    lemma_substitute_without_percent(path, "%USERPROFILE%"@, env.userprofile);
    lemma_substitute_without_percent(path, "%LOCALAPPDATA%"@, env.localappdata);
    lemma_substitute_without_percent(path, "%TEMP%"@, env.temp);
    lemma_substitute_without_percent(path, "%PROGRAMFILES%"@, env.programfiles);
    lemma_substitute_without_percent(path, "%PROGRAMFILES(X86)%"@, env.programfiles_x86);
}

// ---------------------------------------------------------------------------
// Built-in plugin
// ---------------------------------------------------------------------------

/// The id of the plugin that ships with the application.
pub open spec fn builtin_id() -> Seq<char> {
    "trae-cn"@
}

/// The built-in plugin as JSON.
pub const BUILTIN_TRAE_CN_JSON: &'static str = r#"{
  "id": "trae-cn",
  "name": "Trae CN",
  "version": "0.1.0",
  "icon": "🤖",
  "homepage": "https://www.trae.cn",
  "process_names": ["Trae.exe", "Trae"],
  "exe_candidates": [
    "%LOCALAPPDATA%/Programs/Trae/Trae.exe",
    "%LOCALAPPDATA%/Trae/Trae.exe"
  ],
  "data_dirs": [
    {
      "path": "%APPDATA%/Trae",
      "label": "用户配置目录",
      "include_subdirs": ["User"]
    },
    {
      "path": "%USERPROFILE%/.trae",
      "label": "用户扩展目录",
      "include_subdirs": []
    }
  ],
  "skip_items": ["Cache", "GPUCache", "Code Cache", "Service Worker", "logs"],
  "machine_id": {
    "type": "file",
    "path": "%APPDATA%/Trae/Service Provider/trae__internal_services.machineid",
    "label": "Trae 机器码"
  },
  "login_artifacts": [
    {
      "type": "dir",
      "path": "%APPDATA%/Trae/Service Provider/trae__internal_services_auth_cache"
    },
    {
      "type": "dir",
      "path": "%APPDATA%/Trae/Service Provider/trae__internal_services_oidc"
    }
  ],
  "switch_flow": [
    { "type": "ensure_not_running_or_kill", "timeout": 5000 },
    { "type": "backup_current" },
    { "type": "restore_snapshot" },
    { "type": "write_machine_id" }
  ],
  "clear_login_flow": [
    { "type": "ensure_not_running_or_kill", "timeout": 5000 },
    { "type": "delete_login_artifacts" },
    { "type": "reset_machine_id" }
  ]
}"#;

/// The built-in plugin as JSON, the form in which it is written to the
/// plugins directory.
pub fn builtin_trae_cn_json() -> (res: &'static str)
    ensures
        res@ == BUILTIN_TRAE_CN_JSON@,
{
    BUILTIN_TRAE_CN_JSON
}

/// The views of a list of texts.
pub open spec fn texts(v: Seq<String>) -> Seq<Seq<char>> {
    v.map_values(|s: String| s@)
}

/// The fields of the built-in plugin, as `builtin_trae_cn_json` gives them.
pub open spec fn is_builtin_trae_cn(res: PluginConfig) -> bool {
    &&& res.id@ == builtin_id()
    &&& res.name@ == "Trae CN"@
    &&& res.version@ == "0.1.0"@
    &&& res.icon@ == "🤖"@
    &&& res.homepage@ == "https://www.trae.cn"@
    &&& texts(res.process_names@) == seq!["Trae.exe"@, "Trae"@]
    &&& texts(res.exe_candidates@) == seq![ "%LOCALAPPDATA%/Programs/Trae/Trae.exe"@, "%LOCALAPPDATA%/Trae/Trae.exe"@, ]
    &&& res.data_dirs@.len() == 2
    &&& res.data_dirs@[0].path@ == "%APPDATA%/Trae"@
    &&& res.data_dirs@[0].label@ == "用户配置目录"@
    &&& texts(res.data_dirs@[0].include_subdirs@) == seq!["User"@]
    &&& res.data_dirs@[1].path@ == "%USERPROFILE%/.trae"@
    &&& res.data_dirs@[1].label@ == "用户扩展目录"@
    &&& res.data_dirs@[1].include_subdirs@.len() == 0
    &&& texts(res.skip_items@) == seq![ "Cache"@, "GPUCache"@, "Code Cache"@, "Service Worker"@, "logs"@, ]
    &&& res.machine_id.spec_type@ == "file"@
    &&& res.machine_id.path@ == "%APPDATA%/Trae/Service Provider/trae__internal_services.machineid"@
    &&& res.machine_id.key is None
    &&& res.machine_id.label@ == "Trae 机器码"@
    &&& res.login_artifacts@.len() == 2
    &&& res.login_artifacts@[0].artifact_type@ == "dir"@
    &&& res.login_artifacts@[0].path@ == "%APPDATA%/Trae/Service Provider/trae__internal_services_auth_cache"@
    &&& res.login_artifacts@[0].key is None
    &&& res.login_artifacts@[1].artifact_type@ == "dir"@
    &&& res.login_artifacts@[1].path@ == "%APPDATA%/Trae/Service Provider/trae__internal_services_oidc"@
    &&& res.login_artifacts@[1].key is None
    &&& res.switch_flow@ == seq![ FlowStep::EnsureNotRunningOrKill { timeout: 5000 }, FlowStep::BackupCurrent, FlowStep::RestoreSnapshot, FlowStep::WriteMachineId, ]
    &&& res.clear_login_flow@ == seq![ FlowStep::EnsureNotRunningOrKill { timeout: 5000 }, FlowStep::DeleteLoginArtifacts, FlowStep::ResetMachineId, ]
}

/// The built-in plugin, the value that `builtin_trae_cn_json` describes.
pub fn builtin_trae_cn() -> (res: PluginConfig)
    ensures
        is_builtin_trae_cn(res),
{
    let res = PluginConfig {
        id: "trae-cn".to_owned(),
        name: "Trae CN".to_owned(),
        version: "0.1.0".to_owned(),
        icon: "🤖".to_owned(),
        homepage: "https://www.trae.cn".to_owned(),
        process_names: vec!["Trae.exe".to_owned(), "Trae".to_owned()],
        exe_candidates: vec![
            "%LOCALAPPDATA%/Programs/Trae/Trae.exe".to_owned(),
            "%LOCALAPPDATA%/Trae/Trae.exe".to_owned(),
        ],
        data_dirs: vec![
            DataDirSpec {
                path: "%APPDATA%/Trae".to_owned(),
                label: "用户配置目录".to_owned(),
                include_subdirs: vec!["User".to_owned()],
            },
            DataDirSpec {
                path: "%USERPROFILE%/.trae".to_owned(),
                label: "用户扩展目录".to_owned(),
                include_subdirs: Vec::new(),
            },
        ],
        skip_items: vec![
            "Cache".to_owned(),
            "GPUCache".to_owned(),
            "Code Cache".to_owned(),
            "Service Worker".to_owned(),
            "logs".to_owned(),
        ],
        machine_id: MachineIdSpec {
            spec_type: "file".to_owned(),
            path: "%APPDATA%/Trae/Service Provider/trae__internal_services.machineid".to_owned(),
            key: None,
            label: "Trae 机器码".to_owned(),
        },
        login_artifacts: vec![
            LoginArtifactSpec {
                artifact_type: "dir".to_owned(),
                path: "%APPDATA%/Trae/Service Provider/trae__internal_services_auth_cache".to_owned(),
                key: None,
            },
            LoginArtifactSpec {
                artifact_type: "dir".to_owned(),
                path: "%APPDATA%/Trae/Service Provider/trae__internal_services_oidc".to_owned(),
                key: None,
            },
        ],
        switch_flow: vec![
            FlowStep::EnsureNotRunningOrKill { timeout: 5000 },
            FlowStep::BackupCurrent,
            FlowStep::RestoreSnapshot,
            FlowStep::WriteMachineId,
        ],
        clear_login_flow: vec![
            FlowStep::EnsureNotRunningOrKill { timeout: 5000 },
            FlowStep::DeleteLoginArtifacts,
            FlowStep::ResetMachineId,
        ],
    };
    assert(texts(res.process_names@) =~= seq!["Trae.exe"@, "Trae"@]);
    assert(texts(res.exe_candidates@) =~= seq![
        "%LOCALAPPDATA%/Programs/Trae/Trae.exe"@,
        "%LOCALAPPDATA%/Trae/Trae.exe"@,
    ]);
    assert(texts(res.data_dirs@[0].include_subdirs@) =~= seq!["User"@]);
    assert(texts(res.skip_items@) =~= seq![
        "Cache"@,
        "GPUCache"@,
        "Code Cache"@,
        "Service Worker"@,
        "logs"@,
    ]);
    res
}

// ---------------------------------------------------------------------------
// Plugin manager
// ---------------------------------------------------------------------------

/// The value stored for `key` in a list of `(key, value)` pairs: that of
/// the first pair with this key.
pub open spec fn lookup_pair(entries: Seq<(String, String)>, key: Seq<char>) -> Option<Seq<char>>
    decreases entries.len(),
{
    if entries.len() == 0 {
        None
    } else if entries[0].0@ == key {
        Some(entries[0].1@)
    } else {
        lookup_pair(entries.drop_first(), key)
    }
}

/// The map that a list of `(key, value)` pairs stands for.
pub open spec fn pairs_map(entries: Seq<(String, String)>) -> Map<Seq<char>, Seq<char>> {
    Map::new(
        |k: Seq<char>| lookup_pair(entries, k) is Some,
        |k: Seq<char>| lookup_pair(entries, k)->0,
    )
}

/// No key occurs twice.
pub open spec fn unique_keys(entries: Seq<(String, String)>) -> bool {
    forall|i: int, j: int|
        0 <= i < j < entries.len() ==> #[trigger] entries[i].0@ != #[trigger] entries[j].0@
}

/// The map that inserting the pairs one after another, from the first, builds.
pub open spec fn inserted_map(pairs: Seq<(String, String)>) -> Map<Seq<char>, Seq<char>>
    decreases pairs.len(),
{
    if pairs.len() == 0 {
        Map::empty()
    } else {
        inserted_map(pairs.drop_last()).insert(pairs.last().0@, pairs.last().1@)
    }
}

proof fn lemma_lookup_update(
    entries: Seq<(String, String)>,
    i: int,
    k: String,
    v: String,
    q: Seq<char>,
)
    requires
        0 <= i < entries.len(),
        entries[i].0@ == k@,
        forall|j: int| 0 <= j < i ==> entries[j].0@ != k@,
    ensures
        lookup_pair(entries.update(i, (k, v)), q) == if q == k@ {
            Some(v@)
        } else {
            lookup_pair(entries, q)
        },
    decreases i,
{
    let updated = entries.update(i, (k, v));
    if i > 0 {
        lemma_lookup_update(entries.drop_first(), i - 1, k, v, q);
        assert(updated.drop_first() =~= entries.drop_first().update(i - 1, (k, v)));
        assert(updated[0] == entries[0]);
        assert(entries[0].0@ != k@);
    } else {
        assert(updated.drop_first() =~= entries.drop_first());
        assert(updated[0] == (k, v));
    }
}

proof fn lemma_lookup_push(entries: Seq<(String, String)>, k: String, v: String, q: Seq<char>)
    requires
        forall|j: int| 0 <= j < entries.len() ==> entries[j].0@ != k@,
    ensures
        lookup_pair(entries.push((k, v)), q) == if lookup_pair(entries, q) is Some {
            lookup_pair(entries, q)
        } else if q == k@ {
            Some(v@)
        } else {
            None
        },
    decreases entries.len(),
{
    let pushed = entries.push((k, v));
    if entries.len() > 0 {
        assert forall|j: int| 0 <= j < entries.drop_first().len() implies entries.drop_first()[j].0@
            != k@ by {
            assert(entries[j + 1].0@ != k@);
        }
        lemma_lookup_push(entries.drop_first(), k, v, q);
        assert(pushed.drop_first() =~= entries.drop_first().push((k, v)));
        assert(pushed[0] == entries[0]);
        if entries[0].0@ == q {
            assert(lookup_pair(pushed, q) == Some(entries[0].1@));
            assert(lookup_pair(entries, q) == Some(entries[0].1@));
        } else {
            assert(lookup_pair(pushed, q) == lookup_pair(pushed.drop_first(), q));
            assert(lookup_pair(entries, q) == lookup_pair(entries.drop_first(), q));
        }
    } else {
        assert(pushed.drop_first() =~= Seq::<(String, String)>::empty());
        assert(pushed[0] == (k, v));
    }
}

proof fn lemma_lookup_absent(entries: Seq<(String, String)>, k: Seq<char>)
    requires
        forall|j: int| 0 <= j < entries.len() ==> entries[j].0@ != k,
    ensures
        lookup_pair(entries, k) is None,
    decreases entries.len(),
{
    if entries.len() > 0 {
        lemma_lookup_absent(entries.drop_first(), k);
    }
}

/// Loading pairs with distinct keys one after another gives the map they
/// stand for; so reloading the overrides that `exe_overrides` hands out (as
/// the overrides file keeps them, in any order) gives the same overrides.
pub proof fn lemma_reload_saved_overrides(entries: Seq<(String, String)>)
    requires
        unique_keys(entries),
    ensures
        inserted_map(entries) == pairs_map(entries),
    decreases entries.len(),
{
    if entries.len() > 0 {
        let init = entries.drop_last();
        let last = entries.last();
        assert(unique_keys(init)) by {
            assert forall|i: int, j: int| 0 <= i < j < init.len() implies #[trigger] init[i].0@
                != #[trigger] init[j].0@ by {
                assert(init[i] == entries[i] && init[j] == entries[j]);
            }
        }
        lemma_reload_saved_overrides(init);
        assert forall|j: int| 0 <= j < init.len() implies init[j].0@ != last.0@ by {
            assert(init[j] == entries[j]);
            assert(entries[entries.len() - 1] == last);
        }
        assert(init.push(last) =~= entries);
        assert forall|q: Seq<char>|
            #![auto]
            lookup_pair(entries, q) == if lookup_pair(init, q) is Some {
                lookup_pair(init, q)
            } else if q == last.0@ {
                Some(last.1@)
            } else {
                None
            } by {
            lemma_lookup_push(init, last.0, last.1, q);
        }
        lemma_lookup_absent(init, last.0@);
        assert(pairs_map(entries) =~= pairs_map(init).insert(last.0@, last.1@));
    }
}

/// Sets `key` to `value` in a list of pairs with distinct keys.
fn insert_pair(entries: &mut Vec<(String, String)>, key: String, value: String)
    requires
        unique_keys(old(entries)@),
    ensures
        unique_keys(final(entries)@),
        pairs_map(final(entries)@) == pairs_map(old(entries)@).insert(key@, value@),
{
    let ghost before = entries@;
    let mut i: usize = 0;
    while i < entries.len()
        invariant
            entries@ == before,
            before == old(entries)@,
            unique_keys(before),
            i <= entries@.len(),
            forall|j: int| 0 <= j < i ==> entries@[j].0@ != key@,
        decreases entries@.len() - i,
    {
        if entries[i].0 == key {
            let ghost k = key;
            let ghost v = value;
            entries.set(i, (key, value));
            proof {
                assert(entries@ == before.update(i as int, (k, v)));
                assert(unique_keys(before));
                assert forall|a: int, b: int|
                    0 <= a < b < entries@.len() implies #[trigger] entries@[a].0@
                    != #[trigger] entries@[b].0@ by {
                    assert(before[a].0@ != before[b].0@);
                }
                assert forall|q: Seq<char>|
                    #![auto]
                    lookup_pair(entries@, q) == if q == k@ {
                        Some(v@)
                    } else {
                        lookup_pair(before, q)
                    } by {
                    lemma_lookup_update(before, i as int, k, v, q);
                }
                assert forall|q: Seq<char>|
                    #![auto]
                    pairs_map(entries@).contains_key(q) == pairs_map(before).insert(
                        k@,
                        v@,
                    ).contains_key(q) by {
                    lemma_lookup_update(before, i as int, k, v, q);
                }
                assert(pairs_map(entries@) =~= pairs_map(before).insert(k@, v@));
            }
            return;
        }
        i = i + 1;
    }
    let ghost k = key;
    let ghost v = value;
    entries.push((key, value));
    proof {
        assert forall|q: Seq<char>|
            #![auto]
            lookup_pair(entries@, q) == if lookup_pair(before, q) is Some {
                lookup_pair(before, q)
            } else if q == k@ {
                Some(v@)
            } else {
                None
            } by {
            lemma_lookup_push(before, k, v, q);
        }
        lemma_lookup_absent(before, k@);
        assert(pairs_map(entries@) =~= pairs_map(before).insert(k@, v@));
    }
}

/// A plugin as the plugin list shows it.
#[derive(Clone, Debug)]
pub struct PluginInfo {
    pub id: String,
    pub name: String,
    pub version: String,
    pub icon: String,
    pub is_builtin: bool,
    /// Whether an executable path is known.
    pub has_paths: bool,
    /// The executable path, where one is known.
    pub exe_path: Option<String>,
}

/// A plugin that was loaded for the plugin list, with the results of probing
/// its (expanded) executable candidates, in their order.
pub struct LoadedPlugin {
    pub config: PluginConfig,
    pub is_builtin: bool,
    pub candidate_exists: Vec<bool>,
}

/// A plugin read for the plugin list, marked as built in or not.
pub open spec fn loaded_as(read: (PluginConfig, Vec<bool>), is_builtin: bool) -> LoadedPlugin {
    LoadedPlugin { config: read.0, is_builtin, candidate_exists: read.1 }
}

/// The user plugins that parsed, in order, marked as not built in.
pub open spec fn parsed_user_plugins(user: Seq<Option<(PluginConfig, Vec<bool>)>>) -> Seq<
    LoadedPlugin,
>
    decreases user.len(),
{
    if user.len() == 0 {
        Seq::empty()
    } else {
        let rest = parsed_user_plugins(user.drop_last());
        match user.last() {
            Some(read) => rest.push(loaded_as(read, false)),
            None => rest,
        }
    }
}

/// The plugins of the plugin list: the built-in plugin first, where it
/// loaded, then the user plugins that parsed, in the order of their files.
pub open spec fn assembled_plugins(
    builtin: Option<(PluginConfig, Vec<bool>)>,
    user: Seq<Option<(PluginConfig, Vec<bool>)>>,
) -> Seq<LoadedPlugin> {
    match builtin {
        Some(read) => seq![loaded_as(read, true)] + parsed_user_plugins(user),
        None => parsed_user_plugins(user),
    }
}

proof fn lemma_parsed_user_not_builtin(user: Seq<Option<(PluginConfig, Vec<bool>)>>)
    ensures
        forall|i: int|
            0 <= i < parsed_user_plugins(user).len() ==> !(#[trigger] parsed_user_plugins(
                user,
            )[i]).is_builtin,
    decreases user.len(),
{
    if user.len() > 0 {
        lemma_parsed_user_not_builtin(user.drop_last());
    }
}

/// In the plugin list the built-in plugin comes first, and only where it
/// loaded; every other entry is a user plugin.
pub proof fn lemma_builtin_first(
    builtin: Option<(PluginConfig, Vec<bool>)>,
    user: Seq<Option<(PluginConfig, Vec<bool>)>>,
)
    ensures
        (builtin is Some) == (assembled_plugins(builtin, user).len() > 0 && assembled_plugins(
            builtin,
            user,
        )[0].is_builtin),
        forall|i: int|
            0 <= i < assembled_plugins(builtin, user).len() && #[trigger] assembled_plugins(
                builtin,
                user,
            )[i].is_builtin ==> i == 0,
{
    lemma_parsed_user_not_builtin(user);
    let p = parsed_user_plugins(user);
    match builtin {
        Some(read) => {
            let a = assembled_plugins(builtin, user);
            assert forall|i: int| 0 < i < a.len() implies !a[i].is_builtin by {
                assert(a[i] == p[i - 1]);
            }
        },
        None => {},
    }
}

/// The plugins of the plugin list, from the built-in plugin (`None` where it
/// did not load) and one entry per user plugin file (`None` where it did not
/// parse), each with the probes of its executable candidates.
pub fn assemble_plugins(
    builtin: Option<(PluginConfig, Vec<bool>)>,
    user: Vec<Option<(PluginConfig, Vec<bool>)>>,
) -> (res: Vec<LoadedPlugin>)
    ensures
        res@ == assembled_plugins(builtin, user@),
{
    let ghost user0 = user@;
    let mut res: Vec<LoadedPlugin> = Vec::new();
    match builtin {
        Some(read) => res.push(LoadedPlugin { config: read.0, is_builtin: true, candidate_exists: read.1 }),
        None => {},
    }
    let ghost head = res@;
    let mut rest = user;
    let n = rest.len();
    let mut i: usize = 0;
    while i < n
        invariant
            n == user0.len(),
            i <= n,
            rest@ == user0.skip(i as int),
            res@ == head + parsed_user_plugins(user0.take(i as int)),
        decreases n - i,
    {
        let item = rest.remove(0);
        proof {
            assert(item == user0[i as int]);
            assert(rest@ =~= user0.skip(i + 1));
            assert(user0.take(i + 1).drop_last() =~= user0.take(i as int));
            assert(user0.take(i + 1).last() == user0[i as int]);
        }
        match item {
            Some(read) => {
                res.push(LoadedPlugin { config: read.0, is_builtin: false, candidate_exists: read.1 });
                proof {
                    assert(res@ =~= head + parsed_user_plugins(user0.take(i + 1)));
                }
            },
            None => {
                assert(res@ =~= head + parsed_user_plugins(user0.take(i + 1)));
            },
        }
        i = i + 1;
    }
    assert(user0.take(n as int) =~= user0);
    res
}

/// The text of an optional string.
pub open spec fn opt_text(o: Option<String>) -> Option<Seq<char>> {
    match o {
        Some(s) => Some(s@),
        None => None,
    }
}

/// The expansion of the first candidate at or after `i` that exists.
pub open spec fn first_existing(
    candidates: Seq<String>,
    exists: Seq<bool>,
    env: EnvValues,
    i: int,
) -> Option<Seq<char>>
    decreases candidates.len() - i,
{
    if i < 0 || i >= candidates.len() {
        None
    } else if probe(exists, i) {
        Some(expand_env_spec(candidates[i]@, env))
    } else {
        first_existing(candidates, exists, env, i + 1)
    }
}

/// Manages the plugins of the application and the user's executable paths.
pub struct PluginManager {
    plugins_dir: String,
    /// plugin id -> executable path chosen by the user
    exe_overrides: Vec<(String, String)>,
}

impl PluginManager {
    #[verifier::type_invariant]
    spec fn inv(self) -> bool {
        unique_keys(self.exe_overrides@)
    }

    /// The executable paths that the user chose, by plugin id.
    pub closed spec fn overrides(&self) -> Map<Seq<char>, Seq<char>> {
        pairs_map(self.exe_overrides@)
    }

    /// The plugins directory.
    pub closed spec fn dir(&self) -> Seq<char> {
        self.plugins_dir@
    }

    /// The executable path of a plugin: the user's choice where there is one,
    /// otherwise the expansion of the first candidate that exists.
    pub open spec fn exe_path_spec(
        &self,
        cfg: PluginConfig,
        env: EnvValues,
        candidate_exists: Seq<bool>,
    ) -> Option<Seq<char>> {
        if self.overrides().contains_key(cfg.id@) {
            Some(self.overrides()[cfg.id@])
        } else {
            first_existing(cfg.exe_candidates@, candidate_exists, env, 0)
        }
    }

    /// A manager for the plugins in `plugins_dir`, with no user choices yet.
    pub fn new(plugins_dir: String) -> (res: Self)
        ensures
            res.dir() == plugins_dir@,
            res.overrides() == Map::<Seq<char>, Seq<char>>::empty(),
    {
        let res = PluginManager { plugins_dir, exe_overrides: Vec::new() };
        assert(res.overrides() =~= Map::<Seq<char>, Seq<char>>::empty());
        res
    }

    /// A path that the user recorded for a plugin is its executable path,
    /// whatever its candidates and the environment are.
    pub proof fn lemma_recorded_path_wins(
        &self,
        cfg: PluginConfig,
        env: EnvValues,
        candidate_exists: Seq<bool>,
        path: Seq<char>,
    )
        requires
            self.overrides().contains_key(cfg.id@),
            self.overrides()[cfg.id@] == path,
        ensures
            self.exe_path_spec(cfg, env, candidate_exists) == Some(path),
    {
    }

    /// The plugins directory.
    pub fn plugins_dir(&self) -> (res: &String)
        ensures
            res@ == self.dir(),
    {
        &self.plugins_dir
    }

    /// The user's choices as `(plugin id, executable path)` pairs, each plugin
    /// once.
    pub fn exe_overrides(&self) -> (res: &Vec<(String, String)>)
        ensures
            unique_keys(res@),
            pairs_map(res@) == self.overrides(),
    {
        proof {
            use_type_invariant(self);
        }
        &self.exe_overrides
    }

    /// Takes up the user's choices as read from the overrides file: when the
    /// file exists (`Some`), they replace the current ones, later pairs
    /// winning over earlier ones with the same id; when it does not, nothing
    /// changes.
    pub fn reload(&mut self, loaded: Option<Vec<(String, String)>>)
        ensures
            final(self).dir() == old(self).dir(),
            match loaded {
                Some(pairs) => final(self).overrides() == inserted_map(pairs@),
                None => final(self).overrides() == old(self).overrides(),
            },
    {
        if let Some(pairs) = loaded {
            let mut entries: Vec<(String, String)> = Vec::new();
            assert(pairs_map(entries@) =~= inserted_map(pairs@.take(0)));
            for i in 0..pairs.len()
                invariant
                    unique_keys(entries@),
                    pairs_map(entries@) == inserted_map(pairs@.take(i as int)),
            {
                let k = pairs[i].0.clone();
                let v = pairs[i].1.clone();
                assert(pairs@.take(i + 1).drop_last() =~= pairs@.take(i as int));
                insert_pair(&mut entries, k, v);
            }
            assert(pairs@.take(pairs@.len() as int) =~= pairs@);
            self.exe_overrides = entries;
        }
    }

    /// Records the user's executable path for a plugin.
    pub fn set_exe_path(&mut self, plugin_id: &str, exe_path: &str)
        ensures
            final(self).dir() == old(self).dir(),
            final(self).overrides() == old(self).overrides().insert(plugin_id@, exe_path@),
    {
        proof {
            use_type_invariant(&*self);
        }
        let mut entries: Vec<(String, String)> = Vec::new();
        std::mem::swap(&mut entries, &mut self.exe_overrides);
        insert_pair(&mut entries, plugin_id.to_owned(), exe_path.to_owned());
        self.exe_overrides = entries;
    }

    /// The plugin with this id: the one read from its file in the plugins
    /// directory where that file exists (`file` is `Some` with what reading
    /// and parsing it gave), otherwise the built-in plugin for its id, and
    /// `NotFound` for any other id.
    pub fn get(&self, plugin_id: &str, file: Option<Result<PluginConfig, PluginError>>) -> (res:
        Result<PluginConfig, PluginError>)
        ensures
            match file {
                Some(r) => res == r,
                None => if plugin_id@ == builtin_id() {
                    res matches Ok(cfg) && is_builtin_trae_cn(cfg)
                } else {
                    res matches Err(PluginError::NotFound(id)) && id@ == plugin_id@
                },
            },
    {
        match file {
            Some(r) => r,
            None => {
                if str_eq(plugin_id, "trae-cn") {
                    Ok(builtin_trae_cn())
                } else {
                    Err(PluginError::NotFound(plugin_id.to_owned()))
                }
            },
        }
    }

    /// The executable path of a plugin (see `exe_path_spec`); `candidate_exists`
    /// tells, for each candidate in order, whether its expansion exists.
    pub fn get_exe_path(&self, cfg: &PluginConfig, env: &EnvValues, candidate_exists: &Vec<bool>) -> (res:
        Option<String>)
        ensures
            opt_text(res) == self.exe_path_spec(*cfg, *env, candidate_exists@),
    {
        proof {
            use_type_invariant(self);
        }
        let mut i: usize = 0;
        assert(self.exe_overrides@.skip(0) =~= self.exe_overrides@);
        while i < self.exe_overrides.len()
            invariant
                i <= self.exe_overrides@.len(),
                lookup_pair(self.exe_overrides@.skip(i as int), cfg.id@) == lookup_pair(
                    self.exe_overrides@,
                    cfg.id@,
                ),
            decreases self.exe_overrides@.len() - i,
        {
            assert(self.exe_overrides@.skip(i as int).drop_first() =~= self.exe_overrides@.skip(
                i + 1,
            ));
            if self.exe_overrides[i].0 == cfg.id {
                return Some(self.exe_overrides[i].1.clone());
            }
            i = i + 1;
        }
        let mut j: usize = 0;
        while j < cfg.exe_candidates.len()
            invariant
                j <= cfg.exe_candidates@.len(),
                lookup_pair(self.exe_overrides@, cfg.id@) is None,
                first_existing(cfg.exe_candidates@, candidate_exists@, *env, j as int)
                    == first_existing(cfg.exe_candidates@, candidate_exists@, *env, 0),
            decreases cfg.exe_candidates@.len() - j,
        {
            if j < candidate_exists.len() && candidate_exists[j] {
                return Some(expand_env(cfg.exe_candidates[j].as_str(), env));
            }
            j = j + 1;
        }
        None
    }

    /// The list entry of a loaded plugin.
    pub open spec fn info_spec(&self, env: EnvValues, loaded: LoadedPlugin, info: PluginInfo) -> bool {
        &&& info.id@ == loaded.config.id@
        &&& info.name@ == loaded.config.name@
        &&& info.version@ == loaded.config.version@
        &&& info.icon@ == loaded.config.icon@
        &&& info.is_builtin == loaded.is_builtin
        &&& opt_text(info.exe_path) == self.exe_path_spec(
            loaded.config,
            env,
            loaded.candidate_exists@,
        )
        &&& info.has_paths == (info.exe_path is Some)
    }

    /// The plugin list: one entry per loaded plugin, in order.
    pub fn list(&self, env: &EnvValues, loaded: &Vec<LoadedPlugin>) -> (res: Vec<PluginInfo>)
        ensures
            res@.len() == loaded@.len(),
            forall|i: int| 0 <= i < loaded@.len() ==> self.info_spec(*env, loaded@[i], #[trigger] res@[i]),
    {
        let mut res: Vec<PluginInfo> = Vec::new();
        for i in 0..loaded.len()
            invariant
                res@.len() == i,
                forall|j: int| 0 <= j < i ==> self.info_spec(*env, loaded@[j], #[trigger] res@[j]),
        {
            let item = &loaded[i];
            let exe_path = self.get_exe_path(&item.config, env, &item.candidate_exists);
            let has_paths = exe_path.is_some();
            res.push(
                PluginInfo {
                    id: item.config.id.clone(),
                    name: item.config.name.clone(),
                    version: item.config.version.clone(),
                    icon: item.config.icon.clone(),
                    is_builtin: item.is_builtin,
                    has_paths,
                    exe_path,
                },
            );
        }
        res
    }

    /// The plugin list from what was read: an entry for the built-in plugin
    /// first, where it loaded, then one for each user plugin file that
    /// parsed, in the order of the files.
    pub fn list_read(
        &self,
        env: &EnvValues,
        builtin: Option<(PluginConfig, Vec<bool>)>,
        user: Vec<Option<(PluginConfig, Vec<bool>)>>,
    ) -> (res: Vec<PluginInfo>)
        ensures
            res@.len() == assembled_plugins(builtin, user@).len(),
            forall|i: int|
                0 <= i < res@.len() ==> self.info_spec(
                    *env,
                    assembled_plugins(builtin, user@)[i],
                    #[trigger] res@[i],
                ),
    {
        let loaded = assemble_plugins(builtin, user);
        self.list(env, &loaded)
    }
}

// ---------------------------------------------------------------------------
// Plugin files
// ---------------------------------------------------------------------------

/// The position of the last `.` in a file name, or -1.
pub open spec fn last_dot(name: Seq<char>) -> int
    decreases name.len(),
{
    if name.len() == 0 {
        -1
    } else if name.last() == '.' {
        name.len() - 1
    } else {
        last_dot(name.drop_last())
    }
}

/// The id of the user plugin that a file in the plugins directory holds:
/// the file's stem where its extension is `json` (the text after the last
/// dot, with a non-empty stem before it), unless the stem is that of the
/// overrides file or of the built-in plugin.
pub open spec fn plugin_file_stem(name: Seq<char>) -> Option<Seq<char>> {
    let d = last_dot(name);
    if name == ".."@ || d <= 0 || name.skip(d + 1) != "json"@ {
        None
    } else if name.take(d) == "exe-overrides"@ || name.take(d) == builtin_id() {
        None
    } else {
        Some(name.take(d))
    }
}

/// The id of the user plugin in a file of the plugins directory, if the
/// file holds one (see `plugin_file_stem`).
pub fn user_plugin_stem(file_name: &str) -> (res: Option<String>)
    ensures
        opt_text(res) == plugin_file_stem(file_name@),
{
    let cs = crate::text::chars_of(file_name);
    let mut i: usize = cs.len();
    assert(file_name@.take(cs@.len() as int) =~= file_name@);
    while i > 0
        invariant
            cs@ == file_name@,
            i <= cs@.len(),
            last_dot(file_name@) == last_dot(file_name@.take(i as int)),
        ensures
            i <= cs@.len(),
            last_dot(file_name@) == last_dot(file_name@.take(i as int)),
            i == 0 || file_name@[i - 1] == '.',
        decreases i,
    {
        assert(file_name@.take(i as int).drop_last() =~= file_name@.take(i - 1));
        if cs[i - 1] == '.' {
            break;
        }
        i = i - 1;
    }
    proof {
        if i > 0 {
            assert(last_dot(file_name@.take(i as int)) == i - 1);
        } else {
            assert(file_name@.take(0) =~= Seq::<char>::empty());
        }
    }
    if str_eq(file_name, "..") || i <= 1 {
        return None;
    }
    let d: usize = i - 1;
    let mut ext = String::new();
    let mut k: usize = d + 1;
    while k < cs.len()
        invariant
            cs@ == file_name@,
            d + 1 <= k <= cs@.len(),
            ext@ == file_name@.subrange(d + 1, k as int),
        decreases cs@.len() - k,
    {
        crate::text::push_char(&mut ext, cs[k]);
        assert(file_name@.subrange(d + 1, k as int).push(file_name@[k as int]) =~= file_name@.subrange(
            d + 1,
            k + 1,
        ));
        k = k + 1;
    }
    assert(ext@ =~= file_name@.skip(d + 1));
    if !str_eq(ext.as_str(), "json") {
        return None;
    }
    let mut stem = String::new();
    let mut k: usize = 0;
    while k < d
        invariant
            cs@ == file_name@,
            d < cs@.len(),
            k <= d,
            stem@ == file_name@.take(k as int),
        decreases d - k,
    {
        crate::text::push_char(&mut stem, cs[k]);
        assert(file_name@.take(k as int).push(file_name@[k as int]) =~= file_name@.take(k + 1));
        k = k + 1;
    }
    if str_eq(stem.as_str(), "exe-overrides") || str_eq(stem.as_str(), "trae-cn") {
        None
    } else {
        Some(stem)
    }
}

} // verus!
