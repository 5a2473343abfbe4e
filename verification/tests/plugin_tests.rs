use appdatahub::plugin::assemble_plugins;
use appdatahub::plugin::builtin_trae_cn;
use appdatahub::plugin::builtin_trae_cn_json;
use appdatahub::plugin::default_timeout;
use appdatahub::plugin::expand_env;
use appdatahub::plugin::user_plugin_stem;
use appdatahub::plugin::EnvValues;
use appdatahub::plugin::FlowStep;
use appdatahub::plugin::LoadedPlugin;
use appdatahub::plugin::PluginError;
use appdatahub::PluginManager;
use serde_json::Value;

fn env_all() -> EnvValues {
    EnvValues {
        appdata: Some("/roaming".to_string()),
        userprofile: Some("/home/u".to_string()),
        localappdata: Some("/local".to_string()),
        temp: Some("/tmp".to_string()),
        programfiles: Some("/pf".to_string()),
        programfiles_x86: Some("/pf86".to_string()),
    }
}

fn env_none() -> EnvValues {
    EnvValues {
        appdata: None,
        userprofile: None,
        localappdata: None,
        temp: None,
        programfiles: None,
        programfiles_x86: None,
    }
}

#[test]
fn expand_env_replaces_every_variable() {
    let env = env_all();
    assert_eq!(expand_env("%APPDATA%/Trae", &env), "/roaming/Trae");
    assert_eq!(expand_env("%USERPROFILE%/.trae", &env), "/home/u/.trae");
    assert_eq!(expand_env("%LOCALAPPDATA%/x;%TEMP%", &env), "/local/x;/tmp");
    assert_eq!(expand_env("%PROGRAMFILES%|%PROGRAMFILES(X86)%", &env), "/pf|/pf86");
}

#[test]
fn expand_env_leaves_unset_and_unknown_variables() {
    assert_eq!(expand_env("%APPDATA%/Trae", &env_none()), "%APPDATA%/Trae");
    assert_eq!(expand_env("%HOME%/x", &env_all()), "%HOME%/x");
    assert_eq!(expand_env("plain/path", &env_all()), "plain/path");
}

fn strings(v: &Value) -> Vec<String> {
    v.as_array().unwrap().iter().map(|s| s.as_str().unwrap().to_string()).collect()
}

fn step_of(v: &Value) -> FlowStep {
    match v["type"].as_str().unwrap() {
        "ensure_not_running_or_kill" => FlowStep::EnsureNotRunningOrKill {
            timeout: v.get("timeout").and_then(|t| t.as_u64()).unwrap_or(default_timeout()),
        },
        "backup_current" => FlowStep::BackupCurrent,
        "restore_snapshot" => FlowStep::RestoreSnapshot,
        "write_machine_id" => FlowStep::WriteMachineId,
        "reset_machine_id" => FlowStep::ResetMachineId,
        "regenerate_machine_id" => FlowStep::RegenerateMachineId,
        "delete_login_artifacts" => FlowStep::DeleteLoginArtifacts,
        "launch_exe" => FlowStep::LaunchExe,
        "sleep" => FlowStep::Sleep { ms: v["ms"].as_u64().unwrap() },
        other => panic!("unknown step {}", other),
    }
}

fn steps(v: &Value) -> Vec<FlowStep> {
    v.as_array().unwrap().iter().map(step_of).collect()
}

#[test]
fn builtin_value_matches_builtin_json() {
    let json: Value = serde_json::from_str(builtin_trae_cn_json()).unwrap();
    let cfg = builtin_trae_cn();
    assert_eq!(cfg.id, json["id"].as_str().unwrap());
    assert_eq!(cfg.name, json["name"].as_str().unwrap());
    assert_eq!(cfg.version, json["version"].as_str().unwrap());
    assert_eq!(cfg.icon, json["icon"].as_str().unwrap());
    assert_eq!(cfg.homepage, json["homepage"].as_str().unwrap());
    assert_eq!(cfg.process_names, strings(&json["process_names"]));
    assert_eq!(cfg.exe_candidates, strings(&json["exe_candidates"]));
    assert_eq!(cfg.skip_items, strings(&json["skip_items"]));
    let dirs = json["data_dirs"].as_array().unwrap();
    assert_eq!(cfg.data_dirs.len(), dirs.len());
    for (d, j) in cfg.data_dirs.iter().zip(dirs) {
        assert_eq!(d.path, j["path"].as_str().unwrap());
        assert_eq!(d.label, j["label"].as_str().unwrap());
        assert_eq!(d.include_subdirs, strings(&j["include_subdirs"]));
    }
    assert_eq!(cfg.machine_id.spec_type, json["machine_id"]["type"].as_str().unwrap());
    assert_eq!(cfg.machine_id.path, json["machine_id"]["path"].as_str().unwrap());
    assert_eq!(cfg.machine_id.label, json["machine_id"]["label"].as_str().unwrap());
    assert!(cfg.machine_id.key.is_none() && json["machine_id"].get("key").is_none());
    let arts = json["login_artifacts"].as_array().unwrap();
    assert_eq!(cfg.login_artifacts.len(), arts.len());
    for (a, j) in cfg.login_artifacts.iter().zip(arts) {
        assert_eq!(a.artifact_type, j["type"].as_str().unwrap());
        assert_eq!(a.path, j["path"].as_str().unwrap());
        assert!(a.key.is_none());
    }
    assert_eq!(cfg.switch_flow, steps(&json["switch_flow"]));
    assert_eq!(cfg.clear_login_flow, steps(&json["clear_login_flow"]));
    assert_eq!(default_timeout(), 5000);
}

#[test]
fn get_prefers_file_then_builtin_then_not_found() {
    let mgr = PluginManager::new("/plugins".to_string());
    let cfg = mgr.get("trae-cn", None).unwrap();
    assert_eq!(cfg.name, "Trae CN");
    match mgr.get("other", None) {
        Err(PluginError::NotFound(id)) => assert_eq!(id, "other"),
        _ => panic!("expected NotFound"),
    }
    let mut custom = builtin_trae_cn();
    custom.name = "Custom".to_string();
    assert_eq!(mgr.get("trae-cn", Some(Ok(custom))).unwrap().name, "Custom");
    match mgr.get("x", Some(Err(PluginError::Serde("bad".to_string())))) {
        Err(PluginError::Serde(m)) => assert_eq!(m, "bad"),
        _ => panic!("expected Serde"),
    }
}

#[test]
fn exe_path_override_wins_then_first_existing_candidate() {
    let mut mgr = PluginManager::new("/plugins".to_string());
    assert_eq!(mgr.plugins_dir(), "/plugins");
    let cfg = builtin_trae_cn();
    let env = env_all();
    assert_eq!(mgr.get_exe_path(&cfg, &env, &vec![false, false]), None);
    assert_eq!(
        mgr.get_exe_path(&cfg, &env, &vec![false, true]),
        Some("/local/Trae/Trae.exe".to_string())
    );
    assert_eq!(
        mgr.get_exe_path(&cfg, &env, &vec![true, true]),
        Some("/local/Programs/Trae/Trae.exe".to_string())
    );
    mgr.set_exe_path("trae-cn", "D:/Trae/Trae.exe");
    assert_eq!(
        mgr.get_exe_path(&cfg, &env, &vec![true, true]),
        Some("D:/Trae/Trae.exe".to_string())
    );
    mgr.set_exe_path("trae-cn", "E:/Trae.exe");
    assert_eq!(mgr.exe_overrides().len(), 1);
    assert_eq!(mgr.get_exe_path(&cfg, &env, &vec![]), Some("E:/Trae.exe".to_string()));
}

#[test]
fn reload_replaces_overrides_last_pair_wins() {
    let mut mgr = PluginManager::new("/plugins".to_string());
    mgr.set_exe_path("a", "1");
    mgr.reload(None);
    assert_eq!(mgr.exe_overrides().clone(), vec![("a".to_string(), "1".to_string())]);
    mgr.reload(Some(vec![
        ("b".to_string(), "2".to_string()),
        ("c".to_string(), "3".to_string()),
        ("b".to_string(), "4".to_string()),
    ]));
    let mut got = mgr.exe_overrides().clone();
    got.sort();
    assert_eq!(
        got,
        vec![("b".to_string(), "4".to_string()), ("c".to_string(), "3".to_string())]
    );
    mgr.reload(Some(vec![]));
    assert!(mgr.exe_overrides().is_empty());
}

#[test]
fn list_builds_one_entry_per_loaded_plugin() {
    let mut mgr = PluginManager::new("/plugins".to_string());
    let env = env_all();
    let mut user = builtin_trae_cn();
    user.id = "user-app".to_string();
    user.name = "User App".to_string();
    mgr.set_exe_path("user-app", "/opt/user");
    let loaded = vec![
        LoadedPlugin { config: builtin_trae_cn(), is_builtin: true, candidate_exists: vec![false, false] },
        LoadedPlugin { config: user, is_builtin: false, candidate_exists: vec![] },
    ];
    let infos = mgr.list(&env, &loaded);
    assert_eq!(infos.len(), 2);
    assert_eq!(infos[0].id, "trae-cn");
    assert!(infos[0].is_builtin);
    assert!(!infos[0].has_paths);
    assert_eq!(infos[0].exe_path, None);
    assert_eq!(infos[1].id, "user-app");
    assert_eq!(infos[1].name, "User App");
    assert!(!infos[1].is_builtin);
    assert!(infos[1].has_paths);
    assert_eq!(infos[1].exe_path, Some("/opt/user".to_string()));
}

#[test]
fn list_read_puts_builtin_first_and_skips_unparsed_files() {
    let mut mgr = PluginManager::new("/plugins".to_string());
    let env = env_all();
    let mut a = builtin_trae_cn();
    a.id = "app-a".to_string();
    let mut b = builtin_trae_cn();
    b.id = "app-b".to_string();
    mgr.set_exe_path("app-b", "/opt/b");
    let infos = mgr.list_read(
        &env,
        Some((builtin_trae_cn(), vec![false, false])),
        vec![Some((a.clone(), vec![])), None, Some((b.clone(), vec![]))],
    );
    let ids: Vec<&str> = infos.iter().map(|i| i.id.as_str()).collect();
    assert_eq!(ids, vec!["trae-cn", "app-a", "app-b"]);
    assert!(infos[0].is_builtin);
    assert!(!infos[1].is_builtin && !infos[2].is_builtin);
    assert_eq!(infos[2].exe_path, Some("/opt/b".to_string()));
    assert!(infos[2].has_paths);
    // the built-in plugin did not load: only the user plugins that parsed
    let infos = mgr.list_read(&env, None, vec![None, Some((a.clone(), vec![]))]);
    assert_eq!(infos.len(), 1);
    assert_eq!(infos[0].id, "app-a");
    assert!(!infos[0].is_builtin);
    let loaded = assemble_plugins(None, vec![None, None]);
    assert!(loaded.is_empty());
    let loaded = assemble_plugins(Some((b, vec![true])), vec![]);
    assert_eq!(loaded.len(), 1);
    assert!(loaded[0].is_builtin);
    assert_eq!(loaded[0].candidate_exists, vec![true]);
}

#[test]
fn user_plugin_stem_cases() {
    assert_eq!(user_plugin_stem("cursor.json"), Some("cursor".to_string()));
    assert_eq!(user_plugin_stem("a.b.json"), Some("a.b".to_string()));
    assert_eq!(user_plugin_stem("trae-cn.json"), None);
    assert_eq!(user_plugin_stem("exe-overrides.json"), None);
    assert_eq!(user_plugin_stem(".json"), None);
    assert_eq!(user_plugin_stem("notes.txt"), None);
    assert_eq!(user_plugin_stem("json"), None);
    assert_eq!(user_plugin_stem("x.JSON"), None);
    assert_eq!(user_plugin_stem(".."), None);
}

#[test]
fn plugin_error_messages() {
    assert_eq!(PluginError::NotFound("x".into()).message(), "插件不存在: x");
    assert_eq!(PluginError::NoExePath("x".into()).message(), "插件路径未配置: x");
    assert_eq!(PluginError::FlowFailed("y".into()).message(), "流程执行失败: y");
    assert_eq!(PluginError::Io("e".into()).message(), "IO 错误: e");
    assert_eq!(PluginError::Serde("e".into()).message(), "序列化错误: e");
    assert_eq!(
        PluginError::Config(appdatahub::config::ConfigError::NotFound("/p".into())).message(),
        "配置错误: 路径不存在: /p"
    );
}
