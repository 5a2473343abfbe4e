use appdatahub::config::should_skip;
use appdatahub::config::ConfigError;
use appdatahub::config::FsOp;
use appdatahub::config::ResolvedDataDir;
use appdatahub::plugin::EnvValues;

fn no_env() -> EnvValues {
    EnvValues {
        appdata: None,
        userprofile: None,
        localappdata: None,
        temp: None,
        programfiles: None,
        programfiles_x86: None,
    }
}

fn names(v: &[&str]) -> Vec<String> {
    v.iter().map(|s| s.to_string()).collect()
}

#[test]
fn test_skip_items() {
    assert!(should_skip("Cache", &["Cache".into()]));
    assert!(should_skip("cache", &["Cache".into()]));
    assert!(!should_skip("User", &["Cache".into()]));
}

#[test]
fn skip_items_empty_list_and_mixed_case() {
    assert!(!should_skip("Cache", &[]));
    assert!(should_skip("GPUCACHE", &names(&["logs", "GPUCache"])));
    assert!(!should_skip("GPUCache2", &names(&["logs", "GPUCache"])));
}

#[test]
fn resolve_expands_path_and_copies_fields() {
    let mut env = no_env();
    env.appdata = Some("C:/Users/u/AppData/Roaming".to_string());
    let r = ResolvedDataDir::resolve("%APPDATA%/Trae", "用户 配置", &names(&["User"]), &env);
    assert_eq!(r.raw_path, "%APPDATA%/Trae");
    assert_eq!(r.expanded, "C:/Users/u/AppData/Roaming/Trae");
    assert_eq!(r.label, "用户 配置");
    assert_eq!(r.include_subdirs, names(&["User"]));
}

#[test]
fn backup_plan_whole_dir_and_subdirs() {
    let env = no_env();
    let whole = ResolvedDataDir::resolve("/d", "l", &[], &env);
    assert_eq!(whole.backup_plan(&vec![]), vec![None]);
    let some = ResolvedDataDir::resolve("/d", "l", &names(&["A", "B", "C"]), &env);
    assert_eq!(
        some.backup_plan(&vec![true, false, true]),
        vec![Some("A".to_string()), Some("C".to_string())]
    );
    // missing probes count as absent
    assert_eq!(some.backup_plan(&vec![false]), Vec::<Option<String>>::new());
}

fn show(ops: &[FsOp]) -> Vec<String> {
    ops.iter()
        .map(|op| match op {
            FsOp::RemoveAll(s) => format!("rm {:?}", s),
            FsOp::CreateAll(s) => format!("mk {:?}", s),
            FsOp::CopyAll(s) => format!("cp {:?}", s),
        })
        .collect()
}

#[test]
fn restore_plan_cases() {
    let env = no_env();
    let whole = ResolvedDataDir::resolve("/d", "l", &[], &env);
    assert_eq!(
        show(&whole.restore_plan(true, &vec![], &vec![])),
        vec!["rm None", "mk None", "cp None"]
    );
    assert_eq!(show(&whole.restore_plan(false, &vec![], &vec![])), vec!["mk None", "cp None"]);
    let subs = ResolvedDataDir::resolve("/d", "l", &names(&["User", "Ext"]), &env);
    assert_eq!(
        show(&subs.restore_plan(true, &vec![true, true], &vec![false, true])),
        vec![
            "rm Some(\"User\")",
            "rm Some(\"Ext\")",
            "mk Some(\"Ext\")",
            "cp Some(\"Ext\")"
        ]
    );
    assert_eq!(
        show(&subs.restore_plan(false, &vec![], &vec![true, false])),
        vec!["mk None", "mk Some(\"User\")", "cp Some(\"User\")"]
    );
}

#[test]
fn search_dirs_cases() {
    let env = no_env();
    assert_eq!(ResolvedDataDir::resolve("/d", "l", &[], &env).search_dirs(), vec![None]);
    assert_eq!(
        ResolvedDataDir::resolve("/d", "l", &names(&["a", "b"]), &env).search_dirs(),
        vec![Some("a".to_string()), Some("b".to_string())]
    );
}

#[test]
fn config_error_messages() {
    assert_eq!(ConfigError::Io("x".into()).message(), "IO 错误: x");
    assert_eq!(ConfigError::NotFound("/p".into()).message(), "路径不存在: /p");
    assert_eq!(ConfigError::Parse("bad".into()).message(), "解析错误: bad");
}
