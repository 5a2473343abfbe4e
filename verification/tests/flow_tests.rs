use appdatahub::account::Account;
use appdatahub::flow::artifact_removal;
use appdatahub::flow::backup_name;
use appdatahub::flow::generate_machine_id;
use appdatahub::flow::is_app_running;
use appdatahub::flow::kill_step;
use appdatahub::flow::launch_error;
use appdatahub::flow::machine_id_from_file;
use appdatahub::flow::new_telemetry_entries;
use appdatahub::flow::reset_registry_location;
use appdatahub::flow::step_label;
use appdatahub::flow::telemetry_entries;
use appdatahub::flow::telemetry_machine_id;
use appdatahub::flow::timeout_error;
use appdatahub::flow::updated_storage_json;
use appdatahub::flow::FlowContext;
use appdatahub::flow::FlowRun;
use appdatahub::flow::FlowSettings;
use appdatahub::flow::KillStep;
use appdatahub::flow::MachineIdStorage;
use appdatahub::flow::Removal;
use appdatahub::flow::SnapshotDir;
use appdatahub::plugin::builtin_trae_cn;
use appdatahub::plugin::EnvValues;
use appdatahub::plugin::FlowStep;
use appdatahub::plugin::PluginError;

fn names(v: &[&str]) -> Vec<String> {
    v.iter().map(|s| s.to_string()).collect()
}

#[test]
fn step_labels() {
    assert_eq!(
        step_label(&FlowStep::EnsureNotRunningOrKill { timeout: 5000 }),
        "ensure_not_running_or_kill(5000ms)"
    );
    assert_eq!(step_label(&FlowStep::Sleep { ms: 0 }), "sleep(0ms)");
    assert_eq!(step_label(&FlowStep::BackupCurrent), "backup_current");
    assert_eq!(step_label(&FlowStep::RestoreSnapshot), "restore_snapshot");
    assert_eq!(step_label(&FlowStep::WriteMachineId), "write_machine_id");
    assert_eq!(step_label(&FlowStep::ResetMachineId), "reset_machine_id");
    assert_eq!(step_label(&FlowStep::RegenerateMachineId), "regenerate_machine_id");
    assert_eq!(step_label(&FlowStep::DeleteLoginArtifacts), "delete_login_artifacts");
    assert_eq!(step_label(&FlowStep::LaunchExe), "launch_exe");
}

fn run(steps: &[FlowStep], fail_at: Option<usize>) -> appdatahub::flow::FlowResult {
    let mut r = FlowRun::new(steps);
    let mut n = 0;
    while let Some(_step) = r.next_step() {
        if Some(n) == fail_at {
            r.record(Err(PluginError::FlowFailed("boom".to_string())));
        } else {
            r.record(Ok(()));
        }
        n += 1;
    }
    r.finish()
}

#[test]
fn flow_run_all_steps_succeed() {
    let steps = builtin_trae_cn().switch_flow;
    let res = run(&steps, None);
    assert!(res.success);
    assert_eq!(res.error, None);
    assert_eq!(
        res.steps_executed,
        names(&[
            "ensure_not_running_or_kill(5000ms)",
            "backup_current",
            "restore_snapshot",
            "write_machine_id"
        ])
    );
}

#[test]
fn flow_run_stops_at_first_failure() {
    let steps = builtin_trae_cn().switch_flow;
    let res = run(&steps, Some(2));
    assert!(!res.success);
    assert_eq!(res.error, Some("流程执行失败: boom".to_string()));
    assert_eq!(
        res.steps_executed,
        names(&["ensure_not_running_or_kill(5000ms)", "backup_current"])
    );
}

#[test]
fn flow_run_empty_and_record_without_pending_step() {
    let mut r = FlowRun::new(&[]);
    assert_eq!(r.next_step(), None);
    r.record(Err(PluginError::FlowFailed("ignored".to_string())));
    let res = r.finish();
    assert!(res.success);
    assert!(res.steps_executed.is_empty());
}

#[test]
fn process_detection_and_kill_rounds() {
    let plugin = builtin_trae_cn();
    let running = names(&["bash", "TRAE.EXE", "trae", "code"]);
    assert!(is_app_running(&plugin, &running));
    assert!(!is_app_running(&plugin, &names(&["bash"])));
    match kill_step(&plugin, &running) {
        KillStep::Kill { targets } => assert_eq!(targets, vec![1, 2]),
        KillStep::Finished => panic!("expected kill"),
    }
    assert!(matches!(kill_step(&plugin, &names(&["bash"])), KillStep::Finished));
    match timeout_error() {
        PluginError::FlowFailed(m) => assert_eq!(m, "等待应用退出超时"),
        _ => panic!(),
    }
}

#[test]
fn snapshot_names_and_artifacts() {
    assert_eq!(backup_name("用户 配置 目录"), "用户_配置_目录");
    assert_eq!(artifact_removal("file"), Removal::File);
    assert_eq!(artifact_removal("dir"), Removal::Dir);
    assert_eq!(artifact_removal("registry"), Removal::Keep);
}

fn account(bound: Option<&str>) -> Account {
    let mut a = Account::new("work".to_string(), None, None, "trae-cn".to_string()).unwrap();
    a.bound_machine_id = bound.map(|s| s.to_string());
    a
}

fn context(bound: Option<&str>) -> FlowContext {
    FlowContext {
        plugin: builtin_trae_cn(),
        account: account(bound),
        snapshot_dir: SnapshotDir { plugin_id: "trae-cn".to_string(), name: "work".to_string() },
        settings: FlowSettings {},
    }
}

#[test]
fn flow_context_decisions() {
    match context(None).missing_snapshot_error() {
        PluginError::FlowFailed(m) => assert_eq!(m, "账号 work 没有快照数据"),
        _ => panic!(),
    }
    assert_eq!(context(Some("mid-1")).machine_id_to_write().unwrap(), "mid-1");
    match context(None).machine_id_to_write() {
        Err(PluginError::FlowFailed(m)) => assert_eq!(m, "账号未绑定机器码"),
        _ => panic!(),
    }
    let env = EnvValues {
        appdata: None,
        userprofile: None,
        localappdata: Some("/local".to_string()),
        temp: None,
        programfiles: None,
        programfiles_x86: None,
    };
    assert_eq!(
        context(None).launch_path(&env, true).unwrap(),
        "/local/Programs/Trae/Trae.exe"
    );
    match context(None).launch_path(&env, false) {
        Err(PluginError::NoExePath(id)) => assert_eq!(id, "trae-cn"),
        _ => panic!(),
    }
    match launch_error("denied") {
        PluginError::FlowFailed(m) => assert_eq!(m, "启动失败: denied"),
        _ => panic!(),
    }
}

#[test]
fn machine_id_storage_and_registry_locations() {
    let mut spec = builtin_trae_cn().machine_id;
    assert_eq!(spec.storage(), MachineIdStorage::File);
    spec.spec_type = "registry".to_string();
    assert_eq!(spec.storage(), MachineIdStorage::Registry);
    spec.spec_type = "other".to_string();
    assert_eq!(spec.storage(), MachineIdStorage::Other);
    assert_eq!(spec.value_name(), "");
    spec.key = Some("MachineGuid".to_string());
    assert_eq!(spec.value_name(), "MachineGuid");
    spec.path = "HKEY_CURRENT_USER\\Software\\App".to_string();
    let loc = spec.registry_location();
    assert!(loc.current_user);
    assert_eq!(loc.subkey, "Software\\App");
    spec.path = "HKEY_LOCAL_MACHINE\\SOFTWARE\\Microsoft\\Cryptography".to_string();
    let loc = spec.registry_location();
    assert!(!loc.current_user);
    assert_eq!(loc.subkey, "SOFTWARE\\Microsoft\\Cryptography");
    let loc = reset_registry_location("HKEY_CURRENT_USERX\\Soft");
    assert!(!loc.current_user);
    let loc = reset_registry_location("HKEY_CURRENT_USER\\Soft");
    assert!(loc.current_user);
    assert_eq!(loc.subkey, "Soft");
}

#[test]
fn machine_id_file_content_is_trimmed() {
    assert_eq!(machine_id_from_file("  abc-123\n"), "abc-123");
    assert_eq!(machine_id_from_file("\u{3000}\t id \u{a0}\r\n"), "id");
    assert_eq!(machine_id_from_file(" \n\t "), "");
    let id = generate_machine_id().unwrap();
    assert_eq!(id.len(), 36);
    assert_ne!(id, generate_machine_id().unwrap());
    assert_uuid_v4(&id);
}

#[test]
fn telemetry_ids() {
    // sha256("abc") = ba7816bf8f01cfea414140de5dae2223 b00361a3...
    assert_eq!(telemetry_machine_id("abc"), "ba7816bf8f01cfea414140de5dae2223");
    let entries = telemetry_entries("abc", "1b4e28ba-2fa1-11d2-883f-0016d3cca427", "dev-1");
    assert_eq!(
        entries,
        vec![
            ("telemetry.machineId".to_string(), "ba7816bf8f01cfea414140de5dae2223".to_string()),
            ("telemetry.sqmId".to_string(), "{1B4E28BA-2FA1-11D2-883F-0016D3CCA427}".to_string()),
            ("telemetry.devDeviceId".to_string(), "dev-1".to_string()),
        ]
    );
    let fresh = new_telemetry_entries("abc").unwrap();
    assert_eq!(fresh.len(), 3);
    assert_eq!(fresh[0].1, "ba7816bf8f01cfea414140de5dae2223");
    assert!(fresh[1].1.starts_with('{') && fresh[1].1.ends_with('}'));
    assert_eq!(fresh[1].1.len(), 38);
    assert_eq!(fresh[2].1.len(), 36);
    assert_uuid_v4(&fresh[2].1);
    assert_uuid_v4(&fresh[1].1[1..37].to_lowercase());
}

fn assert_uuid_v4(s: &str) {
    let chars: Vec<char> = s.chars().collect();
    assert_eq!(chars.len(), 36, "{}", s);
    for (i, c) in chars.iter().enumerate() {
        if i == 8 || i == 13 || i == 18 || i == 23 {
            assert_eq!(*c, '-', "{}", s);
        } else {
            assert!(c.is_ascii_hexdigit() && !c.is_ascii_uppercase(), "{}", s);
        }
    }
    assert_eq!(chars[14], '4', "{}", s);
    assert!(matches!(chars[19], '8' | '9' | 'a' | 'b'), "{}", s);
}

#[test]
fn storage_json_update() {
    let entries = telemetry_entries("abc", "u-1", "dev-1");
    let text = r#"{"keep": 1, "telemetry.devDeviceId": "old"}"#;
    let updated = updated_storage_json(text, &entries).unwrap();
    let v: serde_json::Value = serde_json::from_str(&updated).unwrap();
    assert_eq!(v["keep"], serde_json::Value::from(1));
    assert_eq!(v["telemetry.machineId"], serde_json::Value::from("ba7816bf8f01cfea414140de5dae2223"));
    assert_eq!(v["telemetry.sqmId"], serde_json::Value::from("{U-1}"));
    assert_eq!(v["telemetry.devDeviceId"], serde_json::Value::from("dev-1"));
    assert_eq!(v.as_object().unwrap().len(), 4);
    assert_eq!(updated, serde_json::to_string_pretty(&v).unwrap());
    assert_eq!(updated_storage_json("[1, 2]", &entries), None);
    assert_eq!(updated_storage_json("not json", &entries), None);
    assert_eq!(updated_storage_json("{}", &vec![]), Some("{}".to_string()));
}
