use appdatahub::account::timestamp_from_unix;
use appdatahub::account::AccountMetadata;
use appdatahub::account::Timestamp;
use appdatahub::commands::CommandError;
use appdatahub::flow::FlowSettings;
use appdatahub::plugin::builtin_trae_cn;
use appdatahub::store::StoreData;
use appdatahub::store::StoreError;
use appdatahub::Store;

fn store() -> Store {
    Store::new("/data".to_string())
}

#[test]
fn new_store_is_empty() {
    let s = store();
    assert_eq!(s.data_dir(), "/data");
    assert!(s.data().accounts.is_empty());
    assert_eq!(*s.get_settings(), FlowSettings {});
    assert!(StoreData::default().accounts.is_empty());
}

#[test]
fn add_account_and_duplicate_name() {
    let mut s = store();
    let (acc, target) = s
        .add_account("work".to_string(), Some("n".to_string()), "trae-cn".to_string(), Some("mid".to_string()))
        .unwrap();
    assert_eq!(acc.name, "work");
    assert_eq!(acc.note, Some("n".to_string()));
    assert_eq!(acc.bound_machine_id, Some("mid".to_string()));
    assert!(acc.has_snapshot);
    assert!(!acc.is_active);
    assert_eq!(acc.id.len(), 36);
    assert!(!target.account.has_snapshot);
    assert_eq!(target.snapshot_dir.plugin_id, "trae-cn");
    assert_eq!(target.snapshot_dir.name, "work");
    match s.add_account("work".to_string(), None, "trae-cn".to_string(), None) {
        Err(StoreError::DuplicateName(n)) => assert_eq!(n, "work"),
        _ => panic!("expected duplicate"),
    }
    // the same name under another plugin is fine
    assert!(s.add_account("work".to_string(), None, "other".to_string(), None).is_ok());
    assert_eq!(s.data().accounts.len(), 2);
}

#[test]
fn list_and_get_accounts() {
    let mut s = store();
    let (a, _) = s.add_account("a".to_string(), None, "p1".to_string(), None).unwrap();
    s.add_account("b".to_string(), None, "p2".to_string(), None).unwrap();
    let (c, _) = s.add_account("c".to_string(), None, "p1".to_string(), None).unwrap();
    let listed: Vec<AccountMetadata> = s.list_accounts("p1");
    assert_eq!(listed.len(), 2);
    assert_eq!(listed[0].id, a.id);
    assert_eq!(listed[1].id, c.id);
    assert_eq!(s.get_account(&c.id).unwrap().name, "c");
    match s.get_account("missing") {
        Err(StoreError::NotFound(id)) => assert_eq!(id, "missing"),
        _ => panic!(),
    }
}

#[test]
fn update_account_reports_snapshot_move() {
    let mut s = store();
    let (a, _) = s.add_account("a".to_string(), None, "p".to_string(), None).unwrap();
    let mv = s.update_account(&a.id, "b".to_string(), Some("note".to_string())).unwrap().unwrap();
    assert_eq!(mv.from.name, "a");
    assert_eq!(mv.to.name, "b");
    assert_eq!(mv.to.plugin_id, "p");
    assert_eq!(s.get_account(&a.id).unwrap().note, Some("note".to_string()));
    assert!(s.update_account(&a.id, "b".to_string(), None).unwrap().is_none());
    assert!(matches!(s.update_account("zz", "x".to_string(), None), Err(StoreError::NotFound(_))));
}

#[test]
fn delete_account_removes_it() {
    let mut s = store();
    let (a, _) = s.add_account("a".to_string(), None, "p".to_string(), None).unwrap();
    let (b, _) = s.add_account("b".to_string(), None, "p".to_string(), None).unwrap();
    let dir = s.delete_account(&a.id).unwrap();
    assert_eq!(dir.name, "a");
    assert_eq!(s.data().accounts.len(), 1);
    assert_eq!(s.data().accounts[0].id, b.id);
    assert!(matches!(s.delete_account(&a.id), Err(StoreError::NotFound(_))));
}

#[test]
fn save_snapshot_marks_account() {
    let mut s = store();
    let plugin = builtin_trae_cn();
    let (a, _) = s.add_account("a".to_string(), None, "p".to_string(), None).unwrap();
    let mut data = StoreData::default();
    let mut acc = s.get_account(&a.id).unwrap().clone();
    acc.has_snapshot = false;
    data.accounts.push(acc);
    s.replace_data(data);
    let t = s.save_snapshot(&a.id, &plugin).unwrap();
    assert_eq!(t.snapshot_dir.plugin_id, "trae-cn");
    assert_eq!(t.snapshot_dir.name, "a");
    assert!(!t.account.has_snapshot);
    assert!(s.get_account(&a.id).unwrap().has_snapshot);
    assert!(matches!(s.save_snapshot("nope", &plugin), Err(StoreError::NotFound(_))));
}

#[test]
fn switch_account_keeps_one_active_account() {
    let mut s = store();
    let plugin = builtin_trae_cn();
    let (a, _) = s.add_account("a".to_string(), None, "trae-cn".to_string(), None).unwrap();
    let (b, _) = s.add_account("b".to_string(), None, "trae-cn".to_string(), None).unwrap();
    let (backup, res) = s.switch_account(&a.id, &plugin);
    assert!(backup.is_none());
    let t = res.unwrap();
    assert!(t.account.is_active);
    assert!(t.account.last_used_at.is_some());
    assert_eq!(t.snapshot_dir.name, "a");
    let (backup, res) = s.switch_account(&b.id, &plugin);
    let backup = backup.unwrap();
    assert_eq!(backup.account.id, a.id);
    assert_eq!(backup.snapshot_dir.name, "a");
    res.unwrap();
    let active: Vec<String> =
        s.data().accounts.iter().filter(|x| x.is_active).map(|x| x.id.clone()).collect();
    assert_eq!(active, vec![b.id.clone()]);
    // switching to the active account takes no backup
    let (backup, _) = s.switch_account(&b.id, &plugin);
    assert!(backup.is_none());
}

#[test]
fn switch_to_missing_account_deactivates_and_fails() {
    let mut s = store();
    let plugin = builtin_trae_cn();
    let (a, _) = s.add_account("a".to_string(), None, "trae-cn".to_string(), None).unwrap();
    s.switch_account(&a.id, &plugin).1.unwrap();
    let (backup, res) = s.switch_account("missing", &plugin);
    assert!(backup.is_some());
    assert!(matches!(res, Err(StoreError::NotFound(_))));
    assert!(!s.get_account(&a.id).unwrap().is_active);
}

#[test]
fn switch_account_at_records_the_given_time() {
    let mut s = store();
    let plugin = builtin_trae_cn();
    let (a, _) = s.add_account("a".to_string(), None, "trae-cn".to_string(), None).unwrap();
    let (b, _) = s.add_account("b".to_string(), None, "trae-cn".to_string(), None).unwrap();
    let when = Timestamp { secs: 1_700_000_000, nanos: 42 };
    let (backup, res) = s.switch_account_at(&b.id, &plugin, when);
    assert!(backup.is_none());
    let t = res.unwrap();
    assert_eq!(t.account.id, b.id);
    assert_eq!(t.account.last_used_at, Some(when));
    assert_eq!(s.get_account(&b.id).unwrap().last_used_at, Some(when));
    assert!(s.get_account(&b.id).unwrap().is_active);
    assert_eq!(s.get_account(&a.id).unwrap().last_used_at, None);
    let later = Timestamp { secs: 1_700_000_100, nanos: 0 };
    let (backup, res) = s.switch_account_at(&a.id, &plugin, later);
    let backup = backup.unwrap();
    assert_eq!(backup.account.id, b.id);
    assert_eq!(backup.account.last_used_at, Some(when));
    assert_eq!(res.unwrap().account.last_used_at, Some(later));
    assert!(s.get_account(&b.id).unwrap().has_snapshot);
    assert!(!s.get_account(&b.id).unwrap().is_active);
    let (_, res) = s.switch_account_at("missing", &plugin, later);
    assert!(matches!(res, Err(StoreError::NotFound(id)) if id == "missing"));
    assert!(!s.get_account(&a.id).unwrap().is_active);
}

#[test]
fn timestamp_from_unix_seconds() {
    assert_eq!(timestamp_from_unix(5, 7), Some(Timestamp { secs: 5, nanos: 7 }));
    assert_eq!(
        timestamp_from_unix(i64::MAX as u64, 999_999_999),
        Some(Timestamp { secs: i64::MAX, nanos: 999_999_999 })
    );
    assert_eq!(timestamp_from_unix(i64::MAX as u64 + 1, 0), None);
    assert_eq!(timestamp_from_unix(u64::MAX, 0), None);
}

#[test]
fn add_account_at_appends_the_given_account() {
    let mut s = store();
    let when = Timestamp { secs: 1_600_000_000, nanos: 5 };
    let (acc, target) = s
        .add_account_at(
            "w".to_string(),
            Some("n".to_string()),
            "trae-cn".to_string(),
            Some("mid".to_string()),
            "id-1".to_string(),
            when,
        )
        .unwrap();
    assert_eq!(acc.id, "id-1");
    assert_eq!(acc.created_at, when);
    assert_eq!(acc.name, "w");
    assert_eq!(acc.email, None);
    assert_eq!(acc.bound_machine_id, Some("mid".to_string()));
    assert!(acc.has_snapshot && !acc.is_active);
    assert_eq!(acc.last_used_at, None);
    assert_eq!(target.account.id, "id-1");
    assert!(!target.account.has_snapshot);
    assert_eq!(target.snapshot_dir.name, "w");
    assert_eq!(s.data().accounts.len(), 1);
    assert_eq!(s.get_account("id-1").unwrap().created_at, when);
    match s.add_account_at("w".to_string(), None, "trae-cn".to_string(), None, "id-2".to_string(), when) {
        Err(StoreError::DuplicateName(n)) => assert_eq!(n, "w"),
        _ => panic!("expected duplicate"),
    }
    assert_eq!(s.data().accounts.len(), 1);
    // the same name under another plugin is fine
    s.add_account_at("w".to_string(), None, "other".to_string(), None, "id-3".to_string(), when).unwrap();
    assert_eq!(s.data().accounts.len(), 2);
}

#[test]
fn clear_login_at_target() {
    let s = store();
    let plugin = builtin_trae_cn();
    let when = Timestamp { secs: 7, nanos: 8 };
    let t = s.clear_login_at(&plugin, when);
    assert_eq!(t.account.id, "__clear__");
    assert_eq!(t.account.name, "clear");
    assert_eq!(t.account.created_at, when);
    assert_eq!(t.account.plugin_id, "trae-cn");
    assert!(!t.account.is_active && !t.account.has_snapshot);
    assert_eq!(t.snapshot_dir.plugin_id, "trae-cn");
    assert_eq!(t.snapshot_dir.name, "__clear__");
}

#[test]
fn clear_login_target() {
    let s = store();
    let plugin = builtin_trae_cn();
    let t = s.clear_login(&plugin).unwrap();
    assert_eq!(t.account.id, "__clear__");
    assert_eq!(t.account.name, "clear");
    assert_eq!(t.account.plugin_id, "trae-cn");
    assert_eq!(t.snapshot_dir.name, "__clear__");
}

#[test]
fn store_and_command_error_messages() {
    let e = StoreError::DuplicateName("w".to_string());
    assert_eq!(e.message(), "账号名已存在: w");
    assert_eq!(StoreError::NotFound("i".into()).message(), "账号不存在: i");
    assert_eq!(StoreError::Other("o".into()).message(), "操作失败: o");
    assert_eq!(
        StoreError::Plugin(appdatahub::plugin::PluginError::NotFound("x".into())).message(),
        "插件错误: 插件不存在: x"
    );
    match CommandError::from_store_error(&e) {
        CommandError::Store(m) => assert_eq!(m, "账号名已存在: w"),
        _ => panic!(),
    }
    assert_eq!(CommandError::Config("c".into()).message(), "c");
}

#[test]
fn update_settings_replaces_them() {
    let mut s = store();
    s.update_settings(FlowSettings {});
    assert_eq!(*s.get_settings(), FlowSettings {});
}

#[test]
fn get_account_mut_changes_in_place() {
    let mut s = store();
    let (a, _) = s.add_account("a".to_string(), None, "p".to_string(), None).unwrap();
    s.get_account_mut(&a.id).unwrap().note = Some("edited".to_string());
    assert_eq!(s.get_account(&a.id).unwrap().note, Some("edited".to_string()));
    match s.get_account_mut("missing") {
        Err(StoreError::NotFound(id)) => assert_eq!(id, "missing"),
        _ => panic!("expected NotFound"),
    }
}
