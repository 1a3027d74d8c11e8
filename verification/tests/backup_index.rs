use bakeryos_preset::backup::{BackupInfo, BackupManager, FileCopy, RestoreOutcome};
use bakeryos_preset::error::Error;
use bakeryos_preset::str_map::StrMap;

fn info(dir: &str) -> BackupInfo {
    BackupInfo { backup_dir: dir.to_string(), indexs: StrMap::new() }
}

fn is_uuid_v4(u: &str) -> bool {
    let c: Vec<char> = u.chars().collect();
    c.len() == 36
        && c.iter().enumerate().all(|(i, ch)| {
            if [8, 13, 18, 23].contains(&i) {
                *ch == '-'
            } else {
                ch.is_ascii_digit() || ('a'..='f').contains(ch)
            }
        })
        && c[14] == '4'
        && "89ab".contains(c[19])
}

#[test]
fn prepared_backup_names_are_fresh_uuids() {
    let b = info("/var/backups/p");
    let first = b.prepare_backup("bakeryos.presets.Example", "/etc/issue");
    let second = b.prepare_backup("bakeryos.presets.Example", "/etc/issue");
    assert_eq!(first.original, "/etc/issue");
    let prefix = "bakeryos.presets.Example+";
    assert!(first.backup_file_name.starts_with(prefix));
    assert!(first.backup_file_name.ends_with(".backup"));
    let uuid = &first.backup_file_name[prefix.len()..first.backup_file_name.len() - ".backup".len()];
    assert!(is_uuid_v4(uuid));
    assert_ne!(first.backup_file_name, second.backup_file_name);
    assert_eq!(first.copy.from, "/etc/issue");
    assert_eq!(first.copy.to, format!("/var/backups/p/{}", first.backup_file_name));
}

#[test]
fn backup_then_restore_copies_back() {
    let mut b = info("/var/backups/p/");
    let pending = b.prepare_backup("p", "/etc/issue");
    assert_eq!(pending.copy.to, format!("/var/backups/p/{}", pending.backup_file_name));
    assert!(b.backup_file(&pending, Ok(())).is_ok());
    assert_eq!(b.indexs.get("/etc/issue"), Some(&pending.backup_file_name));
    let copy = b.restore_file("/etc/issue").unwrap();
    assert_eq!(copy.from, pending.copy.to);
    assert_eq!(copy.to, "/etc/issue");
}

#[test]
fn failed_copy_leaves_index() {
    let mut b = info("/d");
    let pending = b.prepare_backup("p", "/etc/issue");
    let res = b.backup_file(&pending, Err("No such file or directory (os error 2)".to_string()));
    match res {
        Err(Error::OpenFile(m)) => assert_eq!(
            m,
            format!(
                "Failed to copy file from '/etc/issue' to '/d/{}': No such file or directory (os error 2)",
                pending.backup_file_name
            )
        ),
        _ => panic!("expected an open-file error"),
    }
    assert!(!b.indexs.contains_key("/etc/issue"));
}

#[test]
fn restore_without_reference() {
    let b = info("/d");
    match b.restore_file("/etc/motd") {
        Err(Error::OpenFile(m)) => {
            assert_eq!(m, "No backup reference found for file '/etc/motd' in the index.")
        }
        _ => panic!("expected an open-file error"),
    }
}

#[test]
fn restore_outcomes() {
    let copy = FileCopy { from: "/d/x.backup".to_string(), to: "/etc/issue".to_string() };
    assert!(BackupInfo::finish_restore(&copy, RestoreOutcome::Copied).is_ok());
    match BackupInfo::finish_restore(&copy, RestoreOutcome::BackupMissing) {
        Err(Error::OpenFile(m)) => {
            assert_eq!(m, "Backup file '/d/x.backup' is missing from the backup directory.")
        }
        _ => panic!("expected an open-file error"),
    }
    match BackupInfo::finish_restore(&copy, RestoreOutcome::CopyFailed("denied".to_string())) {
        Err(Error::OpenFile(m)) => {
            assert_eq!(m, "Failed to restore file from '/d/x.backup' to '/etc/issue': denied")
        }
        _ => panic!("expected an open-file error"),
    }
}

#[test]
fn index_is_read_back_as_written() {
    let mut b = info("/var/backups/p");
    b.indexs.insert("/etc/issue".to_string(), "a.backup".to_string());
    b.indexs.insert("/etc/mo\"td".to_string(), "b.backup".to_string());
    let w = b.update_indexer().unwrap();
    assert_eq!(w.path, "/var/backups/p/index.json");
    let again = BackupManager::get_backup_info("/var/backups/p", Ok(w.contents.clone())).unwrap();
    assert_eq!(again.backup_dir, "/var/backups/p");
    assert_eq!(again.indexs.get("/etc/issue"), Some(&"a.backup".to_string()));
    assert_eq!(again.indexs.get("/etc/mo\"td"), Some(&"b.backup".to_string()));
    assert_eq!(again.indexs.entries().len(), 2);
}

#[test]
fn index_json_is_pretty_object() {
    let mut b = info("/d");
    b.indexs.insert("/etc/issue".to_string(), "a.backup".to_string());
    let w = b.update_indexer().unwrap();
    assert_eq!(w.contents, "{\n  \"/etc/issue\": \"a.backup\"\n}");
}

#[test]
fn get_backup_info_errors() {
    match BackupManager::get_backup_info("/d", Err("not found".to_string())) {
        Err(Error::OpenFile(m)) => assert_eq!(m, "Failed to read index.json: not found"),
        _ => panic!("expected a read error"),
    }
    match BackupManager::get_backup_info("/d", Ok("[1, 2]".to_string())) {
        Err(Error::OpenFile(m)) => assert!(m.starts_with("Failed to parse index.json: ")),
        _ => panic!("expected a parse error"),
    }
    match BackupManager::get_backup_info("/d", Ok("{\"a\": 1}".to_string())) {
        Err(Error::OpenFile(m)) => assert!(m.starts_with("Failed to parse index.json: ")),
        _ => panic!("expected a parse error"),
    }
    let ok = BackupManager::get_backup_info("/d", Ok("{}".to_string())).unwrap();
    assert!(ok.indexs.entries().is_empty());
}

#[test]
fn open_for_stage_wraps_errors() {
    match BackupManager::open_for_stage("/d", Err("gone".to_string())) {
        Err(Error::BackupError(m)) => {
            assert_eq!(m, "Failed to open file: Failed to read index.json: gone")
        }
        _ => panic!("expected a backup error"),
    }
    match BackupManager::open_for_stage("/d", Ok("nope".to_string())) {
        Err(Error::BackupError(m)) => {
            assert!(m.starts_with("Failed to open file: Failed to parse index.json: "))
        }
        _ => panic!("expected a backup error"),
    }
}

#[test]
fn new_backup_dir_plan() {
    let plan = BackupManager::create_preset_backup_dir("bakeryos.presets.Example");
    let prefix = "/usr/share/bakeryos/preset/backups/bakeryos.presets.Example+";
    assert!(plan.dir.starts_with(prefix));
    assert!(is_uuid_v4(&plan.dir[prefix.len()..]));
    assert_eq!(plan.index_path, format!("{}/index.json", plan.dir));
    assert_eq!(plan.index_contents.unwrap(), "{}");
    assert_eq!(BackupManager::index_file_path("/d/"), "/d/index.json");
}

#[test]
fn directory_errors() {
    match BackupManager::dir_create_failed("/d", "denied") {
        Error::OpenFile(m) => assert_eq!(m, "Failed to create backup directory '/d': denied"),
        _ => panic!(),
    }
    match BackupManager::index_create_failed("/d", "full") {
        Error::OpenFile(m) => assert_eq!(m, "Failed to create index.json in '/d': full"),
        _ => panic!(),
    }
    let w = bakeryos_preset::backup::FileWrite { path: "/d/index.json".to_string(), contents: String::new() };
    match BackupInfo::index_write_failed(&w, "full") {
        Error::OpenFile(m) => assert_eq!(m, "Failed to write updated index.json to '/d/index.json': full"),
        _ => panic!(),
    }
}

#[test]
fn backup_names_stay_inside_the_directory() {
    let b = info("/d");
    let p = b.prepare_backup("../org/x", "/etc/issue");
    assert!(p.backup_file_name.starts_with(".._org_x+"));
    assert!(!p.backup_file_name.contains('/'));
    assert_eq!(p.copy.to, format!("/d/{}", p.backup_file_name));
    let p = b.prepare_backup("/abs", "/etc/issue");
    assert!(p.backup_file_name.starts_with("_abs+"));
    assert_eq!(p.copy.to, format!("/d/{}", p.backup_file_name));
    let here = info("");
    let p = here.prepare_backup("p", "/etc/issue");
    assert_eq!(p.copy.to, p.backup_file_name);
}
