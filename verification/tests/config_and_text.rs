use bakeryos_preset::config::{Config, ConfigManager, CONFIG_PATH};
use bakeryos_preset::error::Error;
use bakeryos_preset::manager::PresetManager;
use bakeryos_preset::str_map::StrMap;
use bakeryos_preset::text::join_path;

#[test]
fn save_then_read_preset() {
    let mut conf = Config::new();
    assert!(!conf.has_preset("bakeryos.presets.Example"));
    assert_eq!(conf.get_backup_path_by_id("bakeryos.presets.Example"), None);
    conf.save_preset("bakeryos.presets.Example", "Example preset", "/b/1").unwrap();
    conf.save_preset("other", "Other", "/b/2").unwrap();
    assert!(conf.has_preset("bakeryos.presets.Example"));
    assert_eq!(conf.get_backup_path_by_id("bakeryos.presets.Example"), Some("/b/1".to_string()));
    conf.save_preset("bakeryos.presets.Example", "Renamed", "/b/3").unwrap();
    assert_eq!(conf.get_backup_path_by_id("bakeryos.presets.Example"), Some("/b/3".to_string()));
    assert_eq!(conf.presets.get("bakeryos.presets.Example").unwrap().name, "Renamed");
    assert_eq!(conf.get_backup_path_by_id("other"), Some("/b/2".to_string()));
    assert_eq!(conf.presets.entries().len(), 2);
}

#[test]
fn preset_without_backup_has_no_path() {
    let mut presets = StrMap::new();
    presets.insert(
        "p".to_string(),
        bakeryos_preset::config::PresetConfig { name: "P".to_string(), backup: None },
    );
    let conf = Config { presets };
    assert!(conf.has_preset("p"));
    assert_eq!(conf.get_backup_path_by_id("p"), None);
}

#[test]
fn str_map_replaces_values() {
    let mut m: StrMap<u32> = StrMap::new();
    m.insert("a".to_string(), 1);
    m.insert("b".to_string(), 2);
    m.insert("a".to_string(), 3);
    assert_eq!(m.get("a"), Some(&3));
    assert_eq!(m.get("b"), Some(&2));
    assert_eq!(m.get("c"), None);
    assert!(m.contains_key("b"));
    assert_eq!(m.entries().len(), 2);
}

#[test]
fn config_fallback() {
    let mut c = Config::new();
    c.save_preset("p", "P", "/b").unwrap();
    let kept = ConfigManager::config_or_default(Ok(c));
    assert!(kept.has_preset("p"));
    let fresh = ConfigManager::config_or_default(Err(Error::UnknownError));
    assert!(fresh.presets.entries().is_empty());
}

#[test]
fn file_errors_name_the_path() {
    match ConfigManager::file_error("No such file or directory (os error 2)") {
        Error::OpenFile(m) => assert_eq!(
            m,
            format!("No such file or directory (os error 2), path: {}", CONFIG_PATH)
        ),
        _ => panic!(),
    }
    assert_eq!(CONFIG_PATH, "/usr/share/bakeryos/preset/config.json");
    match PresetManager::file_error("denied", "example.yaml") {
        Error::OpenFile(m) => assert_eq!(m, "denied, path: example.yaml"),
        _ => panic!(),
    }
    assert!(matches!(PresetManager::parse_error("bad".to_string()), Error::InvalidConfiguration(m) if m == "bad"));
    assert!(matches!(ConfigManager::invalid_error("bad".to_string()), Error::InvalidConfiguration(m) if m == "bad"));
    let _ = PresetManager::new();
}

#[test]
fn error_messages() {
    let s = |x: &str| x.to_string();
    assert_eq!(Error::OpenFile(s("x")).message(), "Failed to open file: x");
    assert_eq!(Error::InvalidConfiguration(s("x")).message(), "Invalid config: x");
    assert_eq!(Error::ConfigError(s("x")).message(), "Config error: x");
    assert_eq!(Error::HookError(s("x")).message(), "Hook error: x");
    assert_eq!(Error::PresetError(s("x")).message(), "Preset error: x");
    assert_eq!(Error::PackageError(s("x")).message(), "Package error: x");
    assert_eq!(Error::BackupError(s("x")).message(), "Backup error: x");
    assert_eq!(Error::UnknownError.message(), "An unknown error occurred!");
}

#[test]
fn path_joining() {
    assert_eq!(join_path("/a/b", "c.backup"), "/a/b/c.backup");
    assert_eq!(join_path("/a/b/", "c.backup"), "/a/b/c.backup");
    assert_eq!(join_path("", "index.json"), "index.json");
    assert_eq!(join_path("/a", "/etc/issue"), "/etc/issue");
    assert_eq!(join_path("a", ""), "a/");
}

#[test]
fn saving_counts_presets() {
    let mut conf = Config::new();
    assert_eq!(conf.presets.len(), 0);
    conf.save_preset("a", "A", "/b/a").unwrap();
    assert_eq!(conf.presets.len(), 1);
    conf.save_preset("a", "A2", "/b/a2").unwrap();
    assert_eq!(conf.presets.len(), 1);
    conf.save_preset("b", "B", "/b/b").unwrap();
    assert_eq!(conf.presets.len(), 2);
}
