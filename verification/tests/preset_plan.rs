use bakeryos_preset::config::Config;
use bakeryos_preset::preset::{
    CommandKind, DConfConfig, DConfConfigItem, EnvConfig, EnvConfigItem, GSettingsConfig,
    GSettingsConfigItem, Hooks, Package, Preset, SetConfig, Stage, StageStep,
};

fn s(x: &str) -> String {
    x.to_string()
}

fn strings(v: &[&str]) -> Vec<String> {
    v.iter().map(|x| x.to_string()).collect()
}

fn empty_stage(name: &str) -> Stage {
    Stage {
        name: s(name),
        install_packages: None,
        uninstall_packages: None,
        continue_if_err: None,
        triggers: None,
        backups: None,
        restores: None,
        configs: None,
        hooks: None,
    }
}

fn preset(id: &str, stages: Vec<Stage>) -> Preset {
    Preset { name: s("Example preset"), id: s(id), stages }
}

fn pkg(name: &str) -> Package {
    Package::new(s(name), None)
}

fn hook_of(step: &StageStep) -> (String, Vec<String>) {
    match step {
        StageStep::RunHook { hook_name, scripts } => (hook_name.clone(), scripts.clone()),
        _ => panic!("not a hook step"),
    }
}

fn exec_of(step: &StageStep) -> (String, Vec<String>, CommandKind) {
    match step {
        StageStep::Exec { program, args, kind } => (program.clone(), args.clone(), *kind),
        _ => panic!("not a command step"),
    }
}

#[test]
fn has_trigger_matches_listed_events_only() {
    let mut stage = empty_stage("Hello");
    stage.triggers = Some(strings(&["apply", "rollback"]));
    assert!(stage.has_trigger("apply"));
    assert!(stage.has_trigger("rollback"));
    assert!(!stage.has_trigger("unapply"));
    assert!(!stage.has_trigger("appl"));
    let none = empty_stage("None");
    assert!(!none.has_trigger("apply"));
}

#[test]
fn install_and_uninstall_commands() {
    let p = preset("bakeryos.presets.Example", vec![]);
    let packages = vec![pkg("fastfetch"), Package::new(s("vim"), Some(s("9.1")))];
    let (program, args, kind) = exec_of(&p.install_pkg(&packages));
    assert_eq!(program, "pacman");
    assert_eq!(args, strings(&["-S", "--noconfirm", "fastfetch", "vim"]));
    assert_eq!(kind, CommandKind::Package);
    let (program, args, kind) = exec_of(&p.uninstall_pkg(&packages));
    assert_eq!(program, "pacman");
    assert_eq!(args, strings(&["-Rns", "--noconfirm", "fastfetch", "vim"]));
    assert_eq!(kind, CommandKind::Package);
}

#[test]
fn settings_commands() {
    let p = preset("x", vec![]);
    let g = GSettingsConfigItem { id: s("org.gnome.desktop.interface"), key: s("color-scheme"), value: s("prefer-dark") };
    let (program, args, kind) = exec_of(&p.apply_gsettings(&g));
    assert_eq!(program, "gsettings");
    assert_eq!(args, strings(&["set", "org.gnome.desktop.interface", "color-scheme", "prefer-dark"]));
    assert_eq!(kind, CommandKind::Config);
    let d = DConfConfigItem { path: s("/org/foo/bar"), value: s("true") };
    let (program, args, _) = exec_of(&p.apply_dconf(&d));
    assert_eq!(program, "dconf");
    assert_eq!(args, strings(&["write", "/org/foo/bar", "true"]));
    let e = EnvConfigItem { name: s("EDITOR"), value: s("vim") };
    match p.apply_env(&e) {
        StageStep::AppendEnv { line } => assert_eq!(line, "export EDITOR=vim\n"),
        _ => panic!("not an env step"),
    }
    assert_eq!(Preset::bashrc_path("/home/baker"), "/home/baker/.bashrc");
}

#[test]
fn hooks_only_pre_install_runs_scripts() {
    let hooks = Hooks {
        pre_install_pkg: Some(strings(&["/bin/true", "/bin/echo"])),
        after_install_pkg: Some(strings(&["/bin/false"])),
        pre_uninstall_pkg: None,
        after_uninstall_pkg: None,
        pre_backup: Some(strings(&["/bin/false"])),
        after_backup: None,
    };
    let (name, scripts) = hook_of(&hooks.run_hook("pre_install_pkg"));
    assert_eq!(name, "pre_install_pkg");
    assert_eq!(scripts, strings(&["/bin/true", "/bin/echo"]));
    let (name, scripts) = hook_of(&hooks.run_hook("after_install_pkg"));
    assert_eq!(name, "after_install_pkg");
    assert!(scripts.is_empty());
    let (_, scripts) = hook_of(&hooks.run_hook("pre_backup"));
    assert!(scripts.is_empty());
    let (_, scripts) = hook_of(&Hooks::none().run_hook("pre_install_pkg"));
    assert!(scripts.is_empty());
}

#[test]
fn apply_stage_orders_all_groups() {
    let mut stage = empty_stage("Full");
    stage.install_packages = Some(vec![pkg("fastfetch")]);
    stage.uninstall_packages = Some(vec![pkg("nano")]);
    stage.backups = Some(strings(&["/etc/issue"]));
    stage.restores = Some(strings(&["/etc/motd"]));
    stage.configs = Some(vec![
        SetConfig::EnvConfig(EnvConfig { env: vec![EnvConfigItem { name: s("A"), value: s("1") }] }),
        SetConfig::DConfConfig(DConfConfig {
            dconf: vec![
                DConfConfigItem { path: s("/a"), value: s("1") },
                DConfConfigItem { path: s("/b"), value: s("2") },
            ],
        }),
        SetConfig::GSettingsConfig(GSettingsConfig {
            gsettings: vec![GSettingsConfigItem { id: s("i"), key: s("k"), value: s("v") }],
        }),
    ]);
    stage.hooks = Some(Hooks {
        pre_install_pkg: Some(strings(&["prepare.sh"])),
        after_install_pkg: None,
        pre_uninstall_pkg: None,
        after_uninstall_pkg: None,
        pre_backup: None,
        after_backup: None,
    });
    let p = preset("bakeryos.presets.Example", vec![]);
    let mut conf = Config::new();
    conf.save_preset("bakeryos.presets.Example", "Example preset", "/backups/ex").unwrap();
    let steps = p.apply_stage(&stage, &conf);
    assert_eq!(steps.len(), 14);
    assert_eq!(hook_of(&steps[0]), (s("pre_install_pkg"), strings(&["prepare.sh"])));
    assert_eq!(exec_of(&steps[1]).1, strings(&["-S", "--noconfirm", "fastfetch"]));
    assert_eq!(hook_of(&steps[2]), (s("after_install_pkg"), vec![]));
    assert_eq!(hook_of(&steps[3]), (s("pre_backup"), vec![]));
    match &steps[4] {
        StageStep::Backup { preset_id, backup_dir, files } => {
            assert_eq!(preset_id, "bakeryos.presets.Example");
            assert_eq!(backup_dir, "/backups/ex");
            assert_eq!(files, &strings(&["/etc/issue"]));
        }
        _ => panic!("expected a backup step"),
    }
    assert_eq!(hook_of(&steps[5]), (s("after_backup"), vec![]));
    match &steps[6] {
        StageStep::AppendEnv { line } => assert_eq!(line, "export A=1\n"),
        _ => panic!("expected an env step"),
    }
    assert_eq!(exec_of(&steps[7]).1, strings(&["write", "/a", "1"]));
    assert_eq!(exec_of(&steps[8]).1, strings(&["write", "/b", "2"]));
    assert_eq!(exec_of(&steps[9]).1, strings(&["set", "i", "k", "v"]));
    match &steps[10] {
        StageStep::Restore { backup_dir, files } => {
            assert_eq!(backup_dir, "/backups/ex");
            assert_eq!(files, &strings(&["/etc/motd"]));
        }
        _ => panic!("expected a restore step"),
    }
    assert_eq!(hook_of(&steps[11]), (s("pre_uninstall_pkg"), vec![]));
    assert_eq!(exec_of(&steps[12]).1, strings(&["-Rns", "--noconfirm", "nano"]));
    assert_eq!(hook_of(&steps[13]), (s("after_uninstall_pkg"), vec![]));
}

#[test]
fn apply_stage_skips_empty_groups() {
    let p = preset("x", vec![]);
    let conf = Config::new();
    assert!(p.apply_stage(&empty_stage("Nothing"), &conf).is_empty());
    let mut stage = empty_stage("Empty lists");
    stage.install_packages = Some(vec![]);
    stage.backups = Some(vec![]);
    stage.restores = Some(vec![]);
    stage.uninstall_packages = Some(vec![]);
    stage.configs = Some(vec![]);
    assert!(p.apply_stage(&stage, &conf).is_empty());
}

#[test]
fn backup_without_recorded_preset_uses_empty_dir() {
    let p = preset("unknown.preset", vec![]);
    let conf = Config::new();
    match p.backup(&strings(&["/etc/issue"]), &conf) {
        StageStep::Backup { preset_id, backup_dir, files } => {
            assert_eq!(preset_id, "unknown.preset");
            assert_eq!(backup_dir, "");
            assert_eq!(files, strings(&["/etc/issue"]));
        }
        _ => panic!("expected a backup step"),
    }
    match p.restore(&strings(&["/etc/issue"]), &conf) {
        StageStep::Restore { backup_dir, .. } => assert_eq!(backup_dir, ""),
        _ => panic!("expected a restore step"),
    }
}

#[test]
fn command_kinds_give_their_errors() {
    assert!(matches!(CommandKind::Hook.failure(s("x")), bakeryos_preset::error::Error::HookError(m) if m == "x"));
    assert!(matches!(CommandKind::Package.failure(s("y")), bakeryos_preset::error::Error::PackageError(m) if m == "y"));
    assert!(matches!(CommandKind::Config.failure(s("z")), bakeryos_preset::error::Error::ConfigError(m) if m == "z"));
}

#[test]
fn package_accessors() {
    let p = Package::new(s("vim"), Some(s("9.1")));
    assert_eq!(p.name(), "vim");
    assert_eq!(p.version(), &Some(s("9.1")));
}
