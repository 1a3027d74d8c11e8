use bakeryos_preset::backup::RestoreOutcome;
use bakeryos_preset::backup_run::{BackupRun, RestoreRun};
use bakeryos_preset::cli::{begin_apply, Registration};
use bakeryos_preset::config::Config;
use bakeryos_preset::error::Error;
use bakeryos_preset::preset::{CommandKind, Preset, Stage, StageStep};
use bakeryos_preset::sequence::Sequence;

fn s(x: &str) -> String {
    x.to_string()
}

#[test]
fn sequence_stops_at_first_failure() {
    let mut seq = Sequence::new(3);
    assert_eq!(seq.next(), Some(0));
    seq.record(Ok(()));
    assert_eq!(seq.next(), Some(1));
    seq.record(Err(Error::PackageError(s("pacman failed"))));
    assert_eq!(seq.next(), None);
    assert!(matches!(seq.finish(), Err(Error::PackageError(m)) if m == "pacman failed"));
}

#[test]
fn sequence_succeeds_when_all_succeed() {
    let mut seq = Sequence::new(2);
    while let Some(_) = seq.next() {
        seq.record(Ok(()));
    }
    assert!(seq.finish().is_ok());
    assert!(Sequence::new(0).finish().is_ok());
}

#[test]
fn command_outcomes_by_step() {
    let hook = StageStep::RunHook { hook_name: s("pre_install_pkg"), scripts: vec![s("a.sh")] };
    assert!(hook.command_outcome(Ok(())).is_ok());
    assert!(matches!(hook.command_outcome(Err(s("x"))), Err(Error::HookError(m)) if m == "x"));
    let exec = StageStep::Exec { program: s("pacman"), args: vec![], kind: CommandKind::Package };
    assert!(matches!(exec.command_outcome(Err(s("y"))), Err(Error::PackageError(m)) if m == "y"));
    let env = StageStep::AppendEnv { line: s("export A=1\n") };
    assert!(matches!(
        env.command_outcome(Err(s("environment variable not found"))),
        Err(Error::ConfigError(m)) if m == "environment variable not found"
    ));
}

#[test]
fn backup_run_writes_index_after_all_copies() {
    let files = vec![s("/etc/issue"), s("/etc/motd")];
    let mut run = BackupRun::start("p", "/d", &files, Ok(s("{}"))).unwrap();
    let first = run.next_copy().unwrap();
    assert_eq!(first.from, "/etc/issue");
    assert!(first.to.starts_with("/d/p+"));
    run.record_copy(Ok(()));
    let second = run.next_copy().unwrap();
    assert_eq!(second.from, "/etc/motd");
    run.record_copy(Ok(()));
    assert!(run.next_copy().is_none());
    let write = run.finish().unwrap();
    assert_eq!(write.path, "/d/index.json");
    assert!(write.contents.contains("\"/etc/issue\""));
    assert!(write.contents.contains("\"/etc/motd\""));
}

#[test]
fn backup_run_stops_without_writing_index() {
    let files = vec![s("/etc/issue"), s("/etc/motd")];
    let mut run = BackupRun::start("p", "/d", &files, Ok(s("{}"))).unwrap();
    let first = run.next_copy().unwrap();
    run.record_copy(Err(s("denied")));
    assert!(run.next_copy().is_none());
    match run.finish() {
        Err(Error::OpenFile(m)) => {
            assert_eq!(m, format!("Failed to copy file from '/etc/issue' to '{}': denied", first.to))
        }
        _ => panic!("expected the copy error"),
    }
    assert!(matches!(BackupRun::start("p", "/d", &files, Err(s("gone"))), Err(Error::BackupError(_))));
}

#[test]
fn restore_run_follows_index() {
    let files = vec![s("/etc/issue"), s("/etc/motd")];
    let index = s("{\"/etc/issue\": \"p+1.backup\", \"/etc/motd\": \"p+2.backup\"}");
    let mut run = RestoreRun::start("/d", &files, Ok(index.clone())).unwrap();
    let c = run.next_restore().unwrap();
    assert_eq!((c.from.as_str(), c.to.as_str()), ("/d/p+1.backup", "/etc/issue"));
    run.record_restore(RestoreOutcome::Copied);
    let c = run.next_restore().unwrap();
    assert_eq!((c.from.as_str(), c.to.as_str()), ("/d/p+2.backup", "/etc/motd"));
    run.record_restore(RestoreOutcome::Copied);
    assert!(run.next_restore().is_none());
    let write = run.finish().unwrap();
    assert_eq!(write.path, "/d/index.json");
    assert!(write.contents.contains("p+2.backup"));
}

#[test]
fn restore_run_stops_at_missing_reference_or_backup() {
    let files = vec![s("/etc/unknown"), s("/etc/issue")];
    let mut run = RestoreRun::start("/d", &files, Ok(s("{\"/etc/issue\": \"x\"}"))).unwrap();
    assert!(run.next_restore().is_none());
    match run.finish() {
        Err(Error::OpenFile(m)) => assert_eq!(m, "No backup reference found for file '/etc/unknown' in the index."),
        _ => panic!("expected the reference error"),
    }
    let files = vec![s("/etc/issue"), s("/etc/issue")];
    let mut run = RestoreRun::start("/d", &files, Ok(s("{\"/etc/issue\": \"x\"}"))).unwrap();
    run.next_restore().unwrap();
    run.record_restore(RestoreOutcome::BackupMissing);
    assert!(run.next_restore().is_none());
    match run.finish() {
        Err(Error::OpenFile(m)) => assert_eq!(m, "Backup file '/d/x' is missing from the backup directory."),
        _ => panic!("expected the missing-backup error"),
    }
}

fn preset() -> Preset {
    Preset {
        name: s("Example preset"),
        id: s("bakeryos.presets.Example"),
        stages: vec![Stage {
            name: s("Hello"),
            install_packages: None,
            uninstall_packages: None,
            continue_if_err: None,
            triggers: Some(vec![s("apply")]),
            backups: None,
            restores: None,
            configs: None,
            hooks: None,
        }],
    }
}

#[test]
fn begin_apply_registers_new_presets() {
    let p = preset();
    let mut conf = Config::new();
    let run = begin_apply(&p, &mut conf, Registration::New { backup_dir: s("/b/1") }).unwrap();
    assert_eq!(run.next_stage(), Some(0));
    assert_eq!(conf.get_backup_path_by_id("bakeryos.presets.Example"), Some(s("/b/1")));
}

#[test]
fn begin_apply_asks_before_reapplying() {
    let p = preset();
    let mut conf = Config::new();
    conf.save_preset("bakeryos.presets.Example", "Example preset", "/b/1").unwrap();
    assert!(begin_apply(&p, &mut conf, Registration::Known { answer: s("n\n") }).is_none());
    assert!(begin_apply(&p, &mut conf, Registration::Known { answer: s("Yes\n") }).is_some());
    assert_eq!(conf.get_backup_path_by_id("bakeryos.presets.Example"), Some(s("/b/1")));
    assert_eq!(conf.presets.entries().len(), 1);
}
