use bakeryos_preset::cli::{reapply_confirmed, summarize};
use bakeryos_preset::error::Error;
use bakeryos_preset::preset::{Preset, Stage, StageResult};

fn stage(name: &str, triggers: &[&str], continue_if_err: Option<bool>) -> Stage {
    Stage {
        name: name.to_string(),
        install_packages: None,
        uninstall_packages: None,
        continue_if_err,
        triggers: Some(triggers.iter().map(|t| t.to_string()).collect()),
        backups: None,
        restores: None,
        configs: None,
        hooks: None,
    }
}

fn preset(stages: Vec<Stage>) -> Preset {
    Preset { name: "Example preset".to_string(), id: "bakeryos.presets.Example".to_string(), stages }
}

#[test]
fn apply_runs_only_apply_stages_in_order() {
    let p = preset(vec![
        stage("Hello", &["apply"], None),
        stage("Undo", &["unapply"], None),
        stage("Restore", &["apply", "rollback"], None),
    ]);
    let mut run = p.apply();
    assert_eq!(run.next_stage(), Some(0));
    run.record(0, 5, Ok(()));
    assert_eq!(run.next_stage(), Some(2));
    run.record(2, 7, Ok(()));
    assert_eq!(run.next_stage(), None);
    let results = run.into_results();
    assert_eq!(results.len(), 2);
    assert_eq!(results[0].name, "Hello");
    assert_eq!(results[0].time, 5);
    assert!(results[0].is_success && results[0].err.is_none());
    assert_eq!(results[1].name, "Restore");
}

#[test]
fn unapply_runs_only_unapply_stages() {
    let p = preset(vec![stage("Hello", &["apply"], None), stage("Undo", &["unapply"], None)]);
    let run = p.unapply();
    assert_eq!(run.next_stage(), Some(1));
}

#[test]
fn failure_stops_the_run() {
    let p = preset(vec![
        stage("First", &["apply"], None),
        stage("Second", &["apply"], None),
    ]);
    let mut run = p.apply();
    let i = run.next_stage().unwrap();
    run.record(i, 3, Err(Error::PackageError("boom".to_string())));
    assert_eq!(run.next_stage(), None);
    let results = run.into_results();
    assert_eq!(results.len(), 1);
    assert!(!results[0].is_success);
    assert!(matches!(&results[0].err, Some(Error::PackageError(m)) if m == "boom"));
}

#[test]
fn continue_if_err_keeps_going() {
    let p = preset(vec![
        stage("First", &["apply"], Some(true)),
        stage("Second", &["apply"], Some(false)),
        stage("Third", &["apply"], None),
    ]);
    let mut run = p.apply();
    run.record(run.next_stage().unwrap(), 1, Err(Error::UnknownError));
    assert_eq!(run.next_stage(), Some(1));
    run.record(1, 1, Err(Error::UnknownError));
    assert_eq!(run.next_stage(), None);
    assert_eq!(run.results().len(), 2);
}

#[test]
fn run_with_several_triggers() {
    let p = preset(vec![
        stage("A", &["unapply"], None),
        stage("B", &["rollback"], None),
        stage("C", &["apply"], None),
    ]);
    let run = p.run(vec!["rollback", "apply"]);
    assert_eq!(run.next_stage(), Some(1));
    let none = p.run(vec![]);
    assert_eq!(none.next_stage(), None);
}

#[test]
fn reapply_answers() {
    assert!(reapply_confirmed("y\n"));
    assert!(reapply_confirmed("  YES \n"));
    assert!(reapply_confirmed("Yes"));
    assert!(reapply_confirmed("\tY\r\n"));
    assert!(!reapply_confirmed("n\n"));
    assert!(!reapply_confirmed(""));
    assert!(!reapply_confirmed("yess"));
    assert!(!reapply_confirmed("y es"));
}

fn result(name: &str, time: u128, ok: bool) -> StageResult {
    StageResult {
        name: name.to_string(),
        time,
        is_success: ok,
        err: if ok { None } else { Some(Error::UnknownError) },
    }
}

#[test]
fn summary_of_results() {
    let results = vec![result("a", 10, true), result("b", 32, false), result("c", 0, true)];
    let summary = summarize(&results);
    assert_eq!(summary.total_time, 42);
    assert_eq!(summary.success_count, 2);
    assert_eq!(summary.stage_count, 3);
    assert!(!summary.all_succeeded());
    let empty = summarize(&[]);
    assert_eq!(empty.total_time, 0);
    assert!(empty.all_succeeded());
}
