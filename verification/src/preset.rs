//! The preset model: stages, what applying a stage does, and the run over
//! the stages of a preset.

use vstd::prelude::*;
use vstd::string::*;

use crate::config::{backup_path_of, Config};
use crate::error::Error;

verus! {

/// A package to install or remove.
pub struct Package {
    name: String,
    version: Option<String>,
}

impl Package {
    /// A package of the given name and optional version.
    pub fn new(name: String, version: Option<String>) -> (res: Package)
        ensures
            res.spec_name() == name@,
            res.spec_version() == version,
    {
        Package { name, version }
    }

    /// The package's name.
    pub fn name(&self) -> (res: &String)
        ensures
            res@ == self.spec_name(),
    {
        &self.name
    }

    /// The package's version, if one is given.
    pub fn version(&self) -> (res: &Option<String>)
        ensures
            *res == self.spec_version(),
    {
        &self.version
    }

    /// The name of the package, as a specification value.
    pub closed spec fn spec_name(self) -> Seq<char> {
        self.name@
    }

    /// The version of the package, as a specification value.
    pub closed spec fn spec_version(self) -> Option<String> {
        self.version
    }
}

/// One GSettings key to set.
pub struct GSettingsConfigItem {
    pub id: String,
    pub key: String,
    pub value: String,
}

/// GSettings keys to set.
pub struct GSettingsConfig {
    pub gsettings: Vec<GSettingsConfigItem>,
}

/// One DConf path to write.
pub struct DConfConfigItem {
    pub path: String,
    pub value: String,
}

/// DConf paths to write.
pub struct DConfConfig {
    pub dconf: Vec<DConfConfigItem>,
}

/// One environment variable to export.
pub struct EnvConfigItem {
    pub name: String,
    pub value: String,
}

/// Environment variables to export.
pub struct EnvConfig {
    pub env: Vec<EnvConfigItem>,
}

/// A group of settings of one kind.
pub enum SetConfig {
    GSettingsConfig(GSettingsConfig),
    DConfConfig(DConfConfig),
    EnvConfig(EnvConfig),
}

/// Scripts to run around the steps of a stage.
pub struct Hooks {
    pub pre_install_pkg: Option<Vec<String>>,
    pub after_install_pkg: Option<Vec<String>>,
    pub pre_uninstall_pkg: Option<Vec<String>>,
    pub after_uninstall_pkg: Option<Vec<String>>,
    pub pre_backup: Option<Vec<String>>,
    pub after_backup: Option<Vec<String>>,
}

/// One execution phase of a preset.
pub struct Stage {
    pub name: String,
    pub install_packages: Option<Vec<Package>>,
    pub uninstall_packages: Option<Vec<Package>>,
    pub continue_if_err: Option<bool>,
    pub triggers: Option<Vec<String>>,
    pub backups: Option<Vec<String>>,
    pub restores: Option<Vec<String>>,
    pub configs: Option<Vec<SetConfig>>,
    pub hooks: Option<Hooks>,
}

/// A preset: its metadata and its stages, in order.
pub struct Preset {
    pub name: String,
    pub id: String,
    pub stages: Vec<Stage>,
}

/// The outcome of one applied stage.
pub struct StageResult {
    pub name: String,
    pub time: u128,
    pub is_success: bool,
    pub err: Option<Error>,
}

/// Which error a failing command of a step gives.
#[derive(Clone, Copy, Debug, PartialEq, Eq, Structural)]
pub enum CommandKind {
    Hook,
    Package,
    Config,
}

impl CommandKind {
    /// The error that a command of this kind gives when it fails with
    /// `message`.
    pub open spec fn failure_spec(self, message: String) -> Error {
        match self {
            CommandKind::Hook => Error::HookError(message),
            CommandKind::Package => Error::PackageError(message),
            CommandKind::Config => Error::ConfigError(message),
        }
    }

    /// The error that a command of this kind gives when it fails with `message`.
    pub fn failure(self, message: String) -> (res: Error)
        ensures
            match self {
                CommandKind::Hook => res == Error::HookError(message),
                CommandKind::Package => res == Error::PackageError(message),
                CommandKind::Config => res == Error::ConfigError(message),
            },
    {
        match self {
            CommandKind::Hook => Error::HookError(message),
            CommandKind::Package => Error::PackageError(message),
            CommandKind::Config => Error::ConfigError(message),
        }
    }
}

/// One step of applying a stage, to be carried out in order; the first step
/// that fails ends the stage with its error.
pub enum StageStep {
    /// Announce the hook, then run each script, without arguments, in order.
    RunHook { hook_name: String, scripts: Vec<String> },
    /// Run `program` with `args`; a failure is an error of `kind`.
    Exec { program: String, args: Vec<String>, kind: CommandKind },
    /// Append `line` to the `.bashrc` of the home directory.
    AppendEnv { line: String },
    /// Back up each file into the backup directory, under a backup file
    /// name of preset `preset_id`, then write the directory's index.
    Backup { preset_id: String, backup_dir: String, files: Vec<String> },
    /// Restore each file from the backup directory, then write its index.
    Restore { backup_dir: String, files: Vec<String> },
}

impl StageStep {
    /// The outcome of one command of this step (a hook script, the step's
    /// command, or appending its line), given how it went: a failure is a
    /// hook error for a hook script, an error of the command's kind for a
    /// command, and a configuration error for an environment line.
    pub fn command_outcome(&self, done: Result<(), String>) -> (res: Result<(), Error>)
        requires
            !(self is Backup || self is Restore),
        ensures
            match done {
                Ok(_) => res is Ok,
                Err(m) => match *self {
                    StageStep::RunHook { .. } => res == Err::<(), Error>(Error::HookError(m)),
                    StageStep::Exec { kind, .. } => res == Err::<(), Error>(kind.failure_spec(m)),
                    StageStep::AppendEnv { .. } => res == Err::<(), Error>(Error::ConfigError(m)),
                    _ => false,
                },
            },
    {
        match done {
            Ok(()) => Ok(()),
            Err(m) => match self {
                StageStep::RunHook { .. } => Err(CommandKind::Hook.failure(m)),
                StageStep::Exec { kind, .. } => Err(kind.failure(m)),
                StageStep::AppendEnv { .. } => Err(CommandKind::Config.failure(m)),
                _ => Err(Error::UnknownError),
            },
        }
    }
}

/// A step as a specification value.
pub enum StepView {
    RunHook { hook_name: Seq<char>, scripts: Seq<Seq<char>> },
    Exec { program: Seq<char>, args: Seq<Seq<char>>, kind: CommandKind },
    AppendEnv { line: Seq<char> },
    Backup { preset_id: Seq<char>, backup_dir: Seq<char>, files: Seq<Seq<char>> },
    Restore { backup_dir: Seq<char>, files: Seq<Seq<char>> },
}

/// The contents of a sequence of strings.
pub open spec fn strings(v: Seq<String>) -> Seq<Seq<char>> {
    v.map_values(|s: String| s@)
}

impl View for StageStep {
    type V = StepView;

    open spec fn view(&self) -> StepView {
        match *self {
            StageStep::RunHook { hook_name, scripts } => StepView::RunHook {
                hook_name: hook_name@,
                scripts: strings(scripts@),
            },
            StageStep::Exec { program, args, kind } => StepView::Exec {
                program: program@,
                args: strings(args@),
                kind,
            },
            StageStep::AppendEnv { line } => StepView::AppendEnv { line: line@ },
            StageStep::Backup { preset_id, backup_dir, files } => StepView::Backup {
                preset_id: preset_id@,
                backup_dir: backup_dir@,
                files: strings(files@),
            },
            StageStep::Restore { backup_dir, files } => StepView::Restore {
                backup_dir: backup_dir@,
                files: strings(files@),
            },
        }
    }
}

/// The contents of a sequence of steps.
pub open spec fn steps_view(v: Seq<StageStep>) -> Seq<StepView> {
    v.map_values(|s: StageStep| s@)
}

/// The elements of an optional vector; none when it is absent.
pub open spec fn opt_seq<T>(o: Option<Vec<T>>) -> Seq<T> {
    match o {
        Some(v) => v@,
        None => Seq::empty(),
    }
}

/// The scripts that running hook `hook_name` runs: only the
/// `pre_install_pkg` hook has scripts to run; every other hook runs none.
pub open spec fn hook_scripts(hooks: Hooks, hook_name: Seq<char>) -> Seq<Seq<char>> {
    if hook_name == "pre_install_pkg"@ {
        strings(opt_seq(hooks.pre_install_pkg))
    } else {
        Seq::empty()
    }
}

/// The hooks a stage runs with: its own, or hooks that have no scripts.
pub open spec fn stage_hook_scripts(hooks: Option<Hooks>, hook_name: Seq<char>) -> Seq<Seq<char>> {
    match hooks {
        Some(h) => hook_scripts(h, hook_name),
        None => Seq::empty(),
    }
}

/// The step that runs hook `hook_name` of a stage.
pub open spec fn hook_step(hooks: Option<Hooks>, hook_name: Seq<char>) -> StepView {
    StepView::RunHook { hook_name, scripts: stage_hook_scripts(hooks, hook_name) }
}

/// The names of a sequence of packages.
pub open spec fn package_names(p: Seq<Package>) -> Seq<Seq<char>> {
    p.map_values(|q: Package| q.spec_name())
}

/// The pacman command that installs `p`.
pub open spec fn install_step(p: Seq<Package>) -> StepView {
    StepView::Exec {
        program: "pacman"@,
        args: seq!["-S"@, "--noconfirm"@] + package_names(p),
        kind: CommandKind::Package,
    }
}

/// The pacman command that removes `p` with its unneeded dependencies and
/// saved configuration files.
pub open spec fn uninstall_step(p: Seq<Package>) -> StepView {
    StepView::Exec {
        program: "pacman"@,
        args: seq!["-Rns"@, "--noconfirm"@] + package_names(p),
        kind: CommandKind::Package,
    }
}

/// The command that sets a GSettings key.
pub open spec fn gsettings_step(c: GSettingsConfigItem) -> StepView {
    StepView::Exec {
        program: "gsettings"@,
        args: seq!["set"@, c.id@, c.key@, c.value@],
        kind: CommandKind::Config,
    }
}

/// The command that writes a DConf path.
pub open spec fn dconf_step(c: DConfConfigItem) -> StepView {
    StepView::Exec {
        program: "dconf"@,
        args: seq!["write"@, c.path@, c.value@],
        kind: CommandKind::Config,
    }
}

/// The line that exports an environment variable.
pub open spec fn export_line(c: EnvConfigItem) -> Seq<char> {
    "export "@ + c.name@ + "="@ + c.value@ + "\n"@
}

/// The steps of one group of settings, item by item.
pub open spec fn config_steps(c: SetConfig) -> Seq<StepView> {
    match c {
        SetConfig::GSettingsConfig(g) => g.gsettings@.map_values(|i: GSettingsConfigItem| gsettings_step(i)),
        SetConfig::DConfConfig(d) => d.dconf@.map_values(|i: DConfConfigItem| dconf_step(i)),
        SetConfig::EnvConfig(e) => e.env@.map_values(|i: EnvConfigItem| StepView::AppendEnv { line: export_line(i) }),
    }
}

/// The steps of a sequence of groups of settings, group by group.
pub open spec fn configs_steps(cs: Seq<SetConfig>) -> Seq<StepView>
    decreases cs.len(),
{
    if cs.len() == 0 {
        Seq::empty()
    } else {
        configs_steps(cs.drop_last()) + config_steps(cs.last())
    }
}

/// The backup directory that the configuration records for a preset; empty
/// when there is none.
pub open spec fn stage_backup_dir(conf: Config, preset_id: Seq<char>) -> Seq<char> {
    match backup_path_of(conf.presets@, preset_id) {
        Some(p) => p,
        None => Seq::empty(),
    }
}

/// The hooks of a stage give, for every hook name, the given scripts.
pub open spec fn hooks_agree(hooks: Hooks, stage_hooks: Option<Hooks>) -> bool {
    forall|name: Seq<char>| #[trigger] hook_scripts(hooks, name) == stage_hook_scripts(stage_hooks, name)
}

/// Installing the stage's packages, between their hooks, when there are any.
pub open spec fn install_part(stage: Stage) -> Seq<StepView> {
    let p = opt_seq(stage.install_packages);
    if p.len() > 0 {
        seq![
            hook_step(stage.hooks, "pre_install_pkg"@),
            install_step(p),
            hook_step(stage.hooks, "after_install_pkg"@),
        ]
    } else {
        Seq::empty()
    }
}

/// Backing up the stage's files, between their hooks, when there are any.
pub open spec fn backup_part(stage: Stage, preset_id: Seq<char>, backup_dir: Seq<char>) -> Seq<StepView> {
    let b = opt_seq(stage.backups);
    if b.len() > 0 {
        seq![
            hook_step(stage.hooks, "pre_backup"@),
            StepView::Backup { preset_id, backup_dir, files: strings(b) },
            hook_step(stage.hooks, "after_backup"@),
        ]
    } else {
        Seq::empty()
    }
}

/// Restoring the stage's files, when there are any.
pub open spec fn restore_part(stage: Stage, backup_dir: Seq<char>) -> Seq<StepView> {
    let r = opt_seq(stage.restores);
    if r.len() > 0 {
        seq![StepView::Restore { backup_dir, files: strings(r) }]
    } else {
        Seq::empty()
    }
}

/// Removing the stage's packages, between their hooks, when there are any.
pub open spec fn uninstall_part(stage: Stage) -> Seq<StepView> {
    let p = opt_seq(stage.uninstall_packages);
    if p.len() > 0 {
        seq![
            hook_step(stage.hooks, "pre_uninstall_pkg"@),
            uninstall_step(p),
            hook_step(stage.hooks, "after_uninstall_pkg"@),
        ]
    } else {
        Seq::empty()
    }
}

/// The steps that apply a stage: packages to install between their hooks,
/// files to back up between their hooks, the settings in order, files to
/// restore, and packages to remove between their hooks; each group only
/// when it is not empty.
pub open spec fn stage_plan(stage: Stage, preset_id: Seq<char>, backup_dir: Seq<char>) -> Seq<StepView> {
    install_part(stage) + backup_part(stage, preset_id, backup_dir) + configs_steps(opt_seq(stage.configs))
        + restore_part(stage, backup_dir) + uninstall_part(stage)
}

/// Hooks that run no script.
pub open spec fn runs_no_script(h: Hooks) -> bool {
    &&& opt_seq(h.pre_install_pkg).len() == 0
    &&& opt_seq(h.after_install_pkg).len() == 0
    &&& opt_seq(h.pre_uninstall_pkg).len() == 0
    &&& opt_seq(h.after_uninstall_pkg).len() == 0
    &&& opt_seq(h.pre_backup).len() == 0
    &&& opt_seq(h.after_backup).len() == 0
}

/// A stage without hooks is planned exactly like the same stage with hooks
/// that run no script: leaving the hooks out takes no step away.
pub proof fn lemma_absent_hooks_plan_like_empty(stage: Stage, hooks: Hooks, preset_id: Seq<char>, backup_dir: Seq<char>)
    requires
        stage.hooks is None,
        runs_no_script(hooks),
    ensures
        stage_plan(stage, preset_id, backup_dir) == stage_plan(
            Stage { hooks: Some(hooks), ..stage },
            preset_id,
            backup_dir,
        ),
{
    let other = Stage { hooks: Some(hooks), ..stage };
    assert forall|name: Seq<char>| #[trigger] hook_step(stage.hooks, name) == hook_step(other.hooks, name) by {
        assert(hook_scripts(hooks, name) =~= Seq::<Seq<char>>::empty());
    }
    assert(install_part(stage) =~= install_part(other));
    assert(backup_part(stage, preset_id, backup_dir) =~= backup_part(other, preset_id, backup_dir));
    assert(uninstall_part(stage) =~= uninstall_part(other));
}

/// The package names of a list of packages, in order.
pub open spec fn names_of(p: Seq<Package>) -> Seq<Seq<char>> {
    Seq::new(p.len(), |i: int| p[i].spec_name())
}

/// A stage with packages to install, with or without hooks, installs them:
/// its plan runs `pacman -S --noconfirm` followed by the package names, as a
/// package command, right after the `pre_install_pkg` hook.
pub proof fn lemma_install_planned(stage: Stage, preset_id: Seq<char>, backup_dir: Seq<char>)
    requires
        opt_seq(stage.install_packages).len() > 0,
    ensures
        stage_plan(stage, preset_id, backup_dir).len() >= 3,
        stage_plan(stage, preset_id, backup_dir)[0] matches StepView::RunHook { hook_name, .. }
            && hook_name == "pre_install_pkg"@,
        stage_plan(stage, preset_id, backup_dir)[1] == (StepView::Exec {
            program: "pacman"@,
            args: seq!["-S"@, "--noconfirm"@] + names_of(opt_seq(stage.install_packages)),
            kind: CommandKind::Package,
        }),
        stage_plan(stage, preset_id, backup_dir)[2] matches StepView::RunHook { hook_name, .. }
            && hook_name == "after_install_pkg"@,
{
    let p = opt_seq(stage.install_packages);
    assert(package_names(p) =~= names_of(p));
    let plan = stage_plan(stage, preset_id, backup_dir);
    assert(plan[0] == install_part(stage)[0]);
    assert(plan[1] == install_part(stage)[1]);
    assert(plan[2] == install_part(stage)[2]);
}

/// A stage with packages to remove, with or without hooks, removes them: its
/// plan ends with `pacman -Rns --noconfirm` and the package names between
/// the `pre_uninstall_pkg` and `after_uninstall_pkg` hooks.
pub proof fn lemma_uninstall_planned(stage: Stage, preset_id: Seq<char>, backup_dir: Seq<char>)
    requires
        opt_seq(stage.uninstall_packages).len() > 0,
    ensures
        ({
            let plan = stage_plan(stage, preset_id, backup_dir);
            &&& plan.len() >= 3
            &&& plan[plan.len() - 3] matches StepView::RunHook { hook_name, .. } && hook_name
                == "pre_uninstall_pkg"@
            &&& plan[plan.len() - 2] == (StepView::Exec {
                program: "pacman"@,
                args: seq!["-Rns"@, "--noconfirm"@] + names_of(opt_seq(stage.uninstall_packages)),
                kind: CommandKind::Package,
            })
            &&& plan[plan.len() - 1] matches StepView::RunHook { hook_name, .. } && hook_name
                == "after_uninstall_pkg"@
        }),
{
    let p = opt_seq(stage.uninstall_packages);
    assert(package_names(p) =~= names_of(p));
    let plan = stage_plan(stage, preset_id, backup_dir);
    let before = install_part(stage) + backup_part(stage, preset_id, backup_dir) + configs_steps(
        opt_seq(stage.configs),
    ) + restore_part(stage, backup_dir);
    let u = uninstall_part(stage);
    assert(plan == before + u);
    assert(plan[plan.len() - 3] == u[0]);
    assert(plan[plan.len() - 2] == u[1]);
    assert(plan[plan.len() - 1] == u[2]);
}

/// A stage with files to back up, with or without hooks, backs them up: its
/// plan has a backup step of exactly those files, for the preset, into the
/// backup directory.
pub proof fn lemma_backup_planned(stage: Stage, preset_id: Seq<char>, backup_dir: Seq<char>)
    requires
        opt_seq(stage.backups).len() > 0,
    ensures
        exists|k: int| 0 <= k < stage_plan(stage, preset_id, backup_dir).len()
            && #[trigger] stage_plan(stage, preset_id, backup_dir)[k] == (StepView::Backup {
                preset_id,
                backup_dir,
                files: Seq::new(opt_seq(stage.backups).len(), |i: int| opt_seq(stage.backups)[i]@),
            }),
{
    let b = opt_seq(stage.backups);
    assert(strings(b) =~= Seq::new(b.len(), |i: int| b[i]@));
    let plan = stage_plan(stage, preset_id, backup_dir);
    let k: int = install_part(stage).len() as int + 1;
    assert(plan[k] == backup_part(stage, preset_id, backup_dir)[1]);
}

/// A stage with files to restore, with or without hooks, restores them: its
/// plan has a restore step of exactly those files from the backup directory.
pub proof fn lemma_restore_planned(stage: Stage, preset_id: Seq<char>, backup_dir: Seq<char>)
    requires
        opt_seq(stage.restores).len() > 0,
    ensures
        exists|k: int| 0 <= k < stage_plan(stage, preset_id, backup_dir).len()
            && #[trigger] stage_plan(stage, preset_id, backup_dir)[k] == (StepView::Restore {
                backup_dir,
                files: Seq::new(opt_seq(stage.restores).len(), |i: int| opt_seq(stage.restores)[i]@),
            }),
{
    let r = opt_seq(stage.restores);
    assert(strings(r) =~= Seq::new(r.len(), |i: int| r[i]@));
    let plan = stage_plan(stage, preset_id, backup_dir);
    let k: int = (install_part(stage).len() + backup_part(stage, preset_id, backup_dir).len() + configs_steps(
        opt_seq(stage.configs),
    ).len()) as int;
    assert(plan[k] == restore_part(stage, backup_dir)[0]);
}

/// A GSettings group sets each of its keys, one `gsettings set` command per
/// item, in the order of the items.
pub proof fn lemma_gsettings_steps(g: GSettingsConfig)
    ensures
        config_steps(SetConfig::GSettingsConfig(g)).len() == g.gsettings@.len(),
        forall|k: int| 0 <= k < g.gsettings@.len() ==> #[trigger] config_steps(SetConfig::GSettingsConfig(g))[k]
            == (StepView::Exec {
                program: "gsettings"@,
                args: seq!["set"@, g.gsettings@[k].id@, g.gsettings@[k].key@, g.gsettings@[k].value@],
                kind: CommandKind::Config,
            }),
{
}

/// A DConf group writes each of its paths, one `dconf write` command per
/// item, in the order of the items.
pub proof fn lemma_dconf_steps(d: DConfConfig)
    ensures
        config_steps(SetConfig::DConfConfig(d)).len() == d.dconf@.len(),
        forall|k: int| 0 <= k < d.dconf@.len() ==> #[trigger] config_steps(SetConfig::DConfConfig(d))[k]
            == (StepView::Exec {
                program: "dconf"@,
                args: seq!["write"@, d.dconf@[k].path@, d.dconf@[k].value@],
                kind: CommandKind::Config,
            }),
{
}

/// An environment group exports each of its variables, one line
/// `export NAME=VALUE` per item, in the order of the items.
pub proof fn lemma_env_steps(e: EnvConfig)
    ensures
        config_steps(SetConfig::EnvConfig(e)).len() == e.env@.len(),
        forall|k: int| 0 <= k < e.env@.len() ==> #[trigger] config_steps(SetConfig::EnvConfig(e))[k]
            == (StepView::AppendEnv { line: "export "@ + e.env@[k].name@ + "="@ + e.env@[k].value@ + "\n"@ }),
{
}

/// The settings of a list of groups are those of its first part followed by
/// those of the rest: every group's items are applied, group after group.
pub proof fn lemma_configs_steps_concat(a: Seq<SetConfig>, b: Seq<SetConfig>)
    ensures
        configs_steps(a + b) == configs_steps(a) + configs_steps(b),
    decreases b.len(),
{
    if b.len() == 0 {
        assert(a + b =~= a);
        assert(configs_steps(a) + configs_steps(b) =~= configs_steps(a));
    } else {
        lemma_configs_steps_concat(a, b.drop_last());
        assert((a + b).drop_last() =~= a + b.drop_last());
        assert(configs_steps(a + b) =~= configs_steps(a) + configs_steps(b));
    }
}

/// A single group's settings are that group's steps.
pub proof fn lemma_configs_steps_single(c: SetConfig)
    ensures
        configs_steps(seq![c]) == config_steps(c),
{
    assert(seq![c].drop_last() =~= Seq::<SetConfig>::empty());
    assert(configs_steps(Seq::<SetConfig>::empty()) =~= Seq::<StepView>::empty());
    assert(Seq::<StepView>::empty() + config_steps(c) =~= config_steps(c));
}

/// A stage has every trigger it lists, and a stage that lists no triggers
/// has none.
pub proof fn lemma_listed_triggers(stage: Stage, i: int)
    ensures
        stage.triggers is None ==> forall|e: Seq<char>| !#[trigger] stage_has_trigger(stage, e),
        stage.triggers matches Some(v) ==> (0 <= i < v@.len() ==> stage_has_trigger(stage, v@[i]@)),
        stage.triggers matches Some(v) ==> forall|e: Seq<char>| #[trigger] stage_has_trigger(stage, e)
            ==> exists|j: int| 0 <= j < v@.len() && v@[j]@ == e,
{
    if let Some(v) = stage.triggers {
        if 0 <= i < v@.len() {
            assert(opt_seq(stage.triggers)[i]@ == v@[i]@);
        }
    }
}

/// Running the `pre_install_pkg` hook runs its scripts, all of them, in
/// order; a hook that lists no scripts runs none.
pub proof fn lemma_pre_install_scripts(h: Hooks)
    ensures
        hook_scripts(h, "pre_install_pkg"@) == Seq::new(
            opt_seq(h.pre_install_pkg).len(),
            |i: int| opt_seq(h.pre_install_pkg)[i]@,
        ),
{
    assert(hook_scripts(h, "pre_install_pkg"@) =~= Seq::new(
        opt_seq(h.pre_install_pkg).len(),
        |i: int| opt_seq(h.pre_install_pkg)[i]@,
    ));
}

/// A copy of a vector of strings.
pub fn copy_strings(v: &[String]) -> (res: Vec<String>)
    ensures
        strings(res@) == strings(v@),
{
    let mut res: Vec<String> = Vec::new();
    let mut i: usize = 0;
    while i < v.len()
        invariant
            i <= v@.len(),
            strings(res@) == strings(v@.take(i as int)),
        decreases v@.len() - i,
    {
        res.push(v[i].clone());
        proof {
            assert(strings(v@.take(i + 1)) =~= strings(v@.take(i as int)).push(v@[i as int]@));
            assert(strings(res@) =~= strings(v@.take(i as int)).push(v@[i as int]@));
        }
        i = i + 1;
    }
    proof {
        assert(v@.take(v@.len() as int) =~= v@);
    }
    res
}

/// The strings `fixed`, followed by the names of `packages`.
fn command_args(fixed: Vec<String>, packages: &[Package]) -> (res: Vec<String>)
    ensures
        strings(res@) == strings(fixed@) + package_names(packages@),
{
    let mut res = fixed;
    let ghost start = strings(res@);
    let mut i: usize = 0;
    while i < packages.len()
        invariant
            i <= packages@.len(),
            strings(res@) == start + package_names(packages@.take(i as int)),
        decreases packages@.len() - i,
    {
        let ghost before = res@;
        res.push(packages[i].name().clone());
        proof {
            assert(package_names(packages@.take(i + 1)) =~= package_names(packages@.take(i as int)).push(
                packages@[i as int].spec_name(),
            ));
            assert(strings(res@) =~= strings(before).push(packages@[i as int].spec_name()));
        }
        i = i + 1;
    }
    proof {
        assert(packages@.take(packages@.len() as int) =~= packages@);
    }
    res
}

/// A vector holding two strings.
fn two_strings(a: &str, b: &str) -> (res: Vec<String>)
    ensures
        strings(res@) == seq![a@, b@],
{
    let mut res = Vec::new();
    res.push(a.to_owned());
    res.push(b.to_owned());
    proof {
        assert(strings(res@) =~= seq![a@, b@]);
    }
    res
}

impl Hooks {
    /// Hooks that have no scripts.
    pub fn none() -> (res: Hooks)
        ensures
            res.pre_install_pkg matches Some(v) && v@.len() == 0,
            res.after_install_pkg matches Some(v) && v@.len() == 0,
            res.pre_uninstall_pkg matches Some(v) && v@.len() == 0,
            res.after_uninstall_pkg matches Some(v) && v@.len() == 0,
            res.pre_backup matches Some(v) && v@.len() == 0,
            res.after_backup matches Some(v) && v@.len() == 0,
    {
        Hooks {
            pre_install_pkg: Some(Vec::new()),
            after_install_pkg: Some(Vec::new()),
            pre_uninstall_pkg: Some(Vec::new()),
            after_uninstall_pkg: Some(Vec::new()),
            pre_backup: Some(Vec::new()),
            after_backup: Some(Vec::new()),
        }
    }

    /// The step that runs hook `hook_name`.
    pub fn run_hook(&self, hook_name: &str) -> (res: StageStep)
        ensures
            res@ == (StepView::RunHook { hook_name: hook_name@, scripts: hook_scripts(*self, hook_name@) }),
    {
        let is_pre_install = hook_name.to_owned() == "pre_install_pkg".to_owned();
        let scripts = if is_pre_install {
            match &self.pre_install_pkg {
                Some(v) => copy_strings(v.as_slice()),
                None => Vec::new(),
            }
        } else {
            Vec::new()
        };
        proof {
            if !is_pre_install {
                assert(strings(scripts@) =~= Seq::<Seq<char>>::empty());
            } else if self.pre_install_pkg is None {
                assert(strings(scripts@) =~= Seq::<Seq<char>>::empty());
            }
        }
        StageStep::RunHook { hook_name: hook_name.to_owned(), scripts }
    }
}

impl Stage {
    /// Whether `event_name` is one of the stage's triggers.
    pub fn has_trigger(&self, event_name: &str) -> (res: bool)
        ensures
            res == stage_has_trigger(*self, event_name@),
    {
        match &self.triggers {
            Some(v) => {
                let e = event_name.to_owned();
                let mut i: usize = 0;
                while i < v.len()
                    invariant
                        i <= v@.len(),
                        v@ == opt_seq(self.triggers),
                        e@ == event_name@,
                        forall|j: int| 0 <= j < i ==> #[trigger] v@[j]@ != event_name@,
                    decreases v@.len() - i,
                {
                    if v[i] == e {
                        assert(v@[i as int]@ == event_name@);
                        return true;
                    }
                    i = i + 1;
                }
                false
            },
            None => false,
        }
    }
}

/// Whether `event` is one of the stage's triggers.
pub open spec fn stage_has_trigger(stage: Stage, event: Seq<char>) -> bool {
    exists|i: int| 0 <= i < opt_seq(stage.triggers).len() && #[trigger] opt_seq(stage.triggers)[i]@ == event
}

impl Preset {
    /// The command that installs `packages`.
    pub fn install_pkg(&self, packages: &[Package]) -> (res: StageStep)
        ensures
            res@ == install_step(packages@),
    {
        let args = command_args(two_strings("-S", "--noconfirm"), packages);
        StageStep::Exec { program: "pacman".to_owned(), args, kind: CommandKind::Package }
    }

    /// The command that removes `packages`.
    pub fn uninstall_pkg(&self, packages: &[Package]) -> (res: StageStep)
        ensures
            res@ == uninstall_step(packages@),
    {
        let args = command_args(two_strings("-Rns", "--noconfirm"), packages);
        StageStep::Exec { program: "pacman".to_owned(), args, kind: CommandKind::Package }
    }

    /// The command that sets a GSettings key.
    pub fn apply_gsettings(&self, cfg: &GSettingsConfigItem) -> (res: StageStep)
        ensures
            res@ == gsettings_step(*cfg),
    {
        let mut args = Vec::new();
        args.push("set".to_owned());
        args.push(cfg.id.clone());
        args.push(cfg.key.clone());
        args.push(cfg.value.clone());
        proof {
            assert(strings(args@) =~= seq!["set"@, cfg.id@, cfg.key@, cfg.value@]);
        }
        StageStep::Exec { program: "gsettings".to_owned(), args, kind: CommandKind::Config }
    }

    /// The command that writes a DConf path.
    pub fn apply_dconf(&self, cfg: &DConfConfigItem) -> (res: StageStep)
        ensures
            res@ == dconf_step(*cfg),
    {
        let mut args = Vec::new();
        args.push("write".to_owned());
        args.push(cfg.path.clone());
        args.push(cfg.value.clone());
        proof {
            assert(strings(args@) =~= seq!["write"@, cfg.path@, cfg.value@]);
        }
        StageStep::Exec { program: "dconf".to_owned(), args, kind: CommandKind::Config }
    }

    /// The step that exports an environment variable for good.
    pub fn apply_env(&self, cfg: &EnvConfigItem) -> (res: StageStep)
        ensures
            res@ == (StepView::AppendEnv { line: export_line(*cfg) }),
    {
        let mut line = "export ".to_owned();
        line.append(cfg.name.as_str());
        line.append("=");
        line.append(cfg.value.as_str());
        line.append("\n");
        StageStep::AppendEnv { line }
    }

    /// The `.bashrc` file of the home directory `home`, where exported
    /// variables are appended.
    pub fn bashrc_path(home: &str) -> (res: String)
        ensures
            res@ == home@ + "/.bashrc"@,
    {
        let mut res = home.to_owned();
        res.append("/.bashrc");
        res
    }

    /// The step that backs up `backups` into the preset's backup directory.
    pub fn backup(&self, backups: &[String], conf: &Config) -> (res: StageStep)
        ensures
            res@ == (StepView::Backup {
                preset_id: self.id@,
                backup_dir: stage_backup_dir(*conf, self.id@),
                files: strings(backups@),
            }),
    {
        let backup_dir = match conf.get_backup_path_by_id(self.id.as_str()) {
            Some(p) => p,
            None => String::new(),
        };
        StageStep::Backup { preset_id: self.id.clone(), backup_dir, files: copy_strings(backups) }
    }

    /// The step that restores `paths` from the preset's backup directory.
    pub fn restore(&self, paths: &[String], conf: &Config) -> (res: StageStep)
        ensures
            res@ == (StepView::Restore {
                backup_dir: stage_backup_dir(*conf, self.id@),
                files: strings(paths@),
            }),
    {
        let backup_dir = match conf.get_backup_path_by_id(self.id.as_str()) {
            Some(p) => p,
            None => String::new(),
        };
        StageStep::Restore { backup_dir, files: copy_strings(paths) }
    }
}


/// Appends `step` to `steps`.
fn push_step(steps: &mut Vec<StageStep>, step: StageStep)
    ensures
        steps_view(final(steps)@) == steps_view(old(steps)@).push(step@),
{
    steps.push(step);
    proof {
        assert(steps_view(steps@) =~= steps_view(old(steps)@).push(step@));
    }
}

/// Appends the steps `more` to `steps`.
fn append_steps(steps: &mut Vec<StageStep>, more: Vec<StageStep>)
    ensures
        steps_view(final(steps)@) == steps_view(old(steps)@) + steps_view(more@),
{
    let mut more = more;
    let ghost m = more@;
    steps.append(&mut more);
    proof {
        assert(steps_view(steps@) =~= steps_view(old(steps)@) + steps_view(m));
    }
}

impl Preset {
    /// The steps of one group of settings, item by item.
    fn config_group_steps(&self, config: &SetConfig) -> (res: Vec<StageStep>)
        ensures
            steps_view(res@) == config_steps(*config),
    {
        let mut steps: Vec<StageStep> = Vec::new();
        match config {
            SetConfig::GSettingsConfig(cfg) => {
                let items = &cfg.gsettings;
                let mut i: usize = 0;
                while i < items.len()
                    invariant
                        i <= items@.len(),
                        steps_view(steps@) == items@.take(i as int).map_values(
                            |c: GSettingsConfigItem| gsettings_step(c),
                        ),
                    decreases items@.len() - i,
                {
                    push_step(&mut steps, self.apply_gsettings(&items[i]));
                    proof {
                        assert(items@.take(i + 1).map_values(|c: GSettingsConfigItem| gsettings_step(c))
                            =~= items@.take(i as int).map_values(|c: GSettingsConfigItem| gsettings_step(c)).push(
                            gsettings_step(items@[i as int]),
                        ));
                    }
                    i = i + 1;
                }
                proof {
                    assert(items@.take(items@.len() as int) =~= items@);
                }
            },
            SetConfig::DConfConfig(cfg) => {
                let items = &cfg.dconf;
                let mut i: usize = 0;
                while i < items.len()
                    invariant
                        i <= items@.len(),
                        steps_view(steps@) == items@.take(i as int).map_values(
                            |c: DConfConfigItem| dconf_step(c),
                        ),
                    decreases items@.len() - i,
                {
                    push_step(&mut steps, self.apply_dconf(&items[i]));
                    proof {
                        assert(items@.take(i + 1).map_values(|c: DConfConfigItem| dconf_step(c))
                            =~= items@.take(i as int).map_values(|c: DConfConfigItem| dconf_step(c)).push(
                            dconf_step(items@[i as int]),
                        ));
                    }
                    i = i + 1;
                }
                proof {
                    assert(items@.take(items@.len() as int) =~= items@);
                }
            },
            SetConfig::EnvConfig(cfg) => {
                let items = &cfg.env;
                let mut i: usize = 0;
                while i < items.len()
                    invariant
                        i <= items@.len(),
                        steps_view(steps@) == items@.take(i as int).map_values(
                            |c: EnvConfigItem| StepView::AppendEnv { line: export_line(c) },
                        ),
                    decreases items@.len() - i,
                {
                    push_step(&mut steps, self.apply_env(&items[i]));
                    proof {
                        assert(items@.take(i + 1).map_values(|c: EnvConfigItem| StepView::AppendEnv { line: export_line(c) })
                            =~= items@.take(i as int).map_values(|c: EnvConfigItem| StepView::AppendEnv { line: export_line(c) }).push(
                            StepView::AppendEnv { line: export_line(items@[i as int]) },
                        ));
                    }
                    i = i + 1;
                }
                proof {
                    assert(items@.take(items@.len() as int) =~= items@);
                }
            },
        }
        steps
    }

    /// Appends the steps that install the stage's packages.
    fn plan_install(&self, stage: &Stage, hooks: &Hooks, steps: &mut Vec<StageStep>)
        requires
            hooks_agree(*hooks, stage.hooks),
        ensures
            steps_view(final(steps)@) == steps_view(old(steps)@) + install_part(*stage),
    {
        if let Some(p) = &stage.install_packages {
            if p.len() > 0 {
                push_step(steps, hooks.run_hook("pre_install_pkg"));
                push_step(steps, self.install_pkg(p.as_slice()));
                push_step(steps, hooks.run_hook("after_install_pkg"));
                assert(hook_scripts(*hooks, "pre_install_pkg"@) == stage_hook_scripts(stage.hooks, "pre_install_pkg"@));
                assert(hook_scripts(*hooks, "after_install_pkg"@) == stage_hook_scripts(stage.hooks, "after_install_pkg"@));
                return;
            }
        }
        assert(steps_view(steps@) =~= steps_view(old(steps)@) + install_part(*stage));
    }

    /// Appends the steps that back up the stage's files.
    fn plan_backup(&self, stage: &Stage, hooks: &Hooks, conf: &Config, steps: &mut Vec<StageStep>)
        requires
            hooks_agree(*hooks, stage.hooks),
        ensures
            steps_view(final(steps)@) == steps_view(old(steps)@) + backup_part(
                *stage,
                self.id@,
                stage_backup_dir(*conf, self.id@),
            ),
    {
        if let Some(b) = &stage.backups {
            if b.len() > 0 {
                push_step(steps, hooks.run_hook("pre_backup"));
                push_step(steps, self.backup(b.as_slice(), conf));
                push_step(steps, hooks.run_hook("after_backup"));
                assert(hook_scripts(*hooks, "pre_backup"@) == stage_hook_scripts(stage.hooks, "pre_backup"@));
                assert(hook_scripts(*hooks, "after_backup"@) == stage_hook_scripts(stage.hooks, "after_backup"@));
                return;
            }
        }
        assert(steps_view(steps@) =~= steps_view(old(steps)@) + backup_part(
            *stage,
            self.id@,
            stage_backup_dir(*conf, self.id@),
        ));
    }

    /// Appends the steps of the stage's settings.
    fn plan_configs(&self, stage: &Stage, steps: &mut Vec<StageStep>)
        ensures
            steps_view(final(steps)@) == steps_view(old(steps)@) + configs_steps(opt_seq(stage.configs)),
    {
        let ghost configs = opt_seq(stage.configs);
        let ghost start = steps_view(steps@);
        if let Some(cs) = &stage.configs {
            let mut i: usize = 0;
            while i < cs.len()
                invariant
                    i <= cs@.len(),
                    cs@ == configs,
                    steps_view(steps@) == start + configs_steps(configs.take(i as int)),
                decreases cs@.len() - i,
            {
                append_steps(steps, self.config_group_steps(&cs[i]));
                proof {
                    assert(configs.take(i + 1).drop_last() =~= configs.take(i as int));
                    assert(start + configs_steps(configs.take(i + 1)) =~= start + configs_steps(
                        configs.take(i as int),
                    ) + config_steps(configs[i as int]));
                }
                i = i + 1;
            }
            proof {
                assert(configs.take(cs@.len() as int) =~= configs);
            }
        } else {
            assert(configs_steps(configs) =~= Seq::<StepView>::empty());
            assert(steps_view(steps@) =~= start + configs_steps(configs));
        }
    }

    /// Appends the step that restores the stage's files.
    fn plan_restore(&self, stage: &Stage, conf: &Config, steps: &mut Vec<StageStep>)
        ensures
            steps_view(final(steps)@) == steps_view(old(steps)@) + restore_part(
                *stage,
                stage_backup_dir(*conf, self.id@),
            ),
    {
        if let Some(r) = &stage.restores {
            if r.len() > 0 {
                push_step(steps, self.restore(r.as_slice(), conf));
                return;
            }
        }
        assert(steps_view(steps@) =~= steps_view(old(steps)@) + restore_part(*stage, stage_backup_dir(*conf, self.id@)));
    }

    /// Appends the steps that remove the stage's packages.
    fn plan_uninstall(&self, stage: &Stage, hooks: &Hooks, steps: &mut Vec<StageStep>)
        requires
            hooks_agree(*hooks, stage.hooks),
        ensures
            steps_view(final(steps)@) == steps_view(old(steps)@) + uninstall_part(*stage),
    {
        if let Some(p) = &stage.uninstall_packages {
            if p.len() > 0 {
                push_step(steps, hooks.run_hook("pre_uninstall_pkg"));
                push_step(steps, self.uninstall_pkg(p.as_slice()));
                push_step(steps, hooks.run_hook("after_uninstall_pkg"));
                assert(hook_scripts(*hooks, "pre_uninstall_pkg"@) == stage_hook_scripts(stage.hooks, "pre_uninstall_pkg"@));
                assert(hook_scripts(*hooks, "after_uninstall_pkg"@) == stage_hook_scripts(stage.hooks, "after_uninstall_pkg"@));
                return;
            }
        }
        assert(steps_view(steps@) =~= steps_view(old(steps)@) + uninstall_part(*stage));
    }

    /// The steps that apply `stage`, in the order in which they are carried
    /// out; the configuration gives the preset's backup directory.
    pub fn apply_stage(&self, stage: &Stage, conf: &Config) -> (res: Vec<StageStep>)
        ensures
            steps_view(res@) == stage_plan(*stage, self.id@, stage_backup_dir(*conf, self.id@)),
    {
        let none = Hooks::none();
        let hooks: &Hooks = match &stage.hooks {
            Some(x) => x,
            None => &none,
        };
        proof {
            assert forall|name: Seq<char>| #[trigger] hook_scripts(*hooks, name) == stage_hook_scripts(stage.hooks, name) by {
                if stage.hooks is None {
                    assert(strings(opt_seq(none.pre_install_pkg)) =~= Seq::<Seq<char>>::empty());
                }
            }
        }
        let mut steps: Vec<StageStep> = Vec::new();
        assert(steps_view(steps@) =~= Seq::<StepView>::empty());
        self.plan_install(stage, hooks, &mut steps);
        self.plan_backup(stage, hooks, conf, &mut steps);
        self.plan_configs(stage, &mut steps);
        self.plan_restore(stage, conf, &mut steps);
        self.plan_uninstall(stage, hooks, &mut steps);
        assert(steps_view(steps@) =~= stage_plan(*stage, self.id@, stage_backup_dir(*conf, self.id@)));
        steps
    }
}

} // verus!
