//! The lifecycle of an app, as decisions.
//!
//! A command is carried out in steps. Each step either names one effect for
//! the host to perform (create a directory, clone, build, write or remove
//! a file, call the service manager, write the registry file) together with
//! what is pending, or finishes with an outcome. The host performs the
//! effect, and hands back what was pending with the effect's success or
//! failure. The registry is read when a command begins and changed only by
//! the step that follows a successful write of the registry file; the host
//! keeps the registry locked from the step that asks for that write until the
//! step after it, and unlocked while git, the shell or the service manager
//! run.

use crate::app_manager::{canonical_id, folder_name, system_id, App, AppView};
use crate::error::Failure;
use crate::paths::{
    apps_dir, apps_dir_in, checkout_in, checkout_path, unit_file_in, unit_file_path,
};
use crate::registry::{
    flagged, lemma_lookup_removed, lemma_lookup_upserted, lemma_lookup_with_enabled,
    lemma_position, lemma_removed_unique, lemma_upserted_unique, lemma_with_enabled_unique, lookup,
    removed, unique_ids, upserted, views, with_enabled, Registry,
};
use crate::text::{same, to_chars};
use crate::unit::{unit_of, ServiceUnit, ServiceUnitView};
use vstd::prelude::*;

verus! {

/// What the service manager is asked to do with a unit.
#[derive(Clone, Copy, Debug, PartialEq, Eq, Structural)]
pub enum Verb {
    Enable,
    Disable,
    Start,
    Stop,
    Restart,
}

/// What an operator asks for.
#[derive(Debug, PartialEq, Eq)]
pub enum Command {
    Install(App),
    Edit(String, App),
    Uninstall(String),
    SetEnabled(String, bool),
    Start(String),
    Stop(String),
    Restart(String),
}

/// The mathematical value of a [`Command`].
pub enum CommandView {
    Install(AppView),
    Edit(Seq<char>, AppView),
    Uninstall(Seq<char>),
    SetEnabled(Seq<char>, bool),
    Start(Seq<char>),
    Stop(Seq<char>),
    Restart(Seq<char>),
}

impl View for Command {
    type V = CommandView;

    open spec fn view(&self) -> CommandView {
        match self {
            Command::Install(app) => CommandView::Install(app@),
            Command::Edit(id, app) => CommandView::Edit(id@, app@),
            Command::Uninstall(id) => CommandView::Uninstall(id@),
            Command::SetEnabled(id, flag) => CommandView::SetEnabled(id@, *flag),
            Command::Start(id) => CommandView::Start(id@),
            Command::Stop(id) => CommandView::Stop(id@),
            Command::Restart(id) => CommandView::Restart(id@),
        }
    }
}

/// One thing for the host to do.
#[derive(Debug, PartialEq, Eq)]
pub enum Effect {
    /// Create the directory `path` and what is missing above it.
    CreateDir { path: String },
    /// Check out `branch` of `repo` into the directory `into`.
    Clone { repo: String, branch: String, into: String },
    /// Run the shell command `command` in the directory `dir`.
    Build { command: String, dir: String },
    /// Write the text of `unit` to the file `path`.
    WriteUnit { path: String, unit: ServiceUnit },
    /// Remove the directory `path` and all below it, if it is there.
    RemoveCheckout { path: String },
    /// Remove the file `path`.
    RemoveUnit { path: String },
    /// Ask the service manager to do `verb` with the unit named `name`.
    Service { verb: Verb, name: String },
    /// Replace the registry file by one that holds `records`.
    Persist { records: Vec<App> },
}

/// The mathematical value of an [`Effect`].
pub enum EffectView {
    CreateDir { path: Seq<char> },
    Clone { repo: Seq<char>, branch: Seq<char>, into: Seq<char> },
    Build { command: Seq<char>, dir: Seq<char> },
    WriteUnit { path: Seq<char>, unit: ServiceUnitView },
    RemoveCheckout { path: Seq<char> },
    RemoveUnit { path: Seq<char> },
    Service { verb: Verb, name: Seq<char> },
    Persist { records: Seq<AppView> },
}

impl View for Effect {
    type V = EffectView;

    open spec fn view(&self) -> EffectView {
        match self {
            Effect::CreateDir { path } => EffectView::CreateDir { path: path@ },
            Effect::Clone { repo, branch, into } => EffectView::Clone {
                repo: repo@,
                branch: branch@,
                into: into@,
            },
            Effect::Build { command, dir } => EffectView::Build { command: command@, dir: dir@ },
            Effect::WriteUnit { path, unit } => EffectView::WriteUnit { path: path@, unit: unit@ },
            Effect::RemoveCheckout { path } => EffectView::RemoveCheckout { path: path@ },
            Effect::RemoveUnit { path } => EffectView::RemoveUnit { path: path@ },
            Effect::Service { verb, name } => EffectView::Service { verb: *verb, name: name@ },
            Effect::Persist { records } => EffectView::Persist { records: views(records@) },
        }
    }
}

/// Which effect's result an operation waits for.
#[derive(Clone, Copy, Debug, PartialEq, Eq, Structural)]
pub enum Stage {
    /// Install: the directory of all checkouts is being created.
    InstallDir,
    /// Install: the remote is being cloned.
    InstallClone,
    /// Install: the install command is running.
    InstallBuild,
    /// Install: the unit file is being written.
    InstallUnit,
    /// Install: the registry file is being written.
    InstallSave,
    /// Uninstall: the checkout is being removed.
    UninstallCheckout,
    /// Uninstall: the unit file is being removed.
    UninstallUnit,
    /// Uninstall: the registry file is being written.
    UninstallSave,
    /// Edit: the registry file is being written.
    EditSave,
    /// Set enabled: the service manager is at work.
    ToggleService,
    /// Set enabled: the registry file is being written.
    ToggleSave,
    /// Start, stop or restart: the service manager is at work.
    Control,
}

/// What went wrong without stopping the operation.
#[derive(Clone, Copy, Debug, PartialEq, Eq, Structural)]
pub struct Notes {
    /// The install command reported failure.
    pub build_failed: bool,
    /// The checkout could not be removed.
    pub checkout_left: bool,
    /// The unit file could not be removed.
    pub unit_left: bool,
}

/// How an operation ended.
#[derive(Clone, Copy, Debug, PartialEq, Eq, Structural)]
pub enum Outcome {
    /// It was carried out; the notes say what was amiss.
    Done(Notes),
    /// It was given up.
    Failed(Failure),
}

/// An operation that waits for the result of an effect.
#[derive(Debug, PartialEq, Eq)]
pub struct Pending {
    /// The effect that it waits for.
    pub stage: Stage,
    /// The home directory that the paths are made from.
    pub home: String,
    /// The canonical id of the app.
    pub id: String,
    /// The system id of the app.
    pub system_id: String,
    /// The name of its checkout directory.
    pub folder: String,
    /// The record: the new one for install and edit, else the stored one.
    pub app: App,
    /// Set enabled: the flag asked for.
    pub enable: bool,
    /// What went wrong so far.
    pub notes: Notes,
}

/// The mathematical value of a [`Pending`].
pub struct PendingView {
    pub stage: Stage,
    pub home: Seq<char>,
    pub id: Seq<char>,
    pub system_id: Seq<char>,
    pub folder: Seq<char>,
    pub app: AppView,
    pub enable: bool,
    pub notes: Notes,
}

impl View for Pending {
    type V = PendingView;

    open spec fn view(&self) -> PendingView {
        PendingView {
            stage: self.stage,
            home: self.home@,
            id: self.id@,
            system_id: self.system_id@,
            folder: self.folder@,
            app: self.app@,
            enable: self.enable,
            notes: self.notes,
        }
    }
}

/// What the host does next.
#[derive(Debug, PartialEq, Eq)]
pub enum Step {
    /// Perform the effect, then resume what is pending with its result.
    Perform(Effect, Pending),
    /// Report the outcome: the operation is over.
    Finish(Outcome),
}

/// The mathematical value of a [`Step`].
pub enum StepView {
    Perform(EffectView, PendingView),
    Finish(Outcome),
}

impl View for Step {
    type V = StepView;

    open spec fn view(&self) -> StepView {
        match self {
            Step::Perform(effect, pending) => StepView::Perform(effect@, pending@),
            Step::Finish(outcome) => StepView::Finish(*outcome),
        }
    }
}

/// No notes.
pub open spec fn no_notes() -> Notes {
    Notes { build_failed: false, checkout_left: false, unit_left: false }
}

/// The step that gives up because of `why`.
pub open spec fn given_up(why: Failure) -> StepView {
    StepView::Finish(Outcome::Failed(why))
}

/// What is pending for the app `app` keyed by `id`, when `stage` begins.
pub open spec fn pending_for(
    stage: Stage,
    home: Seq<char>,
    id: Seq<char>,
    app: AppView,
    enable: bool,
) -> PendingView {
    PendingView {
        stage,
        home,
        id,
        system_id: system_id(app.repo)->0,
        folder: folder_name(app.repo),
        app,
        enable,
        notes: no_notes(),
    }
}

/// The first step of installing `app`.
pub open spec fn install_begun(home: Seq<char>, app: AppView) -> StepView {
    match canonical_id(app.repo) {
        Some(id) => StepView::Perform(
            EffectView::CreateDir { path: apps_dir_in(home) },
            pending_for(Stage::InstallDir, home, id, app, false),
        ),
        None => given_up(Failure::InvalidRepo),
    }
}

/// The first step of uninstalling the app keyed by `id`.
pub open spec fn uninstall_begun(apps: Seq<AppView>, home: Seq<char>, id: Seq<char>) -> StepView {
    match lookup(apps, id) {
        Some(app) => StepView::Perform(
            EffectView::RemoveCheckout { path: checkout_in(home, folder_name(app.repo)) },
            pending_for(Stage::UninstallCheckout, home, id, app, false),
        ),
        None => given_up(Failure::NotFound),
    }
}

/// The first step of replacing the record keyed by `id` by `app`. The new
/// record must have the same canonical id.
pub open spec fn edit_begun(apps: Seq<AppView>, home: Seq<char>, id: Seq<char>, app: AppView)
    -> StepView {
    if lookup(apps, id) is None {
        given_up(Failure::NotFound)
    } else if canonical_id(app.repo) != Some(id) {
        given_up(Failure::InvalidRepo)
    } else {
        StepView::Perform(
            EffectView::Persist { records: upserted(apps, app) },
            pending_for(Stage::EditSave, home, id, app, false),
        )
    }
}

/// The verb that sets the boot flag to `enable`.
pub open spec fn toggle_verb(enable: bool) -> Verb {
    if enable {
        Verb::Enable
    } else {
        Verb::Disable
    }
}

/// The first step of setting the boot flag of the app keyed by `id`.
pub open spec fn toggle_begun(apps: Seq<AppView>, home: Seq<char>, id: Seq<char>, enable: bool)
    -> StepView {
    match lookup(apps, id) {
        Some(app) => StepView::Perform(
            EffectView::Service { verb: toggle_verb(enable), name: system_id(app.repo)->0 },
            pending_for(Stage::ToggleService, home, id, app, enable),
        ),
        None => given_up(Failure::NotFound),
    }
}

/// The first step of starting, stopping or restarting the app keyed by `id`.
pub open spec fn control_begun(apps: Seq<AppView>, home: Seq<char>, id: Seq<char>, verb: Verb)
    -> StepView {
    match lookup(apps, id) {
        Some(app) => StepView::Perform(
            EffectView::Service { verb, name: system_id(app.repo)->0 },
            pending_for(Stage::Control, home, id, app, false),
        ),
        None => given_up(Failure::NotFound),
    }
}

/// The first step of `command`.
pub open spec fn begun(apps: Seq<AppView>, home: Seq<char>, command: CommandView) -> StepView {
    match command {
        CommandView::Install(app) => install_begun(home, app),
        CommandView::Edit(id, app) => edit_begun(apps, home, id, app),
        CommandView::Uninstall(id) => uninstall_begun(apps, home, id),
        CommandView::SetEnabled(id, flag) => toggle_begun(apps, home, id, flag),
        CommandView::Start(id) => control_begun(apps, home, id, Verb::Start),
        CommandView::Stop(id) => control_begun(apps, home, id, Verb::Stop),
        CommandView::Restart(id) => control_begun(apps, home, id, Verb::Restart),
    }
}

/// `p` at the stage `stage`.
pub open spec fn at(p: PendingView, stage: Stage) -> PendingView {
    PendingView { stage, ..p }
}

/// The step that follows when the effect that `p` waited for has succeeded
/// (`ok`) or failed, with the registry holding `apps`.
pub open spec fn next_step(apps: Seq<AppView>, p: PendingView, ok: bool) -> StepView {
    match p.stage {
        Stage::InstallDir => if ok {
            StepView::Perform(
                EffectView::Clone {
                    repo: p.app.repo,
                    branch: p.app.branch,
                    into: checkout_in(p.home, p.folder),
                },
                at(p, Stage::InstallClone),
            )
        } else {
            given_up(Failure::Io)
        },
        Stage::InstallClone => if ok {
            StepView::Perform(
                EffectView::Build {
                    command: p.app.install_command,
                    dir: checkout_in(p.home, p.folder),
                },
                at(p, Stage::InstallBuild),
            )
        } else {
            given_up(Failure::ExternalTool)
        },
        Stage::InstallBuild => StepView::Perform(
            EffectView::WriteUnit {
                path: unit_file_in(p.home, p.system_id),
                unit: unit_of(p.folder, checkout_in(p.home, p.folder), p.app.run_command),
            },
            PendingView {
                stage: Stage::InstallUnit,
                notes: Notes { build_failed: !ok, ..p.notes },
                ..p
            },
        ),
        Stage::InstallUnit => if ok {
            StepView::Perform(
                EffectView::Persist { records: upserted(apps, p.app) },
                at(p, Stage::InstallSave),
            )
        } else {
            given_up(Failure::Io)
        },
        Stage::InstallSave => if !ok {
            given_up(Failure::Io)
        } else if canonical_id(p.app.repo) is None {
            given_up(Failure::InvalidRepo)
        } else {
            StepView::Finish(Outcome::Done(p.notes))
        },
        Stage::UninstallCheckout => StepView::Perform(
            EffectView::RemoveUnit { path: unit_file_in(p.home, p.system_id) },
            PendingView {
                stage: Stage::UninstallUnit,
                notes: Notes { checkout_left: !ok, ..p.notes },
                ..p
            },
        ),
        Stage::UninstallUnit => StepView::Perform(
            EffectView::Persist { records: removed(apps, p.id) },
            PendingView {
                stage: Stage::UninstallSave,
                notes: Notes { unit_left: !ok, ..p.notes },
                ..p
            },
        ),
        Stage::UninstallSave => if !ok {
            given_up(Failure::Io)
        } else if lookup(apps, p.id) is None {
            given_up(Failure::NotFound)
        } else {
            StepView::Finish(Outcome::Done(p.notes))
        },
        Stage::EditSave => if !ok {
            given_up(Failure::Io)
        } else if lookup(apps, p.id) is None {
            given_up(Failure::NotFound)
        } else if canonical_id(p.app.repo) != Some(p.id) {
            given_up(Failure::InvalidRepo)
        } else {
            StepView::Finish(Outcome::Done(p.notes))
        },
        Stage::ToggleService => if ok {
            StepView::Perform(
                EffectView::Persist { records: with_enabled(apps, p.id, p.enable) },
                at(p, Stage::ToggleSave),
            )
        } else {
            given_up(Failure::ExternalTool)
        },
        Stage::ToggleSave => if !ok {
            given_up(Failure::Io)
        } else if lookup(apps, p.id) is None {
            given_up(Failure::NotFound)
        } else {
            StepView::Finish(Outcome::Done(p.notes))
        },
        Stage::Control => if ok {
            StepView::Finish(Outcome::Done(p.notes))
        } else {
            given_up(Failure::ExternalTool)
        },
    }
}

/// What the registry holds after that step: it changes only where the step
/// finishes an operation as done.
pub open spec fn next_apps(apps: Seq<AppView>, p: PendingView, ok: bool) -> Seq<AppView> {
    if next_step(apps, p, ok) is Finish && next_step(apps, p, ok)->Finish_0 is Done {
        match p.stage {
            Stage::InstallSave => upserted(apps, p.app),
            Stage::UninstallSave => removed(apps, p.id),
            Stage::EditSave => upserted(apps, p.app),
            Stage::ToggleSave => with_enabled(apps, p.id, p.enable),
            _ => apps,
        }
    } else {
        apps
    }
}

/// Where a run of effects ends: the step that is reached from `step` when
/// the effects report `reports` from index `from` on, one after the other,
/// and what the registry then holds. The run ends when the operation
/// finishes or the reports are used up.
pub open spec fn run_from(apps: Seq<AppView>, step: StepView, reports: Seq<bool>, from: int) -> (
    StepView,
    Seq<AppView>,
)
    decreases reports.len() - from,
{
    if from < 0 || from >= reports.len() {
        (step, apps)
    } else {
        match step {
            StepView::Perform(_, p) => run_from(
                next_apps(apps, p, reports[from]),
                next_step(apps, p, reports[from]),
                reports,
                from + 1,
            ),
            StepView::Finish(_) => (step, apps),
        }
    }
}

/// Where the run of `reports` ends that begins at `step`.
pub open spec fn run(apps: Seq<AppView>, step: StepView, reports: Seq<bool>) -> (
    StepView,
    Seq<AppView>,
) {
    run_from(apps, step, reports, 0)
}

/// The effects that the host is asked for along that run, in order.
pub open spec fn effects_from(apps: Seq<AppView>, step: StepView, reports: Seq<bool>, from: int)
    -> Seq<EffectView>
    decreases reports.len() - from + 1,
{
    match step {
        StepView::Perform(effect, p) => if from < 0 || from >= reports.len() {
            seq![effect]
        } else {
            seq![effect] + effects_from(
                next_apps(apps, p, reports[from]),
                next_step(apps, p, reports[from]),
                reports,
                from + 1,
            )
        },
        StepView::Finish(_) => Seq::empty(),
    }
}

/// The effects asked for along the run of `reports` that begins at `step`.
pub open spec fn effects(apps: Seq<AppView>, step: StepView, reports: Seq<bool>) -> Seq<
    EffectView,
> {
    effects_from(apps, step, reports, 0)
}

/// Whether `step` finishes an operation as done.
pub open spec fn is_done(step: StepView) -> bool {
    step is Finish && step->Finish_0 is Done
}

/// A step keeps the registry's invariant.
pub proof fn lemma_step_keeps_invariant(apps: Seq<AppView>, p: PendingView, ok: bool)
    requires
        unique_ids(apps),
    ensures
        unique_ids(next_apps(apps, p, ok)),
{
    lemma_upserted_unique(apps, p.app);
    lemma_removed_unique(apps, p.id);
    lemma_with_enabled_unique(apps, p.id, p.enable);
}

/// A run keeps the registry's invariant, and changes the registry at most in
/// its last step, and only where that step finishes the operation as done:
/// an operation that fails or is still under way has changed nothing.
pub proof fn lemma_run_commits_last(
    apps: Seq<AppView>,
    step: StepView,
    reports: Seq<bool>,
    from: int,
)
    requires
        unique_ids(apps),
    ensures
        unique_ids(run_from(apps, step, reports, from).1),
        !is_done(run_from(apps, step, reports, from).0) ==> run_from(apps, step, reports, from).1
            == apps,
    decreases reports.len() - from,
{
    if 0 <= from < reports.len() {
        if let StepView::Perform(_, p) = step {
            let ok = reports[from];
            lemma_step_keeps_invariant(apps, p, ok);
            lemma_run_commits_last(next_apps(apps, p, ok), next_step(apps, p, ok), reports, from + 1);
            if is_done(next_step(apps, p, ok)) {
                assert(run_from(next_apps(apps, p, ok), next_step(apps, p, ok), reports, from + 1)
                    == (next_step(apps, p, ok), next_apps(apps, p, ok)));
            }
        }
    }
}

/// Install, from beginning to end. The directory is created, the remote
/// cloned, the install command run, the unit written and the registry file
/// written, in this order. A directory or a file that cannot be written, or
/// a clone that fails, ends the install with the registry as it was; a failed
/// install command is only noted. The record is in the registry exactly when
/// all but the install command succeeded.
pub proof fn lemma_install(
    apps: Seq<AppView>,
    home: Seq<char>,
    app: AppView,
    dir_made: bool,
    cloned: bool,
    built: bool,
    unit_written: bool,
    saved: bool,
)
    requires
        unique_ids(apps),
        canonical_id(app.repo) is Some,
    ensures
        ({
            let reports = seq![dir_made, cloned, built, unit_written, saved];
            let (end, after) = run(apps, install_begun(home, app), reports);
            let all = dir_made && cloned && unit_written && saved;
            let checkout = checkout_in(home, folder_name(app.repo));
            &&& end == if !dir_made {
                given_up(Failure::Io)
            } else if !cloned {
                given_up(Failure::ExternalTool)
            } else if !unit_written || !saved {
                given_up(Failure::Io)
            } else {
                StepView::Finish(
                    Outcome::Done(
                        Notes { build_failed: !built, checkout_left: false, unit_left: false },
                    ),
                )
            }
            &&& after == if all {
                upserted(apps, app)
            } else {
                apps
            }
            &&& all ==> lookup(after, canonical_id(app.repo)->0) == Some(app)
            &&& all ==> effects(apps, install_begun(home, app), reports) == seq![
                EffectView::CreateDir { path: apps_dir_in(home) },
                EffectView::Clone { repo: app.repo, branch: app.branch, into: checkout },
                EffectView::Build { command: app.install_command, dir: checkout },
                EffectView::WriteUnit {
                    path: unit_file_in(home, system_id(app.repo)->0),
                    unit: unit_of(folder_name(app.repo), checkout, app.run_command),
                },
                EffectView::Persist { records: upserted(apps, app) },
            ]
        }),
{
    reveal_with_fuel(run_from, 6);
    reveal_with_fuel(effects_from, 7);
    lemma_lookup_upserted(apps, app, canonical_id(app.repo)->0);
    let reports = seq![dir_made, cloned, built, unit_written, saved];
    let all = dir_made && cloned && unit_written && saved;
    if all {
        let checkout = checkout_in(home, folder_name(app.repo));
        assert(effects(apps, install_begun(home, app), reports) =~= seq![
            EffectView::CreateDir { path: apps_dir_in(home) },
            EffectView::Clone { repo: app.repo, branch: app.branch, into: checkout },
            EffectView::Build { command: app.install_command, dir: checkout },
            EffectView::WriteUnit {
                path: unit_file_in(home, system_id(app.repo)->0),
                unit: unit_of(folder_name(app.repo), checkout, app.run_command),
            },
            EffectView::Persist { records: upserted(apps, app) },
        ]);
    }
}

/// Uninstall, from beginning to end. The checkout is removed, then the unit
/// file, then the registry file is written. Only a registry file that cannot
/// be written makes the uninstall fail, with the registry as it was; what
/// could not be removed is noted, and the record leaves the registry all the
/// same.
pub proof fn lemma_uninstall(
    apps: Seq<AppView>,
    home: Seq<char>,
    id: Seq<char>,
    checkout_removed: bool,
    unit_removed: bool,
    saved: bool,
)
    requires
        unique_ids(apps),
        lookup(apps, id) is Some,
    ensures
        ({
            let reports = seq![checkout_removed, unit_removed, saved];
            let app = lookup(apps, id)->0;
            let (end, after) = run(apps, uninstall_begun(apps, home, id), reports);
            &&& end == if saved {
                StepView::Finish(
                    Outcome::Done(
                        Notes {
                            build_failed: false,
                            checkout_left: !checkout_removed,
                            unit_left: !unit_removed,
                        },
                    ),
                )
            } else {
                given_up(Failure::Io)
            }
            &&& after == if saved {
                removed(apps, id)
            } else {
                apps
            }
            &&& saved ==> lookup(after, id) is None
            &&& effects(apps, uninstall_begun(apps, home, id), reports) == seq![
                EffectView::RemoveCheckout { path: checkout_in(home, folder_name(app.repo)) },
                EffectView::RemoveUnit { path: unit_file_in(home, system_id(app.repo)->0) },
                EffectView::Persist { records: removed(apps, id) },
            ]
        }),
{
    reveal_with_fuel(run_from, 4);
    reveal_with_fuel(effects_from, 5);
    lemma_lookup_removed(apps, id, id);
    let reports = seq![checkout_removed, unit_removed, saved];
    let app = lookup(apps, id)->0;
    assert(effects(apps, uninstall_begun(apps, home, id), reports) =~= seq![
        EffectView::RemoveCheckout { path: checkout_in(home, folder_name(app.repo)) },
        EffectView::RemoveUnit { path: unit_file_in(home, system_id(app.repo)->0) },
        EffectView::Persist { records: removed(apps, id) },
    ]);
}

/// Edit, from beginning to end: the record is replaced exactly when the
/// registry file was written, and nothing else is asked of the host.
pub proof fn lemma_edit(apps: Seq<AppView>, home: Seq<char>, id: Seq<char>, app: AppView, saved: bool)
    requires
        unique_ids(apps),
        lookup(apps, id) is Some,
        canonical_id(app.repo) == Some(id),
    ensures
        ({
            let (end, after) = run(apps, edit_begun(apps, home, id, app), seq![saved]);
            &&& end == if saved {
                StepView::Finish(Outcome::Done(no_notes()))
            } else {
                given_up(Failure::Io)
            }
            &&& after == if saved {
                upserted(apps, app)
            } else {
                apps
            }
            &&& saved ==> lookup(after, id) == Some(app)
            &&& after.len() == apps.len()
            &&& effects(apps, edit_begun(apps, home, id, app), seq![saved]) == seq![
                EffectView::Persist { records: upserted(apps, app) },
            ]
        }),
{
    reveal_with_fuel(run_from, 2);
    reveal_with_fuel(effects_from, 3);
    lemma_lookup_upserted(apps, app, id);
    lemma_position(apps, id);
    assert(effects(apps, edit_begun(apps, home, id, app), seq![saved]) =~= seq![
        EffectView::Persist { records: upserted(apps, app) },
    ]);
}

/// Set enabled, from beginning to end: the service manager's failure is
/// the operation's failure, and the flag is stored exactly when the service
/// manager succeeded and the registry file was written.
pub proof fn lemma_toggle(
    apps: Seq<AppView>,
    home: Seq<char>,
    id: Seq<char>,
    enable: bool,
    switched: bool,
    saved: bool,
)
    requires
        unique_ids(apps),
        lookup(apps, id) is Some,
    ensures
        ({
            let (end, after) = run(apps, toggle_begun(apps, home, id, enable), seq![switched, saved]);
            &&& end == if !switched {
                given_up(Failure::ExternalTool)
            } else if !saved {
                given_up(Failure::Io)
            } else {
                StepView::Finish(Outcome::Done(no_notes()))
            }
            &&& after == if switched && saved {
                with_enabled(apps, id, enable)
            } else {
                apps
            }
            &&& switched && saved ==> lookup(after, id) == Some(flagged(lookup(apps, id)->0, enable))
        }),
{
    reveal_with_fuel(run_from, 3);
    lemma_lookup_with_enabled(apps, id, enable, id);
}

/// Start, stop and restart: the outcome is the service manager's, and the
/// registry stays as it was.
pub proof fn lemma_control(
    apps: Seq<AppView>,
    home: Seq<char>,
    id: Seq<char>,
    verb: Verb,
    obeyed: bool,
)
    requires
        unique_ids(apps),
        lookup(apps, id) is Some,
    ensures
        run(apps, control_begun(apps, home, id, verb), seq![obeyed]) == (
            if obeyed {
                StepView::Finish(Outcome::Done(no_notes()))
            } else {
                given_up(Failure::ExternalTool)
            },
            apps,
        ),
        effects(apps, control_begun(apps, home, id, verb), seq![obeyed]) == seq![
            EffectView::Service { verb, name: system_id(lookup(apps, id)->0.repo)->0 },
        ],
{
    reveal_with_fuel(run_from, 2);
    reveal_with_fuel(effects_from, 3);
    assert(effects(apps, control_begun(apps, home, id, verb), seq![obeyed]) =~= seq![
        EffectView::Service { verb, name: system_id(lookup(apps, id)->0.repo)->0 },
    ]);
}

/// A command about an id that the registry does not hold is refused at once,
/// with nothing asked of the host.
pub proof fn lemma_unknown_id(apps: Seq<AppView>, home: Seq<char>, command: CommandView)
    requires
        match command {
            CommandView::Install(_) => false,
            CommandView::Edit(id, _) => lookup(apps, id) is None,
            CommandView::Uninstall(id) => lookup(apps, id) is None,
            CommandView::SetEnabled(id, _) => lookup(apps, id) is None,
            CommandView::Start(id) => lookup(apps, id) is None,
            CommandView::Stop(id) => lookup(apps, id) is None,
            CommandView::Restart(id) => lookup(apps, id) is None,
        },
    ensures
        begun(apps, home, command) == given_up(Failure::NotFound),
{
}

/// What is pending for `app` when `stage` begins.
fn pending(stage: Stage, home: &str, id: String, app: App, enable: bool) -> (p: Pending)
    requires
        canonical_id(app.repo@) == Some(id@),
    ensures
        p@ == pending_for(stage, home@, id@, app@, enable),
{
    let folder = app.repo_folder_name();
    let unit_name = match app.id_system() {
        Some(name) => name,
        None => String::new(),
    };
    Pending {
        stage,
        home: home.to_owned(),
        id,
        system_id: unit_name,
        folder,
        app,
        enable,
        notes: Notes { build_failed: false, checkout_left: false, unit_left: false },
    }
}

/// Begins to install `app`: the directory of all checkouts is created first.
/// A remote without a canonical id is refused.
pub fn install_app(home: &str, app: App) -> (step: Step)
    ensures
        step@ == install_begun(home@, app@),
{
    match app.id() {
        Some(id) => Step::Perform(
            Effect::CreateDir { path: apps_dir(home) },
            pending(Stage::InstallDir, home, id, app, false),
        ),
        None => Step::Finish(Outcome::Failed(Failure::InvalidRepo)),
    }
}

/// Begins to uninstall the app keyed by `id`: its checkout is removed first.
pub fn uninstall_app(apps: &Registry, home: &str, id: &str) -> (step: Step)
    requires
        apps.wf(),
    ensures
        step@ == uninstall_begun(apps@, home@, id@),
{
    match apps.get(id) {
        Ok(app) => {
            proof {
                lemma_position(apps@, id@);
            }
            let folder = app.repo_folder_name();
            Step::Perform(
                Effect::RemoveCheckout { path: checkout_path(home, folder.as_str()) },
                pending(Stage::UninstallCheckout, home, id.to_owned(), app, false),
            )
        },
        Err(_) => Step::Finish(Outcome::Failed(Failure::NotFound)),
    }
}

/// Begins to replace the record keyed by `id` by `app`: the registry file is
/// written first. Nothing is cloned or generated again.
pub fn edit_app(apps: &Registry, home: &str, id: &str, app: App) -> (step: Step)
    requires
        apps.wf(),
    ensures
        step@ == edit_begun(apps@, home@, id@, app@),
{
    if !apps.contains(id) {
        return Step::Finish(Outcome::Failed(Failure::NotFound));
    }
    let same_id = match app.id() {
        Some(key) => same(&to_chars(key.as_str()), &to_chars(id)),
        None => false,
    };
    if !same_id {
        return Step::Finish(Outcome::Failed(Failure::InvalidRepo));
    }
    let mut staged = apps.clone();
    let _ = staged.upsert(app.clone());
    Step::Perform(
        Effect::Persist { records: staged.into_records() },
        pending(Stage::EditSave, home, id.to_owned(), app, false),
    )
}

/// Begins to ask the service manager to do `verb` with the unit of the app
/// keyed by `id`.
fn service_step(
    apps: &Registry,
    home: &str,
    id: &str,
    verb: Verb,
    stage: Stage,
    enable: bool,
) -> (step: Step)
    requires
        apps.wf(),
    ensures
        step@ == match lookup(apps@, id@) {
            Some(app) => StepView::Perform(
                EffectView::Service { verb, name: system_id(app.repo)->0 },
                pending_for(stage, home@, id@, app, enable),
            ),
            None => given_up(Failure::NotFound),
        },
{
    match apps.get(id) {
        Ok(app) => {
            proof {
                lemma_position(apps@, id@);
            }
            let waiting = pending(stage, home, id.to_owned(), app, enable);
            Step::Perform(Effect::Service { verb, name: waiting.system_id.clone() }, waiting)
        },
        Err(_) => Step::Finish(Outcome::Failed(Failure::NotFound)),
    }
}

/// Begins to set the boot flag of the app keyed by `id`: the service manager
/// enables or disables its unit first.
pub fn toggle_app_state(apps: &Registry, home: &str, id: &str, enable: bool) -> (step: Step)
    requires
        apps.wf(),
    ensures
        step@ == toggle_begun(apps@, home@, id@, enable),
{
    let verb = if enable {
        Verb::Enable
    } else {
        Verb::Disable
    };
    service_step(apps, home, id, verb, Stage::ToggleService, enable)
}

/// Begins to start the app keyed by `id`.
pub fn start_app(apps: &Registry, home: &str, id: &str) -> (step: Step)
    requires
        apps.wf(),
    ensures
        step@ == control_begun(apps@, home@, id@, Verb::Start),
{
    service_step(apps, home, id, Verb::Start, Stage::Control, false)
}

/// Begins to stop the app keyed by `id`.
pub fn stop_app(apps: &Registry, home: &str, id: &str) -> (step: Step)
    requires
        apps.wf(),
    ensures
        step@ == control_begun(apps@, home@, id@, Verb::Stop),
{
    service_step(apps, home, id, Verb::Stop, Stage::Control, false)
}

/// Begins to restart the app keyed by `id`.
pub fn restart_app(apps: &Registry, home: &str, id: &str) -> (step: Step)
    requires
        apps.wf(),
    ensures
        step@ == control_begun(apps@, home@, id@, Verb::Restart),
{
    service_step(apps, home, id, Verb::Restart, Stage::Control, false)
}

/// Begins to carry out `command`.
pub fn dispatch(apps: &Registry, home: &str, command: Command) -> (step: Step)
    requires
        apps.wf(),
    ensures
        step@ == begun(apps@, home@, command@),
{
    match command {
        Command::Install(app) => install_app(home, app),
        Command::Edit(id, app) => edit_app(apps, home, id.as_str(), app),
        Command::Uninstall(id) => uninstall_app(apps, home, id.as_str()),
        Command::SetEnabled(id, flag) => toggle_app_state(apps, home, id.as_str(), flag),
        Command::Start(id) => start_app(apps, home, id.as_str()),
        Command::Stop(id) => stop_app(apps, home, id.as_str()),
        Command::Restart(id) => restart_app(apps, home, id.as_str()),
    }
}

/// Goes on with what was pending, now that the effect it waited for has
/// succeeded (`ok`) or failed. The registry changes only where the step
/// finishes the operation as done.
pub fn resume(apps: &mut Registry, pending: Pending, ok: bool) -> (step: Step)
    requires
        old(apps).wf(),
    ensures
        final(apps).wf(),
        step@ == next_step(old(apps)@, pending@, ok),
        final(apps)@ == next_apps(old(apps)@, pending@, ok),
{
    match pending.stage {
        Stage::InstallDir => {
            if ok {
                let effect = Effect::Clone {
                    repo: pending.app.repo.clone(),
                    branch: pending.app.branch.clone(),
                    into: checkout_path(pending.home.as_str(), pending.folder.as_str()),
                };
                Step::Perform(effect, Pending { stage: Stage::InstallClone, ..pending })
            } else {
                Step::Finish(Outcome::Failed(Failure::Io))
            }
        },
        Stage::InstallClone => {
            if ok {
                let effect = Effect::Build {
                    command: pending.app.install_command.clone(),
                    dir: checkout_path(pending.home.as_str(), pending.folder.as_str()),
                };
                Step::Perform(effect, Pending { stage: Stage::InstallBuild, ..pending })
            } else {
                Step::Finish(Outcome::Failed(Failure::ExternalTool))
            }
        },
        Stage::InstallBuild => {
            let checkout = checkout_path(pending.home.as_str(), pending.folder.as_str());
            let effect = Effect::WriteUnit {
                path: unit_file_path(pending.home.as_str(), pending.system_id.as_str()),
                unit: ServiceUnit::new(
                    pending.folder.as_str(),
                    checkout.as_str(),
                    pending.app.run_command.as_str(),
                ),
            };
            let notes = Notes { build_failed: !ok, ..pending.notes };
            Step::Perform(effect, Pending { stage: Stage::InstallUnit, notes, ..pending })
        },
        Stage::InstallUnit => {
            if ok {
                let mut staged = apps.clone();
                let _ = staged.upsert(pending.app.clone());
                let effect = Effect::Persist { records: staged.into_records() };
                Step::Perform(effect, Pending { stage: Stage::InstallSave, ..pending })
            } else {
                Step::Finish(Outcome::Failed(Failure::Io))
            }
        },
        Stage::InstallSave => {
            if !ok {
                Step::Finish(Outcome::Failed(Failure::Io))
            } else {
                match apps.upsert(pending.app) {
                    Ok(_) => Step::Finish(Outcome::Done(pending.notes)),
                    Err(_) => Step::Finish(Outcome::Failed(Failure::InvalidRepo)),
                }
            }
        },
        Stage::UninstallCheckout => {
            let effect = Effect::RemoveUnit {
                path: unit_file_path(pending.home.as_str(), pending.system_id.as_str()),
            };
            let notes = Notes { checkout_left: !ok, ..pending.notes };
            Step::Perform(effect, Pending { stage: Stage::UninstallUnit, notes, ..pending })
        },
        Stage::UninstallUnit => {
            let mut staged = apps.clone();
            let _ = staged.remove(pending.id.as_str());
            let effect = Effect::Persist { records: staged.into_records() };
            let notes = Notes { unit_left: !ok, ..pending.notes };
            Step::Perform(effect, Pending { stage: Stage::UninstallSave, notes, ..pending })
        },
        Stage::UninstallSave => {
            if !ok {
                Step::Finish(Outcome::Failed(Failure::Io))
            } else {
                match apps.remove(pending.id.as_str()) {
                    Ok(_) => Step::Finish(Outcome::Done(pending.notes)),
                    Err(_) => Step::Finish(Outcome::Failed(Failure::NotFound)),
                }
            }
        },
        Stage::EditSave => {
            if !ok {
                Step::Finish(Outcome::Failed(Failure::Io))
            } else if !apps.contains(pending.id.as_str()) {
                Step::Finish(Outcome::Failed(Failure::NotFound))
            } else {
                let same_id = match pending.app.id() {
                    Some(key) => key == pending.id,
                    None => false,
                };
                if same_id {
                    let _ = apps.upsert(pending.app);
                    Step::Finish(Outcome::Done(pending.notes))
                } else {
                    Step::Finish(Outcome::Failed(Failure::InvalidRepo))
                }
            }
        },
        Stage::ToggleService => {
            if ok {
                let mut staged = apps.clone();
                let _ = staged.set_enabled(pending.id.as_str(), pending.enable);
                let effect = Effect::Persist { records: staged.into_records() };
                Step::Perform(effect, Pending { stage: Stage::ToggleSave, ..pending })
            } else {
                Step::Finish(Outcome::Failed(Failure::ExternalTool))
            }
        },
        Stage::ToggleSave => {
            if !ok {
                Step::Finish(Outcome::Failed(Failure::Io))
            } else {
                match apps.set_enabled(pending.id.as_str(), pending.enable) {
                    Ok(_) => Step::Finish(Outcome::Done(pending.notes)),
                    Err(_) => Step::Finish(Outcome::Failed(Failure::NotFound)),
                }
            }
        },
        Stage::Control => {
            if ok {
                Step::Finish(Outcome::Done(pending.notes))
            } else {
                Step::Finish(Outcome::Failed(Failure::ExternalTool))
            }
        },
    }
}

} // verus!
