use sentryx::app_manager::App;
use sentryx::error::Failure;
use sentryx::lifecycle::{
    dispatch, edit_app, install_app, restart_app, resume, start_app, stop_app, toggle_app_state,
    uninstall_app, Command, Effect, Notes, Outcome, Stage, Step, Verb,
};
use sentryx::registry::Registry;
use sentryx::unit::ServiceUnit;

const HOME: &str = "/home/op";

fn widget() -> App {
    App {
        repo: "https://example.com/acme/widget.git".to_string(),
        branch: "main".to_string(),
        install_command: "./build.sh".to_string(),
        run_command: "./widget".to_string(),
        enabled: None,
    }
}

fn gadget() -> App {
    App {
        repo: "git@example.com:acme/gadget".to_string(),
        branch: "stable".to_string(),
        install_command: "make".to_string(),
        run_command: "./gadget --serve".to_string(),
        enabled: Some(true),
    }
}

fn clean() -> Notes {
    Notes { build_failed: false, checkout_left: false, unit_left: false }
}

fn with_widget() -> Registry {
    let mut apps = Registry::new();
    apps.upsert(widget()).unwrap();
    apps
}

/// Performs the steps from `step` on; the effects report `reports` in order.
fn run(apps: &mut Registry, step: Step, reports: &[bool]) -> (Vec<Effect>, Option<Outcome>) {
    let mut effects = Vec::new();
    let mut step = step;
    let mut next = 0;
    loop {
        match step {
            Step::Finish(outcome) => return (effects, Some(outcome)),
            Step::Perform(effect, pending) => {
                effects.push(effect);
                if next == reports.len() {
                    return (effects, None);
                }
                step = resume(apps, pending, reports[next]);
                next += 1;
            }
        }
    }
}

#[test]
fn install_scenario() {
    let mut apps = Registry::new();
    let (effects, outcome) =
        run(&mut apps, install_app(HOME, widget()), &[true, true, true, true, true]);
    assert_eq!(outcome, Some(Outcome::Done(clean())));
    assert_eq!(
        effects,
        vec![
            Effect::CreateDir { path: "/home/op/sentryx/apps".to_string() },
            Effect::Clone {
                repo: "https://example.com/acme/widget.git".to_string(),
                branch: "main".to_string(),
                into: "/home/op/sentryx/apps/widget".to_string(),
            },
            Effect::Build {
                command: "./build.sh".to_string(),
                dir: "/home/op/sentryx/apps/widget".to_string(),
            },
            Effect::WriteUnit {
                path: "/home/op/.config/systemd/user/acme-widget.service".to_string(),
                unit: ServiceUnit {
                    description: "widget (Installed with SentryX)".to_string(),
                    working_directory: "/home/op/sentryx/apps/widget".to_string(),
                    exec_start: "./widget".to_string(),
                },
            },
            Effect::Persist { records: vec![widget()] },
        ]
    );
    assert_eq!(apps.len(), 1);
    assert_eq!(apps.list(), vec![widget()]);
    assert_eq!(apps.get("acme/widget").unwrap().repo, "https://example.com/acme/widget.git");
}

#[test]
fn install_begins_with_what_is_pending() {
    match install_app(HOME, widget()) {
        Step::Perform(_, pending) => {
            assert_eq!(pending.stage, Stage::InstallDir);
            assert_eq!(pending.home, HOME);
            assert_eq!(pending.id, "acme/widget");
            assert_eq!(pending.system_id, "acme-widget");
            assert_eq!(pending.folder, "widget");
            assert_eq!(pending.app, widget());
            assert_eq!(pending.notes, clean());
        }
        Step::Finish(_) => panic!("install of a valid remote must begin"),
    }
}

#[test]
fn install_of_an_invalid_remote_is_refused() {
    let mut app = widget();
    app.repo = "widget".to_string();
    assert_eq!(install_app(HOME, app), Step::Finish(Outcome::Failed(Failure::InvalidRepo)));
}

#[test]
fn install_stops_when_the_directory_cannot_be_made() {
    let mut apps = Registry::new();
    let (effects, outcome) = run(&mut apps, install_app(HOME, widget()), &[false]);
    assert_eq!(outcome, Some(Outcome::Failed(Failure::Io)));
    assert_eq!(effects.len(), 1);
    assert_eq!(apps.len(), 0);
}

#[test]
fn install_stops_when_the_clone_fails() {
    let mut apps = Registry::new();
    let (effects, outcome) = run(&mut apps, install_app(HOME, widget()), &[true, false]);
    assert_eq!(outcome, Some(Outcome::Failed(Failure::ExternalTool)));
    assert_eq!(effects.len(), 2);
    assert_eq!(apps.len(), 0);
}

#[test]
fn install_goes_on_when_the_install_command_fails() {
    let mut apps = Registry::new();
    let (effects, outcome) =
        run(&mut apps, install_app(HOME, widget()), &[true, true, false, true, true]);
    assert_eq!(
        outcome,
        Some(Outcome::Done(Notes { build_failed: true, checkout_left: false, unit_left: false }))
    );
    assert_eq!(effects.len(), 5);
    assert_eq!(apps.list(), vec![widget()]);
}

#[test]
fn install_stops_when_the_unit_cannot_be_written() {
    let mut apps = Registry::new();
    let (effects, outcome) =
        run(&mut apps, install_app(HOME, widget()), &[true, true, true, false]);
    assert_eq!(outcome, Some(Outcome::Failed(Failure::Io)));
    assert_eq!(effects.len(), 4);
    assert_eq!(apps.len(), 0);
}

#[test]
fn install_fails_when_the_registry_file_cannot_be_written() {
    let mut apps = Registry::new();
    let (effects, outcome) =
        run(&mut apps, install_app(HOME, widget()), &[true, true, true, true, false]);
    assert_eq!(outcome, Some(Outcome::Failed(Failure::Io)));
    assert_eq!(effects.len(), 5);
    assert_eq!(apps.len(), 0);
}

#[test]
fn registry_is_unchanged_until_the_registry_file_is_written() {
    let mut apps = Registry::new();
    let (effects, outcome) = run(&mut apps, install_app(HOME, widget()), &[true, true, true, true]);
    assert_eq!(outcome, None);
    assert_eq!(effects.last(), Some(&Effect::Persist { records: vec![widget()] }));
    assert_eq!(apps.len(), 0);
}

#[test]
fn install_of_a_second_app_keeps_the_first() {
    let mut apps = with_widget();
    let (effects, outcome) =
        run(&mut apps, install_app(HOME, gadget()), &[true, true, true, true, true]);
    assert_eq!(outcome, Some(Outcome::Done(clean())));
    assert_eq!(effects.last(), Some(&Effect::Persist { records: vec![widget(), gadget()] }));
    assert_eq!(apps.list(), vec![widget(), gadget()]);
}

#[test]
fn uninstall_removes_checkout_unit_and_record() {
    let mut apps = with_widget();
    let begun = uninstall_app(&apps, HOME, "acme/widget");
    let (effects, outcome) = run(&mut apps, begun, &[true, true, true]);
    assert_eq!(outcome, Some(Outcome::Done(clean())));
    assert_eq!(
        effects,
        vec![
            Effect::RemoveCheckout { path: "/home/op/sentryx/apps/widget".to_string() },
            Effect::RemoveUnit {
                path: "/home/op/.config/systemd/user/acme-widget.service".to_string()
            },
            Effect::Persist { records: Vec::new() },
        ]
    );
    assert_eq!(apps.len(), 0);
}

#[test]
fn uninstall_goes_on_over_what_cannot_be_removed() {
    let mut apps = with_widget();
    let begun = uninstall_app(&apps, HOME, "acme/widget");
    let (effects, outcome) = run(&mut apps, begun, &[false, false, true]);
    assert_eq!(
        outcome,
        Some(Outcome::Done(Notes { build_failed: false, checkout_left: true, unit_left: true }))
    );
    assert_eq!(effects.len(), 3);
    assert_eq!(apps.len(), 0);
}

#[test]
fn uninstall_fails_only_when_the_registry_file_cannot_be_written() {
    let mut apps = with_widget();
    let begun = uninstall_app(&apps, HOME, "acme/widget");
    let (_, outcome) = run(&mut apps, begun, &[true, true, false]);
    assert_eq!(outcome, Some(Outcome::Failed(Failure::Io)));
    assert_eq!(apps.list(), vec![widget()]);
}

#[test]
fn uninstall_of_an_unknown_id_is_not_found() {
    let apps = with_widget();
    assert_eq!(
        uninstall_app(&apps, HOME, "acme/gadget"),
        Step::Finish(Outcome::Failed(Failure::NotFound))
    );
}

#[test]
fn edit_replaces_the_record_in_place() {
    let mut apps = with_widget();
    apps.upsert(gadget()).unwrap();
    let mut edited = widget();
    edited.branch = "release".to_string();
    edited.run_command = "./widget --port 80".to_string();
    let begun = edit_app(&apps, HOME, "acme/widget", edited.clone());
    let (effects, outcome) = run(&mut apps, begun, &[true]);
    assert_eq!(outcome, Some(Outcome::Done(clean())));
    assert_eq!(effects, vec![Effect::Persist { records: vec![edited.clone(), gadget()] }]);
    assert_eq!(apps.list(), vec![edited, gadget()]);
}

#[test]
fn edit_is_refused_for_an_unknown_id_or_another_remote() {
    let apps = with_widget();
    assert_eq!(
        edit_app(&apps, HOME, "acme/gadget", gadget()),
        Step::Finish(Outcome::Failed(Failure::NotFound))
    );
    assert_eq!(
        edit_app(&apps, HOME, "acme/widget", gadget()),
        Step::Finish(Outcome::Failed(Failure::InvalidRepo))
    );
    let mut broken = widget();
    broken.repo = "widget".to_string();
    assert_eq!(
        edit_app(&apps, HOME, "acme/widget", broken),
        Step::Finish(Outcome::Failed(Failure::InvalidRepo))
    );
}

#[test]
fn edit_fails_when_the_registry_file_cannot_be_written() {
    let mut apps = with_widget();
    let mut edited = widget();
    edited.branch = "release".to_string();
    let begun = edit_app(&apps, HOME, "acme/widget", edited);
    let (_, outcome) = run(&mut apps, begun, &[false]);
    assert_eq!(outcome, Some(Outcome::Failed(Failure::Io)));
    assert_eq!(apps.list(), vec![widget()]);
}

#[test]
fn set_enabled_asks_the_service_manager_then_stores_the_flag() {
    let mut apps = with_widget();
    let begun = toggle_app_state(&apps, HOME, "acme/widget", false);
    let (effects, outcome) = run(&mut apps, begun, &[true, true]);
    let mut stored = widget();
    stored.enabled = Some(false);
    assert_eq!(outcome, Some(Outcome::Done(clean())));
    assert_eq!(
        effects,
        vec![
            Effect::Service { verb: Verb::Disable, name: "acme-widget".to_string() },
            Effect::Persist { records: vec![stored.clone()] },
        ]
    );
    assert_eq!(apps.list(), vec![stored]);

    let begun = toggle_app_state(&apps, HOME, "acme/widget", true);
    let (effects, _) = run(&mut apps, begun, &[true, true]);
    assert_eq!(effects[0], Effect::Service { verb: Verb::Enable, name: "acme-widget".to_string() });
    assert_eq!(apps.get("acme/widget").unwrap().enabled, Some(true));
}

#[test]
fn set_enabled_reports_the_failure_of_the_service_manager() {
    let mut apps = with_widget();
    let begun = toggle_app_state(&apps, HOME, "acme/widget", false);
    let (effects, outcome) = run(&mut apps, begun, &[false]);
    assert_eq!(outcome, Some(Outcome::Failed(Failure::ExternalTool)));
    assert_eq!(effects.len(), 1);
    assert_eq!(apps.list(), vec![widget()]);

    let begun = toggle_app_state(&apps, HOME, "acme/widget", false);
    let (_, outcome) = run(&mut apps, begun, &[true, false]);
    assert_eq!(outcome, Some(Outcome::Failed(Failure::Io)));
    assert_eq!(apps.list(), vec![widget()]);

    assert_eq!(
        toggle_app_state(&apps, HOME, "acme/gadget", true),
        Step::Finish(Outcome::Failed(Failure::NotFound))
    );
}

#[test]
fn start_stop_and_restart_report_what_the_service_manager_says() {
    let mut apps = with_widget();
    let started = start_app(&apps, HOME, "acme/widget");
    let (effects, outcome) = run(&mut apps, started, &[true]);
    assert_eq!(effects, vec![Effect::Service { verb: Verb::Start, name: "acme-widget".to_string() }]);
    assert_eq!(outcome, Some(Outcome::Done(clean())));

    let stopped = stop_app(&apps, HOME, "acme/widget");
    let (effects, outcome) = run(&mut apps, stopped, &[false]);
    assert_eq!(effects, vec![Effect::Service { verb: Verb::Stop, name: "acme-widget".to_string() }]);
    assert_eq!(outcome, Some(Outcome::Failed(Failure::ExternalTool)));

    let restarted = restart_app(&apps, HOME, "acme/widget");
    let (effects, outcome) = run(&mut apps, restarted, &[true]);
    assert_eq!(
        effects,
        vec![Effect::Service { verb: Verb::Restart, name: "acme-widget".to_string() }]
    );
    assert_eq!(outcome, Some(Outcome::Done(clean())));
    assert_eq!(apps.list(), vec![widget()]);
}

#[test]
fn start_stop_and_restart_of_an_unknown_id_are_not_found() {
    let apps = with_widget();
    let not_found = Step::Finish(Outcome::Failed(Failure::NotFound));
    assert_eq!(start_app(&apps, HOME, "acme/gadget"), not_found);
    assert_eq!(stop_app(&apps, HOME, "acme/gadget"), not_found);
    assert_eq!(restart_app(&apps, HOME, "acme/gadget"), not_found);
}

#[test]
fn dispatch_begins_each_command() {
    let apps = with_widget();
    let id = || "acme/widget".to_string();
    assert_eq!(dispatch(&apps, HOME, Command::Install(gadget())), install_app(HOME, gadget()));
    assert_eq!(
        dispatch(&apps, HOME, Command::Edit(id(), widget())),
        edit_app(&apps, HOME, "acme/widget", widget())
    );
    assert_eq!(
        dispatch(&apps, HOME, Command::Uninstall(id())),
        uninstall_app(&apps, HOME, "acme/widget")
    );
    assert_eq!(
        dispatch(&apps, HOME, Command::SetEnabled(id(), false)),
        toggle_app_state(&apps, HOME, "acme/widget", false)
    );
    assert_eq!(dispatch(&apps, HOME, Command::Start(id())), start_app(&apps, HOME, "acme/widget"));
    assert_eq!(dispatch(&apps, HOME, Command::Stop(id())), stop_app(&apps, HOME, "acme/widget"));
    assert_eq!(
        dispatch(&apps, HOME, Command::Restart(id())),
        restart_app(&apps, HOME, "acme/widget")
    );
    assert_eq!(
        dispatch(&apps, HOME, Command::Stop("acme/gadget".to_string())),
        Step::Finish(Outcome::Failed(Failure::NotFound))
    );
}

#[test]
fn record_that_left_meanwhile_is_not_found_at_the_end() {
    let mut apps = with_widget();
    let begun = uninstall_app(&apps, HOME, "acme/widget");
    let (_, outcome) = run(&mut apps, begun, &[true, true]);
    assert_eq!(outcome, None);
    apps.remove("acme/widget").unwrap();
    let begun = uninstall_app(&with_widget(), HOME, "acme/widget");
    let (_, outcome) = match begun {
        Step::Perform(_, pending) => {
            let step = resume(&mut apps, pending, true);
            run(&mut apps, step, &[true, true])
        }
        Step::Finish(outcome) => (Vec::new(), Some(outcome)),
    };
    assert_eq!(outcome, Some(Outcome::Failed(Failure::NotFound)));
    assert_eq!(apps.len(), 0);
}
