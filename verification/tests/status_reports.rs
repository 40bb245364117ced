use sentryx::service::{
    get_apps, is_service_unit, parse_service, service_from_captures, Service, STATUS_PATTERN,
};

const REPORT: &str = "● nginx.service - A high performance web server\n     Loaded: loaded (/usr/lib/systemd/system/nginx.service; enabled; preset: enabled)\n     Active: active (running) since Mon 2024-01-01 00:00:00 UTC; 1h ago\n       Docs: man:nginx(8)\n             man:nginx.conf(5)\n";

fn text(s: &str) -> Option<String> {
    Some(s.to_string())
}

#[test]
fn well_formed_report_fills_every_field() {
    let svc = parse_service(REPORT.to_string());
    assert_eq!(svc.name, text("nginx.service"));
    assert_eq!(svc.description, text("A high performance web server"));
    assert_eq!(svc.loaded_status, text("loaded"));
    assert_eq!(svc.unit_file_path, text("/usr/lib/systemd/system/nginx.service"));
    assert_eq!(svc.enabled, text("enabled"));
    assert_eq!(svc.preset, text("enabled"));
    assert_eq!(svc.active, text("active"));
    assert_eq!(svc.active_state, text("running"));
    assert_eq!(svc.trigger, None);
    assert_eq!(svc.triggers, None);
    assert_eq!(svc.docs, text("man:nginx(8)\n             man:nginx.conf(5)"));
    assert!(!svc.all_fields_none());
}

#[test]
fn report_with_trigger_lines() {
    let report = "● backup.timer - Daily backup\n     Loaded: loaded (/etc/systemd/system/backup.timer; enabled; preset: disabled)\n     Active: active (waiting) since Mon 2024-01-01 00:00:00 UTC; 1h ago\n    Trigger: Tue 2024-01-02 00:00:00 UTC; 22h left\n   Triggers: ● backup.service\n";
    let svc = parse_service(report.to_string());
    assert_eq!(svc.name, text("backup.timer"));
    assert_eq!(svc.description, text("Daily backup"));
    assert_eq!(svc.preset, text("disabled"));
    assert_eq!(svc.active_state, text("waiting"));
    assert_eq!(svc.trigger, text("Tue 2024-01-02 00:00:00 UTC; 22h left"));
    assert_eq!(svc.triggers, text("backup.service"));
    assert_eq!(svc.docs, None);
}

#[test]
fn report_without_preset_and_docs() {
    let report = "● job.service - One job\n     Loaded: loaded (/run/systemd/generator/job.service; generated)\n     Active: inactive (dead)\n";
    let svc = parse_service(report.to_string());
    assert_eq!(
        svc,
        Service {
            name: text("job.service"),
            description: text("One job"),
            loaded_status: text("loaded"),
            unit_file_path: text("/run/systemd/generator/job.service"),
            enabled: text("generated"),
            preset: None,
            active: text("inactive"),
            active_state: text("dead"),
            trigger: None,
            triggers: None,
            docs: None,
        }
    );
}

#[test]
fn report_without_header_has_no_field() {
    let svc = parse_service("basic.target\n   Loaded: loaded\n".to_string());
    assert!(svc.all_fields_none());
    assert_eq!(svc, Service::none());
    assert!(parse_service(String::new()).all_fields_none());
    assert!(parse_service("● only.service - a header\n".to_string()).all_fields_none());
}

#[test]
fn service_with_one_field_is_a_service() {
    let mut svc = Service::none();
    assert!(svc.all_fields_none());
    svc.docs = text("man:x(1)");
    assert!(!svc.all_fields_none());
    let mut svc = Service::none();
    svc.name = text("x.service");
    assert!(!svc.all_fields_none());
}

#[test]
fn service_of_captured_groups() {
    let groups: Vec<Option<String>> = vec![
        text("whole"),
        text("n"),
        text("d"),
        text("l"),
        text("u"),
        None,
        text("p"),
        text("a"),
        text("s"),
        text("t"),
        None,
        text("  man:x(1)\n\t"),
    ];
    assert_eq!(
        service_from_captures(Some(groups)),
        Service {
            name: text("n"),
            description: text("d"),
            loaded_status: text("l"),
            unit_file_path: text("u"),
            enabled: None,
            preset: text("p"),
            active: text("a"),
            active_state: text("s"),
            trigger: text("t"),
            triggers: None,
            docs: text("man:x(1)"),
        }
    );
    assert_eq!(service_from_captures(None), Service::none());
    let short = service_from_captures(Some(vec![text("whole"), text("n")]));
    assert_eq!(short.name, text("n"));
    assert_eq!(short.description, None);
    assert_eq!(short.docs, None);
}

#[test]
fn listing_leaves_out_units_that_are_no_apps() {
    let listed = get_apps(vec![text("no header"), text(REPORT), None]);
    assert_eq!(listed.len(), 1);
    assert_eq!(listed[0], parse_service(REPORT.to_string()));
    assert_eq!(get_apps(vec![None, text("")]), Vec::<Service>::new());
    assert_eq!(get_apps(Vec::new()), Vec::<Service>::new());
}

#[test]
fn listing_keeps_the_order_of_the_reports() {
    let other = "● job.service - One job\n     Loaded: loaded (/run/job.service; generated)\n     Active: inactive (dead)\n";
    let listed = get_apps(vec![text(other), None, text(REPORT)]);
    assert_eq!(listed.len(), 2);
    assert_eq!(listed[0].name, text("job.service"));
    assert_eq!(listed[1].name, text("nginx.service"));
}

#[test]
fn service_units_end_in_service() {
    assert!(is_service_unit("nginx.service"));
    assert!(is_service_unit(".service"));
    assert!(!is_service_unit("basic.target"));
    assert!(!is_service_unit("service"));
    assert!(!is_service_unit("nginx.service "));
}

#[test]
fn pattern_names_its_groups_in_order() {
    let names = [
        "name",
        "description",
        "loaded_status",
        "unit_file_path",
        "enabled",
        "preset",
        "active",
        "active_state",
        "trigger",
        "triggers",
        "docs",
    ];
    let mut from = 0;
    for name in names {
        let at = STATUS_PATTERN[from..].find(&format!("(?P<{}>", name));
        assert!(at.is_some());
        from += at.unwrap() + 1;
    }
}
