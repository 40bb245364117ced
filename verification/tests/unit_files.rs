use sentryx::paths::{apps_dir, apps_file_path, checkout_path, unit_file_path, units_dir};
use sentryx::unit::ServiceUnit;

#[test]
fn paths_below_home() {
    assert_eq!(apps_dir("/home/op"), "/home/op/sentryx/apps");
    assert_eq!(apps_file_path("/home/op"), "/home/op/sentryx/apps/apps.json");
    assert_eq!(checkout_path("/home/op", "widget"), "/home/op/sentryx/apps/widget");
    assert_eq!(units_dir("/home/op"), "/home/op/.config/systemd/user");
    assert_eq!(
        unit_file_path("/home/op", "acme-widget"),
        "/home/op/.config/systemd/user/acme-widget.service"
    );
    assert_eq!(apps_dir(""), "/sentryx/apps");
}

#[test]
fn unit_of_an_app() {
    let unit = ServiceUnit::new("widget", "/home/op/sentryx/apps/widget", "./widget");
    assert_eq!(unit.description, "widget (Installed with SentryX)");
    assert_eq!(unit.working_directory, "/home/op/sentryx/apps/widget");
    assert_eq!(unit.exec_start, "./widget");
}

#[test]
fn unit_file_text() {
    let unit = ServiceUnit::new("widget", "/home/op/sentryx/apps/widget", "./widget --port 80");
    assert_eq!(
        unit.render(),
        "[Unit]\nDescription=widget (Installed with SentryX)\nAfter=network.target\n\n[Service]\nWorkingDirectory=/home/op/sentryx/apps/widget\nExecStart=./widget --port 80\nRestart=always\nRestartSec=5\nStandardOutput=journal\nStandardError=journal\n\n[Install]\nWantedBy=multi-user.target"
    );
}
