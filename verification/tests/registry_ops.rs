use sentryx::app_manager::App;
use sentryx::error::Failure;
use sentryx::registry::{init, keeps_invariant, save_apps, Registry};

fn record(repo: &str, branch: &str) -> App {
    App {
        repo: repo.to_string(),
        branch: branch.to_string(),
        install_command: "make".to_string(),
        run_command: "./run".to_string(),
        enabled: None,
    }
}

fn widget() -> App {
    record("https://example.com/acme/widget.git", "main")
}

fn gadget() -> App {
    record("git@example.com:acme/gadget", "main")
}

#[test]
fn new_registry_is_empty() {
    let reg = Registry::new();
    assert_eq!(reg.len(), 0);
    assert_eq!(reg.list(), Vec::<App>::new());
    assert!(!reg.contains("acme/widget"));
}

#[test]
fn upsert_adds_at_the_end() {
    let mut reg = Registry::new();
    assert_eq!(reg.upsert(widget()), Ok(()));
    assert_eq!(reg.upsert(gadget()), Ok(()));
    assert_eq!(reg.len(), 2);
    assert_eq!(reg.list(), vec![widget(), gadget()]);
    assert_eq!(reg.get("acme/widget"), Ok(widget()));
    assert_eq!(reg.get("acme/gadget"), Ok(gadget()));
    assert!(reg.contains("acme/gadget"));
}

#[test]
fn upsert_replaces_the_record_with_the_same_id() {
    let mut reg = Registry::new();
    reg.upsert(widget()).unwrap();
    reg.upsert(gadget()).unwrap();
    let other_form = record("git@example.com:acme/widget.git", "develop");
    assert_eq!(reg.upsert(other_form.clone()), Ok(()));
    assert_eq!(reg.len(), 2);
    assert_eq!(reg.list(), vec![other_form.clone(), gadget()]);
    assert_eq!(reg.get("acme/widget"), Ok(other_form));
}

#[test]
fn upsert_refuses_a_record_without_id() {
    let mut reg = Registry::new();
    reg.upsert(widget()).unwrap();
    assert_eq!(reg.upsert(record("widget", "main")), Err(Failure::InvalidRepo));
    assert_eq!(reg.list(), vec![widget()]);
}

#[test]
fn unknown_id_is_not_found_and_changes_nothing() {
    let mut reg = Registry::new();
    reg.upsert(widget()).unwrap();
    assert_eq!(reg.get("acme/gadget"), Err(Failure::NotFound));
    assert_eq!(reg.remove("acme/gadget"), Err(Failure::NotFound));
    assert_eq!(reg.set_enabled("acme/gadget", false), Err(Failure::NotFound));
    assert_eq!(reg.list(), vec![widget()]);
}

#[test]
fn remove_takes_the_record_out() {
    let mut reg = Registry::new();
    reg.upsert(widget()).unwrap();
    reg.upsert(gadget()).unwrap();
    assert_eq!(reg.remove("acme/widget"), Ok(widget()));
    assert_eq!(reg.list(), vec![gadget()]);
    assert_eq!(reg.get("acme/widget"), Err(Failure::NotFound));
    assert_eq!(reg.remove("acme/widget"), Err(Failure::NotFound));
}

#[test]
fn set_enabled_changes_only_the_flag() {
    let mut reg = Registry::new();
    reg.upsert(widget()).unwrap();
    reg.upsert(gadget()).unwrap();
    assert_eq!(reg.set_enabled("acme/gadget", false), Ok(()));
    let mut expected = gadget();
    expected.enabled = Some(false);
    assert_eq!(reg.list(), vec![widget(), expected.clone()]);
    assert!(!reg.get("acme/gadget").unwrap().is_enabled());
    assert_eq!(reg.set_enabled("acme/gadget", true), Ok(()));
    expected.enabled = Some(true);
    assert_eq!(reg.get("acme/gadget"), Ok(expected));
}

#[test]
fn saved_collection_loads_back_equal() {
    let mut reg = Registry::new();
    reg.upsert(widget()).unwrap();
    reg.upsert(gadget()).unwrap();
    reg.set_enabled("acme/gadget", false).unwrap();
    let saved = save_apps(&reg);
    let loaded = init(Some(saved.clone()));
    assert_eq!(loaded.list(), reg.list());
    assert_eq!(save_apps(&loaded), saved);
    assert!(loaded.get("acme/widget").unwrap().is_enabled());
    assert_eq!(loaded.get("acme/widget").unwrap().enabled, None);
}

#[test]
fn nothing_stored_loads_as_the_empty_registry() {
    assert_eq!(init(None).len(), 0);
    assert_eq!(init(Some(Vec::new())).len(), 0);
}

#[test]
fn stored_collection_that_breaks_the_invariant_loads_as_empty() {
    let twice = vec![widget(), record("git@example.com:acme/widget", "other")];
    assert!(!keeps_invariant(&twice));
    assert_eq!(Registry::load(twice).len(), 0);
    let without_id = vec![widget(), record("widget", "main")];
    assert!(!keeps_invariant(&without_id));
    assert_eq!(init(Some(without_id)).len(), 0);
    assert!(keeps_invariant(&vec![widget(), gadget()]));
    assert_eq!(Registry::load(vec![widget(), gadget()]).list(), vec![widget(), gadget()]);
}

#[test]
fn changes_of_distinct_ids_commute() {
    let mut base = Registry::new();
    base.upsert(gadget()).unwrap();

    let mut install_first = base.clone();
    install_first.upsert(widget()).unwrap();
    install_first.remove("acme/gadget").unwrap();

    let mut uninstall_first = base.clone();
    uninstall_first.remove("acme/gadget").unwrap();
    uninstall_first.upsert(widget()).unwrap();

    assert_eq!(install_first.list(), uninstall_first.list());
    assert_eq!(install_first.list(), vec![widget()]);
    assert!(keeps_invariant(&install_first.list()));
    assert_eq!(install_first.get("acme/gadget"), Err(Failure::NotFound));
}

#[test]
fn two_installs_in_either_order_hold_both_ids_once() {
    let mut one = Registry::new();
    one.upsert(widget()).unwrap();
    one.upsert(gadget()).unwrap();
    let mut other = Registry::new();
    other.upsert(gadget()).unwrap();
    other.upsert(widget()).unwrap();
    for reg in [&one, &other] {
        assert_eq!(reg.len(), 2);
        assert!(keeps_invariant(&reg.list()));
        assert_eq!(reg.get("acme/widget"), Ok(widget()));
        assert_eq!(reg.get("acme/gadget"), Ok(gadget()));
    }
}

#[test]
fn into_records_gives_all_records() {
    let mut reg = Registry::new();
    reg.upsert(widget()).unwrap();
    assert_eq!(reg.into_records(), vec![widget()]);
}
