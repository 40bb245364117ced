use sentryx::app_manager::{canonical_id_chars, App};

fn app(repo: &str) -> App {
    App {
        repo: repo.to_string(),
        branch: "main".to_string(),
        install_command: "./build.sh".to_string(),
        run_command: "./widget".to_string(),
        enabled: None,
    }
}

fn text(s: &str) -> Option<String> {
    Some(s.to_string())
}

#[test]
fn https_remote_with_git_suffix() {
    let a = app("https://example.com/acme/widget.git");
    assert_eq!(a.id(), text("acme/widget"));
    assert_eq!(a.id_system(), text("acme-widget"));
    assert_eq!(a.repo_folder_name(), "widget");
}

#[test]
fn https_remote_without_git_suffix() {
    let a = app("https://github.com/usr/repo");
    assert_eq!(a.id(), text("usr/repo"));
    assert_eq!(a.id_system(), text("usr-repo"));
    assert_eq!(a.repo_folder_name(), "repo");
}

#[test]
fn http_and_ssh_schemes() {
    assert_eq!(app("http://git.local/team/tool").id(), text("team/tool"));
    assert_eq!(app("ssh://git@git.local/team/tool.git").id(), text("team/tool"));
}

#[test]
fn scp_remote() {
    let a = app("git@github.com:usr/repo");
    assert_eq!(a.id(), text("usr/repo"));
    assert_eq!(a.id_system(), text("usr-repo"));
    assert_eq!(a.repo_folder_name(), "repo");
}

#[test]
fn scp_remote_with_git_suffix_and_other_user() {
    let a = app("deploy@code.example.org:acme/widget.git");
    assert_eq!(a.id(), text("acme/widget"));
    assert_eq!(a.id_system(), text("acme-widget"));
    assert_eq!(a.repo_folder_name(), "widget");
}

#[test]
fn every_slash_of_the_id_becomes_a_dash() {
    let a = app("https://gitlab.example.com/group/sub/project.git");
    assert_eq!(a.id(), text("group/sub/project"));
    assert_eq!(a.id_system(), text("group-sub-project"));
    assert_eq!(a.repo_folder_name(), "project");
    let id = a.id().unwrap();
    let system = a.id_system().unwrap();
    assert_eq!(system, id.replace('/', "-"));
    assert!(!system.contains('/'));
}

#[test]
fn every_trailing_git_suffix_is_taken_off() {
    let a = app("https://example.com/acme/widget.git.git");
    assert_eq!(a.id(), text("acme/widget"));
    assert_eq!(a.repo_folder_name(), "widget");
}

#[test]
fn unsupported_remote_has_no_id() {
    assert_eq!(app("widget").id(), None);
    assert_eq!(app("widget").id_system(), None);
    assert_eq!(app("").id(), None);
    assert_eq!(app("/srv/git/widget").id_system(), None);
    assert_eq!(app("example.com:acme/widget").id(), None);
    assert_eq!(app(".git").id(), None);
}

#[test]
fn remote_with_an_empty_part_has_no_id() {
    assert_eq!(app("https://example.com").id(), None);
    assert_eq!(app("https://example.com/").id(), None);
    assert_eq!(app("https:///acme/widget").id(), None);
    assert_eq!(app("://example.com/acme/widget").id(), None);
    assert_eq!(app("@example.com:acme/widget").id(), None);
    assert_eq!(app("git@:acme/widget").id(), None);
    assert_eq!(app("git@example.com:").id(), None);
}

#[test]
fn folder_name_of_a_remote_without_slash_is_the_remote() {
    assert_eq!(app("widget.git").repo_folder_name(), "widget");
    assert_eq!(app("git@example.com:widget").repo_folder_name(), "git@example.com:widget");
    assert_eq!(app("https://example.com/acme/").repo_folder_name(), "");
}

#[test]
fn id_as_characters() {
    let id = canonical_id_chars("git@github.com:usr/repo.git");
    assert_eq!(id, Some(vec!['u', 's', 'r', '/', 'r', 'e', 'p', 'o']));
    assert_eq!(canonical_id_chars("nothing"), None);
}

#[test]
fn absent_boot_flag_counts_as_enabled() {
    let mut a = app("https://example.com/acme/widget.git");
    assert!(a.is_enabled());
    a.enabled = Some(true);
    assert!(a.is_enabled());
    a.enabled = Some(false);
    assert!(!a.is_enabled());
}

#[test]
fn clone_keeps_every_field() {
    let mut a = app("https://example.com/acme/widget.git");
    a.enabled = Some(false);
    assert_eq!(a.clone(), a);
}
