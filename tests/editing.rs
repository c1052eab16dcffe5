use lazysshrs::config::AppConfig;
use lazysshrs::form::HostForm;
use lazysshrs::mutation::{append_block, host_block, include_line, register_include, remove_host_block};
use lazysshrs::paths::{dir_label, join, parent_dir, resolve_include_path};

fn form(folder: &str, host: &str) -> HostForm {
    let mut f = HostForm::default();
    f.folder = folder.to_string();
    f.host = host.to_string();
    f.hostname = "10.0.0.1".to_string();
    f.user = "root".to_string();
    f
}

#[test]
fn remove_first_block() {
    let r = remove_host_block("Host x\nHostname a\nHost y\nHostname b\n", "x");
    assert_eq!(r, "Host y\nHostname b\n");
}

#[test]
fn remove_last_block_and_keep_others() {
    let r = remove_host_block("# top\nHost y\n  User b\n\nHost x\n  Port 2\n", "x");
    assert_eq!(r, "# top\nHost y\n  User b\n\n");
    assert_eq!(remove_host_block("Host y\nUser b", "x"), "Host y\nUser b\n");
    assert_eq!(remove_host_block("", "x"), "");
}

#[test]
fn block_layout() {
    let mut f = form("work", "srv");
    assert_eq!(host_block(&f), "Host srv\n    Hostname 10.0.0.1\n    User root\n");
    f.port = "2222".to_string();
    f.local_forward = "8080 localhost:80".to_string();
    assert_eq!(
        host_block(&f),
        "Host srv\n    Hostname 10.0.0.1\n    User root\n    Port 2222\n    LocalForward 8080 localhost:80\n"
    );
}

#[test]
fn append_separates_with_blank_line() {
    assert_eq!(append_block("", "Host a\n"), "Host a\n");
    assert_eq!(append_block("Host b\n", "Host a\n"), "Host b\n\nHost a\n");
}

#[test]
fn new_folder_registers_include_first() {
    let cfg = AppConfig { workdir: "/R".to_string() };
    let path = cfg.folder_config_path("work");
    assert_eq!(path, "/R/work/config");
    let f = form("work", "a");
    assert_eq!(append_block("", &host_block(&f)), host_block(&f));
    let line = include_line(&path);
    assert_eq!(line, "Include /R/work/config");
    let root = register_include(Some("Host old\n"), &line).unwrap();
    assert!(root.starts_with("Include /R/work/config"));
    assert_eq!(root, "Include /R/work/config\n\nHost old\n");
    assert_eq!(register_include(None, &line).unwrap(), "Include /R/work/config\n");
}

#[test]
fn second_registration_changes_nothing() {
    let line = include_line("/R/work/config");
    let once = register_include(Some("Host old\n"), &line).unwrap();
    assert_eq!(register_include(Some(&once), &line), None);
}

#[test]
fn append_then_remove_restores_empty_file() {
    let mut f = form("work", "box");
    f.identity_file = "~/.ssh/k".to_string();
    let after = append_block("", &host_block(&f));
    assert_eq!(remove_host_block(&after, "box"), "");
}

#[test]
fn paths_resolve() {
    assert_eq!(join("/a", "b"), "/a/b");
    assert_eq!(join("/a/", "b"), "/a/b");
    assert_eq!(join("/a", "/b"), "/b");
    assert_eq!(parent_dir("/a/b/config"), "/a/b");
    assert_eq!(parent_dir("/config"), "/");
    assert_eq!(dir_label("/a/b/config"), "b");
    assert_eq!(dir_label("config"), "unknown");
    assert_eq!(resolve_include_path("~/x", "/base", Some("/home/u")).as_deref(), Some("/home/u/x"));
    assert_eq!(resolve_include_path("~/x", "/base", None), None);
    assert_eq!(resolve_include_path("x/config", "/base", None).as_deref(), Some("/base/x/config"));
}

#[test]
fn config_paths() {
    let cfg = AppConfig { workdir: "/w".to_string() };
    assert_eq!(cfg.get_main_config_path(), "/w/config");
    assert_eq!(cfg.get_workdir(), "/w");
    assert_eq!(cfg.source_config_path(&None), "/w/config");
    assert_eq!(cfg.source_config_path(&Some("lab".to_string())), "/w/lab/config");
    assert_eq!(AppConfig::for_home(Some("/home/u")).workdir, "/home/u/.ssh");
    assert_eq!(AppConfig::for_home(None).workdir, "/.ssh");
    assert_eq!(AppConfig::settings_path("/home/u"), "/home/u/.config/lazysshrs");
    assert!(AppConfig::default().workdir.ends_with(".ssh"));
}
