use lazysshrs::ssh_config::{ConfigError, Directive, SshConfig, SshHost};

fn hosts_of(ds: &[Directive]) -> Vec<&SshHost> {
    ds.iter()
        .filter_map(|d| match d {
            Directive::Host(h) => Some(h),
            Directive::Include(_) => None,
        })
        .collect()
}

#[test]
fn two_hosts_in_order() {
    let ds = SshConfig::parse("Host a\nHostname h\n\nHost b\nHostname h2\n", "/r", None, None).unwrap();
    assert_eq!(ds.len(), 2);
    let hs = hosts_of(&ds);
    assert_eq!(hs[0].name, "a");
    assert_eq!(hs[0].hostname.as_deref(), Some("h"));
    assert_eq!(hs[1].name, "b");
    assert_eq!(hs[1].hostname.as_deref(), Some("h2"));
    assert_eq!(hs[0].source_dir, None);
}

#[test]
fn unparsable_port_is_unset() {
    let ds = SshConfig::parse("Host a\nPort notanumber\n", "/r", None, None).unwrap();
    let hs = hosts_of(&ds);
    assert_eq!(hs.len(), 1);
    assert_eq!(hs[0].name, "a");
    assert_eq!(hs[0].port, None);
}

#[test]
fn port_edge_values() {
    let ds = SshConfig::parse("Host a\nPort 65535\nHost b\nPort 65536\nHost c\nPort +22\nHost d\nPort -1\n", "/r", None, None).unwrap();
    let hs = hosts_of(&ds);
    assert_eq!(hs[0].port, Some(65535));
    assert_eq!(hs[1].port, None);
    assert_eq!(hs[2].port, Some(22));
    assert_eq!(hs[3].port, None);
}

#[test]
fn keywords_ignore_case_and_split_on_any_blank() {
    let ds = SshConfig::parse("HOST web\n\tHostName\t example.org  \n  USER  bob\nIdentityFile ~/.ssh/id\n", "/r", Some("work".to_string()), None).unwrap();
    let hs = hosts_of(&ds);
    assert_eq!(hs.len(), 1);
    assert_eq!(hs[0].hostname.as_deref(), Some("example.org"));
    assert_eq!(hs[0].user.as_deref(), Some("bob"));
    assert_eq!(hs[0].identity_file.as_deref(), Some("~/.ssh/id"));
    assert_eq!(hs[0].source_dir.as_deref(), Some("work"));
}

#[test]
fn other_options_last_wins() {
    let ds = SshConfig::parse("Host a\nForwardAgent yes\nLocalForward 1 h:2\nforwardagent no\n", "/r", None, None).unwrap();
    let hs = hosts_of(&ds);
    let opts = &hs[0].other_options;
    assert_eq!(opts.len(), 2);
    assert_eq!(opts[0], ("forwardagent".to_string(), "no".to_string()));
    assert_eq!(opts[1], ("localforward".to_string(), "1 h:2".to_string()));
}

#[test]
fn comments_blank_lines_and_orphans_dropped() {
    let ds = SshConfig::parse("# c\nUser nobody\n   \n  # x\nHost\nHost z\n", "/r", None, None).unwrap();
    assert_eq!(ds.len(), 1);
    assert_eq!(hosts_of(&ds)[0].name, "z");
    assert_eq!(hosts_of(&ds)[0].user, None);
}

#[test]
fn include_closes_host_and_resolves() {
    let ds = SshConfig::parse(
        "Host a\nInclude work/config\nUser late\nInclude /abs/x/config\nInclude ~/h/config\n",
        "/home/u/.ssh",
        None,
        Some("/home/u"),
    )
    .unwrap();
    assert_eq!(ds.len(), 4);
    assert!(matches!(&ds[0], Directive::Host(h) if h.name == "a" && h.user.is_none()));
    assert!(matches!(&ds[1], Directive::Include(p) if p == "/home/u/.ssh/work/config"));
    assert!(matches!(&ds[2], Directive::Include(p) if p == "/abs/x/config"));
    assert!(matches!(&ds[3], Directive::Include(p) if p == "/home/u/h/config"));
}

#[test]
fn tilde_include_without_home_fails() {
    let r = SshConfig::parse("Include ~/x/config\n", "/r", None, None);
    assert_eq!(r.err(), Some(ConfigError::NoHomeDirectory));
}

#[test]
fn missing_include_adds_nothing() {
    let ds = SshConfig::parse("Host a\nInclude gone/config\nHost b\n", "/r", None, None).unwrap();
    assert_eq!(ds.len(), 3);
    let cfg = SshConfig::assemble(&ds, &vec![None, None, None]);
    let names: Vec<&str> = cfg.hosts.iter().map(|h| h.name.as_str()).collect();
    assert_eq!(names, vec!["a", "b"]);
}

#[test]
fn present_include_adds_separator_then_hosts() {
    let ds = SshConfig::parse("Host a\nInclude /r/work/config\nHost b\n", "/r", None, None).unwrap();
    let sub = SshConfig::parse("Host w\n", "/r/work", Some("work".to_string()), None).unwrap();
    let sub_hosts = SshConfig::assemble(&sub, &vec![None]).hosts;
    let cfg = SshConfig::assemble(&ds, &vec![None, Some(sub_hosts), None]);
    let names: Vec<&str> = cfg.hosts.iter().map(|h| h.name.as_str()).collect();
    assert_eq!(names, vec!["a", "── work ──", "w", "b"]);
    assert!(cfg.hosts[1].is_separator);
    assert_eq!(cfg.hosts[1].source_dir.as_deref(), Some("work"));
    assert_eq!(cfg.hosts[2].source_dir.as_deref(), Some("work"));
    assert_eq!(cfg.first_host_index(), 0);
}

#[test]
fn first_host_skips_separators() {
    let cfg = SshConfig { hosts: vec![SshHost::separator("/r/x/config"), SshHost::separator("/r/y/config")] };
    assert_eq!(cfg.first_host_index(), 0);
    let ds = SshConfig::parse("Host q\n", "/r", None, None).unwrap();
    let mut hosts = vec![SshHost::separator("/r/x/config")];
    hosts.extend(SshConfig::assemble(&ds, &vec![None]).hosts);
    assert_eq!(SshConfig { hosts }.first_host_index(), 1);
    assert_eq!(SshConfig { hosts: vec![] }.first_host_index(), 0);
}

#[test]
fn crlf_lines() {
    let ds = SshConfig::parse("Host a\r\nUser u\r\n", "/r", None, None).unwrap();
    let hs = hosts_of(&ds);
    assert_eq!(hs[0].name, "a");
    assert_eq!(hs[0].user.as_deref(), Some("u"));
}
