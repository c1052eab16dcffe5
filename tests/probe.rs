use lazysshrs::ssh_config::{Directive, SshConfig};
use lazysshrs::status::{no_target_message, probe_message, probe_target};

#[test]
fn probe_needs_hostname_and_port() {
    let ds = SshConfig::parse("Host a\nHostname h\nPort 22\nHost b\nHostname h\n", "/r", None, None).unwrap();
    let (a, b) = match (&ds[0], &ds[1]) {
        (Directive::Host(a), Directive::Host(b)) => (a, b),
        _ => unreachable!(),
    };
    assert_eq!(probe_target(a), Some(("h".to_string(), 22)));
    assert_eq!(probe_target(b), None);
}

#[test]
fn probe_messages() {
    assert_eq!(probe_message("h", 22, true), "Host h respondeu na porta 22");
    assert_eq!(probe_message("h", 65535, false), "Host h não respondeu na porta 65535");
    assert_eq!(probe_message("h", 0, true), "Host h respondeu na porta 0");
    assert_eq!(no_target_message(), "Host não possui hostname ou porta configurados");
}
