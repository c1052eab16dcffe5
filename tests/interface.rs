use lazysshrs::form::HostForm;
use lazysshrs::navigation::{
    next_index, next_search_result, prev_search_result, previous_index, rank_by_score, search_results, AppState,
};
use lazysshrs::ssh_config::{Directive, SshConfig, SshHost};

fn sample() -> Vec<SshHost> {
    let ds = SshConfig::parse("Host a\nHost b\nHost c\n", "/r", None, None).unwrap();
    let plain = SshConfig::assemble(&ds, &vec![None, None, None]).hosts;
    vec![
        SshHost::separator("/r/x/config"),
        plain[0].clone(),
        SshHost::separator("/r/y/config"),
        plain[1].clone(),
        plain[2].clone(),
    ]
}

#[test]
fn form_fields() {
    let mut f = HostForm::default();
    assert_eq!(HostForm::field_names(), vec!["Pasta", "Host", "Hostname", "User", "Port", "IdentityFile", "LocalForward"]);
    f.set_field(2, "h".to_string());
    assert_eq!(f.get_field(2), "h");
    assert_eq!(f.get_field(9), "");
    f.set_field(9, "x".to_string());
    assert!(!f.is_valid());
    f.set_field(0, "d".to_string());
    f.set_field(1, "n".to_string());
    f.set_field(3, "u".to_string());
    assert!(f.is_valid());
    f.prev_field();
    assert_eq!(f.current_field, 6);
    f.next_field();
    assert_eq!(f.current_field, 0);
    f.next_field();
    assert_eq!(f.current_field, 1);
}

#[test]
fn form_from_host() {
    let ds = SshConfig::parse("Host a\nHostname h\nPort 2222\nLocalForward 1 x:2\n", "/r", None, None).unwrap();
    let h = match &ds[0] {
        Directive::Host(h) => h,
        Directive::Include(_) => unreachable!(),
    };
    let f = HostForm::for_host(h);
    assert_eq!(f.folder, "main");
    assert_eq!(f.host, "a");
    assert_eq!(f.hostname, "h");
    assert_eq!(f.user, "");
    assert_eq!(f.port, "2222");
    assert_eq!(f.local_forward, "1 x:2");
}

#[test]
fn list_navigation_skips_separators() {
    let hs = sample();
    assert_eq!(next_index(&hs, None), 1);
    assert_eq!(next_index(&hs, Some(1)), 3);
    assert_eq!(next_index(&hs, Some(4)), 1);
    assert_eq!(previous_index(&hs, Some(3)), 1);
    assert_eq!(previous_index(&hs, Some(1)), 4);
    let seps = vec![SshHost::separator("/r/x/config")];
    assert_eq!(next_index(&seps, Some(0)), 0);
    assert_eq!(next_index(&Vec::new(), None), 0);
}

#[test]
fn search_navigation() {
    let results = vec![4, 1, 3];
    assert_eq!(next_search_result(&results, Some(1)), Some(3));
    assert_eq!(next_search_result(&results, Some(3)), Some(4));
    assert_eq!(next_search_result(&results, Some(0)), Some(4));
    assert_eq!(prev_search_result(&results, Some(4)), Some(3));
    assert_eq!(prev_search_result(&results, Some(3)), Some(1));
    assert_eq!(prev_search_result(&Vec::new(), Some(3)), None);
    assert!(AppState::List != AppState::Popup);
}

#[test]
fn ranking_by_score() {
    let hs = sample();
    // entries 0 and 2 are separators and never ranked
    let scores = vec![Some(99), Some(5), Some(99), Some(7), Some(5)];
    assert_eq!(rank_by_score(&hs, &scores), vec![3, 1, 4]);
    let scores = vec![None, None, None, Some(1), None];
    assert_eq!(rank_by_score(&hs, &scores), vec![3]);
    assert_eq!(rank_by_score(&hs, &vec![]), Vec::<usize>::new());
}

#[test]
fn fuzzy_search_filters() {
    let ds = SshConfig::parse("Host db\nHost web1\nHost webserver\n", "/r", None, None).unwrap();
    let hs = SshConfig::assemble(&ds, &vec![None, None, None]).hosts;
    let r = search_results(&hs, "web");
    assert_eq!(r.len(), 2);
    assert!(r.contains(&1) && r.contains(&2));
    assert!(search_results(&hs, "").is_empty());
    assert!(search_results(&hs, "zzz").is_empty());
}
