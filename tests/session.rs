use lazysshrs::navigation::AppState;
use lazysshrs::session::{Action, Key, Session};
use lazysshrs::ssh_config::{SshConfig, SshHost};

fn hosts() -> Vec<SshHost> {
    let ds = SshConfig::parse("Host alpha\nHostname a.example\nUser u\nHost beta\n", "/r", None, None).unwrap();
    let mut hs = vec![SshHost::separator("/r/x/config")];
    hs.extend(SshConfig::assemble(&ds, &vec![None, None]).hosts);
    hs
}

fn type_text(s: &mut Session, hs: &Vec<SshHost>, text: &str) {
    for c in text.chars() {
        assert_eq!(s.handle_key(hs, Key::Char(c)), Action::Nothing);
    }
}

#[test]
fn add_flow_asks_for_save() {
    let hs = hosts();
    let mut s = Session::new(Some(1));
    assert_eq!(s.handle_key(&hs, Key::Char('a')), Action::Nothing);
    assert_eq!(s.state, AppState::Form);
    type_text(&mut s, &hs, "work");
    s.handle_key(&hs, Key::Tab);
    type_text(&mut s, &hs, "srvx");
    s.handle_key(&hs, Key::Backspace);
    s.handle_key(&hs, Key::Tab);
    type_text(&mut s, &hs, "h");
    s.handle_key(&hs, Key::Enter);
    assert_eq!(s.state, AppState::Form);
    s.handle_key(&hs, Key::Tab);
    type_text(&mut s, &hs, "root");
    assert_eq!(s.form.folder, "work");
    assert_eq!(s.form.host, "srv");
    assert_eq!(s.form.user, "root");
    s.handle_key(&hs, Key::Enter);
    assert_eq!(s.state, AppState::Confirm);
    assert_eq!(s.handle_key(&hs, Key::Enter), Action::Save);
    assert_eq!(s.state, AppState::List);
}

#[test]
fn edit_flow_asks_for_update() {
    let hs = hosts();
    let mut s = Session::new(Some(0));
    s.handle_key(&hs, Key::Char('e'));
    assert_eq!(s.state, AppState::List);
    s.handle_key(&hs, Key::Down);
    assert_eq!(s.selected, Some(1));
    s.handle_key(&hs, Key::Char('e'));
    assert_eq!(s.state, AppState::Edit);
    assert_eq!(s.form.folder, "main");
    assert_eq!(s.form.hostname, "a.example");
    s.handle_key(&hs, Key::Enter);
    assert_eq!(s.state, AppState::ConfirmEdit);
    assert_eq!(s.handle_key(&hs, Key::Enter), Action::Update(1));
    assert_eq!(s.editing_host_index, None);
}

#[test]
fn list_keys() {
    let hs = hosts();
    let mut s = Session::new(Some(2));
    assert_eq!(s.handle_key(&hs, Key::Enter), Action::Connect(2));
    assert_eq!(s.handle_key(&hs, Key::Char('p')), Action::Probe(2));
    s.handle_key(&hs, Key::Down);
    assert_eq!(s.selected, Some(1));
    s.handle_key(&hs, Key::Up);
    assert_eq!(s.selected, Some(2));
    s.selected = Some(0);
    assert_eq!(s.handle_key(&hs, Key::Enter), Action::Nothing);
    assert_eq!(s.handle_key(&hs, Key::Char('q')), Action::Quit);
}

#[test]
fn search_and_popup() {
    let hs = hosts();
    let mut s = Session::new(Some(1));
    s.handle_key(&hs, Key::Char('/'));
    assert_eq!(s.state, AppState::Search);
    type_text(&mut s, &hs, "bet");
    assert_eq!(s.search_query, "bet");
    assert_eq!(s.filtered_hosts, vec![2]);
    s.handle_key(&hs, Key::Enter);
    assert_eq!(s.state, AppState::List);
    assert_eq!(s.selected, Some(2));
    assert_eq!(s.search_query, "");
    s.show_popup("oops".to_string());
    assert_eq!(s.state, AppState::Popup);
    s.handle_key(&hs, Key::Char('x'));
    assert_eq!(s.state, AppState::Popup);
    s.handle_key(&hs, Key::Esc);
    assert_eq!(s.state, AppState::List);
}
