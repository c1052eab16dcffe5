//! The interface's decisions: how each key changes what is shown, and what
//! outside work (a connection, a probe, a file edit) it asks for.
use vstd::prelude::*;
use crate::form::{HostForm, field_spec};
use crate::navigation::{
    AppState, next_index, previous_index, next_search_result, prev_search_result, search_results,
    forward_target, back_target, indices_of, ranked, candidates, scores_for, next_result_spec,
    prev_result_spec,
};
use crate::ssh_config::{SshHost, HostView, hosts_view};
use crate::text::{chars_of, string_of_range, string_from};

verus! {

/// A key as the interface sees it.
#[derive(Debug, Clone, Copy, PartialEq, Eq, Structural)]
pub enum Key {
    Char(char),
    Enter,
    Esc,
    Tab,
    BackTab,
    Backspace,
    Up,
    Down,
    Other,
}

/// Outside work that a key asks for.
#[derive(Debug, Clone, Copy, PartialEq, Eq, Structural)]
pub enum Action {
    Nothing,
    Quit,
    /// Open an ssh session to entry `i`.
    Connect(usize),
    /// Probe the hostname and port of entry `i`.
    Probe(usize),
    /// Append the form's host.
    Save,
    /// Replace entry `i` by the form's host.
    Update(usize),
}

/// Everything the interface shows besides the host list itself.
pub struct Session {
    pub state: AppState,
    pub previous_state: AppState,
    pub form: HostForm,
    pub editing_host_index: Option<usize>,
    pub search_query: String,
    pub filtered_hosts: Vec<usize>,
    pub selected: Option<usize>,
    pub popup_message: String,
}

/// The selected entry, when there is one and it is a host.
pub open spec fn chosen(hs: Seq<HostView>, sel: Option<usize>) -> Option<usize> {
    match sel {
        Some(s) => if s < hs.len() && !hs[s as int].is_separator {
            Some(s)
        } else {
            None
        },
        None => None,
    }
}

/// `new` is `old` with the field that has focus set to `text`.
pub open spec fn field_edited(old: HostForm, new: HostForm, text: Seq<char>) -> bool {
    &&& new.current_field == old.current_field
    &&& forall|j: usize|
        j < 7 ==> #[trigger] field_spec(new, j) == if j == old.current_field {
            text
        } else {
            field_spec(old, j)
        }
}

pub open spec fn without_last(s: Seq<char>) -> Seq<char> {
    if s.len() > 0 {
        s.drop_last()
    } else {
        s
    }
}

/// The search results for `query` over `hs`.
pub open spec fn results_for(hosts: Seq<SshHost>, query: Seq<char>) -> Seq<usize> {
    if query.len() == 0 {
        seq![]
    } else {
        indices_of(ranked(candidates(hosts_view(hosts), scores_for(hosts, query), hosts.len() as int)))
    }
}

fn with_char(s: &str, c: char) -> (r: String)
    ensures
        r@ == s@.push(c),
{
    let mut r = string_from(chars_of(s).as_slice());
    let one = string_from(&[c]);
    r.append(one.as_str());
    assert(r@ =~= s@.push(c));
    r
}

fn without_last_char(s: &str) -> (r: String)
    ensures
        r@ == without_last(s@),
{
    let v = chars_of(s);
    if v.len() == 0 {
        string_from(v.as_slice())
    } else {
        string_of_range(&v, 0, v.len() - 1)
    }
}

fn set_current_field(form: &mut HostForm, text: String)
    ensures
        field_edited(*old(form), *final(form), text@),
{
    let cur = form.current_field;
    form.set_field(cur, text);
}

impl Session {
    pub fn new(selected: Option<usize>) -> (r: Session)
        ensures
            r.state == AppState::List,
            r.previous_state == AppState::List,
            r.selected == selected,
            r.editing_host_index is None,
            r.search_query@.len() == 0,
            r.filtered_hosts@.len() == 0,
            r.popup_message@.len() == 0,
            r.form.current_field == 0,
    {
        Session {
            state: AppState::List,
            previous_state: AppState::List,
            form: HostForm::default(),
            editing_host_index: None,
            search_query: String::new(),
            filtered_hosts: Vec::new(),
            selected,
            popup_message: String::new(),
        }
    }

    /// Shows `message` over the current screen; closing it comes back here.
    pub fn show_popup(&mut self, message: String)
        ensures
            *final(self) == (Session {
                state: AppState::Popup,
                previous_state: old(self).state,
                popup_message: message,
                ..*old(self)
            }),
    {
        self.previous_state = self.state;
        self.popup_message = message;
        self.state = AppState::Popup;
    }

    fn list_key(&mut self, hosts: &Vec<SshHost>, key: Key) -> (r: Action)
        requires
            old(self).state == AppState::List,
        ensures
            list_step(*old(self), *final(self), hosts, key, r),
    {
        let ghost hv = hosts_view(hosts@);
        let chosen_index = match self.selected {
            Some(s) => if s < hosts.len() && !hosts[s].is_separator {
                Some(s)
            } else {
                None
            },
            None => None,
        };
        assert(chosen_index == chosen(hv, self.selected));
        match key {
            Key::Char(c) => {
                if c == 'q' {
                    Action::Quit
                } else if c == 'a' {
                    self.state = AppState::Form;
                    self.form = HostForm::default();
                    self.editing_host_index = None;
                    Action::Nothing
                } else if c == 'e' {
                    if let Some(s) = chosen_index {
                        self.form = HostForm::for_host(&hosts[s]);
                        self.editing_host_index = Some(s);
                        self.state = AppState::Edit;
                    }
                    Action::Nothing
                } else if c == 'p' {
                    match chosen_index {
                        Some(s) => Action::Probe(s),
                        None => Action::Nothing,
                    }
                } else if c == '/' {
                    self.state = AppState::Search;
                    self.search_query = String::new();
                    self.filtered_hosts = Vec::new();
                    Action::Nothing
                } else {
                    Action::Nothing
                }
            },
            Key::Enter => match chosen_index {
                Some(s) => Action::Connect(s),
                None => Action::Nothing,
            },
            Key::Down => {
                if self.selected.is_none() || hosts.len() > 0 {
                    self.selected = Some(next_index(hosts, self.selected));
                }
                Action::Nothing
            },
            Key::Up => {
                if self.selected.is_none() || hosts.len() > 0 {
                    self.selected = Some(previous_index(hosts, self.selected));
                }
                Action::Nothing
            },
            _ => Action::Nothing,
        }
    }

    fn form_key(&mut self, key: Key) -> (r: Action)
        requires
            old(self).state == AppState::Form || old(self).state == AppState::Edit,
        ensures
            form_step(*old(self), *final(self), key),
            r == Action::Nothing,
    {
        match key {
            Key::Esc => {
                self.state = AppState::List;
                self.editing_host_index = None;
            },
            Key::Tab => {
                if self.form.current_field < usize::MAX {
                    self.form.next_field();
                }
            },
            Key::BackTab => {
                self.form.prev_field();
            },
            Key::Enter => {
                if self.form.is_valid() {
                    self.state = if self.editing_host_index.is_some() {
                        AppState::ConfirmEdit
                    } else {
                        AppState::Confirm
                    };
                }
            },
            Key::Char(c) => {
                let text = with_char(self.form.get_field(self.form.current_field), c);
                set_current_field(&mut self.form, text);
            },
            Key::Backspace => {
                let text = without_last_char(self.form.get_field(self.form.current_field));
                set_current_field(&mut self.form, text);
            },
            _ => {},
        }
        Action::Nothing
    }

    fn search_key(&mut self, hosts: &Vec<SshHost>, key: Key) -> (r: Action)
        requires
            old(self).state == AppState::Search,
        ensures
            search_step(*old(self), *final(self), hosts@, key),
            r == Action::Nothing,
    {
        match key {
            Key::Esc => {
                self.state = AppState::List;
                self.search_query = String::new();
            },
            Key::Enter => {
                if self.filtered_hosts.len() > 0 {
                    self.selected = Some(self.filtered_hosts[0]);
                }
                self.state = AppState::List;
                self.search_query = String::new();
            },
            Key::Char(c) => {
                self.search_query = with_char(self.search_query.as_str(), c);
                self.filtered_hosts = search_results(hosts, self.search_query.as_str());
                assert(self.filtered_hosts@ =~= results_for(hosts@, self.search_query@));
            },
            Key::Backspace => {
                self.search_query = without_last_char(self.search_query.as_str());
                self.filtered_hosts = search_results(hosts, self.search_query.as_str());
                assert(self.filtered_hosts@ =~= results_for(hosts@, self.search_query@));
            },
            Key::Down => {
                if let Some(i) = next_search_result(&self.filtered_hosts, self.selected) {
                    self.selected = Some(i);
                }
            },
            Key::Up => {
                if let Some(i) = prev_search_result(&self.filtered_hosts, self.selected) {
                    self.selected = Some(i);
                }
            },
            _ => {},
        }
        Action::Nothing
    }

    /// The effect of `key` on what is shown, and the outside work it asks for.
    pub fn handle_key(&mut self, hosts: &Vec<SshHost>, key: Key) -> (r: Action)
        ensures
            old(self).state == AppState::List ==> list_step(*old(self), *final(self), hosts, key, r),
            (old(self).state == AppState::Form || old(self).state == AppState::Edit) ==> form_step(
                *old(self),
                *final(self),
                key,
            ) && r == Action::Nothing,
            old(self).state == AppState::Confirm ==> confirm_step(*old(self), *final(self), key, r),
            old(self).state == AppState::ConfirmEdit ==> confirm_edit_step(
                *old(self),
                *final(self),
                key,
                r,
            ),
            old(self).state == AppState::Search ==> search_step(*old(self), *final(self), hosts@, key)
                && r == Action::Nothing,
            old(self).state == AppState::Popup ==> r == Action::Nothing && *final(self) == (
            Session {
                state: if key == Key::Enter || key == Key::Esc {
                    old(self).previous_state
                } else {
                    old(self).state
                },
                ..*old(self)
            }),
    {
        match self.state {
            AppState::List => self.list_key(hosts, key),
            AppState::Form | AppState::Edit => self.form_key(key),
            AppState::Confirm => {
                match key {
                    Key::Esc => {
                        self.state = AppState::Form;
                        Action::Nothing
                    },
                    Key::Enter => {
                        self.state = AppState::List;
                        self.editing_host_index = None;
                        Action::Save
                    },
                    _ => Action::Nothing,
                }
            },
            AppState::ConfirmEdit => {
                match key {
                    Key::Esc => {
                        self.state = AppState::Edit;
                        Action::Nothing
                    },
                    Key::Enter => {
                        let r = match self.editing_host_index {
                            Some(i) => Action::Update(i),
                            None => Action::Nothing,
                        };
                        self.state = AppState::List;
                        self.editing_host_index = None;
                        r
                    },
                    _ => Action::Nothing,
                }
            },
            AppState::Search => self.search_key(hosts, key),
            AppState::Popup => {
                if key == Key::Enter || key == Key::Esc {
                    self.state = self.previous_state;
                }
                Action::Nothing
            },
        }
    }
}

/// The list screen: `q` quits; `a` opens an empty form; `e` edits the
/// selected host; `p` probes it and Enter connects to it; `/` opens the
/// search; the arrows move the selection past separators.
pub open spec fn list_step(old: Session, new: Session, hosts: &Vec<SshHost>, key: Key, r: Action) -> bool {
    let hv = hosts_view(hosts@);
    let c = chosen(hv, old.selected);
    let can_move = old.selected is None || hosts@.len() > 0;
    if key == Key::Char('q') {
        r == Action::Quit && new == old
    } else if key == Key::Char('a') {
        r == Action::Nothing && new == (Session {
            state: AppState::Form,
            form: new.form,
            editing_host_index: None,
            ..old
        }) && new.form.current_field == 0 && (forall|j: usize|
            j < 7 ==> (#[trigger] field_spec(new.form, j)).len() == 0)
    } else if key == Key::Char('e') {
        r == Action::Nothing && match c {
            Some(s) => new == (Session {
                state: AppState::Edit,
                form: new.form,
                editing_host_index: Some(s),
                ..old
            }) && crate::form::form_spec_for(hv[s as int], new.form),
            None => new == old,
        }
    } else if key == Key::Char('p') {
        new == old && r == match c {
            Some(s) => Action::Probe(s),
            None => Action::Nothing,
        }
    } else if key == Key::Char('/') {
        r == Action::Nothing && new == (Session {
            state: AppState::Search,
            search_query: new.search_query,
            filtered_hosts: new.filtered_hosts,
            ..old
        }) && new.search_query@.len() == 0 && new.filtered_hosts@.len() == 0
    } else if key == Key::Enter {
        new == old && r == match c {
            Some(s) => Action::Connect(s),
            None => Action::Nothing,
        }
    } else if key == Key::Down {
        r == Action::Nothing && new == (Session {
            selected: if can_move {
                Some(forward_target(hosts, old.selected) as usize)
            } else {
                old.selected
            },
            ..old
        })
    } else if key == Key::Up {
        r == Action::Nothing && new == (Session {
            selected: if can_move {
                Some(back_target(hosts, old.selected) as usize)
            } else {
                old.selected
            },
            ..old
        })
    } else {
        r == Action::Nothing && new == old
    }
}

pub open spec fn form_ready(f: HostForm) -> bool {
    f.folder@.len() > 0 && f.host@.len() > 0 && f.hostname@.len() > 0 && f.user@.len() > 0
}

/// The form screens: Esc goes back to the list; Tab and BackTab move the
/// focus; Enter asks for confirmation once the form is complete; typing
/// and Backspace edit the field that has focus.
pub open spec fn form_step(old: Session, new: Session, key: Key) -> bool {
    let cur = old.form.current_field;
    match key {
        Key::Esc => new == (Session { state: AppState::List, editing_host_index: None, ..old }),
        Key::Tab => new == (Session {
            form: if cur < usize::MAX {
                HostForm { current_field: ((cur + 1) % 7) as usize, ..old.form }
            } else {
                old.form
            },
            ..old
        }),
        Key::BackTab => new == (Session {
            form: HostForm {
                current_field: if cur == 0 {
                    6
                } else {
                    (cur - 1) as usize
                },
                ..old.form
            },
            ..old
        }),
        Key::Enter => new == (Session {
            state: if form_ready(old.form) {
                if old.editing_host_index is Some {
                    AppState::ConfirmEdit
                } else {
                    AppState::Confirm
                }
            } else {
                old.state
            },
            ..old
        }),
        Key::Char(c) => new == (Session { form: new.form, ..old }) && field_edited(
            old.form,
            new.form,
            field_spec(old.form, cur).push(c),
        ),
        Key::Backspace => new == (Session { form: new.form, ..old }) && field_edited(
            old.form,
            new.form,
            without_last(field_spec(old.form, cur)),
        ),
        _ => new == old,
    }
}

/// Confirming a new host: Enter asks for it to be saved, Esc goes back to the form.
pub open spec fn confirm_step(old: Session, new: Session, key: Key, r: Action) -> bool {
    match key {
        Key::Esc => r == Action::Nothing && new == (Session { state: AppState::Form, ..old }),
        Key::Enter => r == Action::Save && new == (Session {
            state: AppState::List,
            editing_host_index: None,
            ..old
        }),
        _ => r == Action::Nothing && new == old,
    }
}

/// Confirming an edit: Enter asks for the edited entry to be replaced, Esc
/// goes back to the form.
pub open spec fn confirm_edit_step(old: Session, new: Session, key: Key, r: Action) -> bool {
    match key {
        Key::Esc => r == Action::Nothing && new == (Session { state: AppState::Edit, ..old }),
        Key::Enter => r == match old.editing_host_index {
            Some(i) => Action::Update(i),
            None => Action::Nothing,
        } && new == (Session { state: AppState::List, editing_host_index: None, ..old }),
        _ => r == Action::Nothing && new == old,
    }
}

/// The search screen: typing and Backspace edit the query and recompute
/// the results; the arrows move through them; Enter selects the best one;
/// Esc and Enter go back to the list with the query cleared.
pub open spec fn search_step(old: Session, new: Session, hosts: Seq<SshHost>, key: Key) -> bool {
    match key {
        Key::Esc => new == (Session {
            state: AppState::List,
            search_query: new.search_query,
            ..old
        }) && new.search_query@.len() == 0,
        Key::Enter => new == (Session {
            state: AppState::List,
            search_query: new.search_query,
            selected: if old.filtered_hosts@.len() > 0 {
                Some(old.filtered_hosts@[0])
            } else {
                old.selected
            },
            ..old
        }) && new.search_query@.len() == 0,
        Key::Char(c) => new == (Session {
            search_query: new.search_query,
            filtered_hosts: new.filtered_hosts,
            ..old
        }) && new.search_query@ == old.search_query@.push(c) && new.filtered_hosts@ == results_for(
            hosts,
            new.search_query@,
        ),
        Key::Backspace => new == (Session {
            search_query: new.search_query,
            filtered_hosts: new.filtered_hosts,
            ..old
        }) && new.search_query@ == without_last(old.search_query@) && new.filtered_hosts@
            == results_for(hosts, new.search_query@),
        Key::Down => new == (Session {
            selected: match next_result_spec(old.filtered_hosts@, old.selected) {
                Some(i) => Some(i),
                None => old.selected,
            },
            ..old
        }),
        Key::Up => new == (Session {
            selected: match prev_result_spec(old.filtered_hosts@, old.selected) {
                Some(i) => Some(i),
                None => old.selected,
            },
            ..old
        }),
        _ => new == old,
    }
}

} // verus!
