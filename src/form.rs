//! The add/edit form: seven text fields and the one that has focus.
use vstd::prelude::*;
use crate::ssh_config::{SshHost, HostView, opt_text, options_view, key_pos};
use crate::text::same_text;

verus! {

pub const FIELD_COUNT: usize = 7;

#[derive(Debug, Clone)]
pub struct HostForm {
    pub folder: String,
    pub host: String,
    pub hostname: String,
    pub user: String,
    pub port: String,
    pub identity_file: String,
    pub local_forward: String,
    pub current_field: usize,
}

/// The text of field `index`, empty past the last field.
pub open spec fn field_spec(f: HostForm, index: usize) -> Seq<char> {
    if index == 0 {
        f.folder@
    } else if index == 1 {
        f.host@
    } else if index == 2 {
        f.hostname@
    } else if index == 3 {
        f.user@
    } else if index == 4 {
        f.port@
    } else if index == 5 {
        f.identity_file@
    } else if index == 6 {
        f.local_forward@
    } else {
        seq![]
    }
}

impl Default for HostForm {
    fn default() -> (r: HostForm)
        ensures
            r.folder@.len() == 0 && r.host@.len() == 0 && r.hostname@.len() == 0
                && r.user@.len() == 0 && r.port@.len() == 0 && r.identity_file@.len() == 0
                && r.local_forward@.len() == 0,
            r.current_field == 0,
    {
        HostForm {
            folder: String::new(),
            host: String::new(),
            hostname: String::new(),
            user: String::new(),
            port: String::new(),
            identity_file: String::new(),
            local_forward: String::new(),
            current_field: 0,
        }
    }
}

impl HostForm {
    /// The labels of the fields, in order.
    pub fn field_names() -> (r: Vec<&'static str>)
        ensures
            r@.len() == 7,
            r@[0]@ == "Pasta"@,
            r@[1]@ == "Host"@,
            r@[2]@ == "Hostname"@,
            r@[3]@ == "User"@,
            r@[4]@ == "Port"@,
            r@[5]@ == "IdentityFile"@,
            r@[6]@ == "LocalForward"@,
    {
        let mut r: Vec<&'static str> = Vec::new();
        r.push("Pasta");
        r.push("Host");
        r.push("Hostname");
        r.push("User");
        r.push("Port");
        r.push("IdentityFile");
        r.push("LocalForward");
        r
    }

    pub fn get_field(&self, index: usize) -> (r: &str)
        ensures
            r@ == field_spec(*self, index),
    {
        match index {
            0 => self.folder.as_str(),
            1 => self.host.as_str(),
            2 => self.hostname.as_str(),
            3 => self.user.as_str(),
            4 => self.port.as_str(),
            5 => self.identity_file.as_str(),
            6 => self.local_forward.as_str(),
            _ => {
                proof {
                    reveal_strlit("");
                }
                ""
            },
        }
    }

    /// Replaces field `index` with `value`; an index past the last field changes nothing.
    pub fn set_field(&mut self, index: usize, value: String)
        ensures
            index == 0 ==> *final(self) == (HostForm { folder: value, ..*old(self) }),
            index == 1 ==> *final(self) == (HostForm { host: value, ..*old(self) }),
            index == 2 ==> *final(self) == (HostForm { hostname: value, ..*old(self) }),
            index == 3 ==> *final(self) == (HostForm { user: value, ..*old(self) }),
            index == 4 ==> *final(self) == (HostForm { port: value, ..*old(self) }),
            index == 5 ==> *final(self) == (HostForm { identity_file: value, ..*old(self) }),
            index == 6 ==> *final(self) == (HostForm { local_forward: value, ..*old(self) }),
            index >= 7 ==> *final(self) == *old(self),
    {
        match index {
            0 => self.folder = value,
            1 => self.host = value,
            2 => self.hostname = value,
            3 => self.user = value,
            4 => self.port = value,
            5 => self.identity_file = value,
            6 => self.local_forward = value,
            _ => {},
        }
    }

    /// Folder, alias, hostname and user are all filled in.
    pub fn is_valid(&self) -> (r: bool)
        ensures
            r == (self.folder@.len() > 0 && self.host@.len() > 0 && self.hostname@.len() > 0
                && self.user@.len() > 0),
    {
        !self.folder.as_str().is_empty() && !self.host.as_str().is_empty()
            && !self.hostname.as_str().is_empty() && !self.user.as_str().is_empty()
    }

    /// Moves the focus to the next field, from the last back to the first.
    pub fn next_field(&mut self)
        requires
            old(self).current_field < usize::MAX,
        ensures
            *final(self) == (HostForm {
                current_field: ((old(self).current_field + 1) % 7) as usize,
                ..*old(self)
            }),
    {
        self.current_field = (self.current_field + 1) % FIELD_COUNT;
    }

    /// Moves the focus to the previous field, from the first to the last.
    pub fn prev_field(&mut self)
        ensures
            *final(self) == (HostForm {
                current_field: if old(self).current_field == 0 {
                    6
                } else {
                    (old(self).current_field - 1) as usize
                },
                ..*old(self)
            }),
    {
        self.current_field = if self.current_field == 0 {
            FIELD_COUNT - 1
        } else {
            self.current_field - 1
        };
    }
}

pub open spec fn digit_char(d: nat) -> char {
    if d == 0 {
        '0'
    } else if d == 1 {
        '1'
    } else if d == 2 {
        '2'
    } else if d == 3 {
        '3'
    } else if d == 4 {
        '4'
    } else if d == 5 {
        '5'
    } else if d == 6 {
        '6'
    } else if d == 7 {
        '7'
    } else if d == 8 {
        '8'
    } else {
        '9'
    }
}

/// The decimal digits of `n`, without leading zeros.
pub open spec fn decimal(n: nat) -> Seq<char>
    decreases n,
{
    if n < 10 {
        seq![digit_char(n)]
    } else {
        decimal(n / 10).push(digit_char(n % 10))
    }
}

fn digit_of(d: u16) -> (r: char)
    requires
        d < 10,
    ensures
        r == digit_char(d as nat),
{
    match d {
        0 => '0',
        1 => '1',
        2 => '2',
        3 => '3',
        4 => '4',
        5 => '5',
        6 => '6',
        7 => '7',
        8 => '8',
        _ => '9',
    }
}

pub(crate) fn decimal_chars(n: u16) -> (r: Vec<char>)
    ensures
        r@ == decimal(n as nat),
    decreases n,
{
    if n < 10 {
        let mut v: Vec<char> = Vec::new();
        v.push(digit_of(n));
        assert(v@ =~= seq![digit_char(n as nat)]);
        v
    } else {
        let mut v = decimal_chars(n / 10);
        v.push(digit_of(n % 10));
        v
    }
}

/// The text of an optional field, empty when unset.
pub open spec fn text_or_empty(o: Option<Seq<char>>) -> Seq<char> {
    match o {
        Some(s) => s,
        None => seq![],
    }
}

/// The value of option `k`, empty when unset.
pub open spec fn option_or_empty(opts: Seq<(Seq<char>, Seq<char>)>, k: Seq<char>) -> Seq<char> {
    let j = key_pos(opts, k, 0);
    if 0 <= j < opts.len() {
        opts[j].1
    } else {
        seq![]
    }
}

fn text_of(o: &Option<String>) -> (r: String)
    ensures
        r@ == text_or_empty(opt_text(*o)),
{
    match o {
        Some(s) => s.clone(),
        None => String::new(),
    }
}

fn option_value(opts: &Vec<(String, String)>, k: &str) -> (r: String)
    ensures
        r@ == option_or_empty(options_view(opts@), k@),
{
    let ghost ov = options_view(opts@);
    let mut j: usize = 0;
    while j < opts.len()
        invariant
            j <= opts@.len(),
            ov == options_view(opts@),
            key_pos(ov, k@, 0) == key_pos(ov, k@, j as int),
        decreases opts@.len() - j,
    {
        if same_text(opts[j].0.as_str(), k) {
            return opts[j].1.clone();
        }
        j = j + 1;
    }
    String::new()
}

/// The form for editing entry `h`: its folder (`main` for an entry of the
/// root file) and its fields, each empty where unset; the local forward
/// comes from the `localforward` option.
pub open spec fn form_spec_for(h: HostView, f: HostForm) -> bool {
    &&& f.folder@ == match h.source_dir {
        Some(d) => d,
        None => "main"@,
    }
    &&& f.host@ == h.name
    &&& f.hostname@ == text_or_empty(h.hostname)
    &&& f.user@ == text_or_empty(h.user)
    &&& f.port@ == match h.port {
        Some(p) => decimal(p as nat),
        None => seq![],
    }
    &&& f.identity_file@ == text_or_empty(h.identity_file)
    &&& f.local_forward@ == option_or_empty(h.options, "localforward"@)
    &&& f.current_field == 0
}

impl HostForm {
    /// The form that edits entry `h`.
    pub fn for_host(h: &SshHost) -> (r: HostForm)
        ensures
            form_spec_for(h@, r),
    {
        let folder = match &h.source_dir {
            Some(d) => d.clone(),
            None => String::from_str("main"),
        };
        let port = match h.port {
            Some(p) => {
                let v = decimal_chars(p);
                crate::text::string_from(v.as_slice())
            },
            None => String::new(),
        };
        HostForm {
            folder,
            host: h.name.clone(),
            hostname: text_of(&h.hostname),
            user: text_of(&h.user),
            port,
            identity_file: text_of(&h.identity_file),
            local_forward: option_value(&h.other_options, "localforward"),
            current_field: 0,
        }
    }
}

} // verus!
