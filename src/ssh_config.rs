//! The host model and the line grammar of an SSH client configuration file.
use vstd::prelude::*;
use crate::text::{
    trim, lines_of, lines_from, is_ws, is_whitespace, chars_of, string_of_range, same_text,
    trim_range, next_line,
};
use crate::paths::{resolve_spec, home_view, resolve_include_path, dir_label_spec, dir_label};

verus! {

/// One entry of the host list: an alias with its settings, or a marker that
/// opens the entries of one included file.
#[derive(Debug, Clone)]
pub struct SshHost {
    pub name: String,
    pub hostname: Option<String>,
    pub user: Option<String>,
    pub port: Option<u16>,
    pub identity_file: Option<String>,
    /// Other directives by lower-cased keyword, each key once.
    pub other_options: Vec<(String, String)>,
    pub is_separator: bool,
    /// Name of the directory of the file that defines the entry; `None` for the root file.
    pub source_dir: Option<String>,
}

/// The model of an entry, over character sequences.
pub struct HostView {
    pub name: Seq<char>,
    pub hostname: Option<Seq<char>>,
    pub user: Option<Seq<char>>,
    pub port: Option<u16>,
    pub identity_file: Option<Seq<char>>,
    pub options: Seq<(Seq<char>, Seq<char>)>,
    pub is_separator: bool,
    pub source_dir: Option<Seq<char>>,
}

pub open spec fn opt_text(o: Option<String>) -> Option<Seq<char>> {
    match o {
        Some(s) => Some(s@),
        None => None,
    }
}

pub open spec fn options_view(v: Seq<(String, String)>) -> Seq<(Seq<char>, Seq<char>)> {
    v.map_values(|kv: (String, String)| (kv.0@, kv.1@))
}

impl View for SshHost {
    type V = HostView;

    open spec fn view(&self) -> HostView {
        HostView {
            name: self.name@,
            hostname: opt_text(self.hostname),
            user: opt_text(self.user),
            port: self.port,
            identity_file: opt_text(self.identity_file),
            options: options_view(self.other_options@),
            is_separator: self.is_separator,
            source_dir: opt_text(self.source_dir),
        }
    }
}

/// What one line of a file contributes, before included files are read.
#[derive(Debug, Clone)]
pub enum Directive {
    Host(SshHost),
    /// An `Include`, with the path it resolves to.
    Include(String),
}

pub enum DirectiveView {
    Host(HostView),
    Include(Seq<char>),
}

impl View for Directive {
    type V = DirectiveView;

    open spec fn view(&self) -> DirectiveView {
        match self {
            Directive::Host(h) => DirectiveView::Host(h@),
            Directive::Include(p) => DirectiveView::Include(p@),
        }
    }
}

pub open spec fn directives_view(v: Seq<Directive>) -> Seq<DirectiveView> {
    v.map_values(|d: Directive| d@)
}

pub open spec fn hosts_view(v: Seq<SshHost>) -> Seq<HostView> {
    v.map_values(|h: SshHost| h@)
}

/// Why a file could not be parsed.
#[derive(Debug, Clone, Copy, PartialEq, Eq)]
pub enum ConfigError {
    /// An `Include` under `~/` while no home directory is known.
    NoHomeDirectory,
}

/// Names what `str::to_lowercase` returns; it depends on the characters alone.
pub uninterp spec fn lower_of(s: Seq<char>) -> Seq<char>;

/// Relies on `str::to_lowercase`, which keywords are matched through.
#[verifier::external_body]
fn lowercase(s: &str) -> (r: String)
    ensures
        r@ == lower_of(s@),
{
    s.to_lowercase()
}

pub open spec fn is_digit(c: char) -> bool {
    '0' <= c && c <= '9'
}

pub open spec fn digits_value(d: Seq<char>) -> nat
    decreases d.len(),
{
    if d.len() == 0 {
        0
    } else {
        digits_value(d.drop_last()) * 10 + ((d.last() as nat) - ('0' as nat)) as nat
    }
}

/// What `u16::from_str` accepts: an optional `+`, then one or more ASCII
/// digits whose value fits in 16 bits.
pub open spec fn port_of(s: Seq<char>) -> Option<u16> {
    port_of_digits(sign_dropped(s))
}

pub open spec fn sign_dropped(s: Seq<char>) -> Seq<char> {
    if s.len() > 0 && s[0] == '+' {
        s.drop_first()
    } else {
        s
    }
}

pub open spec fn port_of_digits(d: Seq<char>) -> Option<u16> {
    if d.len() > 0 && (forall|i: int| 0 <= i < d.len() ==> is_digit(#[trigger] d[i]))
        && digits_value(d) <= 65535 {
        Some(digits_value(d) as u16)
    } else {
        None
    }
}

proof fn lemma_digits_grow(d: Seq<char>, k: int)
    requires
        0 <= k <= d.len(),
        forall|i: int| 0 <= i < d.len() ==> is_digit(#[trigger] d[i]),
    ensures
        digits_value(d.subrange(0, k)) <= digits_value(d),
    decreases d.len() - k,
{
    if k < d.len() {
        let a = d.subrange(0, k);
        let b = d.subrange(0, k + 1);
        assert(b.drop_last() =~= a);
        assert(is_digit(b.last()));
        lemma_digits_grow(d, k + 1);
    } else {
        assert(d.subrange(0, k) =~= d);
    }
}

/// The port that the text `v[lo..hi]` gives.
pub fn parse_port(v: &Vec<char>, lo: usize, hi: usize) -> (r: Option<u16>)
    requires
        lo <= hi <= v@.len(),
    ensures
        r == port_of(v@.subrange(lo as int, hi as int)),
{
    let ghost s = v@.subrange(lo as int, hi as int);
    let mut start = lo;
    if lo < hi && v[lo] == '+' {
        start = lo + 1;
    }
    let ghost d = v@.subrange(start as int, hi as int);
    assert(d =~= sign_dropped(s));
    if start == hi {
        return None;
    }
    let mut acc: u32 = 0;
    let mut i = start;
    while i < hi
        invariant
            start <= i <= hi <= v@.len(),
            d == v@.subrange(start as int, hi as int),
            s == v@.subrange(lo as int, hi as int),
            d == sign_dropped(s),
            acc <= 65535,
            acc == digits_value(d.subrange(0, i - start)),
            forall|k: int| 0 <= k < i - start ==> is_digit(#[trigger] d[k]),
        decreases hi - i,
    {
        let c = v[i];
        if !('0' <= c && c <= '9') {
            assert(d[i - start] == v@[i as int]);
            assert(!is_digit(d[i - start]));
            assert(port_of(s) == port_of_digits(d));
            assert(port_of_digits(d) is None);
            return None;
        }
        let ghost pre = d.subrange(0, i - start);
        let ghost next = d.subrange(0, i + 1 - start);
        assert(next.drop_last() =~= pre);
        assert(next.last() == c);
        assert(d[i - start] == c);
        let nacc = acc * 10 + (c as u32 - '0' as u32);
        assert(nacc == digits_value(next));
        i = i + 1;
        if nacc > 65535 {
            proof {
                assert(digits_value(d.subrange(0, i - start)) > 65535);
                if forall|k: int| 0 <= k < d.len() ==> is_digit(#[trigger] d[k]) {
                    lemma_digits_grow(d, i - start);
                    assert(digits_value(d) > 65535);
                }
                assert(port_of(s) == port_of_digits(d));
                assert(port_of_digits(d) is None);
            }
            return None;
        }
        acc = nacc;
    }
    assert(d.subrange(0, i - start) =~= d);
    Some(acc as u16)
}

/// Index of the first whitespace character of `t` at or after `i`, or its length.
pub open spec fn first_ws(t: Seq<char>, i: int) -> int
    decreases t.len() - i,
{
    if i < 0 || i >= t.len() {
        t.len() as int
    } else if is_ws(t[i]) {
        i
    } else {
        first_ws(t, i + 1)
    }
}

/// Keyword and value of a line; `None` for a blank line, a comment, or a
/// keyword with nothing after it.
pub open spec fn directive_of(line: Seq<char>) -> Option<(Seq<char>, Seq<char>)> {
    let t = trim(line);
    if t.len() == 0 || t[0] == '#' {
        None
    } else {
        let k = first_ws(t, 0);
        if 0 <= k < t.len() {
            Some((t.subrange(0, k), trim(t.subrange(k, t.len() as int))))
        } else {
            None
        }
    }
}

/// Index of the first option with key `k` at or after `i`, or the length.
pub open spec fn key_pos(opts: Seq<(Seq<char>, Seq<char>)>, k: Seq<char>, i: int) -> int
    decreases opts.len() - i,
{
    if i < 0 || i >= opts.len() {
        opts.len() as int
    } else if opts[i].0 == k {
        i
    } else {
        key_pos(opts, k, i + 1)
    }
}

/// The options with `k` set to `v`: the entry of `k` is replaced, or a new one added.
pub open spec fn set_option(opts: Seq<(Seq<char>, Seq<char>)>, k: Seq<char>, v: Seq<char>) -> Seq<
    (Seq<char>, Seq<char>),
> {
    let j = key_pos(opts, k, 0);
    if 0 <= j < opts.len() {
        opts.update(j, (k, v))
    } else {
        opts.push((k, v))
    }
}

pub open spec fn fresh_host(name: Seq<char>, label: Option<Seq<char>>) -> HostView {
    HostView {
        name,
        hostname: None,
        user: None,
        port: None,
        identity_file: None,
        options: seq![],
        is_separator: false,
        source_dir: label,
    }
}

/// The host after a directive with lower-cased keyword `kw` and value `value`.
pub open spec fn with_setting(h: HostView, kw: Seq<char>, value: Seq<char>) -> HostView {
    if kw == "hostname"@ {
        HostView { hostname: Some(value), ..h }
    } else if kw == "user"@ {
        HostView { user: Some(value), ..h }
    } else if kw == "port"@ {
        HostView { port: port_of(value), ..h }
    } else if kw == "identityfile"@ {
        HostView { identity_file: Some(value), ..h }
    } else {
        HostView { options: set_option(h.options, kw, value), ..h }
    }
}

/// Where the parser stands after some lines: what it has emitted, the host
/// it is filling, and whether it has given up.
pub struct ParseState {
    pub out: Seq<DirectiveView>,
    pub cur: Option<HostView>,
    pub failed: bool,
}

/// What has been emitted once the open host, if any, is closed.
pub open spec fn flush(st: ParseState) -> Seq<DirectiveView> {
    match st.cur {
        Some(h) => st.out.push(DirectiveView::Host(h)),
        None => st.out,
    }
}

/// The effect of one line.
pub open spec fn step(
    st: ParseState,
    line: Seq<char>,
    base: Seq<char>,
    label: Option<Seq<char>>,
    home: Option<Seq<char>>,
) -> ParseState {
    if st.failed {
        st
    } else {
        match directive_of(line) {
            None => st,
            Some(kv) => {
                let kw = lower_of(kv.0);
                let value = kv.1;
                if kw == "include"@ {
                    match resolve_spec(value, base, home) {
                        Some(p) => ParseState {
                            out: flush(st).push(DirectiveView::Include(p)),
                            cur: None,
                            failed: false,
                        },
                        None => ParseState { out: flush(st), cur: None, failed: true },
                    }
                } else if kw == "host"@ {
                    ParseState { out: flush(st), cur: Some(fresh_host(value, label)), failed: false }
                } else {
                    match st.cur {
                        Some(h) => ParseState {
                            out: st.out,
                            cur: Some(with_setting(h, kw, value)),
                            failed: false,
                        },
                        None => st,
                    }
                }
            },
        }
    }
}

/// The state after the lines `ls`, top to bottom.
pub open spec fn run(
    ls: Seq<Seq<char>>,
    base: Seq<char>,
    label: Option<Seq<char>>,
    home: Option<Seq<char>>,
) -> ParseState
    decreases ls.len(),
{
    if ls.len() == 0 {
        ParseState { out: seq![], cur: None, failed: false }
    } else {
        step(run(ls.drop_last(), base, label, home), ls.last(), base, label, home)
    }
}

/// The directives of a file's text, or `None` where an `Include` cannot be resolved.
pub open spec fn parse_spec(
    content: Seq<char>,
    base: Seq<char>,
    label: Option<Seq<char>>,
    home: Option<Seq<char>>,
) -> Option<Seq<DirectiveView>> {
    let st = run(lines_of(content), base, label, home);
    if st.failed {
        None
    } else {
        Some(flush(st))
    }
}

proof fn lemma_failure_stays(
    ls: Seq<Seq<char>>,
    k: int,
    base: Seq<char>,
    label: Option<Seq<char>>,
    home: Option<Seq<char>>,
)
    requires
        0 <= k <= ls.len(),
        run(ls.subrange(0, k), base, label, home).failed,
    ensures
        run(ls, base, label, home).failed,
    decreases ls.len(),
{
    if k == ls.len() {
        assert(ls.subrange(0, k) =~= ls);
    } else {
        assert(ls.drop_last().subrange(0, k) =~= ls.subrange(0, k));
        lemma_failure_stays(ls.drop_last(), k, base, label, home);
    }
}

pub open spec fn opt_host(o: Option<SshHost>) -> Option<HostView> {
    match o {
        Some(h) => Some(h@),
        None => None,
    }
}

fn set_option_in(opts: &mut Vec<(String, String)>, k: String, v: String)
    ensures
        options_view(final(opts)@) == set_option(options_view(old(opts)@), k@, v@),
{
    let ghost ov = options_view(opts@);
    let mut j: usize = 0;
    while j < opts.len()
        invariant
            j <= opts@.len(),
            opts@ == old(opts)@,
            ov == options_view(opts@),
            key_pos(ov, k@, 0) == key_pos(ov, k@, j as int),
        decreases opts@.len() - j,
    {
        if same_text(opts[j].0.as_str(), k.as_str()) {
            let ghost before = opts@;
            opts.remove(j);
            opts.insert(j, (k, v));
            assert(options_view(opts@) =~= ov.update(j as int, (k@, v@)));
            return;
        }
        j = j + 1;
    }
    opts.push((k, v));
    assert(options_view(opts@) =~= ov.push((k@, v@)));
}

fn apply_setting(h: SshHost, kw: &String, value: String, port: Option<u16>) -> (r: SshHost)
    requires
        port == port_of(value@),
    ensures
        r@ == with_setting(h@, kw@, value@),
{
    let mut h = h;
    if same_text(kw.as_str(), "hostname") {
        h.hostname = Some(value);
    } else if same_text(kw.as_str(), "user") {
        h.user = Some(value);
    } else if same_text(kw.as_str(), "port") {
        h.port = port;
    } else if same_text(kw.as_str(), "identityfile") {
        h.identity_file = Some(value);
    } else {
        set_option_in(&mut h.other_options, kw.clone(), value);
    }
    h
}

fn close_host(out: &mut Vec<Directive>, cur: Option<SshHost>)
    ensures
        directives_view(final(out)@) == flush(
            ParseState { out: directives_view(old(out)@), cur: opt_host(cur), failed: false },
        ),
{
    match cur {
        Some(h) => {
            out.push(Directive::Host(h));
            assert(directives_view(out@) =~= directives_view(old(out)@).push(
                DirectiveView::Host(h@),
            ));
        },
        None => {},
    }
}

/// Index of the first whitespace in `v[a..b]`, or `b`.
fn find_ws(v: &Vec<char>, a: usize, b: usize) -> (r: usize)
    requires
        a <= b <= v@.len(),
    ensures
        a <= r <= b,
        r - a == first_ws(v@.subrange(a as int, b as int), 0),
{
    let ghost t = v@.subrange(a as int, b as int);
    let mut k = a;
    while k < b && !is_whitespace(v[k])
        invariant
            a <= k <= b <= v@.len(),
            t == v@.subrange(a as int, b as int),
            first_ws(t, 0) == first_ws(t, k - a),
        decreases b - k,
    {
        assert(t[k - a] == v@[k as int]);
        k = k + 1;
    }
    proof {
        if k < b {
            assert(t[k - a] == v@[k as int]);
        }
    }
    k
}

/// Applies the line `v[lo..e]` to the emitted directives and the open host;
/// returns the new open host, and `false` where an `Include` could not be resolved.
fn apply_line(
    out: &mut Vec<Directive>,
    cur: Option<SshHost>,
    v: &Vec<char>,
    lo: usize,
    e: usize,
    base_dir: &str,
    source_dir: &Option<String>,
    home: Option<&str>,
) -> (r: (Option<SshHost>, bool))
    requires
        lo <= e <= v@.len(),
    ensures
        ({
            let st = step(
                ParseState { out: directives_view(old(out)@), cur: opt_host(cur), failed: false },
                v@.subrange(lo as int, e as int),
                base_dir@,
                opt_text(*source_dir),
                home_view(home),
            );
            &&& r.1 == !st.failed
            &&& r.1 ==> directives_view(final(out)@) == st.out && opt_host(r.0) == st.cur
        }),
{
    let ghost line = v@.subrange(lo as int, e as int);
    let (a, b) = trim_range(v, lo, e);
    let ghost t = v@.subrange(a as int, b as int);
    if a == b || v[a] == '#' {
        return (cur, true);
    }
    assert(t[0] == v@[a as int]);
    let k = find_ws(v, a, b);
    if k == b {
        return (cur, true);
    }
    let (va, vb) = trim_range(v, k, b);
    assert(t.subrange(0, k - a) =~= v@.subrange(a as int, k as int));
    assert(t.subrange(k - a, t.len() as int) =~= v@.subrange(k as int, b as int));
    let key = string_of_range(v, a, k);
    let value = string_of_range(v, va, vb);
    assert(directive_of(line) == Some((key@, value@)));
    let kw = lowercase(key.as_str());
    if same_text(kw.as_str(), "include") {
        close_host(out, cur);
        match resolve_include_path(value.as_str(), base_dir, home) {
            Some(p) => {
                let ghost before = directives_view(out@);
                out.push(Directive::Include(p));
                assert(directives_view(out@) =~= before.push(DirectiveView::Include(p@)));
                (None, true)
            },
            None => (None, false),
        }
    } else if same_text(kw.as_str(), "host") {
        close_host(out, cur);
        let h = SshHost {
            name: value,
            hostname: None,
            user: None,
            port: None,
            identity_file: None,
            other_options: Vec::new(),
            is_separator: false,
            source_dir: source_dir.clone(),
        };
        assert(options_view(h.other_options@) =~= Seq::<(Seq<char>, Seq<char>)>::empty());
        (Some(h), true)
    } else {
        match cur {
            Some(h) => {
                let port = parse_port(v, va, vb);
                (Some(apply_setting(h, &kw, value, port)), true)
            },
            None => (None, true),
        }
    }
}

/// The host list of a whole configuration: the root file and what it includes.
pub struct SshConfig {
    pub hosts: Vec<SshHost>,
}

impl SshConfig {
    /// The directives of one file's text. `base_dir` is the directory of
    /// the file, `source_dir` the label stamped on its hosts, `home` the
    /// home directory for `~/` includes.
    pub fn parse(content: &str, base_dir: &str, source_dir: Option<String>, home: Option<&str>) -> (r:
        Result<Vec<Directive>, ConfigError>)
        ensures
            match r {
                Ok(ds) => parse_spec(content@, base_dir@, opt_text(source_dir), home_view(home))
                    == Some(directives_view(ds@)),
                Err(e) => parse_spec(content@, base_dir@, opt_text(source_dir), home_view(home))
                    is None && e == ConfigError::NoHomeDirectory,
            },
    {
        let ghost base = base_dir@;
        let ghost label = opt_text(source_dir);
        let ghost hv = home_view(home);
        let v = chars_of(content);
        let mut out: Vec<Directive> = Vec::new();
        let mut cur: Option<SshHost> = None;
        let mut i: usize = 0;
        let ghost mut done: Seq<Seq<char>> = seq![];
        assert(directives_view(out@) =~= Seq::<DirectiveView>::empty());
        while i < v.len()
            invariant
                v@ == content@,
                i <= v@.len(),
                lines_of(v@) == done + lines_from(v@, i as int),
                !run(done, base, label, hv).failed,
                directives_view(out@) == run(done, base, label, hv).out,
                opt_host(cur) == run(done, base, label, hv).cur,
                base == base_dir@,
                label == opt_text(source_dir),
                hv == home_view(home),
            decreases v@.len() - i,
        {
            let (lo, e, nx) = next_line(&v, i);
            let ghost line = v@.subrange(lo as int, e as int);
            let ghost next_done = done.push(line);
            assert(next_done.drop_last() =~= done);
            assert(done + lines_from(v@, i as int) =~= next_done + lines_from(v@, nx as int));
            let (c, ok) = apply_line(&mut out, cur, &v, lo, e, base_dir, &source_dir, home);
            if !ok {
                proof {
                    let all = lines_of(v@);
                    assert(all.subrange(0, next_done.len() as int) =~= next_done);
                    lemma_failure_stays(all, next_done.len() as int, base, label, hv);
                }
                return Err(ConfigError::NoHomeDirectory);
            }
            cur = c;
            i = nx;
            proof {
                done = next_done;
            }
        }
        assert(lines_from(v@, i as int) =~= Seq::<Seq<char>>::empty());
        assert(done + Seq::<Seq<char>>::empty() =~= done);
        close_host(&mut out, cur);
        Ok(out)
    }
}

/// The marker entry that opens the hosts of a file in directory `dir`.
pub open spec fn separator_spec(dir: Seq<char>) -> HostView {
    HostView {
        name: "── "@ + dir + " ──"@,
        hostname: None,
        user: None,
        port: None,
        identity_file: None,
        options: seq![],
        is_separator: true,
        source_dir: Some(dir),
    }
}

/// The entries one directive stands for, given what its included file
/// yielded (`None`: the file does not exist).
pub open spec fn piece(d: DirectiveView, inc: Option<Seq<HostView>>) -> Seq<HostView> {
    match d {
        DirectiveView::Host(h) => seq![h],
        DirectiveView::Include(p) => match inc {
            Some(hs) => seq![separator_spec(dir_label_spec(p))] + hs,
            None => seq![],
        },
    }
}

pub open spec fn inc_at(incs: Seq<Option<Seq<HostView>>>, i: int) -> Option<Seq<HostView>> {
    if 0 <= i < incs.len() {
        incs[i]
    } else {
        None
    }
}

/// The entries of directives `ds`, each include spliced in from `incs` at the same index.
pub open spec fn assembled(ds: Seq<DirectiveView>, incs: Seq<Option<Seq<HostView>>>) -> Seq<
    HostView,
>
    decreases ds.len(),
{
    if ds.len() == 0 {
        seq![]
    } else {
        assembled(ds.drop_last(), incs) + piece(ds.last(), inc_at(incs, ds.len() - 1))
    }
}

pub open spec fn included_view(v: Seq<Option<Vec<SshHost>>>) -> Seq<Option<Seq<HostView>>> {
    v.map_values(
        |o: Option<Vec<SshHost>>|
            match o {
                Some(hs) => Some(hosts_view(hs@)),
                None => None,
            },
    )
}

/// Index of the first entry at or after `i` that is not a separator, or the length.
pub open spec fn first_host_from(hs: Seq<HostView>, i: int) -> int
    decreases hs.len() - i,
{
    if i < 0 || i >= hs.len() {
        hs.len() as int
    } else if !hs[i].is_separator {
        i
    } else {
        first_host_from(hs, i + 1)
    }
}

fn copy_text(o: &Option<String>) -> (r: Option<String>)
    ensures
        opt_text(r) == opt_text(*o),
{
    match o {
        Some(s) => Some(s.clone()),
        None => None,
    }
}

/// A copy of `h`, field by field.
pub fn copy_host(h: &SshHost) -> (r: SshHost)
    ensures
        r@ == h@,
{
    let mut opts: Vec<(String, String)> = Vec::new();
    let mut i: usize = 0;
    while i < h.other_options.len()
        invariant
            i <= h.other_options@.len(),
            options_view(opts@) == options_view(h.other_options@).subrange(0, i as int),
        decreases h.other_options@.len() - i,
    {
        let kv = (h.other_options[i].0.clone(), h.other_options[i].1.clone());
        let ghost before = opts@;
        assert(options_view(h.other_options@)[i as int] == (kv.0@, kv.1@));
        opts.push(kv);
        assert(options_view(opts@) =~= options_view(before).push((kv.0@, kv.1@)));
        assert(options_view(opts@) =~= options_view(h.other_options@).subrange(0, i + 1));
        i = i + 1;
    }
    assert(options_view(h.other_options@).subrange(0, i as int) =~= options_view(
        h.other_options@,
    ));
    SshHost {
        name: h.name.clone(),
        hostname: copy_text(&h.hostname),
        user: copy_text(&h.user),
        port: h.port,
        identity_file: copy_text(&h.identity_file),
        other_options: opts,
        is_separator: h.is_separator,
        source_dir: copy_text(&h.source_dir),
    }
}

impl SshHost {
    /// The marker entry for the hosts of the file at `include_path`.
    pub fn separator(include_path: &str) -> (r: SshHost)
        ensures
            r@ == separator_spec(dir_label_spec(include_path@)),
    {
        let dir = dir_label(include_path);
        let mut name = String::new();
        name.append("── ");
        name.append(dir.as_str());
        name.append(" ──");
        let r = SshHost {
            name,
            hostname: None,
            user: None,
            port: None,
            identity_file: None,
            other_options: Vec::new(),
            is_separator: true,
            source_dir: Some(dir),
        };
        assert(options_view(r.other_options@) =~= Seq::<(Seq<char>, Seq<char>)>::empty());
        assert(r.name@ =~= "── "@ + dir@ + " ──"@);
        r
    }
}

impl SshConfig {
    /// The host list of a file from its directives: each host in order, and
    /// for each include whose file exists (`included[i]` is `Some`) a
    /// separator followed by that file's hosts. A missing file adds nothing.
    pub fn assemble(directives: &Vec<Directive>, included: &Vec<Option<Vec<SshHost>>>) -> (r:
        SshConfig)
        ensures
            hosts_view(r.hosts@) == assembled(
                directives_view(directives@),
                included_view(included@),
            ),
    {
        let ghost ds = directives_view(directives@);
        let ghost incs = included_view(included@);
        let mut hosts: Vec<SshHost> = Vec::new();
        let mut i: usize = 0;
        assert(hosts_view(hosts@) =~= Seq::<HostView>::empty());
        while i < directives.len()
            invariant
                i <= directives@.len(),
                ds == directives_view(directives@),
                incs == included_view(included@),
                hosts_view(hosts@) == assembled(ds.subrange(0, i as int), incs),
            decreases directives@.len() - i,
        {
            let ghost before = hosts_view(hosts@);
            let ghost pre = ds.subrange(0, i as int);
            let ghost next = ds.subrange(0, i + 1);
            assert(next.drop_last() =~= pre);
            match &directives[i] {
                Directive::Host(h) => {
                    hosts.push(copy_host(h));
                    assert(hosts_view(hosts@) =~= before + seq![h@]);
                },
                Directive::Include(p) => {
                    if i < included.len() {
                        match &included[i] {
                            Some(sub) => {
                                hosts.push(SshHost::separator(p.as_str()));
                                let ghost mid = hosts_view(hosts@);
                                let mut j: usize = 0;
                                while j < sub.len()
                                    invariant
                                        j <= sub@.len(),
                                        hosts_view(hosts@) == mid + hosts_view(sub@).subrange(
                                            0,
                                            j as int,
                                        ),
                                    decreases sub@.len() - j,
                                {
                                    let c = copy_host(&sub[j]);
                                    let ghost hb = hosts@;
                                    assert(hosts_view(sub@)[j as int] == c@);
                                    hosts.push(c);
                                    assert(hosts_view(hosts@) =~= hosts_view(hb).push(c@));
                                    assert(hosts_view(hosts@) =~= mid + hosts_view(sub@).subrange(
                                        0,
                                        j + 1,
                                    ));
                                    j = j + 1;
                                }
                                assert(hosts_view(sub@).subrange(0, j as int) =~= hosts_view(
                                    sub@,
                                ));
                                assert(hosts_view(hosts@) =~= before + (seq![
                                    separator_spec(dir_label_spec(p@)),
                                ] + hosts_view(sub@)));
                            },
                            None => {
                                assert(hosts_view(hosts@) =~= before + Seq::<HostView>::empty());
                            },
                        }
                    } else {
                        assert(hosts_view(hosts@) =~= before + Seq::<HostView>::empty());
                    }
                },
            }
            i = i + 1;
        }
        assert(ds.subrange(0, i as int) =~= ds);
        SshConfig { hosts }
    }

    /// Index of the first entry that is not a separator; 0 where there is none.
    pub fn first_host_index(&self) -> (r: usize)
        ensures
            ({
                let f = first_host_from(hosts_view(self.hosts@), 0);
                r == if f < self.hosts@.len() {
                    f
                } else {
                    0
                }
            }),
    {
        let ghost hv = hosts_view(self.hosts@);
        let mut i: usize = 0;
        while i < self.hosts.len() && self.hosts[i].is_separator
            invariant
                i <= self.hosts@.len(),
                hv == hosts_view(self.hosts@),
                first_host_from(hv, 0) == first_host_from(hv, i as int),
            decreases self.hosts@.len() - i,
        {
            assert(hv[i as int].is_separator);
            i = i + 1;
        }
        if i < self.hosts.len() {
            assert(!hv[i as int].is_separator);
            i
        } else {
            0
        }
    }
}

/// An `Include` whose file does not exist contributes no entry, and the
/// directives around it contribute what they would without it.
pub proof fn lemma_missing_include_adds_nothing(
    ds: Seq<DirectiveView>,
    incs: Seq<Option<Seq<HostView>>>,
    i: int,
)
    requires
        0 <= i < ds.len(),
        incs.len() == ds.len(),
        ds[i] is Include,
        incs[i] is None,
    ensures
        assembled(ds, incs) == assembled(ds.remove(i), incs.remove(i)),
    decreases ds.len(),
{
    if i == ds.len() - 1 {
        assert(ds.remove(i) =~= ds.drop_last());
        lemma_assembled_ignores_extra(ds.drop_last(), incs, incs.remove(i));
        assert(assembled(ds, incs) =~= assembled(ds.drop_last(), incs) + Seq::<HostView>::empty());
    } else {
        let n = ds.len();
        assert(ds.remove(i).drop_last() =~= ds.drop_last().remove(i));
        assert(ds.remove(i).last() == ds.last());
        lemma_missing_include_adds_nothing(ds.drop_last(), incs.drop_last(), i);
        lemma_assembled_ignores_extra(ds.drop_last(), incs.drop_last(), incs);
        assert(incs.drop_last().remove(i) =~= incs.remove(i).drop_last());
        lemma_assembled_ignores_extra(ds.remove(i).drop_last(), incs.remove(i).drop_last(), incs.remove(i));
        assert(inc_at(incs.remove(i), n - 2) == inc_at(incs, n - 1));
    }
}

proof fn lemma_assembled_ignores_extra(
    ds: Seq<DirectiveView>,
    a: Seq<Option<Seq<HostView>>>,
    b: Seq<Option<Seq<HostView>>>,
)
    requires
        ds.len() <= a.len(),
        ds.len() <= b.len(),
        forall|k: int| 0 <= k < ds.len() ==> a[k] == b[k],
    ensures
        assembled(ds, a) == assembled(ds, b),
    decreases ds.len(),
{
    if ds.len() > 0 {
        lemma_assembled_ignores_extra(ds.drop_last(), a, b);
    }
}

} // verus!
