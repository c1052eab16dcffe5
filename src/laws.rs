//! Properties that relate several of the library's operations.
use vstd::prelude::*;
use crate::text::{
    is_ws, trim, trim_start, trim_end, starts_with, contains, lines_of, lines_from,
    newline_at_or_after, join_lines, strip_cr,
};
use crate::form::HostForm;
use crate::paths::join_spec;
use crate::mutation::{
    registered_spec, include_line_spec, appended_spec, block_spec, removed_spec, kept,
    optional_line,
};

verus! {

/// Registering a file's `Include` line a second time leaves the root file
/// as the first registration left it.
pub proof fn lemma_register_idempotent(root: Option<Seq<char>>, line: Seq<char>)
    ensures
        match registered_spec(root, line) {
            Some(c) => registered_spec(Some(c), line) is None,
            None => registered_spec(root, line) is None,
        },
{
    if let Some(c) = registered_spec(root, line) {
        assert(c.subrange(0, 0 + line.len() as int) =~= line);
    }
}

/// Adding the first host of a folder: the folder's new file holds exactly
/// the host's block, and the root file afterwards begins with the line
/// `Include <workdir/folder/config>` (created, or put in front, unless the
/// root file already held it).
pub proof fn lemma_first_host_of_folder(
    workdir: Seq<char>,
    folder: Seq<char>,
    f: HostForm,
    root: Option<Seq<char>>,
)
    requires
        root is None || !contains(root->0, include_line_spec(
            join_spec(join_spec(workdir, folder), "config"@),
        )),
    ensures
        appended_spec(seq![], block_spec(f)) == block_spec(f),
        ({
            let line = include_line_spec(join_spec(join_spec(workdir, folder), "config"@));
            registered_spec(root, line) is Some && starts_with(
                registered_spec(root, line)->0,
                line,
            )
        }),
{
    let line = include_line_spec(join_spec(join_spec(workdir, folder), "config"@));
    let c = registered_spec(root, line)->0;
    assert(c.subrange(0, line.len() as int) =~= line);
}

proof fn lemma_newline_shift(p: Seq<char>, rest: Seq<char>, k: int)
    requires
        0 <= k <= rest.len(),
    ensures
        newline_at_or_after(p + rest, p.len() + k) == p.len() + newline_at_or_after(rest, k),
    decreases rest.len() - k,
{
    let s = p + rest;
    if k < rest.len() {
        assert(s[p.len() + k] == rest[k]);
        if rest[k] != '\n' {
            lemma_newline_shift(p, rest, k + 1);
        }
    }
}

proof fn lemma_lines_shift(p: Seq<char>, rest: Seq<char>, k: int)
    requires
        0 <= k <= rest.len(),
    ensures
        lines_from(p + rest, p.len() + k) == lines_from(rest, k),
    decreases rest.len() - k,
{
    let s = p + rest;
    if k < rest.len() {
        lemma_newline_shift(p, rest, k);
        let j = newline_at_or_after(rest, k);
        lemma_newline_at_least(rest, k);
        assert(s.subrange(p.len() + k, p.len() + j) =~= rest.subrange(k, j));
        if j < rest.len() {
            lemma_lines_shift(p, rest, j + 1);
        }
    }
}

proof fn lemma_newline_at_least(s: Seq<char>, i: int)
    requires
        0 <= i <= s.len(),
    ensures
        i <= newline_at_or_after(s, i) <= s.len(),
    decreases s.len() - i,
{
    if i < s.len() && s[i] != '\n' {
        lemma_newline_at_least(s, i + 1);
    }
}

proof fn lemma_newline_after_line(l: Seq<char>, rest: Seq<char>, i: int)
    requires
        0 <= i <= l.len(),
        forall|k: int| 0 <= k < l.len() ==> l[k] != '\n',
    ensures
        newline_at_or_after(l + seq!['\n'] + rest, i) == l.len(),
    decreases l.len() - i,
{
    let s = l + seq!['\n'] + rest;
    if i < l.len() {
        assert(s[i] == l[i]);
        lemma_newline_after_line(l, rest, i + 1);
    } else {
        assert(s[i] == '\n');
    }
}

/// Lines without line breaks.
pub open spec fn plain(l: Seq<char>) -> bool {
    forall|k: int| 0 <= k < l.len() ==> l[k] != '\n' && l[k] != '\r'
}

proof fn lemma_lines_of_cons(l: Seq<char>, rest: Seq<char>)
    requires
        plain(l),
    ensures
        lines_of(l + seq!['\n'] + rest) == seq![l] + lines_of(rest),
{
    let s = l + seq!['\n'] + rest;
    lemma_newline_after_line(l, rest, 0);
    assert(s.subrange(0, l.len() as int) =~= l);
    assert(strip_cr(l) == l);
    let p = l + seq!['\n'];
    assert(s =~= p + rest);
    lemma_lines_shift(p, rest, 0);
}

proof fn lemma_join_lines_cons(ls: Seq<Seq<char>>)
    requires
        ls.len() > 0,
    ensures
        join_lines(ls) == ls[0] + seq!['\n'] + join_lines(ls.drop_first()),
    decreases ls.len(),
{
    if ls.len() == 1 {
        assert(ls.drop_last() =~= Seq::<Seq<char>>::empty());
        assert(ls.drop_first() =~= Seq::<Seq<char>>::empty());
        assert(join_lines(ls.drop_last()) == Seq::<char>::empty());
        assert(join_lines(ls.drop_first()) == Seq::<char>::empty());
        assert(ls.last() == ls[0]);
        assert(join_lines(ls) =~= ls[0] + seq!['\n'] + Seq::<char>::empty());
    } else {
        lemma_join_lines_cons(ls.drop_last());
        assert(ls.drop_last().drop_first() =~= ls.drop_first().drop_last());
        assert(ls.drop_first().last() == ls.last());
        assert(join_lines(ls) =~= ls[0] + seq!['\n'] + join_lines(ls.drop_first()));
    }
}

proof fn lemma_join_lines_concat(a: Seq<Seq<char>>, b: Seq<Seq<char>>)
    ensures
        join_lines(a + b) == join_lines(a) + join_lines(b),
    decreases b.len(),
{
    if b.len() == 0 {
        assert(a + b =~= a);
        assert(join_lines(a) + Seq::<char>::empty() =~= join_lines(a));
    } else {
        assert((a + b).drop_last() =~= a + b.drop_last());
        lemma_join_lines_concat(a, b.drop_last());
        assert(join_lines(a + b) =~= join_lines(a) + join_lines(b));
    }
}

/// Splitting the text of plain lines, each followed by a newline, gives them back.
proof fn lemma_lines_of_join(ls: Seq<Seq<char>>)
    requires
        forall|i: int| 0 <= i < ls.len() ==> plain(#[trigger] ls[i]),
    ensures
        lines_of(join_lines(ls)) == ls,
    decreases ls.len(),
{
    if ls.len() == 0 {
    } else {
        lemma_join_lines_cons(ls);
        assert(forall|i: int| 0 <= i < ls.drop_first().len() ==> #[trigger] ls.drop_first()[i] == ls[i + 1]);
        lemma_lines_of_join(ls.drop_first());
        lemma_lines_of_cons(ls[0], join_lines(ls.drop_first()));
        assert(seq![ls[0]] + ls.drop_first() =~= ls);
    }
}

proof fn lemma_trim_start_skips(s: Seq<char>, k: int)
    requires
        0 <= k < s.len(),
        forall|i: int| 0 <= i < k ==> is_ws(s[i]),
        !is_ws(s[k]),
    ensures
        trim_start(s) == s.subrange(k, s.len() as int),
    decreases k,
{
    if k == 0 {
        assert(s.subrange(0, s.len() as int) =~= s);
    } else {
        let d = s.drop_first();
        assert(forall|i: int| 0 <= i < k - 1 ==> d[i] == s[i + 1]);
        lemma_trim_start_skips(d, k - 1);
        assert(d.subrange(k - 1, d.len() as int) =~= s.subrange(k, s.len() as int));
    }
}

proof fn lemma_trim_end_keeps(s: Seq<char>, j: int)
    requires
        0 <= j < s.len(),
        !is_ws(s[j]),
    ensures
        trim_end(s).len() > j,
        forall|k: int| 0 <= k <= j ==> #[trigger] trim_end(s)[k] == s[k],
    decreases s.len(),
{
    if is_ws(s.last()) {
        lemma_trim_end_keeps(s.drop_last(), j);
    }
}

/// The trimmed form of `prefix + v`, where `prefix` is four spaces and a
/// keyword, keeps the keyword's first `n` characters.
proof fn lemma_trim_indented(prefix: Seq<char>, v: Seq<char>, n: int)
    requires
        5 <= 4 + n <= prefix.len(),
        forall|i: int| 0 <= i < 4 ==> prefix[i] == ' ',
        forall|i: int| 4 <= i < 4 + n ==> !is_ws(#[trigger] prefix[i]),
    ensures
        trim(prefix + v).len() >= n,
        forall|k: int| 0 <= k < n ==> #[trigger] trim(prefix + v)[k] == prefix[4 + k],
{
    let s = prefix + v;
    assert(forall|i: int| 0 <= i < 4 ==> is_ws(s[i]));
    assert(s[4] == prefix[4]);
    lemma_trim_start_skips(s, 4);
    let w = s.subrange(4, s.len() as int);
    assert(w[n - 1] == prefix[4 + n - 1]);
    lemma_trim_end_keeps(w, n - 1);
    assert forall|k: int| 0 <= k < n implies #[trigger] trim(prefix + v)[k] == prefix[4 + k] by {
        assert(trim_end(w)[k] == w[k]);
        assert(w[k] == s[4 + k]);
    }
}

proof fn lemma_kept_skips_all(ls: Seq<Seq<char>>, tg: Seq<char>)
    requires
        forall|i: int| 0 <= i < ls.len() ==> !starts_with(trim(#[trigger] ls[i]), "Host "@),
    ensures
        kept(ls, tg, true) == Seq::<Seq<char>>::empty(),
    decreases ls.len(),
{
    if ls.len() > 0 {
        assert(forall|i: int| 0 <= i < ls.drop_first().len() ==> #[trigger] ls.drop_first()[i] == ls[i + 1]);
        lemma_kept_skips_all(ls.drop_first(), tg);
    }
}

pub open spec fn optional_lines(prefix: Seq<char>, value: Seq<char>) -> Seq<Seq<char>> {
    if value.len() == 0 {
        seq![]
    } else {
        seq![prefix + value]
    }
}

/// The block's lines after its `Host` line.
pub open spec fn setting_lines(f: HostForm) -> Seq<Seq<char>> {
    seq!["    Hostname "@ + f.hostname@, "    User "@ + f.user@] + optional_lines(
        "    Port "@,
        f.port@,
    ) + optional_lines("    IdentityFile "@, f.identity_file@) + optional_lines(
        "    LocalForward "@,
        f.local_forward@,
    )
}

proof fn lemma_optional_join(prefix: Seq<char>, value: Seq<char>)
    ensures
        join_lines(optional_lines(prefix, value)) == optional_line(prefix, value),
{
    if value.len() > 0 {
        let ls = optional_lines(prefix, value);
        assert(ls.drop_last() =~= Seq::<Seq<char>>::empty());
        assert(join_lines(ls.drop_last()) == Seq::<char>::empty());
        assert(join_lines(ls) =~= optional_line(prefix, value));
    }
}

pub open spec fn block_lines(f: HostForm) -> Seq<Seq<char>> {
    seq!["Host "@ + f.host@] + setting_lines(f)
}

pub open spec fn plain_fields(f: HostForm) -> bool {
    &&& plain(f.host@)
    &&& plain(f.hostname@)
    &&& plain(f.user@)
    &&& plain(f.port@)
    &&& plain(f.identity_file@)
    &&& plain(f.local_forward@)
}

proof fn lemma_block_is_lines(f: HostForm)
    ensures
        join_lines(block_lines(f)) == block_spec(f),
{
    let head = "Host "@ + f.host@;
    let l1 = "    Hostname "@ + f.hostname@;
    let l2 = "    User "@ + f.user@;
    let op = optional_lines("    Port "@, f.port@);
    let oi = optional_lines("    IdentityFile "@, f.identity_file@);
    let ol = optional_lines("    LocalForward "@, f.local_forward@);
    lemma_optional_join("    Port "@, f.port@);
    lemma_optional_join("    IdentityFile "@, f.identity_file@);
    lemma_optional_join("    LocalForward "@, f.local_forward@);
    let three = seq![head, l1, l2];
    let two = seq![head, l1];
    let one = seq![head];
    assert(three.drop_last() =~= two);
    assert(two.drop_last() =~= one);
    assert(one.drop_last() =~= Seq::<Seq<char>>::empty());
    assert(join_lines(one.drop_last()) == Seq::<char>::empty());
    assert(join_lines(one) =~= head + seq!['\n']);
    assert(join_lines(two) =~= head + seq!['\n'] + l1 + seq!['\n']);
    assert(join_lines(three) =~= head + seq!['\n'] + l1 + seq!['\n'] + l2 + seq!['\n']);
    lemma_join_lines_concat(three, op);
    lemma_join_lines_concat(three + op, oi);
    lemma_join_lines_concat(three + op + oi, ol);
    assert(three + op + oi + ol =~= block_lines(f));
    assert(join_lines(block_lines(f)) =~= block_spec(f));
}

proof fn lemma_block_lines_plain(f: HostForm)
    requires
        plain_fields(f),
    ensures
        forall|i: int| 0 <= i < block_lines(f).len() ==> plain(#[trigger] block_lines(f)[i]),
{
    reveal_strlit("Host ");
    reveal_strlit("    Hostname ");
    reveal_strlit("    User ");
    reveal_strlit("    Port ");
    reveal_strlit("    IdentityFile ");
    reveal_strlit("    LocalForward ");
    let ls = block_lines(f);
    assert forall|i: int| 0 <= i < ls.len() implies plain(#[trigger] ls[i]) by {
        if i >= 3 {
            assert(ls[i] == "    Port "@ + f.port@ || ls[i] == "    IdentityFile "@
                + f.identity_file@ || ls[i] == "    LocalForward "@ + f.local_forward@);
        }
    }
}

proof fn lemma_not_host_line(prefix: Seq<char>, v: Seq<char>, n: int)
    requires
        5 <= 4 + n <= prefix.len(),
        forall|i: int| 0 <= i < 4 ==> prefix[i] == ' ',
        forall|i: int| 4 <= i < 4 + n ==> !is_ws(#[trigger] prefix[i]),
        n == 1 ==> prefix[4] != 'H',
        n == 5 ==> prefix[8] != ' ',
        n == 1 || n == 5,
    ensures
        !starts_with(trim(prefix + v), "Host "@),
{
    reveal_strlit("Host ");
    lemma_trim_indented(prefix, v, n);
    let t = trim(prefix + v);
    if starts_with(t, "Host "@) {
        assert(t[0] == t.subrange(0, 5)[0]);
        assert(t[4] == t.subrange(0, 5)[4]);
    }
}

proof fn lemma_settings_not_host(f: HostForm)
    ensures
        forall|i: int| 0 <= i < setting_lines(f).len() ==> !starts_with(
            trim(#[trigger] setting_lines(f)[i]),
            "Host "@,
        ),
{
    reveal_strlit("    Hostname ");
    reveal_strlit("    User ");
    reveal_strlit("    Port ");
    reveal_strlit("    IdentityFile ");
    reveal_strlit("    LocalForward ");
    lemma_not_host_line("    Hostname "@, f.hostname@, 5);
    lemma_not_host_line("    User "@, f.user@, 1);
    lemma_not_host_line("    Port "@, f.port@, 1);
    lemma_not_host_line("    IdentityFile "@, f.identity_file@, 1);
    lemma_not_host_line("    LocalForward "@, f.local_forward@, 1);
    let rest = setting_lines(f);
    assert forall|i: int| 0 <= i < rest.len() implies !starts_with(
        trim(#[trigger] rest[i]),
        "Host "@,
    ) by {
        if i >= 2 {
            assert(rest[i] == "    Port "@ + f.port@ || rest[i] == "    IdentityFile "@
                + f.identity_file@ || rest[i] == "    LocalForward "@ + f.local_forward@);
        }
    }
}

/// A host added to a new, empty file and then removed by name leaves the
/// file empty again. The alias must be non-empty and end in a non-blank
/// character, and no field may hold a line break, so that the written
/// `Host` line is found again and the block reads back as written.
pub proof fn lemma_append_then_remove(f: HostForm)
    requires
        f.host@.len() > 0,
        !is_ws(f.host@.last()),
        plain_fields(f),
    ensures
        removed_spec(appended_spec(seq![], block_spec(f)), f.host@) == Seq::<char>::empty(),
{
    let head = "Host "@ + f.host@;
    let ls = block_lines(f);
    lemma_block_is_lines(f);
    lemma_block_lines_plain(f);
    lemma_lines_of_join(ls);
    assert(trim(head) == head) by {
        reveal_strlit("Host ");
        assert(head[0] == 'H');
        lemma_trim_start_of(head);
        lemma_trim_end_of(head);
    }
    lemma_settings_not_host(f);
    lemma_kept_skips_all(setting_lines(f), head);
    assert(ls.drop_first() =~= setting_lines(f));
    assert(ls[0] == head);
    assert(kept(ls, head, false) == kept(setting_lines(f), head, true));
}

proof fn lemma_trim_start_of(s: Seq<char>)
    requires
        s.len() > 0,
        !is_ws(s[0]),
    ensures
        trim_start(s) == s,
{
}

proof fn lemma_trim_end_of(s: Seq<char>)
    requires
        s.len() > 0,
        !is_ws(s.last()),
    ensures
        trim_end(s) == s,
{
}

} // verus!
