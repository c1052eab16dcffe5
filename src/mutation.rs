//! Text edits behind adding and removing a host: the block that is written,
//! the `Include` that registers a new file, and the removal of a block.
use vstd::prelude::*;
use crate::text::{
    trim, starts_with, contains, lines_of, lines_from, join_lines, chars_of, string_of_range,
    range_starts_with, contains_text, trim_range, next_line,
};
use crate::form::HostForm;

verus! {

/// An indented directive line, left out when the value is empty.
pub open spec fn optional_line(prefix: Seq<char>, value: Seq<char>) -> Seq<char> {
    if value.len() == 0 {
        seq![]
    } else {
        prefix + value + seq!['\n']
    }
}

/// The block written for a host: alias, hostname and user always, then
/// port, identity file and local forward where given.
pub open spec fn block_spec(f: HostForm) -> Seq<char> {
    "Host "@ + f.host@ + seq!['\n'] + "    Hostname "@ + f.hostname@ + seq!['\n'] + "    User "@
        + f.user@ + seq!['\n'] + optional_line("    Port "@, f.port@) + optional_line(
        "    IdentityFile "@,
        f.identity_file@,
    ) + optional_line("    LocalForward "@, f.local_forward@)
}

/// A file after a block is appended: one blank line goes first unless the
/// file was empty.
pub open spec fn appended_spec(existing: Seq<char>, block: Seq<char>) -> Seq<char> {
    if existing.len() == 0 {
        block
    } else {
        existing + seq!['\n'] + block
    }
}

pub open spec fn include_line_spec(path: Seq<char>) -> Seq<char> {
    "Include "@ + path
}

/// The new text of the root file after registering `line`, or `None` when
/// it stays as it is: a missing file gets the line alone; a file that
/// already holds it is left alone; otherwise the line, a blank line, then
/// the old text.
pub open spec fn registered_spec(root: Option<Seq<char>>, line: Seq<char>) -> Option<Seq<char>> {
    match root {
        None => Some(line + seq!['\n']),
        Some(c) => if contains(c, line) {
            None
        } else {
            Some(line + seq!['\n'] + seq!['\n'] + c)
        },
    }
}

/// The lines that stay when the block headed by a line trimmed to `target`
/// is removed. While `skipping`, lines are dropped up to the next line
/// whose trimmed form starts with `Host `, which stays.
pub open spec fn kept(ls: Seq<Seq<char>>, target: Seq<char>, skipping: bool) -> Seq<Seq<char>>
    decreases ls.len(),
{
    if ls.len() == 0 {
        seq![]
    } else {
        let t = trim(ls[0]);
        if skipping {
            if starts_with(t, "Host "@) {
                seq![ls[0]] + kept(ls.drop_first(), target, false)
            } else {
                kept(ls.drop_first(), target, true)
            }
        } else if t == target {
            kept(ls.drop_first(), target, true)
        } else {
            seq![ls[0]] + kept(ls.drop_first(), target, false)
        }
    }
}

/// A file's text once the block of host `name` is taken out.
pub open spec fn removed_spec(content: Seq<char>, name: Seq<char>) -> Seq<char> {
    join_lines(kept(lines_of(content), "Host "@ + name, false))
}

fn push_line(out: &mut String, prefix: &str, value: &str)
    ensures
        final(out)@ == old(out)@ + prefix@ + value@ + seq!['\n'],
{
    out.append(prefix);
    out.append(value);
    out.append("\n");
    proof {
        reveal_strlit("\n");
    }
    assert(final(out)@ =~= old(out)@ + prefix@ + value@ + seq!['\n']);
}

/// The block written for the host of `form`.
pub fn host_block(form: &HostForm) -> (r: String)
    ensures
        r@ == block_spec(*form),
{
    let mut r = String::new();
    push_line(&mut r, "Host ", form.host.as_str());
    push_line(&mut r, "    Hostname ", form.hostname.as_str());
    push_line(&mut r, "    User ", form.user.as_str());
    let ghost base = r@;
    if !form.port.as_str().is_empty() {
        push_line(&mut r, "    Port ", form.port.as_str());
    }
    let ghost with_port = r@;
    assert(with_port == base + optional_line("    Port "@, form.port@));
    if !form.identity_file.as_str().is_empty() {
        push_line(&mut r, "    IdentityFile ", form.identity_file.as_str());
    }
    let ghost with_identity = r@;
    assert(with_identity == with_port + optional_line("    IdentityFile "@, form.identity_file@));
    if !form.local_forward.as_str().is_empty() {
        push_line(&mut r, "    LocalForward ", form.local_forward.as_str());
    }
    assert(r@ == with_identity + optional_line("    LocalForward "@, form.local_forward@));
    assert(r@ =~= block_spec(*form));
    r
}

/// The text of a file after `block` is appended to `existing`.
pub fn append_block(existing: &str, block: &str) -> (r: String)
    ensures
        r@ == appended_spec(existing@, block@),
{
    let mut r = String::new();
    r.append(existing);
    if !existing.is_empty() {
        r.append("\n");
        proof {
            reveal_strlit("\n");
        }
    }
    r.append(block);
    assert(r@ =~= appended_spec(existing@, block@));
    r
}

/// The line that registers the file at `path` in the root file.
pub fn include_line(path: &str) -> (r: String)
    ensures
        r@ == include_line_spec(path@),
{
    let mut r = String::new();
    r.append("Include ");
    r.append(path);
    assert(r@ =~= include_line_spec(path@));
    r
}

/// The new text of the root file (`root`: its text, `None` when it does not
/// exist) once `line` is registered; `None` when it must stay as it is.
pub fn register_include(root: Option<&str>, line: &str) -> (r: Option<String>)
    ensures
        match r {
            Some(s) => registered_spec(root_view(root), line@) == Some(s@),
            None => registered_spec(root_view(root), line@) is None,
        },
{
    proof {
        reveal_strlit("\n");
    }
    match root {
        None => {
            let mut r = String::new();
            r.append(line);
            r.append("\n");
            assert(r@ =~= line@ + seq!['\n']);
            Some(r)
        },
        Some(c) => {
            if contains_text(c, line) {
                None
            } else {
                let mut r = String::new();
                r.append(line);
                r.append("\n");
                r.append("\n");
                r.append(c);
                assert(r@ =~= line@ + seq!['\n'] + seq!['\n'] + c@);
                Some(r)
            }
        },
    }
}

pub open spec fn root_view(root: Option<&str>) -> Option<Seq<char>> {
    match root {
        Some(c) => Some(c@),
        None => None,
    }
}

/// The text of a file once the block of host `name` is taken out: the line
/// `Host <name>` (compared trimmed) and every line after it up to the next
/// line that starts with `Host `. Each line that stays ends with a newline.
pub fn remove_host_block(content: &str, name: &str) -> (r: String)
    ensures
        r@ == removed_spec(content@, name@),
{
    proof {
        reveal_strlit("\n");
    }
    let mut target = String::new();
    target.append("Host ");
    target.append(name);
    let ghost tg = target@;
    let tn = target.unicode_len();
    let v = chars_of(content);
    let mut out = String::new();
    let mut skipping = false;
    let mut i: usize = 0;
    let ghost mut acc: Seq<Seq<char>> = seq![];
    assert(out@ =~= join_lines(acc));
    while i < v.len()
        invariant
            v@ == content@,
            i <= v@.len(),
            tg == "Host "@ + name@,
            tg == target@,
            tn == tg.len(),
            kept(lines_of(v@), tg, false) == acc + kept(lines_from(v@, i as int), tg, skipping),
            out@ == join_lines(acc),
        decreases v@.len() - i,
    {
        let (lo, e, nx) = next_line(&v, i);
        let ghost line = v@.subrange(lo as int, e as int);
        let ghost ls = lines_from(v@, i as int);
        assert(ls[0] == line);
        assert(ls.drop_first() =~= lines_from(v@, nx as int));
        let (a, b) = trim_range(&v, lo, e);
        let ghost t = v@.subrange(a as int, b as int);
        let keep;
        if skipping {
            let head = range_starts_with(&v, a, b, "Host ");
            keep = head;
            skipping = !head;
        } else {
            let same = b - a == tn && range_starts_with(&v, a, b, target.as_str());
            proof {
                if b - a == tn {
                    assert(t.subrange(0, tg.len() as int) =~= t);
                }
            }
            keep = !same;
            skipping = same;
        }
        if keep {
            let s = string_of_range(&v, lo, e);
            out.append(s.as_str());
            out.append("\n");
            proof {
                reveal_strlit("\n");
            }
            let ghost acc2 = acc.push(line);
            assert(acc2.drop_last() =~= acc);
            assert(out@ =~= join_lines(acc2));
            assert(acc + (seq![line] + kept(lines_from(v@, nx as int), tg, skipping)) =~= acc2
                + kept(lines_from(v@, nx as int), tg, skipping));
            proof {
                acc = acc2;
            }
        }
        i = nx;
    }
    assert(lines_from(v@, i as int) =~= Seq::<Seq<char>>::empty());
    assert(acc + Seq::<Seq<char>>::empty() =~= acc);
    out
}

} // verus!
