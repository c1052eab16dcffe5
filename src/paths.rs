//! Paths as plain strings: joining, parents, and where an `Include` points.
use vstd::prelude::*;
use crate::text::{starts_with, string_from, chars_of, string_of_range};

verus! {

/// What `Path::join` gives: a rooted `b` replaces `a`, otherwise one `/` goes between.
pub open spec fn join_spec(a: Seq<char>, b: Seq<char>) -> Seq<char> {
    if b.len() > 0 && b[0] == '/' {
        b
    } else if a.len() == 0 {
        b
    } else if a.last() == '/' {
        a + b
    } else {
        a + seq!['/'] + b
    }
}

/// Index of the last `/` of `p` before `i`, or -1.
pub open spec fn last_slash_before(p: Seq<char>, i: int) -> int
    decreases i,
{
    if i <= 0 || i > p.len() {
        -1
    } else if p[i - 1] == '/' {
        i - 1
    } else {
        last_slash_before(p, i - 1)
    }
}

pub open spec fn last_slash(p: Seq<char>) -> int {
    last_slash_before(p, p.len() as int)
}

/// The directory that holds the file `p`: all before its last `/` (`/` itself
/// for a file at the root, empty for a bare name).
pub open spec fn parent_spec(p: Seq<char>) -> Seq<char> {
    let j = last_slash(p);
    if j < 0 {
        seq![]
    } else if j == 0 {
        seq!['/']
    } else {
        p.subrange(0, j)
    }
}

/// The name of the directory that holds the file `p`, `unknown` where it has none.
pub open spec fn dir_label_spec(p: Seq<char>) -> Seq<char> {
    let d = parent_spec(p);
    let name = d.subrange(last_slash(d) + 1, d.len() as int);
    if name.len() == 0 || name == seq!['.', '.'] {
        seq!['u', 'n', 'k', 'n', 'o', 'w', 'n']
    } else {
        name
    }
}

/// Where an `Include` argument points: under the home directory for `~/`,
/// as written when rooted, else beside the including file. `None` when it
/// needs a home directory and none is known.
pub open spec fn resolve_spec(
    value: Seq<char>,
    base: Seq<char>,
    home: Option<Seq<char>>,
) -> Option<Seq<char>> {
    if starts_with(value, seq!['~', '/']) {
        match home {
            Some(h) => Some(join_spec(h, value.subrange(2, value.len() as int))),
            None => None,
        }
    } else if value.len() > 0 && value[0] == '/' {
        Some(value)
    } else {
        Some(join_spec(base, value))
    }
}

pub open spec fn home_view(home: Option<&str>) -> Option<Seq<char>> {
    match home {
        Some(h) => Some(h@),
        None => None,
    }
}

pub fn join(a: &str, b: &str) -> (r: String)
    ensures
        r@ == join_spec(a@, b@),
{
    let bv = chars_of(b);
    let av = chars_of(a);
    if bv.len() > 0 && bv[0] == '/' {
        return string_from(bv.as_slice());
    }
    if av.len() == 0 {
        return string_from(bv.as_slice());
    }
    let mut r = string_from(av.as_slice());
    if av[av.len() - 1] != '/' {
        let slash = string_from(&['/']);
        r.append(slash.as_str());
    }
    r.append(b);
    r
}

pub fn last_slash_index(v: &Vec<char>) -> (r: Option<usize>)
    ensures
        match r {
            Some(j) => j as int == last_slash(v@) && j < v@.len(),
            None => last_slash(v@) == -1,
        },
{
    let mut i = v.len();
    while i > 0 && v[i - 1] != '/'
        invariant
            i <= v@.len(),
            last_slash(v@) == last_slash_before(v@, i as int),
        decreases i,
    {
        i = i - 1;
    }
    if i == 0 {
        None
    } else {
        Some(i - 1)
    }
}

/// The directory that holds the file at `p`.
pub fn parent_dir(p: &str) -> (r: String)
    ensures
        r@ == parent_spec(p@),
{
    let v = chars_of(p);
    match last_slash_index(&v) {
        None => String::new(),
        Some(j) => {
            if j == 0 {
                string_from(&['/'])
            } else {
                string_of_range(&v, 0, j)
            }
        },
    }
}

/// The name of the directory that holds the file at `p`.
pub fn dir_label(p: &str) -> (r: String)
    ensures
        r@ == dir_label_spec(p@),
{
    let d = parent_dir(p);
    let dv = chars_of(d.as_str());
    let n = dv.len();
    let start = match last_slash_index(&dv) {
        None => 0,
        Some(j) => j + 1,
    };
    let is_up = n - start == 2 && dv[start] == '.' && dv[start + 1] == '.';
    proof {
        let name = dv@.subrange(start as int, n as int);
        if n - start == 2 {
            assert(is_up <==> name =~= seq!['.', '.']);
        } else {
            assert(name.len() != 2);
        }
    }
    if n == start || is_up {
        string_from(&['u', 'n', 'k', 'n', 'o', 'w', 'n'])
    } else {
        string_of_range(&dv, start, n)
    }
}

/// The file an `Include` argument names; `None` for a `~/` argument when no
/// home directory is known.
pub fn resolve_include_path(value: &str, base_dir: &str, home: Option<&str>) -> (r: Option<
    String,
>)
    ensures
        match r {
            Some(s) => resolve_spec(value@, base_dir@, home_view(home)) == Some(s@),
            None => resolve_spec(value@, base_dir@, home_view(home)) is None,
        },
{
    let v = chars_of(value);
    let tilde = v.len() >= 2 && v[0] == '~' && v[1] == '/';
    proof {
        if v@.len() >= 2 {
            assert(tilde <==> v@.subrange(0, 2) =~= seq!['~', '/']);
        }
    }
    if tilde {
        match home {
            Some(h) => {
                let rest = string_of_range(&v, 2, v.len());
                Some(join(h, rest.as_str()))
            },
            None => None,
        }
    } else if v.len() > 0 && v[0] == '/' {
        Some(string_from(v.as_slice()))
    } else {
        Some(join(base_dir, value))
    }
}

} // verus!
