//! Moving the selection through the host list and through search results,
//! and filling the form from an existing entry.
use vstd::prelude::*;
use fuzzy_matcher::FuzzyMatcher;
use fuzzy_matcher::skim::SkimMatcherV2;
use crate::ssh_config::{SshHost, HostView, hosts_view};

verus! {

/// What the interface is showing.
#[derive(Debug, Clone, Copy, PartialEq, Eq, Structural)]
pub enum AppState {
    List,
    Form,
    Edit,
    Confirm,
    ConfirmEdit,
    Search,
    Popup,
}

pub open spec fn wrap_next(i: int, len: int) -> int {
    if i >= len - 1 {
        0
    } else {
        i + 1
    }
}

pub open spec fn wrap_prev(i: int, len: int) -> int {
    if i == 0 {
        len - 1
    } else {
        i - 1
    }
}

/// From `i`, step forward (wrapping) over separators, at most `steps` times.
pub open spec fn scan_forward(hs: Seq<HostView>, i: int, steps: nat) -> int
    decreases steps,
{
    if steps == 0 || i < 0 || i >= hs.len() || !hs[i].is_separator {
        i
    } else {
        scan_forward(hs, wrap_next(i, hs.len() as int), (steps - 1) as nat)
    }
}

/// From `i`, step back (wrapping) over separators, at most `steps` times.
pub open spec fn scan_backward(hs: Seq<HostView>, i: int, steps: nat) -> int
    decreases steps,
{
    if steps == 0 || i < 0 || i >= hs.len() || !hs[i].is_separator {
        i
    } else {
        scan_backward(hs, wrap_prev(i, hs.len() as int), (steps - 1) as nat)
    }
}

/// The entry after the selected one (the first with none selected),
/// wrapping to the top, then past any separators. Where every entry is a
/// separator the search stops after one full turn.
pub fn next_index(hosts: &Vec<SshHost>, selected: Option<usize>) -> (r: usize)
    requires
        selected is Some ==> hosts@.len() > 0,
    ensures
        r == forward_target(hosts, selected),
{
    let n = hosts.len();
    let mut i = match selected {
        Some(s) => if s >= n - 1 {
            0
        } else {
            s + 1
        },
        None => 0,
    };
    let ghost hv = hosts_view(hosts@);
    let mut steps = n;
    while steps > 0 && i < n && hosts[i].is_separator
        invariant
            n == hosts@.len(),
            hv == hosts_view(hosts@),
            steps <= n,
            scan_forward(hv, i as int, steps as nat) == forward_target(hosts, selected),
        decreases steps,
    {
        assert(hv[i as int].is_separator);
        i = if i >= n - 1 {
            0
        } else {
            i + 1
        };
        steps = steps - 1;
    }
    proof {
        if steps > 0 && i < n {
            assert(!hv[i as int].is_separator);
        }
    }
    i
}

pub open spec fn forward_target(hosts: &Vec<SshHost>, selected: Option<usize>) -> int {
    scan_forward(
        hosts_view(hosts@),
        match selected {
            Some(i) => wrap_next(i as int, hosts@.len() as int),
            None => 0,
        },
        hosts@.len() as nat,
    )
}

pub open spec fn back_target(hosts: &Vec<SshHost>, selected: Option<usize>) -> int {
    scan_backward(
        hosts_view(hosts@),
        match selected {
            Some(i) => wrap_prev(i as int, hosts@.len() as int),
            None => 0,
        },
        hosts@.len() as nat,
    )
}

/// The entry before the selected one (the first with none selected),
/// wrapping to the bottom, then back past any separators.
pub fn previous_index(hosts: &Vec<SshHost>, selected: Option<usize>) -> (r: usize)
    requires
        selected is Some ==> hosts@.len() > 0,
    ensures
        r == back_target(hosts, selected),
{
    let n = hosts.len();
    let mut i = match selected {
        Some(s) => if s == 0 {
            n - 1
        } else {
            s - 1
        },
        None => 0,
    };
    let ghost hv = hosts_view(hosts@);
    let mut steps = n;
    while steps > 0 && i < n && hosts[i].is_separator
        invariant
            n == hosts@.len(),
            hv == hosts_view(hosts@),
            steps <= n,
            scan_backward(hv, i as int, steps as nat) == back_target(hosts, selected),
        decreases steps,
    {
        assert(hv[i as int].is_separator);
        i = if i == 0 {
            n - 1
        } else {
            i - 1
        };
        steps = steps - 1;
    }
    proof {
        if steps > 0 && i < n {
            assert(!hv[i as int].is_separator);
        }
    }
    i
}

/// Index of the first occurrence of `x` in `s` at or after `i`, or the length.
pub open spec fn position_from(s: Seq<usize>, x: usize, i: int) -> int
    decreases s.len() - i,
{
    if i < 0 || i >= s.len() {
        s.len() as int
    } else if s[i] == x {
        i
    } else {
        position_from(s, x, i + 1)
    }
}

fn position(s: &Vec<usize>, x: usize) -> (r: usize)
    ensures
        r as int == position_from(s@, x, 0),
        r <= s@.len(),
{
    let mut i: usize = 0;
    while i < s.len() && s[i] != x
        invariant
            i <= s@.len(),
            position_from(s@, x, 0) == position_from(s@, x, i as int),
        decreases s@.len() - i,
    {
        i = i + 1;
    }
    i
}

/// The search result after `sel` (taken as 0 when unset), wrapping around;
/// the first result when `sel` is not among them; `None` without results.
pub open spec fn next_result_spec(results: Seq<usize>, sel: Option<usize>) -> Option<usize> {
    let cur = match sel {
        Some(i) => i,
        None => 0,
    };
    let p = position_from(results, cur, 0);
    if results.len() == 0 {
        None
    } else if p < results.len() {
        Some(results[(p + 1) % (results.len() as int)])
    } else {
        Some(results[0])
    }
}

/// The search result before `sel`, wrapping around; the first result when
/// `sel` is not among them; `None` without results.
pub open spec fn prev_result_spec(results: Seq<usize>, sel: Option<usize>) -> Option<usize> {
    let cur = match sel {
        Some(i) => i,
        None => 0,
    };
    let p = position_from(results, cur, 0);
    if results.len() == 0 {
        None
    } else if p < results.len() {
        if p == 0 {
            Some(results[results.len() - 1])
        } else {
            Some(results[p - 1])
        }
    } else {
        Some(results[0])
    }
}

pub fn next_search_result(results: &Vec<usize>, selected: Option<usize>) -> (r: Option<usize>)
    ensures
        r == next_result_spec(results@, selected),
{
    if results.len() == 0 {
        return None;
    }
    let cur = match selected {
        Some(i) => i,
        None => 0,
    };
    let p = position(results, cur);
    if p < results.len() {
        Some(results[(p + 1) % results.len()])
    } else {
        Some(results[0])
    }
}

pub fn prev_search_result(results: &Vec<usize>, selected: Option<usize>) -> (r: Option<usize>)
    ensures
        r == prev_result_spec(results@, selected),
{
    if results.len() == 0 {
        return None;
    }
    let cur = match selected {
        Some(i) => i,
        None => 0,
    };
    let p = position(results, cur);
    if p < results.len() {
        if p == 0 {
            Some(results[results.len() - 1])
        } else {
            Some(results[p - 1])
        }
    } else {
        Some(results[0])
    }
}

/// Names the score that the skim matcher of `fuzzy_matcher` gives `name`
/// for the query `query`; `None` when it does not match.
pub uninterp spec fn fuzzy_score_of(name: Seq<char>, query: Seq<char>) -> Option<i64>;

/// Relies on `SkimMatcherV2::fuzzy_match` with the default settings; its
/// caches are scratch buffers, so the score depends on the two texts alone.
#[verifier::external_body]
fn fuzzy_score(name: &str, query: &str) -> (r: Option<i64>)
    ensures
        r == fuzzy_score_of(name@, query@),
{
    SkimMatcherV2::default().fuzzy_match(name, query)
}

/// The hosts that can be ranked: each entry that is not a separator and
/// has a score, with that score, in list order.
pub open spec fn candidates(hs: Seq<HostView>, scores: Seq<Option<i64>>, n: int) -> Seq<(usize, i64)>
    decreases n,
{
    if n <= 0 {
        seq![]
    } else {
        let rest = candidates(hs, scores, n - 1);
        if n - 1 < hs.len() && n - 1 < scores.len() && !hs[n - 1].is_separator
            && scores[n - 1] is Some {
            rest.push(((n - 1) as usize, scores[n - 1]->0))
        } else {
            rest
        }
    }
}

/// Index of the first pair of `s` at or after `k` whose score is below `score`, or the length.
pub open spec fn first_below(s: Seq<(usize, i64)>, score: i64, k: int) -> int
    decreases s.len() - k,
{
    if k < 0 || k >= s.len() {
        s.len() as int
    } else if s[k].1 < score {
        k
    } else {
        first_below(s, score, k + 1)
    }
}

/// The pairs `c` ordered by score, highest first; pairs of equal score keep
/// their order.
pub open spec fn ranked(c: Seq<(usize, i64)>) -> Seq<(usize, i64)>
    decreases c.len(),
{
    if c.len() == 0 {
        seq![]
    } else {
        let r = ranked(c.drop_last());
        r.insert(first_below(r, c.last().1, 0), c.last())
    }
}

pub open spec fn indices_of(s: Seq<(usize, i64)>) -> Seq<usize> {
    s.map_values(|p: (usize, i64)| p.0)
}

fn insert_ranked(out: &mut Vec<(usize, i64)>, x: (usize, i64))
    ensures
        final(out)@ == old(out)@.insert(first_below(old(out)@, x.1, 0), x),
{
    let mut j: usize = 0;
    while j < out.len() && out[j].1 >= x.1
        invariant
            j <= out@.len(),
            out@ == old(out)@,
            first_below(out@, x.1, 0) == first_below(out@, x.1, j as int),
        decreases out@.len() - j,
    {
        j = j + 1;
    }
    out.insert(j, x);
}

/// The entries to show for given scores (`scores[i]` for entry `i`, `None`
/// where it does not match): every entry that is not a separator and has a
/// score, highest score first, ties in list order.
pub fn rank_by_score(hosts: &Vec<SshHost>, scores: &Vec<Option<i64>>) -> (r: Vec<usize>)
    ensures
        r@ == indices_of(
            ranked(candidates(hosts_view(hosts@), scores@, hosts@.len() as int)),
        ),
{
    let ghost hv = hosts_view(hosts@);
    let mut out: Vec<(usize, i64)> = Vec::new();
    let mut i: usize = 0;
    while i < hosts.len()
        invariant
            i <= hosts@.len(),
            hv == hosts_view(hosts@),
            out@ == ranked(candidates(hv, scores@, i as int)),
        decreases hosts@.len() - i,
    {
        let ghost before = candidates(hv, scores@, i as int);
        if i < scores.len() && !hosts[i].is_separator {
            match scores[i] {
                Some(sc) => {
                    assert(candidates(hv, scores@, i + 1) == before.push((i, sc)));
                    assert(before.push((i, sc)).drop_last() =~= before);
                    insert_ranked(&mut out, (i, sc));
                },
                None => {},
            }
        }
        i = i + 1;
    }
    let mut r: Vec<usize> = Vec::new();
    let mut k: usize = 0;
    while k < out.len()
        invariant
            k <= out@.len(),
            r@ == indices_of(out@).subrange(0, k as int),
        decreases out@.len() - k,
    {
        r.push(out[k].0);
        assert(r@ =~= indices_of(out@).subrange(0, k + 1));
        k = k + 1;
    }
    assert(indices_of(out@).subrange(0, k as int) =~= indices_of(out@));
    r
}

/// The score of each entry for `query`.
pub open spec fn scores_for(hosts: Seq<SshHost>, query: Seq<char>) -> Seq<Option<i64>> {
    Seq::new(hosts.len(), |i: int| fuzzy_score_of(hosts[i].name@, query))
}

/// The entries that match `query`, best match first; none for an empty query.
pub fn search_results(hosts: &Vec<SshHost>, query: &str) -> (r: Vec<usize>)
    ensures
        query@.len() == 0 ==> r@.len() == 0,
        query@.len() > 0 ==> r@ == indices_of(
            ranked(candidates(hosts_view(hosts@), scores_for(hosts@, query@), hosts@.len() as int)),
        ),
{
    if query.is_empty() {
        return Vec::new();
    }
    let mut scores: Vec<Option<i64>> = Vec::new();
    let mut i: usize = 0;
    while i < hosts.len()
        invariant
            i <= hosts@.len(),
            scores@.len() == i,
            forall|k: int| 0 <= k < i ==> #[trigger] scores@[k] == fuzzy_score_of(hosts@[k].name@, query@),
        decreases hosts@.len() - i,
    {
        scores.push(fuzzy_score(hosts[i].name.as_str(), query));
        i = i + 1;
    }
    assert(scores@ =~= scores_for(hosts@, query@));
    rank_by_score(hosts, &scores)
}

} // verus!
