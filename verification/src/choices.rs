//! The choices a dialog offers: the branches to merge or rebase onto, the
//! remotes, and the branches already on a remote as push targets (sorted,
//! without repeats).
use vstd::prelude::*;

use crate::app::{sel_view, CherryPickModalState};
use crate::model::repo::{Remote, RemoteBranch, RepoView};
use crate::startup::{working_tree_id, working_tree_oid};
use crate::text::{chars_of, concat, same_text, starts_with, starts_with_exec, strings_view, substring};

verus! {

// ── order of texts ──────────────────────────────────────────────────────

/// Lexicographic order by code point, the order `str`'s comparison gives
/// (UTF-8 bytes compare as their code points do).
pub open spec fn lex_lt(a: Seq<char>, b: Seq<char>) -> bool
    decreases a.len(),
{
    if a.len() == 0 {
        b.len() > 0
    } else if b.len() == 0 {
        false
    } else if a[0] != b[0] {
        (a[0] as u32) < (b[0] as u32)
    } else {
        lex_lt(a.drop_first(), b.drop_first())
    }
}

pub proof fn lemma_lex_irreflexive(a: Seq<char>)
    ensures
        !lex_lt(a, a),
    decreases a.len(),
{
    if a.len() > 0 {
        lemma_lex_irreflexive(a.drop_first());
    }
}

pub proof fn lemma_lex_transitive(a: Seq<char>, b: Seq<char>, c: Seq<char>)
    requires
        lex_lt(a, b),
        lex_lt(b, c),
    ensures
        lex_lt(a, c),
    decreases a.len(),
{
    if a.len() > 0 && a[0] == b[0] && b[0] == c[0] {
        lemma_lex_transitive(a.drop_first(), b.drop_first(), c.drop_first());
    }
}

pub proof fn lemma_lex_total(a: Seq<char>, b: Seq<char>)
    requires
        a != b,
    ensures
        lex_lt(a, b) || lex_lt(b, a),
    decreases a.len(),
{
    if a.len() > 0 && b.len() > 0 && a[0] != b[0] {
        vstd::utf8::char_u32_cast(a[0], a[0] as u32);
        vstd::utf8::char_u32_cast(b[0], b[0] as u32);
    } else if a.len() > 0 && b.len() > 0 && a[0] == b[0] {
        if a.drop_first() == b.drop_first() {
            assert(a =~= seq![a[0]] + a.drop_first());
            assert(b =~= seq![b[0]] + b.drop_first());
        }
        lemma_lex_total(a.drop_first(), b.drop_first());
    } else if a.len() == 0 && b.len() == 0 {
        assert(a =~= b);
    }
}

/// Whether `a` sorts before `b`.
pub fn text_lt(a: &str, b: &str) -> (r: bool)
    ensures
        r == lex_lt(a@, b@),
{
    let av = chars_of(a);
    let bv = chars_of(b);
    let mut k: usize = 0;
    assert(a@.skip(0) =~= a@);
    assert(b@.skip(0) =~= b@);
    while k < av.len() && k < bv.len()
        invariant
            av@ == a@,
            bv@ == b@,
            k <= av@.len(),
            k <= bv@.len(),
            lex_lt(a@, b@) == lex_lt(a@.skip(k as int), b@.skip(k as int)),
        decreases av@.len() - k,
    {
        let x = av[k];
        let y = bv[k];
        if x != y {
            return (x as u32) < (y as u32);
        }
        proof {
            assert(a@.skip(k as int).drop_first() =~= a@.skip(k + 1));
            assert(b@.skip(k as int).drop_first() =~= b@.skip(k + 1));
        }
        k = k + 1;
    }
    k < bv.len()
}

/// Each text sorts before every later one: sorted, with no repeats.
pub open spec fn strictly_sorted(s: Seq<Seq<char>>) -> bool {
    forall|i: int, j: int| 0 <= i < j < s.len() ==> lex_lt(#[trigger] s[i], #[trigger] s[j])
}

/// Add `x` to a sorted list, keeping it sorted and without repeats.
pub fn insert_sorted(v: &mut Vec<String>, x: String)
    requires
        strictly_sorted(strings_view(old(v)@)),
    ensures
        strictly_sorted(strings_view(final(v)@)),
        forall|t: Seq<char>| strings_view(final(v)@).contains(t) <==> (strings_view(old(v)@).contains(t) || t == x@),
{
    let ghost s = strings_view(v@);
    let mut i: usize = 0;
    while i < v.len() && text_lt(v[i].as_str(), x.as_str())
        invariant
            i <= v@.len(),
            s == strings_view(v@),
            forall|j: int| 0 <= j < i ==> lex_lt(#[trigger] s[j], x@),
        decreases v@.len() - i,
    {
        i = i + 1;
    }
    if i < v.len() && same_text(v[i].as_str(), x.as_str()) {
        proof {
            assert(s[i as int] == x@);
            assert forall|t: Seq<char>| s.contains(t) <==> (s.contains(t) || t == x@) by {
                if t == x@ {
                    assert(s[i as int] == t);
                }
            }
        }
        return;
    }
    let ghost xv = x@;
    v.insert(i, x);
    proof {
        let n = strings_view(v@);
        assert(n =~= s.insert(i as int, xv));
        if i < s.len() {
            assert(!lex_lt(s[i as int], xv));
            assert(s[i as int] != xv);
            lemma_lex_total(s[i as int], xv);
            assert(lex_lt(xv, s[i as int]));
        }
        assert forall|a: int, b: int| 0 <= a < b < n.len() implies lex_lt(#[trigger] n[a], #[trigger] n[b]) by {
            if a < i && b < i {
                assert(lex_lt(s[a], s[b]));
            } else if a < i && b == i {
                assert(lex_lt(s[a], xv));
            } else if a < i && b > i {
                assert(lex_lt(s[a], s[b - 1]));
            } else if a == i {
                if b - 1 > i {
                    assert(lex_lt(s[i as int], s[b - 1]));
                    lemma_lex_transitive(xv, s[i as int], s[b - 1]);
                }
            } else {
                assert(lex_lt(s[a - 1], s[b - 1]));
            }
        }
        assert forall|t: Seq<char>| n.contains(t) <==> (s.contains(t) || t == xv) by {
            if n.contains(t) {
                let k = choose|k: int| 0 <= k < n.len() && n[k] == t;
                if k < i {
                    assert(s[k] == t);
                } else if k > i {
                    assert(s[k - 1] == t);
                }
            }
            if s.contains(t) {
                let k = choose|k: int| 0 <= k < s.len() && s[k] == t;
                if k < i {
                    assert(n[k] == t);
                } else {
                    assert(n[k + 1] == t);
                }
            }
            if t == xv {
                assert(n[i as int] == t);
            }
        }
    }
}

// ── choices ─────────────────────────────────────────────────────────────

/// The branches one can merge from or rebase onto: every branch but the
/// current one, in order.
pub open spec fn other_branches_spec(bs: Seq<crate::model::repo::Branch>) -> Seq<Seq<char>>
    decreases bs.len(),
{
    if bs.len() == 0 {
        Seq::empty()
    } else {
        other_branches_spec(bs.drop_last()) + (if bs.last().current { Seq::empty() } else { seq![bs.last().name@] })
    }
}

pub fn other_branches(repo: &RepoView) -> (r: Vec<String>)
    ensures
        strings_view(r@) == other_branches_spec(repo.branches@),
{
    let mut out: Vec<String> = Vec::new();
    let mut i: usize = 0;
    while i < repo.branches.len()
        invariant
            i <= repo.branches@.len(),
            strings_view(out@) == other_branches_spec(repo.branches@.take(i as int)),
        decreases repo.branches@.len() - i,
    {
        proof {
            assert(repo.branches@.take(i + 1).drop_last() =~= repo.branches@.take(i as int));
        }
        if !repo.branches[i].current {
            let ghost before = out@;
            out.push(repo.branches[i].name.clone());
            proof {
                crate::text::lemma_strings_view_push(before, out@.last());
            }
        } else {
            proof {
                assert(other_branches_spec(repo.branches@.take(i + 1)) =~= other_branches_spec(repo.branches@.take(i as int)));
            }
        }
        i = i + 1;
    }
    proof {
        assert(repo.branches@.take(repo.branches@.len() as int) =~= repo.branches@);
    }
    out
}

/// The names of the remotes, in order.
pub fn remote_names(repo: &RepoView) -> (r: Vec<String>)
    ensures
        strings_view(r@) == repo.remotes@.map_values(|x: Remote| x.name@),
{
    let mut out: Vec<String> = Vec::new();
    let mut i: usize = 0;
    while i < repo.remotes.len()
        invariant
            i <= repo.remotes@.len(),
            strings_view(out@) == repo.remotes@.take(i as int).map_values(|x: Remote| x.name@),
        decreases repo.remotes@.len() - i,
    {
        let ghost before = out@;
        out.push(repo.remotes[i].name.clone());
        proof {
            crate::text::lemma_strings_view_push(before, out@.last());
            assert(repo.remotes@.take(i + 1).map_values(|x: Remote| x.name@)
                =~= repo.remotes@.take(i as int).map_values(|x: Remote| x.name@).push(repo.remotes@[i as int].name@));
        }
        i = i + 1;
    }
    proof {
        assert(repo.remotes@.take(repo.remotes@.len() as int) =~= repo.remotes@);
    }
    out
}

pub open spec fn is_first_remote(rs: Seq<Remote>, name: Seq<char>, i: int) -> bool {
    &&& 0 <= i < rs.len()
    &&& rs[i].name@ == name
    &&& forall|j: int| 0 <= j < i ==> (#[trigger] rs[j]).name@ != name
}

fn remote_index(repo: &RepoView, remote: &str) -> (r: Option<usize>)
    ensures
        match r {
            Some(k) => is_first_remote(repo.remotes@, remote@, k as int),
            None => forall|j: int| 0 <= j < repo.remotes@.len() ==> (#[trigger] repo.remotes@[j]).name@ != remote@,
        },
{
    let mut k: usize = 0;
    while k < repo.remotes.len()
        invariant
            k <= repo.remotes@.len(),
            forall|j: int| 0 <= j < k ==> (#[trigger] repo.remotes@[j]).name@ != remote@,
        decreases repo.remotes@.len() - k,
    {
        if same_text(repo.remotes[k].name.as_str(), remote) {
            return Some(k);
        }
        k = k + 1;
    }
    None
}

/// The branch `b` of the remote, without the `<remote>/` prefix, is `t`.
pub open spec fn names_target(bs: Seq<RemoteBranch>, prefix: Seq<char>, t: Seq<char>) -> bool {
    exists|i: int| 0 <= i < bs.len() && starts_with((#[trigger] bs[i]).name@, prefix)
        && bs[i].name@.skip(prefix.len() as int) == t
}

/// `t` is a push target: a branch of the first remote named `remote`,
/// without its `<remote>/` prefix.
pub open spec fn is_push_target(rs: Seq<Remote>, remote: Seq<char>, t: Seq<char>) -> bool {
    exists|i: int| is_first_remote(rs, remote, i) && names_target(rs[i].branches@, remote + "/"@, t)
}

/// The branches already on the chosen remote, as names to push to: its
/// branches that carry its prefix, stripped of it, sorted and without
/// repeats. None when no remote has that name.
pub fn push_targets(repo: &RepoView, remote: &str) -> (r: Vec<String>)
    ensures
        strictly_sorted(strings_view(r@)),
        forall|t: Seq<char>| strings_view(r@).contains(t) <==> is_push_target(repo.remotes@, remote@, t),
{
    let found = remote_index(repo, remote);
    let mut out: Vec<String> = Vec::new();
    let k = match found {
        Some(k) => k,
        None => {
            proof {
                assert forall|t: Seq<char>| !is_push_target(repo.remotes@, remote@, t) by {
                    if is_push_target(repo.remotes@, remote@, t) {
                        let i = choose|i: int| is_first_remote(repo.remotes@, remote@, i)
                            && names_target(repo.remotes@[i].branches@, remote@ + "/"@, t);
                        assert(repo.remotes@[i].name@ != remote@);
                    }
                }
            }
            return out;
        },
    };
    let r = &repo.remotes[k];
    let prefix = concat(remote, "/");
    let pv = chars_of(prefix.as_str());
    let mut i: usize = 0;
    while i < r.branches.len()
        invariant
            i <= r.branches@.len(),
            *r == repo.remotes@[k as int],
            is_first_remote(repo.remotes@, remote@, k as int),
            pv@ == prefix@,
            prefix@ == remote@ + "/"@,
            strictly_sorted(strings_view(out@)),
            forall|t: Seq<char>| strings_view(out@).contains(t) <==> names_target(r.branches@.take(i as int), prefix@, t),
        decreases r.branches@.len() - i,
    {
        let name = &r.branches[i].name;
        let nv = chars_of(name.as_str());
        let ghost before = strings_view(out@);
        if starts_with_exec(&nv, &pv) {
            let t = substring(name.as_str(), pv.len(), nv.len());
            let ghost tv = t@;
            insert_sorted(&mut out, t);
            proof {
                assert(tv == name@.skip(prefix@.len() as int));
                assert forall|u: Seq<char>| strings_view(out@).contains(u) <==> names_target(r.branches@.take(i + 1), prefix@, u) by {
                    let bs = r.branches@.take(i + 1);
                    if names_target(bs, prefix@, u) {
                        let j = choose|j: int| 0 <= j < bs.len() && starts_with((#[trigger] bs[j]).name@, prefix@)
                            && bs[j].name@.skip(prefix@.len() as int) == u;
                        if j < i {
                            assert(r.branches@.take(i as int)[j] == bs[j]);
                            assert(names_target(r.branches@.take(i as int), prefix@, u));
                        }
                    }
                    if names_target(r.branches@.take(i as int), prefix@, u) {
                        let j = choose|j: int| 0 <= j < i && starts_with((#[trigger] r.branches@.take(i as int)[j]).name@, prefix@)
                            && r.branches@.take(i as int)[j].name@.skip(prefix@.len() as int) == u;
                        assert(bs[j] == r.branches@.take(i as int)[j]);
                    }
                    if u == tv {
                        assert(bs[i as int] == r.branches@[i as int]);
                    }
                }
            }
        } else {
            proof {
                assert forall|u: Seq<char>| names_target(r.branches@.take(i + 1), prefix@, u) <==> names_target(r.branches@.take(i as int), prefix@, u) by {
                    let bs = r.branches@.take(i + 1);
                    if names_target(bs, prefix@, u) {
                        let j = choose|j: int| 0 <= j < bs.len() && starts_with((#[trigger] bs[j]).name@, prefix@)
                            && bs[j].name@.skip(prefix@.len() as int) == u;
                        assert(j != i);
                        assert(r.branches@.take(i as int)[j] == bs[j]);
                    }
                    if names_target(r.branches@.take(i as int), prefix@, u) {
                        let j = choose|j: int| 0 <= j < i && starts_with((#[trigger] r.branches@.take(i as int)[j]).name@, prefix@)
                            && r.branches@.take(i as int)[j].name@.skip(prefix@.len() as int) == u;
                        assert(bs[j] == r.branches@.take(i as int)[j]);
                    }
                }
            }
        }
        i = i + 1;
    }
    proof {
        assert(r.branches@.take(r.branches@.len() as int) =~= r.branches@);
        assert forall|t: Seq<char>| strings_view(out@).contains(t) <==> is_push_target(repo.remotes@, remote@, t) by {
            if is_push_target(repo.remotes@, remote@, t) {
                let w = choose|w: int| is_first_remote(repo.remotes@, remote@, w)
                    && names_target(repo.remotes@[w].branches@, remote@ + "/"@, t);
                assert(w == k) by {
                    if w < k {
                        assert(repo.remotes@[w].name@ != remote@);
                    } else if w > k {
                        assert(repo.remotes@[k as int].name@ != remote@);
                    }
                }
            }
        }
    }
    out
}

/// The cherry-pick dialog, opened without a commit, takes the clicked row
/// (unless that is the working-tree row).
pub fn prefill_cherry_pick(s: &mut CherryPickModalState, primary: &Option<String>)
    ensures
        final(s).oid@ == (if old(s).oid@.len() == 0 && (primary matches Some(p) && p@ != working_tree_id()) {
            primary->Some_0@
        } else {
            old(s).oid@
        }),
        final(s).no_commit == old(s).no_commit,
        final(s).error == old(s).error,
{
    if s.oid.unicode_len() == 0 {
        match primary {
            Some(p) => {
                if !same_text(p.as_str(), working_tree_oid()) {
                    s.oid = p.clone();
                }
            },
            None => {},
        }
    }
}

} // verus!
