//! Lane-assignment for the commit graph.
//!
//! Given an ordered list of commits (newest first, as for `git log`), produce a
//! per-row layout describing which column the commit sits in, which columns
//! have lines passing through, and which terminate at this row.
//!
//! Algorithm outline:
//!   * Maintain `active[col] = Some(expected_oid)` — the commit we're next
//!     expecting to draw in each column.
//!   * For each incoming commit (in order):
//!       1. If its oid matches some active column, reuse the lowest such
//!          column; otherwise take the lowest-index free column.
//!       2. "Through" columns = all active columns other than our own.
//!       3. "Terminating" columns = the other columns that were expecting
//!          this commit; they collapse into ours.
//!       4. Our column now expects the first parent; every further parent
//!          gets a fresh column.
//!
//! The state machine is written out as spec functions (`step`, `layout`),
//! `compute` is proved to follow it exactly, and the laws at the end of the
//! file are proved about it.
use vstd::prelude::*;

use crate::model::commit::Commit;

verus! {

#[derive(Clone, Debug, Default)]
pub struct RowLayout {
    /// Column (0-indexed) where this commit's node is drawn.
    pub column: u8,
    /// Columns (other than `column`) that have a vertical line passing through this row.
    pub through: Vec<u8>,
    /// Columns that terminate at this row (half-line at top, no node).
    pub terminating: Vec<u8>,
    /// Commit has more than one parent.
    pub is_merge: bool,
    /// For each parent beyond the first: the column it is assigned to.
    pub extra_parent_columns: Vec<u8>,
    /// True when no earlier row chained into `column` (a branch tip).
    pub lane_starts_here: bool,
    /// True when this commit has no parents (a root).
    pub lane_ends_here: bool,
    /// Max column index across the whole batch.
    pub max_column: u8,
}

/// The slots of the lane machine: `Some(oid)` is the commit a column expects next.
pub type Slots = Seq<Option<Seq<char>>>;

/// A row of the layout in unbounded column numbers.
pub struct RowSpec {
    pub column: int,
    pub through: Seq<int>,
    pub terminating: Seq<int>,
    pub is_merge: bool,
    pub extra: Seq<int>,
    pub starts: bool,
    pub ends: bool,
}

pub open spec fn slot_view(o: Option<String>) -> Option<Seq<char>> {
    match o {
        Some(s) => Some(s@),
        None => None,
    }
}

pub open spec fn slots_view(v: Seq<Option<String>>) -> Slots {
    v.map_values(|o: Option<String>| slot_view(o))
}

pub open spec fn parents_view(c: Commit) -> Seq<Seq<char>> {
    c.parents@.map_values(|p: String| p@)
}

pub open spec fn commits_view(cs: Seq<Commit>) -> Seq<(Seq<char>, Seq<Seq<char>>)> {
    cs.map_values(|c: Commit| (c.oid@, parents_view(c)))
}

/// Indices below `n` whose slot expects `oid`, in increasing order.
pub open spec fn matches_below(a: Slots, oid: Seq<char>, n: int) -> Seq<int>
    decreases n,
{
    if n <= 0 {
        Seq::empty()
    } else if a[n - 1] == Some(oid) {
        matches_below(a, oid, n - 1).push(n - 1)
    } else {
        matches_below(a, oid, n - 1)
    }
}

/// Every slot that expected `oid` is cleared.
pub open spec fn vacate(a: Slots, oid: Seq<char>) -> Slots {
    Seq::new(a.len(), |i: int| if a[i] == Some(oid) { None } else { a[i] })
}

pub open spec fn is_first_free(a: Slots, i: int) -> bool {
    &&& 0 <= i < a.len()
    &&& a[i] is None
    &&& forall|j: int| 0 <= j < i ==> a[j] is Some
}

/// Lowest free index, or the length when every slot is taken.
pub open spec fn first_free(a: Slots) -> int {
    if exists|i: int| is_first_free(a, i) {
        choose|i: int| is_first_free(a, i)
    } else {
        a.len() as int
    }
}

/// Take the lowest free slot, growing the slots by one when none is free.
pub open spec fn allocate(a: Slots) -> (Slots, int) {
    let f = first_free(a);
    if f < a.len() {
        (a, f)
    } else {
        (a.push(None), a.len() as int)
    }
}

/// Whether some terminating column has the same `u8` number as `i`.
pub open spec fn term_hits(term: Seq<int>, i: int) -> bool {
    exists|k: int| 0 <= k < term.len() && (term[k] as u8) == (i as u8)
}

/// Columns below `n` that keep a vertical stroke at this row.
pub open spec fn through_below(a: Slots, column: int, term: Seq<int>, n: int) -> Seq<int>
    decreases n,
{
    if n <= 0 {
        Seq::empty()
    } else if n - 1 != column && !term_hits(term, n - 1) && a[n - 1] is Some {
        through_below(a, column, term, n - 1).push(n - 1)
    } else {
        through_below(a, column, term, n - 1)
    }
}

/// Give each of `ps` a fresh column, in order.
pub open spec fn place_extras(a: Slots, ps: Seq<Seq<char>>) -> (Slots, Seq<int>)
    decreases ps.len(),
{
    if ps.len() == 0 {
        (a, Seq::empty())
    } else {
        let (a1, cols) = place_extras(a, ps.drop_last());
        let (a2, f) = allocate(a1);
        (a2.update(f, Some(ps.last())), cols.push(f))
    }
}

/// Column and slots right after the commit has claimed its column.
pub open spec fn claim(a: Slots, oid: Seq<char>) -> (Slots, int) {
    let m = matches_below(a, oid, a.len() as int);
    if m.len() > 0 {
        (vacate(a, oid), m[0])
    } else {
        allocate(a)
    }
}

/// The parents after the first (none when there is none).
pub open spec fn later_parents(ps: Seq<Seq<char>>) -> Seq<Seq<char>> {
    if ps.len() > 0 { ps.drop_first() } else { Seq::empty() }
}

/// One transition of the lane machine: the slots after the commit and its row.
pub open spec fn step(a: Slots, oid: Seq<char>, parents: Seq<Seq<char>>) -> (Slots, RowSpec) {
    let m = matches_below(a, oid, a.len() as int);
    let (a1, column) = claim(a, oid);
    let term = if m.len() > 0 { m.drop_first() } else { Seq::empty() };
    let through = through_below(a1, column, term, a1.len() as int);
    let a2 = if parents.len() > 0 { a1.update(column, Some(parents[0])) } else { a1 };
    let (a3, extra) = place_extras(a2, later_parents(parents));
    (a3, RowSpec {
        column,
        through,
        terminating: term,
        is_merge: parents.len() > 1,
        extra,
        starts: m.len() == 0,
        ends: parents.len() == 0,
    })
}

/// The slots and rows after the first `n` commits.
pub open spec fn layout(cs: Seq<(Seq<char>, Seq<Seq<char>>)>, n: int) -> (Slots, Seq<RowSpec>)
    decreases n,
{
    if n <= 0 {
        (Seq::empty(), Seq::empty())
    } else {
        let (a, rows) = layout(cs, n - 1);
        let (a2, r) = step(a, cs[n - 1].0, cs[n - 1].1);
        (a2, rows.push(r))
    }
}

/// Largest `u8` column number among the first `n` of `s` (0 when none).
pub open spec fn max_u8(s: Seq<int>, n: int) -> u8
    decreases n,
{
    if n <= 0 {
        0
    } else {
        let m = max_u8(s, n - 1);
        let x = s[n - 1] as u8;
        if m >= x { m } else { x }
    }
}

pub open spec fn max3(a: u8, b: u8, c: u8) -> u8 {
    let ab = if a >= b { a } else { b };
    if ab >= c { ab } else { c }
}

/// Largest column number a row mentions: its own, a through column or a fork column.
pub open spec fn row_peak(r: RowSpec) -> u8 {
    max3(r.column as u8, max_u8(r.through, r.through.len() as int), max_u8(r.extra, r.extra.len() as int))
}

/// Largest `row_peak` over the first `n` rows (0 when none).
pub open spec fn peak_below(rows: Seq<RowSpec>, n: int) -> u8
    decreases n,
{
    if n <= 0 {
        0
    } else {
        let m = peak_below(rows, n - 1);
        let x = row_peak(rows[n - 1]);
        if m >= x { m } else { x }
    }
}

pub open spec fn as_u8s(s: Seq<int>) -> Seq<u8> {
    s.map_values(|x: int| x as u8)
}

/// The executable row is the spec row in `u8` column numbers.
pub open spec fn row_matches(r: RowLayout, s: RowSpec, max_column: u8) -> bool {
    &&& r.column == s.column as u8
    &&& r.through@ == as_u8s(s.through)
    &&& r.terminating@ == as_u8s(s.terminating)
    &&& r.is_merge == s.is_merge
    &&& r.extra_parent_columns@ == as_u8s(s.extra)
    &&& r.lane_starts_here == s.starts
    &&& r.lane_ends_here == s.ends
    &&& r.max_column == max_column
}

/// The layout of a whole batch.
pub open spec fn spec_layout(cs: Seq<(Seq<char>, Seq<Seq<char>>)>) -> Seq<RowSpec> {
    layout(cs, cs.len() as int).1
}

// ── executable pieces ───────────────────────────────────────────────────

/// Clear every slot expecting `oid`; return the lowest such slot and the others.
fn claim_matches(active: &mut Vec<Option<String>>, oid: &String) -> (res: (Option<usize>, Vec<u8>))
    ensures
        slots_view(final(active)@) == vacate(slots_view(old(active)@), oid@),
        ({
            let m = matches_below(slots_view(old(active)@), oid@, old(active)@.len() as int);
            &&& (res.0 is None <==> m.len() == 0)
            &&& (res.0 matches Some(c) ==> c == m[0])
            &&& res.1@ == (if m.len() > 0 { as_u8s(m.drop_first()) } else { Seq::empty() })
        }),
{
    let ghost a0 = slots_view(active@);
    let mut column_idx: Option<usize> = None;
    let mut terminating: Vec<u8> = Vec::new();
    let n = active.len();
    let mut i: usize = 0;
    while i < n
        invariant
            n == active@.len(),
            a0.len() == n,
            i <= n,
            forall|j: int| 0 <= j < i ==> slots_view(active@)[j] == (if a0[j] == Some(oid@) { None } else { a0[j] }),
            forall|j: int| i <= j < n ==> slots_view(active@)[j] == a0[j],
            ({
                let m = matches_below(a0, oid@, i as int);
                &&& (column_idx is None <==> m.len() == 0)
                &&& (column_idx matches Some(c) ==> c == m[0])
                &&& terminating@ == (if m.len() > 0 { as_u8s(m.drop_first()) } else { Seq::empty() })
            }),
        decreases n - i,
    {
        let hit = match &active[i] {
            Some(s) => *s == *oid,
            None => false,
        };
        proof {
            assert(slots_view(active@)[i as int] == a0[i as int]);
        }
        let ghost m_prev = matches_below(a0, oid@, i as int);
        if hit {
            match column_idx {
                None => {
                    column_idx = Some(i);
                },
                Some(_) => {
                    terminating.push(i as u8);
                },
            }
            active.set(i, None);
            proof {
                let m = matches_below(a0, oid@, i + 1);
                assert(m == m_prev.push(i as int));
                if m_prev.len() > 0 {
                    assert(m.drop_first() == m_prev.drop_first().push(i as int));
                    assert(as_u8s(m.drop_first()) == as_u8s(m_prev.drop_first()).push(i as u8));
                } else {
                    assert(m.drop_first() =~= Seq::<int>::empty());
                }
            }
        }
        i = i + 1;
    }
    proof {
        assert(slots_view(active@) =~= vacate(a0, oid@));
    }
    (column_idx, terminating)
}

/// Lowest free slot, or the length when none is free.
fn first_free_slot(active: &Vec<Option<String>>) -> (r: usize)
    ensures
        r == first_free(slots_view(active@)),
        r <= active@.len(),
{
    let ghost a = slots_view(active@);
    let n = active.len();
    let mut i: usize = 0;
    while i < n
        invariant
            n == active@.len(),
            a == slots_view(active@),
            i <= n,
            forall|j: int| 0 <= j < i ==> a[j] is Some,
        decreases n - i,
    {
        if active[i].is_none() {
            proof {
                assert(is_first_free(a, i as int));
                let w = choose|k: int| is_first_free(a, k);
                assert(w == i) by {
                    if w < i {
                        assert(a[w] is Some);
                    } else if w > i {
                        assert(a[i as int] is Some);
                    }
                }
            }
            return i;
        }
        i = i + 1;
    }
    proof {
        assert(!exists|k: int| is_first_free(a, k));
    }
    n
}

/// Take the lowest free slot, growing the slots when all are taken.
fn allocate_slot(active: &mut Vec<Option<String>>) -> (r: usize)
    ensures
        (slots_view(final(active)@), r as int) == allocate(slots_view(old(active)@)),
        r < final(active)@.len(),
{
    let f = first_free_slot(active);
    if f < active.len() {
        active.set(f, None);
        proof {
            assert(slots_view(active@) =~= slots_view(old(active)@));
        }
        f
    } else {
        active.push(None);
        proof {
            assert(slots_view(active@) =~= slots_view(old(active)@).push(None));
        }
        active.len() - 1
    }
}

fn contains_u8(v: &Vec<u8>, x: u8) -> (r: bool)
    ensures
        r == v@.contains(x),
{
    let mut i: usize = 0;
    while i < v.len()
        invariant
            i <= v@.len(),
            forall|j: int| 0 <= j < i ==> v@[j] != x,
        decreases v@.len() - i,
    {
        if v[i] == x {
            return true;
        }
        i = i + 1;
    }
    false
}

proof fn lemma_term_hits(term: Seq<int>, i: int)
    ensures
        as_u8s(term).contains(i as u8) == term_hits(term, i),
{
    if as_u8s(term).contains(i as u8) {
        let k = choose|k: int| 0 <= k < as_u8s(term).len() && as_u8s(term)[k] == i as u8;
        assert((term[k] as u8) == (i as u8));
    }
    if term_hits(term, i) {
        let k = choose|k: int| 0 <= k < term.len() && (term[k] as u8) == (i as u8);
        assert(as_u8s(term)[k] == i as u8);
    }
}

/// Columns other than `column` and the terminating ones that still hold an expected oid.
fn through_columns(active: &Vec<Option<String>>, column: usize, terminating: &Vec<u8>, Ghost(term): Ghost<Seq<int>>) -> (r: Vec<u8>)
    requires
        terminating@ == as_u8s(term),
    ensures
        r@ == as_u8s(through_below(slots_view(active@), column as int, term, active@.len() as int)),
{
    let ghost a = slots_view(active@);
    let mut out: Vec<u8> = Vec::new();
    let n = active.len();
    let mut i: usize = 0;
    while i < n
        invariant
            n == active@.len(),
            a == slots_view(active@),
            terminating@ == as_u8s(term),
            i <= n,
            out@ == as_u8s(through_below(a, column as int, term, i as int)),
        decreases n - i,
    {
        proof {
            lemma_term_hits(term, i as int);
        }
        let some = active[i].is_some();
        if i != column && !contains_u8(terminating, i as u8) && some {
            out.push(i as u8);
            proof {
                assert(as_u8s(through_below(a, column as int, term, i + 1))
                    =~= as_u8s(through_below(a, column as int, term, i as int)).push(i as u8));
            }
        } else {
            proof {
                assert(through_below(a, column as int, term, i + 1) == through_below(a, column as int, term, i as int));
            }
        }
        i = i + 1;
    }
    out
}

fn max_in(v: &Vec<u8>, Ghost(s): Ghost<Seq<int>>) -> (r: u8)
    requires
        v@ == as_u8s(s),
    ensures
        r == max_u8(s, s.len() as int),
{
    let mut m: u8 = 0;
    let mut i: usize = 0;
    while i < v.len()
        invariant
            v@ == as_u8s(s),
            i <= v@.len(),
            m == max_u8(s, i as int),
        decreases v@.len() - i,
    {
        if v[i] > m {
            m = v[i];
        }
        i = i + 1;
    }
    m
}

/// Lay out `commits` (newest first). Row `k` is the spec layout's row `k`
/// in `u8` column numbers, and every row carries the batch's largest
/// column number.
pub fn compute(commits: &[Commit]) -> (out: Vec<RowLayout>)
    ensures
        out@.len() == commits@.len(),
        forall|k: int| 0 <= k < out@.len() ==> row_matches(
            #[trigger] out@[k],
            spec_layout(commits_view(commits@))[k],
            peak_below(spec_layout(commits_view(commits@)), commits@.len() as int),
        ),
{
    let ghost cs = commits_view(commits@);
    let mut active: Vec<Option<String>> = Vec::new();
    let mut out: Vec<RowLayout> = Vec::new();
    let ghost mut specs: Seq<RowSpec> = Seq::empty();
    let n = commits.len();
    let mut idx: usize = 0;
    while idx < n
        invariant
            n == commits@.len(),
            cs == commits_view(commits@),
            idx <= n,
            (slots_view(active@), specs) == layout(cs, idx as int),
            out@.len() == idx,
            specs.len() == idx,
            forall|k: int| 0 <= k < idx ==> row_matches(#[trigger] out@[k], specs[k], 0),
        decreases n - idx,
    {
        let c = &commits[idx];
        let ghost a = slots_view(active@);
        let ghost oid = c.oid@;
        let ghost ps = parents_view(*c);
        assert(cs[idx as int] == (oid, ps));
        let ghost m = matches_below(a, oid, a.len() as int);

        // 1. Find or allocate a column for this commit.
        assert(a.len() == active@.len());
        proof {
            lemma_matches_sorted(a, oid, a.len() as int);
        }
        let (column_idx, terminating) = claim_matches(&mut active, &c.oid);
        assert(terminating@ == (if m.len() > 0 { as_u8s(m.drop_first()) } else { Seq::<u8>::empty() }));
        assert(slots_view(active@).len() == active@.len());
        let column = match column_idx {
            Some(col) => {
                assert(col == m[0]);
                assert(m[0] < a.len());
                col
            },
            None => {
                proof {
                    assert(vacate(a, oid) =~= a) by {
                        assert forall|j: int| 0 <= j < a.len() implies a[j] != Some(oid) by {
                            if a[j] == Some(oid) {
                                lemma_matches_complete(a, oid, a.len() as int, j);
                            }
                        }
                    }
                }
                allocate_slot(&mut active)
            },
        };
        let ghost a1 = slots_view(active@);
        assert(column < active@.len());
        let ghost term = if m.len() > 0 { m.drop_first() } else { Seq::<int>::empty() };
        assert((a1, column as int) == claim(a, oid));

        // 2. Through columns.
        proof {
            if m.len() == 0 {
                assert(as_u8s(term) =~= Seq::<u8>::empty());
            }
        }
        let through = through_columns(&active, column, &terminating, Ghost(term));

        // 3. Assign parents.
        let np = c.parents.len();
        if np > 0 {
            active.set(column, Some(c.parents[0].clone()));
        }
        let ghost a2 = slots_view(active@);
        proof {
            if np > 0 {
                assert(a2 =~= a1.update(column as int, Some(ps[0])));
            }
        }
        let mut extra_parent_columns: Vec<u8> = Vec::new();
        let ghost mut placed: Seq<int> = Seq::empty();
        let mut j: usize = 1;
        while j < np
            invariant
                np == c.parents@.len(),
                ps == parents_view(*c),
                1 <= j <= np || (np == 0 && j == 1),
                (slots_view(active@), placed) == place_extras(a2, later_parents(ps).take(j - 1)),
                extra_parent_columns@ == as_u8s(placed),
            decreases np - j,
        {
            let ghost before = slots_view(active@);
            let free = allocate_slot(&mut active);
            active.set(free, Some(c.parents[j].clone()));
            extra_parent_columns.push(#[verifier::truncate] (free as u8));
            proof {
                let pre = later_parents(ps).take(j - 1);
                let post = later_parents(ps).take(j as int);
                assert(post.drop_last() =~= pre);
                assert(post.last() == ps[j as int]);
                let (b1, f) = allocate(before);
                assert(slots_view(active@) =~= b1.update(f, Some(ps[j as int])));
                placed = placed.push(free as int);
                assert(as_u8s(placed) =~= as_u8s(placed.drop_last()).push(#[verifier::truncate] (free as u8)));
            }
            j = j + 1;
        }
        proof {
            if np > 0 {
                assert(later_parents(ps).take(np - 1) =~= later_parents(ps));
            } else {
                assert(later_parents(ps).take(0) =~= later_parents(ps));
            }
        }

        let row = RowLayout {
            column: #[verifier::truncate] (column as u8),
            through,
            terminating,
            is_merge: np > 1,
            extra_parent_columns,
            lane_starts_here: column_idx.is_none(),
            lane_ends_here: np == 0,
            max_column: 0,
        };
        let ghost out_before = out@;
        out.push(row);
        proof {
            let (s3, r) = step(a, oid, ps);
            assert(slots_view(active@) == s3);
            assert(r.column == column);
            assert(r.terminating == term);
            assert(row.through@ == as_u8s(r.through));
            assert(row.extra_parent_columns@ == as_u8s(r.extra));
            assert(row.lane_starts_here == r.starts);
            assert(row_matches(row, r, 0));
            let specs_before = specs;
            specs = specs.push(r);
            assert forall|k: int| 0 <= k < idx + 1 implies row_matches(#[trigger] out@[k], specs[k], 0) by {
                if k < idx {
                    assert(out@[k] == out_before[k]);
                    assert(specs[k] == specs_before[k]);
                    assert(row_matches(out_before[k], specs_before[k], 0));
                } else {
                    assert(out@[k] == row);
                    assert(specs[k] == r);
                }
            }
        }
        idx = idx + 1;
    }

    proof {
        lemma_layout_len(cs, n as int);
    }
    // Second pass: the largest column over all rows.
    let mut max_col: u8 = 0;
    let mut k: usize = 0;
    while k < out.len()
        invariant
            specs == spec_layout(cs),
            specs.len() == out@.len(),
            k <= out@.len(),
            max_col == peak_below(specs, k as int),
            forall|q: int| 0 <= q < out@.len() ==> row_matches(#[trigger] out@[q], specs[q], 0),
        decreases out@.len() - k,
    {
        let r = &out[k];
        assert(row_matches(out@[k as int], specs[k as int], 0));
        let t = max_in(&r.through, Ghost(specs[k as int].through));
        let e = max_in(&r.extra_parent_columns, Ghost(specs[k as int].extra));
        let mut p = r.column;
        if t > p {
            p = t;
        }
        if e > p {
            p = e;
        }
        if p > max_col {
            max_col = p;
        }
        k = k + 1;
    }
    let mut q: usize = 0;
    let ghost base = out@;
    while q < out.len()
        invariant
            out@.len() == base.len(),
            specs.len() == base.len(),
            q <= out@.len(),
            forall|x: int| 0 <= x < q ==> row_matches(#[trigger] out@[x], specs[x], max_col),
            forall|x: int| q <= x < out@.len() ==> #[trigger] out@[x] == base[x],
            forall|x: int| 0 <= x < base.len() ==> row_matches(#[trigger] base[x], specs[x], 0),
        decreases out@.len() - q,
    {
        out[q].max_column = max_col;
        q = q + 1;
    }
    out
}

/// Matching indices are increasing and lie below `n`.
pub proof fn lemma_matches_sorted(a: Slots, oid: Seq<char>, n: int)
    ensures
        forall|k: int| 0 <= k < matches_below(a, oid, n).len() ==> 0 <= #[trigger] matches_below(a, oid, n)[k] < n,
        forall|k: int, l: int| 0 <= k < l < matches_below(a, oid, n).len() ==>
            matches_below(a, oid, n)[k] < matches_below(a, oid, n)[l],
        forall|k: int| 0 <= k < matches_below(a, oid, n).len() ==> a[#[trigger] matches_below(a, oid, n)[k]] == Some(oid),
    decreases n,
{
    if n > 0 {
        lemma_matches_sorted(a, oid, n - 1);
    }
}

/// The layout has one row per commit laid out.
pub proof fn lemma_layout_len(cs: Seq<(Seq<char>, Seq<Seq<char>>)>, n: int)
    requires
        0 <= n,
    ensures
        layout(cs, n).1.len() == n,
    decreases n,
{
    if n > 0 {
        lemma_layout_len(cs, n - 1);
    }
}

proof fn lemma_matches_complete(a: Slots, oid: Seq<char>, n: int, j: int)
    requires
        0 <= j < n <= a.len(),
        a[j] == Some(oid),
    ensures
        matches_below(a, oid, n).len() > 0,
    decreases n,
{
    if j < n - 1 {
        lemma_matches_complete(a, oid, n - 1, j);
    }
}

// ── laws ────────────────────────────────────────────────────────────────

/// `allocate` hands out a free slot: an existing empty one (the lowest), or a
/// new slot at the end when every slot is taken; no other slot changes.
pub proof fn lemma_allocate(a: Slots)
    ensures
        ({
            let (a1, f) = allocate(a);
            &&& 0 <= f < a1.len()
            &&& a1[f] is None
            &&& a1.len() == a.len() || a1.len() == a.len() + 1
            &&& forall|i: int| 0 <= i < a.len() ==> a1[i] == a[i]
            &&& forall|i: int| 0 <= i < f ==> a1[i] is Some
            &&& (f == a.len() <==> a1.len() == a.len() + 1)
        }),
{
    if exists|i: int| is_first_free(a, i) {
        let w = choose|i: int| is_first_free(a, i);
        assert(is_first_free(a, w));
    } else {
        assert forall|i: int| 0 <= i < a.len() implies a[i] is Some by {
            if a[i] is None {
                lemma_some_first_free(a, i);
            }
        }
    }
}

proof fn lemma_some_first_free(a: Slots, i: int)
    requires
        0 <= i < a.len(),
        a[i] is None,
    ensures
        exists|j: int| is_first_free(a, j),
    decreases i,
{
    if exists|j: int| 0 <= j < i && a[j] is None {
        let j = choose|j: int| 0 <= j < i && a[j] is None;
        lemma_some_first_free(a, j);
    } else {
        assert(is_first_free(a, i));
    }
}

/// Placing extra parents fills only slots that were free (or new), each with
/// its parent, in distinct columns, and leaves every occupied slot alone.
#[verifier::spinoff_prover]
pub proof fn lemma_place_extras(a: Slots, ps: Seq<Seq<char>>)
    ensures
        ({
            let (a3, cols) = place_extras(a, ps);
            &&& cols.len() == ps.len()
            &&& a3.len() >= a.len()
            &&& forall|i: int| 0 <= i < a.len() && a[i] is Some ==> a3[i] == a[i]
            &&& forall|k: int| 0 <= k < cols.len() ==> 0 <= #[trigger] cols[k] < a3.len()
            &&& forall|k: int| 0 <= k < cols.len() ==> a3[#[trigger] cols[k]] == Some(ps[k])
            &&& forall|k: int| 0 <= k < cols.len() && #[trigger] cols[k] < a.len() ==> a[cols[k]] is None
            &&& forall|k: int, l: int| 0 <= k < l < cols.len() ==> cols[k] != cols[l]
        }),
    decreases ps.len(),
{
    if ps.len() > 0 {
        let (a1, cols) = place_extras(a, ps.drop_last());
        lemma_place_extras(a, ps.drop_last());
        lemma_allocate(a1);
        let (a2, f) = allocate(a1);
        let a3 = a2.update(f, Some(ps.last()));
        let cols2 = cols.push(f);
        assert forall|k: int| 0 <= k < cols.len() implies cols[k] != f by {
            assert(a1[cols[k]] == Some(ps.drop_last()[k]));
        }
        assert forall|k: int| 0 <= k < cols2.len() implies a3[#[trigger] cols2[k]] == Some(ps[k]) by {
            if k < cols.len() {
                assert(a1[cols[k]] == Some(ps.drop_last()[k]));
            }
        }
    }
}

/// Rows record the commit's shape: a merge flag for more than one parent,
/// an end-of-lane flag for none, one fork column per extra parent, and a
/// lane start exactly when no earlier row left a column expecting the commit.
#[verifier::spinoff_prover]
pub proof fn law_row_shape(cs: Seq<(Seq<char>, Seq<Seq<char>>)>, k: int)
    requires
        0 <= k < cs.len(),
    ensures
        ({
            let r = spec_layout(cs)[k];
            let before = layout(cs, k).0;
            let ps = cs[k].1;
            &&& r.is_merge == (ps.len() > 1)
            &&& r.ends == (ps.len() == 0)
            &&& r.extra.len() == (if ps.len() > 0 { ps.len() - 1 } else { 0 })
            &&& r.starts == !before.contains(Some(cs[k].0))
        }),
{
    lemma_layout_prefix(cs, k + 1, cs.len() as int);
    let before = layout(cs, k).0;
    let oid = cs[k].0;
    let ps = cs[k].1;
    lemma_matches_sorted(before, oid, before.len() as int);
    let m = matches_below(before, oid, before.len() as int);
    if before.contains(Some(oid)) {
        let j = choose|j: int| 0 <= j < before.len() && before[j] == Some(oid);
        lemma_matches_complete(before, oid, before.len() as int, j);
    }
    if m.len() > 0 {
        assert(before[m[0]] == Some(oid));
    }
    lemma_layout_len(cs, k);
    let r = step(before, oid, ps).1;
    assert(layout(cs, k + 1).1 == layout(cs, k).1.push(r));
    assert(spec_layout(cs)[k] == layout(cs, k + 1).1[k]);
    assert(spec_layout(cs)[k] == r);
    let (a1, column) = claim(before, oid);
    let a2 = if ps.len() > 0 { a1.update(column, Some(ps[0])) } else { a1 };
    lemma_place_extras(a2, later_parents(ps));
}

/// The rows of a batch are the rows of every prefix of it: laying out more
/// commits never changes the rows already laid out.
pub proof fn lemma_layout_prefix(cs: Seq<(Seq<char>, Seq<Seq<char>>)>, n: int, m: int)
    requires
        0 <= n <= m,
    ensures
        layout(cs, m).1.len() == m,
        forall|k: int| 0 <= k < n ==> layout(cs, m).1[k] == #[trigger] layout(cs, n).1[k],
    decreases m,
{
    lemma_layout_len(cs, m);
    lemma_layout_len(cs, n);
    if n < m {
        lemma_layout_prefix(cs, n, m - 1);
        lemma_layout_len(cs, m - 1);
    }
}

/// Through columns are increasing, below `n`, and each one is occupied,
/// differs from `column` and from every terminating column.
pub proof fn lemma_through(a: Slots, column: int, term: Seq<int>, n: int)
    ensures
        ({
            let t = through_below(a, column, term, n);
            &&& forall|k: int| 0 <= k < t.len() ==> 0 <= #[trigger] t[k] < n
            &&& forall|k: int| 0 <= k < t.len() ==> #[trigger] t[k] != column && a[t[k]] is Some && !term_hits(term, t[k])
            &&& forall|k: int, l: int| 0 <= k < l < t.len() ==> t[k] < t[l]
        }),
    decreases n,
{
    if n > 0 {
        lemma_through(a, column, term, n - 1);
    }
}

/// Each row is consistent: the through columns are increasing and never the
/// commit's own column; the terminating columns are increasing, lie right of
/// the commit's column and never pass through; the fork columns of a merge
/// are distinct, differ from the commit's column, and never reuse a column
/// that passes through the row.
#[verifier::spinoff_prover]
pub proof fn law_row_columns(cs: Seq<(Seq<char>, Seq<Seq<char>>)>, k: int)
    requires
        0 <= k < cs.len(),
    ensures
        ({
            let r = spec_layout(cs)[k];
            &&& r.column >= 0
            &&& forall|i: int, j: int| 0 <= i < j < r.through.len() ==> r.through[i] < r.through[j]
            &&& forall|i: int| 0 <= i < r.through.len() ==> r.through[i] != r.column
            &&& forall|i: int, j: int| 0 <= i < j < r.terminating.len() ==> r.terminating[i] < r.terminating[j]
            &&& forall|i: int| 0 <= i < r.terminating.len() ==> r.terminating[i] > r.column
            &&& forall|i: int, j: int| 0 <= i < r.through.len() && 0 <= j < r.terminating.len()
                ==> r.through[i] != r.terminating[j]
            &&& forall|i: int, j: int| 0 <= i < j < r.extra.len() ==> r.extra[i] != r.extra[j]
            &&& cs[k].1.len() > 0 ==> forall|i: int| 0 <= i < r.extra.len() ==> r.extra[i] != r.column
            &&& forall|i: int, j: int| 0 <= i < r.extra.len() && 0 <= j < r.through.len()
                ==> r.extra[i] != r.through[j]
        }),
{
    lemma_layout_prefix(cs, k + 1, cs.len() as int);
    lemma_layout_len(cs, k);
    let before = layout(cs, k).0;
    let oid = cs[k].0;
    let ps = cs[k].1;
    let r = step(before, oid, ps).1;
    assert(layout(cs, k + 1).1 == layout(cs, k).1.push(r));
    assert(spec_layout(cs)[k] == layout(cs, k + 1).1[k]);
    lemma_matches_sorted(before, oid, before.len() as int);
    let m = matches_below(before, oid, before.len() as int);
    let (a1, column) = claim(before, oid);
    let term = if m.len() > 0 { m.drop_first() } else { Seq::<int>::empty() };
    lemma_allocate(before);
    lemma_through(a1, column, term, a1.len() as int);
    let through = through_below(a1, column, term, a1.len() as int);
    assert forall|i: int, j: int| 0 <= i < through.len() && 0 <= j < term.len()
        implies through[i] != term[j] by {
        if m.len() > 0 {
            assert(before[term[j]] == Some(oid));
            assert(a1[term[j]] is None);
        }
    }
    let a2 = if ps.len() > 0 { a1.update(column, Some(ps[0])) } else { a1 };
    lemma_place_extras(a2, later_parents(ps));
    let extra = place_extras(a2, later_parents(ps)).1;
    assert forall|i: int, j: int| 0 <= i < extra.len() && 0 <= j < through.len()
        implies extra[i] != through[j] by {
        if extra[i] == through[j] {
            assert(a1[through[j]] is Some);
            assert(a2[through[j]] is Some);
        }
    }
    if ps.len() > 0 {
        if m.len() == 0 {
            assert(column < a1.len());
        }
        assert(a2[column] is Some);
    }
}

proof fn lemma_matches_first_le(a: Slots, oid: Seq<char>, n: int, j: int)
    requires
        0 <= j < n <= a.len(),
        a[j] == Some(oid),
    ensures
        matches_below(a, oid, n).len() > 0,
        matches_below(a, oid, n)[0] <= j,
    decreases n,
{
    lemma_matches_complete(a, oid, n, j);
    if j < n - 1 {
        lemma_matches_first_le(a, oid, n - 1, j);
    } else {
        lemma_matches_sorted(a, oid, n);
        let m = matches_below(a, oid, n);
        assert(m.last() == n - 1);
    }
}

/// The slots after `n + 1` commits are the step from the slots after `n`.
proof fn lemma_layout_step(cs: Seq<(Seq<char>, Seq<Seq<char>>)>, n: int)
    requires
        0 <= n < cs.len(),
    ensures
        layout(cs, n + 1).0 == step(layout(cs, n).0, cs[n].0, cs[n].1).0,
        spec_layout(cs)[n] == step(layout(cs, n).0, cs[n].0, cs[n].1).1,
{
    lemma_layout_prefix(cs, n + 1, cs.len() as int);
    lemma_layout_len(cs, n);
    let r = step(layout(cs, n).0, cs[n].0, cs[n].1).1;
    assert(layout(cs, n + 1).1 == layout(cs, n).1.push(r));
    assert(spec_layout(cs)[n] == layout(cs, n + 1).1[n]);
}

/// A commit that is the first parent of the commit just above it continues
/// that commit's lane: its lane does not start at its row, and it sits in
/// that column or further left.
pub proof fn law_first_parent_continues(cs: Seq<(Seq<char>, Seq<Seq<char>>)>, k: int)
    requires
        0 <= k,
        k + 1 < cs.len(),
        cs[k].1.len() > 0,
        cs[k].1[0] == cs[k + 1].0,
    ensures
        !spec_layout(cs)[k + 1].starts,
        spec_layout(cs)[k + 1].column <= spec_layout(cs)[k].column,
{
    lemma_layout_step(cs, k);
    lemma_layout_step(cs, k + 1);
    let before = layout(cs, k).0;
    let oid = cs[k].0;
    let ps = cs[k].1;
    lemma_matches_sorted(before, oid, before.len() as int);
    let m = matches_below(before, oid, before.len() as int);
    let (a1, column) = claim(before, oid);
    lemma_allocate(before);
    if m.len() > 0 {
        assert(a1.len() == before.len());
    }
    let a2 = a1.update(column, Some(ps[0]));
    lemma_place_extras(a2, later_parents(ps));
    let a3 = layout(cs, k + 1).0;
    assert(a3 == place_extras(a2, later_parents(ps)).0);
    assert(a3[column] == Some(cs[k + 1].0));
    lemma_matches_first_le(a3, cs[k + 1].0, a3.len() as int, column);
}

/// Linear history (each commit's only parent is the next commit) stays in
/// column 0 with no other lines and nothing terminating.
pub proof fn law_linear_history(cs: Seq<(Seq<char>, Seq<Seq<char>>)>)
    requires
        forall|i: int| 0 <= i < cs.len() - 1 ==> #[trigger] cs[i].1 == seq![cs[i + 1].0],
    ensures
        forall|k: int| 0 <= k < cs.len() ==> {
            let r = #[trigger] spec_layout(cs)[k];
            &&& r.column == 0
            &&& r.through.len() == 0
            &&& r.terminating.len() == 0
        },
{
    assert forall|k: int| 0 <= k < cs.len() implies {
        let r = #[trigger] spec_layout(cs)[k];
        &&& r.column == 0
        &&& r.through.len() == 0
        &&& r.terminating.len() == 0
    } by {
        lemma_linear_slots(cs, k);
        lemma_layout_step(cs, k);
        let before = layout(cs, k).0;
        let oid = cs[k].0;
        if k == 0 {
            assert(before.len() == 0);
            assert(matches_below(before, oid, 0).len() == 0);
            lemma_allocate(before);
            assert(!is_first_free(before, 0));
            let (a1, column) = allocate(before);
            assert(a1 =~= seq![None]);
            assert(through_below(a1, column, Seq::empty(), 0).len() == 0);
        } else {
            assert(before == seq![Some(oid)]);
            assert(matches_below(before, oid, 0).len() == 0);
            assert(matches_below(before, oid, 1) == seq![0int]);
            let a1 = vacate(before, oid);
            assert(a1[0] is None);
            let term = seq![0int].drop_first();
            assert(term.len() == 0);
            assert(through_below(a1, 0, term, 0).len() == 0);
        }
    }
}

/// In a linear history the slots after `n` commits hold just the next commit.
proof fn lemma_linear_slots(cs: Seq<(Seq<char>, Seq<Seq<char>>)>, n: int)
    requires
        0 <= n < cs.len(),
        forall|i: int| 0 <= i < cs.len() - 1 ==> #[trigger] cs[i].1 == seq![cs[i + 1].0],
    ensures
        n == 0 ==> layout(cs, n).0.len() == 0,
        n > 0 ==> layout(cs, n).0 == seq![Some(cs[n].0)],
    decreases n,
{
    if n > 0 {
        lemma_linear_slots(cs, n - 1);
        lemma_layout_step(cs, n - 1);
        let before = layout(cs, n - 1).0;
        let oid = cs[n - 1].0;
        let ps = cs[n - 1].1;
        assert(ps == seq![cs[n].0]);
        assert(later_parents(ps).len() == 0);
        if n == 1 {
            assert(before.len() == 0);
            assert(matches_below(before, oid, 0).len() == 0);
            lemma_allocate(before);
            let (a1, column) = allocate(before);
            assert(a1.len() == 1);
            assert(a1.update(column, Some(ps[0])) =~= seq![Some(cs[n].0)]);
        } else {
            assert(before == seq![Some(oid)]);
            assert(matches_below(before, oid, 0).len() == 0);
            assert(matches_below(before, oid, 1) == seq![0int]);
            let a1 = vacate(before, oid);
            assert(a1.update(0, Some(ps[0])) =~= seq![Some(cs[n].0)]);
        }
    }
}

proof fn lemma_max_u8(s: Seq<int>, n: int)
    requires
        0 <= n <= s.len(),
    ensures
        forall|i: int| 0 <= i < n ==> (s[i] as u8) <= max_u8(s, n),
        max_u8(s, n) == 0 || exists|i: int| 0 <= i < n && (s[i] as u8) == max_u8(s, n),
    decreases n,
{
    if n > 0 {
        lemma_max_u8(s, n - 1);
    }
}

proof fn lemma_peak_below(rows: Seq<RowSpec>, n: int)
    requires
        0 <= n <= rows.len(),
    ensures
        forall|i: int| 0 <= i < n ==> row_peak(rows[i]) <= peak_below(rows, n),
        peak_below(rows, n) == 0 || exists|i: int| 0 <= i < n && row_peak(rows[i]) == peak_below(rows, n),
    decreases n,
{
    if n > 0 {
        lemma_peak_below(rows, n - 1);
    }
}

/// The batch's `max_column` is at least every column any row draws in (own,
/// through and fork columns, as `u8`), and is attained by some row unless it
/// is 0.
pub proof fn law_max_column(rows: Seq<RowSpec>)
    ensures
        forall|k: int| 0 <= k < rows.len() ==> {
            let r = #[trigger] rows[k];
            let p = peak_below(rows, rows.len() as int);
            &&& (r.column as u8) <= p
            &&& forall|i: int| 0 <= i < r.through.len() ==> (r.through[i] as u8) <= p
            &&& forall|i: int| 0 <= i < r.extra.len() ==> (r.extra[i] as u8) <= p
        },
        peak_below(rows, rows.len() as int) == 0 || exists|k: int|
            0 <= k < rows.len() && row_peak(#[trigger] rows[k]) == peak_below(rows, rows.len() as int),
{
    lemma_peak_below(rows, rows.len() as int);
    assert forall|k: int| 0 <= k < rows.len() implies {
        let r = #[trigger] rows[k];
        let p = peak_below(rows, rows.len() as int);
        &&& (r.column as u8) <= p
        &&& forall|i: int| 0 <= i < r.through.len() ==> (r.through[i] as u8) <= p
        &&& forall|i: int| 0 <= i < r.extra.len() ==> (r.extra[i] as u8) <= p
    } by {
        let r = rows[k];
        lemma_max_u8(r.through, r.through.len() as int);
        lemma_max_u8(r.extra, r.extra.len() as int);
        assert(row_peak(r) <= peak_below(rows, rows.len() as int));
    }
}


/// Every occupied slot of `a3` was occupied in `a` with the same oid, or is
/// one of `cols`.
pub open spec fn occupied_from(a: Slots, a3: Slots, cols: Seq<int>) -> bool {
    forall|t: int| 0 <= t < a3.len() && (#[trigger] a3[t]) is Some
        ==> (t < a.len() && a3[t] == a[t]) || cols.contains(t)
}

/// Every occupied slot after placing extra parents was occupied before, with
/// the same oid, or is one of the columns just handed out.
#[verifier::spinoff_prover]
proof fn lemma_place_extras_origin(a: Slots, ps: Seq<Seq<char>>)
    ensures
        occupied_from(a, place_extras(a, ps).0, place_extras(a, ps).1),
    decreases ps.len(),
{
    if ps.len() > 0 {
        let prev = place_extras(a, ps.drop_last());
        let a1 = prev.0;
        let cols = prev.1;
        lemma_place_extras_origin(a, ps.drop_last());
        assert(occupied_from(a, a1, cols));
        lemma_allocate(a1);
        let (a2, f) = allocate(a1);
        let a3 = a2.update(f, Some(ps.last()));
        let cols2 = cols.push(f);
        assert(place_extras(a, ps) == (a3, cols2));
        assert forall|t: int| 0 <= t < a3.len() && (#[trigger] a3[t]) is Some
            implies (t < a.len() && a3[t] == a[t]) || cols2.contains(t) by {
            if t == f {
                assert(cols2[cols.len() as int] == t);
            } else {
                assert(a3[t] == a2[t]);
                assert(t < a1.len());
                assert(a2[t] == a1[t]);
                assert(a1[t] is Some);
                if !(t < a.len() && a1[t] == a[t]) {
                    assert(cols.contains(t));
                    let k = choose|k: int| 0 <= k < cols.len() && cols[k] == t;
                    assert(cols2[k] == t);
                }
            }
        }
        assert(occupied_from(a, a3, cols2));
    } else {
        assert(place_extras(a, ps) == (a, Seq::<int>::empty()));
        assert(occupied_from(a, a, Seq::<int>::empty()));
    }
}

/// The slot a commit claims is empty once claimed, and claiming changes no
/// other slot but those that expected the commit.
proof fn lemma_claim(a: Slots, oid: Seq<char>)
    ensures
        ({
            let (a1, column) = claim(a, oid);
            &&& 0 <= column < a1.len()
            &&& a1[column] is None
            &&& a1.len() == a.len() || (a1.len() == a.len() + 1 && a1[a.len() as int] is None)
            &&& forall|t: int| 0 <= t < a.len() ==> #[trigger] a1[t] == (if a[t] == Some(oid) { None } else { a[t] })
                || a1[t] == a[t]
            &&& forall|t: int| 0 <= t < a.len() && a[t] != Some(oid) ==> #[trigger] a1[t] == a[t]
            &&& matches_below(a, oid, a.len() as int).len() == 0 ==> (
                forall|t: int| 0 <= t < column ==> #[trigger] a1[t] is Some)
        }),
{
    lemma_matches_sorted(a, oid, a.len() as int);
    lemma_allocate(a);
    let m = matches_below(a, oid, a.len() as int);
    if m.len() > 0 {
        assert(a[m[0]] == Some(oid));
    }
}

/// The rows laid out after `n` commits, and the row of commit `n`.
proof fn lemma_layout_unfold(cs: Seq<(Seq<char>, Seq<Seq<char>>)>, n: int)
    requires
        0 <= n,
    ensures
        layout(cs, n + 1).0 == step(layout(cs, n).0, cs[n].0, cs[n].1).0,
        layout(cs, n + 1).1 == layout(cs, n).1.push(step(layout(cs, n).0, cs[n].0, cs[n].1).1),
{
}

/// Every occupied slot after `n` commits is the own column or a fork
/// column of one of those `n` rows.
#[verifier::spinoff_prover]
proof fn lemma_slot_written(cs: Seq<(Seq<char>, Seq<Seq<char>>)>, n: int)
    requires
        0 <= n,
    ensures
        forall|t: int| 0 <= t < layout(cs, n).0.len() && (#[trigger] layout(cs, n).0[t]) is Some
            ==> exists|j: int| 0 <= j < n && (layout(cs, n).1[j].column == t || layout(cs, n).1[j].extra.contains(t)),
    decreases n,
{
    if n > 0 {
        let k = n - 1;
        lemma_slot_written(cs, k);
        lemma_layout_len(cs, k);
        lemma_layout_unfold(cs, k);
        let a = layout(cs, k).0;
        let rows = layout(cs, k).1;
        let oid = cs[k].0;
        let ps = cs[k].1;
        let (a1, column) = claim(a, oid);
        lemma_claim(a, oid);
        let a2 = if ps.len() > 0 { a1.update(column, Some(ps[0])) } else { a1 };
        lemma_place_extras_origin(a2, later_parents(ps));
        let (a3, extra) = place_extras(a2, later_parents(ps));
        let r = step(a, oid, ps).1;
        assert(r.column == column && r.extra == extra);
        let rows2 = rows.push(r);
        assert forall|t: int| 0 <= t < a3.len() && (#[trigger] a3[t]) is Some
            implies exists|j: int| 0 <= j < n && (rows2[j].column == t || rows2[j].extra.contains(t)) by {
            if t < a2.len() && a3[t] == a2[t] {
                if ps.len() > 0 && t == column {
                    assert(rows2[k].column == t);
                } else {
                    assert(a1[t] is Some);
                    assert(t < a.len());
                    assert(a[t] is Some);
                    let j = choose|j: int| 0 <= j < k && (rows[j].column == t || rows[j].extra.contains(t));
                    assert(rows2[j] == rows[j]);
                }
            } else {
                let q = choose|q: int| 0 <= q < extra.len() && extra[q] == t;
                assert(rows2[k].extra[q] == t);
                assert(rows2[k].extra.contains(t));
            }
        }
    }
}

/// `max_column` is the largest column index anywhere in the batch: it also
/// bounds every terminating column, each of which was the own or a fork
/// column of an earlier row.
#[verifier::spinoff_prover]
pub proof fn law_max_column_covers_terminating(cs: Seq<(Seq<char>, Seq<Seq<char>>)>)
    ensures
        forall|k: int, i: int| #![trigger spec_layout(cs)[k].terminating[i]] 0 <= k < cs.len() && 0 <= i < spec_layout(cs)[k].terminating.len()
            ==> (spec_layout(cs)[k].terminating[i] as u8) <= peak_below(spec_layout(cs), cs.len() as int),
{
    let rows = spec_layout(cs);
    lemma_layout_len(cs, cs.len() as int);
    law_max_column(rows);
    assert forall|k: int, i: int| #![trigger spec_layout(cs)[k].terminating[i]] 0 <= k < cs.len() && 0 <= i < spec_layout(cs)[k].terminating.len()
        implies (spec_layout(cs)[k].terminating[i] as u8) <= peak_below(spec_layout(cs), cs.len() as int) by {
        lemma_layout_step(cs, k);
        lemma_layout_prefix(cs, k, cs.len() as int);
        let before = layout(cs, k).0;
        let oid = cs[k].0;
        lemma_matches_sorted(before, oid, before.len() as int);
        let m = matches_below(before, oid, before.len() as int);
        let t = rows[k].terminating[i];
        assert(m.len() > 0);
        assert(t == m[i + 1]);
        assert(before[t] == Some(oid));
        lemma_slot_written(cs, k);
        let j = choose|j: int| 0 <= j < k && (layout(cs, k).1[j].column == t || layout(cs, k).1[j].extra.contains(t));
        assert(rows[j] == layout(cs, k).1[j]);
        let r = rows[j];
        if r.column != t {
            let q = choose|q: int| 0 <= q < r.extra.len() && r.extra[q] == t;
            assert((r.extra[q] as u8) <= peak_below(rows, cs.len() as int));
        }
    }
}

/// Among the first `n` slots, every occupied one other than `column` and
/// the terminating ones passes through.
proof fn lemma_through_complete(a: Slots, column: int, term: Seq<int>, n: int, i: int)
    requires
        0 <= i < n,
        i != column,
        !term_hits(term, i),
        a[i] is Some,
    ensures
        through_below(a, column, term, n).contains(i),
    decreases n,
{
    if i < n - 1 {
        lemma_through_complete(a, column, term, n - 1, i);
        let t = through_below(a, column, term, n - 1);
        let w = choose|w: int| 0 <= w < t.len() && t[w] == i;
        if n - 1 != column && !term_hits(term, n - 1) && a[n - 1] is Some {
            assert(through_below(a, column, term, n)[w] == i);
        }
    } else {
        let t = through_below(a, column, term, n - 1);
        assert(through_below(a, column, term, n)[t.len() as int] == i);
    }
}

/// Whether one of the first `n` commits names `o` as a parent.
pub open spec fn named_as_parent(cs: Seq<(Seq<char>, Seq<Seq<char>>)>, n: int, o: Seq<char>) -> bool {
    exists|j: int| 0 <= j < n && (#[trigger] cs[j]).1.contains(o)
}

/// While `o` is not yet laid out, a slot expects it exactly when an earlier
/// commit named it as a parent.
#[verifier::spinoff_prover]
proof fn lemma_expected_iff_named(cs: Seq<(Seq<char>, Seq<Seq<char>>)>, n: int, o: Seq<char>)
    requires
        0 <= n <= cs.len(),
        forall|j: int| 0 <= j < n ==> (#[trigger] cs[j]).0 != o,
    ensures
        layout(cs, n).0.contains(Some(o)) <==> named_as_parent(cs, n, o),
    decreases n,
{
    if n > 0 {
        let k = n - 1;
        lemma_expected_iff_named(cs, k, o);
        lemma_layout_unfold(cs, k);
        let a = layout(cs, k).0;
        let oid = cs[k].0;
        let ps = cs[k].1;
        assert(oid != o);
        let (a1, column) = claim(a, oid);
        lemma_claim(a, oid);
        let a2 = if ps.len() > 0 { a1.update(column, Some(ps[0])) } else { a1 };
        let lp = later_parents(ps);
        lemma_place_extras(a2, lp);
        lemma_place_extras_origin(a2, lp);
        let (a3, cols) = place_extras(a2, lp);
        // a1 expects o exactly where a does.
        assert(a1.contains(Some(o)) <==> a.contains(Some(o))) by {
            if a.contains(Some(o)) {
                let t = choose|t: int| 0 <= t < a.len() && a[t] == Some(o);
                assert(a1[t] == Some(o));
            }
            if a1.contains(Some(o)) {
                let t = choose|t: int| 0 <= t < a1.len() && a1[t] == Some(o);
                assert(t < a.len());
                assert(a[t] == Some(o));
            }
        }
        let first_is = ps.len() > 0 && ps[0] == o;
        assert(a2.contains(Some(o)) <==> (a1.contains(Some(o)) || first_is)) by {
            if ps.len() > 0 {
                if first_is {
                    assert(a2[column] == Some(o));
                }
                if a1.contains(Some(o)) {
                    let t = choose|t: int| 0 <= t < a1.len() && a1[t] == Some(o);
                    assert(t != column);
                    assert(a2[t] == Some(o));
                }
                if a2.contains(Some(o)) {
                    let t = choose|t: int| 0 <= t < a2.len() && a2[t] == Some(o);
                    if t != column {
                        assert(a1[t] == Some(o));
                    }
                }
            }
        }
        assert(a3.contains(Some(o)) <==> (a2.contains(Some(o)) || lp.contains(o))) by {
            if a2.contains(Some(o)) {
                let t = choose|t: int| 0 <= t < a2.len() && a2[t] == Some(o);
                assert(a3[t] == Some(o));
            }
            if lp.contains(o) {
                let q = choose|q: int| 0 <= q < lp.len() && lp[q] == o;
                assert(a3[cols[q]] == Some(o));
            }
            if a3.contains(Some(o)) {
                let t = choose|t: int| 0 <= t < a3.len() && a3[t] == Some(o);
                if !(t < a2.len() && a3[t] == a2[t]) {
                    let q = choose|q: int| 0 <= q < cols.len() && cols[q] == t;
                    assert(lp[q] == o);
                }
            }
        }
        assert(ps.contains(o) <==> (first_is || lp.contains(o))) by {
            if ps.contains(o) {
                let q = choose|q: int| 0 <= q < ps.len() && ps[q] == o;
                if q > 0 {
                    assert(lp[q - 1] == o);
                }
            }
            if lp.contains(o) {
                let q = choose|q: int| 0 <= q < lp.len() && lp[q] == o;
                assert(ps[q + 1] == o);
            }
        }
        assert(named_as_parent(cs, n, o) <==> (named_as_parent(cs, k, o) || ps.contains(o))) by {
            if named_as_parent(cs, n, o) {
                let j = choose|j: int| 0 <= j < n && (#[trigger] cs[j]).1.contains(o);
                if j < k {
                    assert(named_as_parent(cs, k, o));
                }
            }
            if named_as_parent(cs, k, o) {
                let j = choose|j: int| 0 <= j < k && (#[trigger] cs[j]).1.contains(o);
                assert(0 <= j < n);
            }
        }
    }
}

/// With distinct oids, a lane starts at a commit's row exactly when no
/// earlier commit names it as a parent, and a new lane takes the lowest
/// free column: every column left of it passes through the row.
#[verifier::spinoff_prover]
pub proof fn law_lane_start(cs: Seq<(Seq<char>, Seq<Seq<char>>)>, k: int)
    requires
        0 <= k < cs.len(),
        forall|i: int, j: int| 0 <= i < j < cs.len() ==> (#[trigger] cs[i]).0 != (#[trigger] cs[j]).0,
    ensures
        spec_layout(cs)[k].starts <==> !named_as_parent(cs, k, cs[k].0),
        spec_layout(cs)[k].starts ==> forall|c: int| 0 <= c < spec_layout(cs)[k].column
            ==> spec_layout(cs)[k].through.contains(c),
{
    law_row_shape(cs, k);
    assert forall|j: int| 0 <= j < k implies (#[trigger] cs[j]).0 != cs[k].0 by {
        assert(cs[j].0 != cs[k].0);
    }
    lemma_expected_iff_named(cs, k, cs[k].0);
    lemma_layout_step(cs, k);
    let before = layout(cs, k).0;
    let oid = cs[k].0;
    let r = spec_layout(cs)[k];
    if r.starts {
        lemma_claim(before, oid);
        let (a1, column) = claim(before, oid);
        let term = Seq::<int>::empty();
        assert forall|c: int| 0 <= c < r.column implies r.through.contains(c) by {
            assert(a1[c] is Some);
            assert(!term_hits(term, c));
            lemma_through_complete(a1, column, term, a1.len() as int, c);
        }
    }
}


/// A slot below `n` that expects `oid` is among the matches.
proof fn lemma_matches_member(a: Slots, oid: Seq<char>, n: int, j: int)
    requires
        0 <= j < n <= a.len(),
        a[j] == Some(oid),
    ensures
        matches_below(a, oid, n).contains(j),
    decreases n,
{
    if j < n - 1 {
        lemma_matches_member(a, oid, n - 1, j);
        let m = matches_below(a, oid, n - 1);
        let w = choose|w: int| 0 <= w < m.len() && m[w] == j;
        if a[n - 1] == Some(oid) {
            assert(matches_below(a, oid, n)[w] == j);
        }
    } else {
        let m = matches_below(a, oid, n - 1);
        assert(matches_below(a, oid, n)[m.len() as int] == j);
    }
}

/// Every column that expected a commit, other than the one the commit is
/// drawn in, ends at the commit's row: it is listed as terminating there.
/// And every terminating column did expect the commit.
#[verifier::spinoff_prover]
pub proof fn law_terminating_complete(cs: Seq<(Seq<char>, Seq<Seq<char>>)>, k: int)
    requires
        0 <= k < cs.len(),
    ensures
        forall|j: int| 0 <= j < layout(cs, k).0.len() && #[trigger] layout(cs, k).0[j] == Some(cs[k].0)
            && j != spec_layout(cs)[k].column ==> spec_layout(cs)[k].terminating.contains(j),
        forall|i: int| 0 <= i < spec_layout(cs)[k].terminating.len()
            ==> layout(cs, k).0[#[trigger] spec_layout(cs)[k].terminating[i]] == Some(cs[k].0),
{
    lemma_layout_step(cs, k);
    let before = layout(cs, k).0;
    let oid = cs[k].0;
    let r = spec_layout(cs)[k];
    lemma_matches_sorted(before, oid, before.len() as int);
    let m = matches_below(before, oid, before.len() as int);
    assert forall|j: int| 0 <= j < before.len() && #[trigger] before[j] == Some(oid) && j != r.column
        implies r.terminating.contains(j) by {
        lemma_matches_member(before, oid, before.len() as int, j);
        let w = choose|w: int| 0 <= w < m.len() && m[w] == j;
        assert(m.len() > 0);
        assert(r.column == m[0]);
        assert(w != 0);
        assert(r.terminating == m.drop_first());
        assert(r.terminating[w - 1] == j);
    }
    assert forall|i: int| 0 <= i < r.terminating.len()
        implies before[#[trigger] r.terminating[i]] == Some(oid) by {
        assert(m.len() > 0);
        assert(r.terminating[i] == m[i + 1]);
    }
}

/// A lane that leaves a row: one passing through it, the commit's own
/// column when the commit has a parent, or a column forked to a further parent.
pub open spec fn lane_leaves(r: RowSpec, has_parent: bool, j: int) -> bool {
    r.through.contains(j) || (has_parent && j == r.column) || r.extra.contains(j)
}

/// A lane that arrives at a row: the commit's own column, a column passing
/// through, or one ending there (terminating columns are drawn as `u8`s).
pub open spec fn lane_arrives(r: RowSpec, j: int) -> bool {
    j == r.column || r.through.contains(j) || term_hits(r.terminating, j)
}

/// The slots after a row hold every lane that leaves it.
proof fn lemma_leaving_is_occupied(cs: Seq<(Seq<char>, Seq<Seq<char>>)>, k: int, j: int)
    requires
        0 <= k < cs.len(),
        lane_leaves(spec_layout(cs)[k], cs[k].1.len() > 0, j),
    ensures
        0 <= j < layout(cs, k + 1).0.len(),
        layout(cs, k + 1).0[j] is Some,
{
    lemma_layout_step(cs, k);
    let before = layout(cs, k).0;
    let oid = cs[k].0;
    let ps = cs[k].1;
    let r = spec_layout(cs)[k];
    lemma_claim(before, oid);
    let (a1, column) = claim(before, oid);
    lemma_matches_sorted(before, oid, before.len() as int);
    let m = matches_below(before, oid, before.len() as int);
    let term = if m.len() > 0 { m.drop_first() } else { Seq::<int>::empty() };
    let a2 = if ps.len() > 0 { a1.update(column, Some(ps[0])) } else { a1 };
    lemma_place_extras(a2, later_parents(ps));
    let (a3, extra) = place_extras(a2, later_parents(ps));
    assert(layout(cs, k + 1).0 == a3);
    assert(r.column == column && r.extra == extra && r.terminating == term);
    assert(r.through == through_below(a1, column, term, a1.len() as int));
    if r.through.contains(j) {
        lemma_through(a1, column, term, a1.len() as int);
        let w = choose|w: int| 0 <= w < r.through.len() && r.through[w] == j;
        assert(0 <= r.through[w] < a1.len());
        assert(a1[j] is Some);
        assert(a2[j] is Some);
        assert(a3[j] == a2[j]);
    } else if ps.len() > 0 && j == column {
        assert(a2[j] is Some);
        assert(a3[j] == a2[j]);
    } else {
        let q = choose|q: int| 0 <= q < extra.len() && extra[q] == j;
        assert(a3[extra[q]] is Some);
    }
}

/// An occupied slot before a row is drawn in that row.
proof fn lemma_occupied_arrives(cs: Seq<(Seq<char>, Seq<Seq<char>>)>, k: int, j: int)
    requires
        0 <= k < cs.len(),
        0 <= j < layout(cs, k).0.len(),
        layout(cs, k).0[j] is Some,
    ensures
        lane_arrives(spec_layout(cs)[k], j),
{
    lemma_layout_step(cs, k);
    let a = layout(cs, k).0;
    let oid = cs[k].0;
    let r = spec_layout(cs)[k];
    lemma_claim(a, oid);
    let (a1, column) = claim(a, oid);
    lemma_matches_sorted(a, oid, a.len() as int);
    let m = matches_below(a, oid, a.len() as int);
    let term = if m.len() > 0 { m.drop_first() } else { Seq::<int>::empty() };
    assert(r.column == column && r.terminating == term);
    assert(r.through == through_below(a1, column, term, a1.len() as int));
    if a[j] == Some(oid) {
        lemma_matches_member(a, oid, a.len() as int, j);
        let w = choose|w: int| 0 <= w < m.len() && m[w] == j;
        assert(column == m[0]);
        if w > 0 {
            assert(term[w - 1] == j);
            assert(term_hits(term, j));
        }
    } else {
        assert(a1[j] == a[j]);
        assert(j != column);
        if !term_hits(term, j) {
            lemma_through_complete(a1, column, term, a1.len() as int, j);
        }
    }
}

/// Lanes never break: every lane that leaves a commit's row arrives at
/// the next commit's row, as that commit's column, as a column passing
/// through, or as one that ends there.
pub proof fn law_lanes_continue(cs: Seq<(Seq<char>, Seq<Seq<char>>)>, k: int)
    requires
        0 <= k,
        k + 1 < cs.len(),
    ensures
        forall|j: int| lane_leaves(spec_layout(cs)[k], cs[k].1.len() > 0, j) ==> #[trigger] lane_arrives(spec_layout(cs)[k + 1], j),
{
    assert forall|j: int| lane_leaves(spec_layout(cs)[k], cs[k].1.len() > 0, j) implies #[trigger] lane_arrives(spec_layout(cs)[k + 1], j) by {
        lemma_leaving_is_occupied(cs, k, j);
        lemma_occupied_arrives(cs, k + 1, j);
    }
}

} // verus!
