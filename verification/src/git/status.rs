//! Working-tree status — summary counts for the uncommitted-changes
//! indicator (pseudo-row in the history list, inspector Changes tab).
use vstd::prelude::*;

use crate::text::decimal;

verus! {

#[derive(Clone, Debug, Default)]
pub struct WorkingStatus {
    /// Staged changes — present in the index but not yet committed.
    pub staged: u32,
    /// Modified / deleted / renamed working-tree changes not in the index.
    pub modified: u32,
    /// Untracked files (not ignored).
    pub untracked: u32,
    /// Files with unresolved merge conflicts.
    pub conflicted: u32,
}

/// The status flags of one path, one field per flag the status read reports.
#[derive(Clone, Copy, Debug, Default)]
pub struct StatusFlags {
    pub index_new: bool,
    pub index_modified: bool,
    pub index_deleted: bool,
    pub index_renamed: bool,
    pub index_typechange: bool,
    pub wt_new: bool,
    pub wt_modified: bool,
    pub wt_deleted: bool,
    pub wt_typechange: bool,
    pub wt_renamed: bool,
    pub conflicted: bool,
}

/// Something is prepared in the index for this path.
pub open spec fn index_dirty(f: StatusFlags) -> bool {
    f.index_new || f.index_modified || f.index_deleted || f.index_renamed || f.index_typechange
}

/// The tracked file differs in the working tree.
pub open spec fn wt_dirty(f: StatusFlags) -> bool {
    f.wt_modified || f.wt_deleted || f.wt_renamed || f.wt_typechange
}

/// How a path is counted: conflicted paths only as conflicted, new
/// untracked ones only as untracked, the others as staged and/or modified.
pub open spec fn counts_conflicted(f: StatusFlags) -> bool {
    f.conflicted
}

pub open spec fn counts_untracked(f: StatusFlags) -> bool {
    !f.conflicted && f.wt_new
}

pub open spec fn counts_staged(f: StatusFlags) -> bool {
    !f.conflicted && !f.wt_new && index_dirty(f)
}

pub open spec fn counts_modified(f: StatusFlags) -> bool {
    !f.conflicted && !f.wt_new && wt_dirty(f)
}

/// Number of the first `n` paths satisfying `p`.
pub open spec fn count(fs: Seq<StatusFlags>, p: spec_fn(StatusFlags) -> bool, n: int) -> nat
    decreases n,
{
    if n <= 0 {
        0
    } else {
        count(fs, p, n - 1) + if p(fs[n - 1]) { 1nat } else { 0nat }
    }
}

proof fn lemma_count_le(fs: Seq<StatusFlags>, p: spec_fn(StatusFlags) -> bool, n: int)
    ensures
        count(fs, p, n) <= if n < 0 { 0 } else { n },
    decreases n,
{
    if n > 0 {
        lemma_count_le(fs, p, n - 1);
    }
}

impl WorkingStatus {
    pub open spec fn dirty(&self) -> bool {
        self.staged > 0 || self.modified > 0 || self.untracked > 0 || self.conflicted > 0
    }

    /// Anything to commit, stash or resolve.
    pub fn is_dirty(&self) -> (r: bool)
        ensures
            r == self.dirty(),
    {
        self.staged > 0 || self.modified > 0 || self.untracked > 0 || self.conflicted > 0
    }

    /// The counts of `fs`, one path per entry.
    pub fn tally(fs: &Vec<StatusFlags>) -> (r: WorkingStatus)
        requires
            fs@.len() <= u32::MAX,
        ensures
            r.conflicted == count(fs@, |f: StatusFlags| counts_conflicted(f), fs@.len() as int),
            r.untracked == count(fs@, |f: StatusFlags| counts_untracked(f), fs@.len() as int),
            r.staged == count(fs@, |f: StatusFlags| counts_staged(f), fs@.len() as int),
            r.modified == count(fs@, |f: StatusFlags| counts_modified(f), fs@.len() as int),
    {
        let ghost pc = |f: StatusFlags| counts_conflicted(f);
        let ghost pu = |f: StatusFlags| counts_untracked(f);
        let ghost ps = |f: StatusFlags| counts_staged(f);
        let ghost pm = |f: StatusFlags| counts_modified(f);
        let mut out = WorkingStatus { staged: 0, modified: 0, untracked: 0, conflicted: 0 };
        let mut i: usize = 0;
        while i < fs.len()
            invariant
                fs@.len() <= u32::MAX,
                i <= fs@.len(),
                out.conflicted == count(fs@, pc, i as int),
                out.untracked == count(fs@, pu, i as int),
                out.staged == count(fs@, ps, i as int),
                out.modified == count(fs@, pm, i as int),
                pc == (|f: StatusFlags| counts_conflicted(f)),
                pu == (|f: StatusFlags| counts_untracked(f)),
                ps == (|f: StatusFlags| counts_staged(f)),
                pm == (|f: StatusFlags| counts_modified(f)),
            decreases fs@.len() - i,
        {
            proof {
                lemma_count_le(fs@, pc, i as int);
                lemma_count_le(fs@, pu, i as int);
                lemma_count_le(fs@, ps, i as int);
                lemma_count_le(fs@, pm, i as int);
            }
            let f = fs[i];
            if f.conflicted {
                out.conflicted = out.conflicted + 1;
            } else if f.wt_new {
                out.untracked = out.untracked + 1;
            } else {
                if f.index_new || f.index_modified || f.index_deleted || f.index_renamed || f.index_typechange {
                    out.staged = out.staged + 1;
                }
                if f.wt_modified || f.wt_deleted || f.wt_renamed || f.wt_typechange {
                    out.modified = out.modified + 1;
                }
            }
            i = i + 1;
        }
        out
    }

    pub open spec fn summary_parts(&self) -> Seq<Seq<char>> {
        (if self.conflicted > 0 { seq![decimal(self.conflicted as nat) + " conflicted"@] } else { Seq::empty() })
            + (if self.staged > 0 { seq![decimal(self.staged as nat) + " staged"@] } else { Seq::empty() })
            + (if self.modified > 0 { seq![decimal(self.modified as nat) + " modified"@] } else { Seq::empty() })
            + (if self.untracked > 0 { seq![decimal(self.untracked as nat) + " untracked"@] } else { Seq::empty() })
    }

    /// `"clean"`, or the nonzero counts in the order conflicted, staged,
    /// modified, untracked, joined with `" · "`.
    pub open spec fn summary_spec(&self) -> Seq<char> {
        if self.summary_parts().len() == 0 {
            "clean"@
        } else {
            crate::text::join(self.summary_parts(), " · "@)
        }
    }

    /// One-line description of the counts, e.g. `"1 staged · 2 untracked"`.
    pub fn summary(&self) -> (r: String)
        ensures
            r@ == self.summary_spec(),
    {
        let mut parts: Vec<String> = Vec::new();
        let ghost mut expect: Seq<Seq<char>> = Seq::empty();
        if self.conflicted > 0 {
            let mut p = crate::text::u32_to_string(self.conflicted);
            p.append(" conflicted");
            parts.push(p);
        }
        proof {
            assert(crate::text::strings_view(parts@) =~= (if self.conflicted > 0 {
                seq![decimal(self.conflicted as nat) + " conflicted"@]
            } else {
                Seq::empty()
            }));
        }
        let ghost s1 = crate::text::strings_view(parts@);
        if self.staged > 0 {
            let mut p = crate::text::u32_to_string(self.staged);
            p.append(" staged");
            parts.push(p);
        }
        proof {
            assert(crate::text::strings_view(parts@) =~= s1 + (if self.staged > 0 {
                seq![decimal(self.staged as nat) + " staged"@]
            } else {
                Seq::empty()
            }));
        }
        let ghost s2 = crate::text::strings_view(parts@);
        if self.modified > 0 {
            let mut p = crate::text::u32_to_string(self.modified);
            p.append(" modified");
            parts.push(p);
        }
        proof {
            assert(crate::text::strings_view(parts@) =~= s2 + (if self.modified > 0 {
                seq![decimal(self.modified as nat) + " modified"@]
            } else {
                Seq::empty()
            }));
        }
        let ghost s3 = crate::text::strings_view(parts@);
        if self.untracked > 0 {
            let mut p = crate::text::u32_to_string(self.untracked);
            p.append(" untracked");
            parts.push(p);
        }
        proof {
            assert(crate::text::strings_view(parts@) =~= s3 + (if self.untracked > 0 {
                seq![decimal(self.untracked as nat) + " untracked"@]
            } else {
                Seq::empty()
            }));
            assert(crate::text::strings_view(parts@) =~= self.summary_parts());
        }
        if parts.len() == 0 {
            "clean".to_owned()
        } else {
            crate::text::join_strings(&parts, " · ")
        }
    }
}

/// The first character of a number's digits is a digit.
proof fn lemma_decimal_head(n: nat)
    ensures
        decimal(n).len() > 0,
        '0' <= decimal(n)[0] <= '9',
    decreases n,
{
    if n >= 10 {
        lemma_decimal_head(n / 10);
    }
}

/// A join starts with its first part, when that part is not empty.
proof fn lemma_join_head(ps: Seq<Seq<char>>, sep: Seq<char>)
    requires
        ps.len() > 0,
        ps[0].len() > 0,
    ensures
        crate::text::join(ps, sep).len() > 0,
        crate::text::join(ps, sep)[0] == ps[0][0],
    decreases ps.len(),
{
    if ps.len() > 1 {
        assert(ps.drop_last()[0] == ps[0]);
        lemma_join_head(ps.drop_last(), sep);
    }
}

/// The summary reads "clean" exactly when nothing is staged, modified,
/// untracked or conflicted.
pub proof fn law_clean_iff_not_dirty(s: WorkingStatus)
    ensures
        (s.summary_spec() == "clean"@) <==> !s.dirty(),
{
    reveal_strlit("clean");
    let ps = s.summary_parts();
    if s.dirty() {
        let first = if s.conflicted > 0 { s.conflicted } else if s.staged > 0 { s.staged } else if s.modified > 0 { s.modified } else { s.untracked };
        lemma_decimal_head(first as nat);
        assert(ps.len() > 0);
        assert(ps[0][0] == decimal(first as nat)[0]);
        lemma_join_head(ps, " · "@);
        assert(s.summary_spec()[0] != 'c');
    } else {
        assert(ps =~= Seq::<Seq<char>>::empty());
    }
}


/// Counting one more path: the count of the first `n + 1` paths is the
/// count of the first `n` and one more when path `n` qualifies.
proof fn lemma_count_push(fs: Seq<StatusFlags>, f: StatusFlags, p: spec_fn(StatusFlags) -> bool)
    ensures
        count(fs.push(f), p, fs.len() + 1int) == count(fs, p, fs.len() as int) + (if p(f) { 1nat } else { 0nat }),
{
    lemma_count_prefix(fs, f, p, fs.len() as int);
}

proof fn lemma_count_prefix(fs: Seq<StatusFlags>, f: StatusFlags, p: spec_fn(StatusFlags) -> bool, n: int)
    requires
        n <= fs.len(),
    ensures
        count(fs.push(f), p, n) == count(fs, p, n),
    decreases n,
{
    if n > 0 {
        lemma_count_prefix(fs, f, p, n - 1);
        assert(fs.push(f)[n - 1] == fs[n - 1]);
    }
}

/// Each path counts once, by its flags: a conflicted path as conflicted;
/// otherwise a new untracked path as untracked; otherwise as staged when
/// anything is added, modified, deleted, renamed or retyped in the index,
/// and as modified when anything is modified, deleted, renamed or retyped
/// in the working tree. Adding one path to the list changes the counts by
/// exactly that.
pub proof fn law_tally_counts_each_path(fs: Seq<StatusFlags>, f: StatusFlags)
    ensures
        ({
            let n = fs.len() as int;
            let c0 = count(fs, |x: StatusFlags| counts_conflicted(x), n);
            let u0 = count(fs, |x: StatusFlags| counts_untracked(x), n);
            let s0 = count(fs, |x: StatusFlags| counts_staged(x), n);
            let m0 = count(fs, |x: StatusFlags| counts_modified(x), n);
            let g = fs.push(f);
            let c1 = count(g, |x: StatusFlags| counts_conflicted(x), n + 1);
            let u1 = count(g, |x: StatusFlags| counts_untracked(x), n + 1);
            let s1 = count(g, |x: StatusFlags| counts_staged(x), n + 1);
            let m1 = count(g, |x: StatusFlags| counts_modified(x), n + 1);
            let other = !f.conflicted && !f.wt_new;
            &&& c1 == c0 + (if f.conflicted { 1int } else { 0int })
            &&& u1 == u0 + (if !f.conflicted && f.wt_new { 1int } else { 0int })
            &&& s1 == s0 + (if other && (f.index_new || f.index_modified || f.index_deleted
                || f.index_renamed || f.index_typechange) { 1int } else { 0int })
            &&& m1 == m0 + (if other && (f.wt_modified || f.wt_deleted || f.wt_renamed
                || f.wt_typechange) { 1int } else { 0int })
        }),
{
    lemma_count_push(fs, f, |x: StatusFlags| counts_conflicted(x));
    lemma_count_push(fs, f, |x: StatusFlags| counts_untracked(x));
    lemma_count_push(fs, f, |x: StatusFlags| counts_staged(x));
    lemma_count_push(fs, f, |x: StatusFlags| counts_modified(x));
}

/// A list holding one path that is neither conflicted nor untracked and has
/// a change in the index counts it as staged, so the tree is dirty.
pub proof fn law_index_change_is_dirty(f: StatusFlags)
    requires
        !f.conflicted,
        !f.wt_new,
        f.index_new || f.index_modified || f.index_deleted || f.index_renamed || f.index_typechange,
    ensures
        count(seq![f], |x: StatusFlags| counts_staged(x), 1) == 1,
{
    law_tally_counts_each_path(Seq::empty(), f);
    assert(Seq::<StatusFlags>::empty().push(f) =~= seq![f]);
}

} // verus!
