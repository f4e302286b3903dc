//! Commit log: the commits of a repository walk become history rows with
//! subject/body, author, parents and ref chips.
//!
//! Reading the object database is done by the caller (it walks the
//! repository and hands over one `RawCommit` per walked commit, newest
//! first); everything computed from those records lives here.
use vstd::prelude::*;
use vstd::string::StringSliceAdditionalSpecFns;
use vstd::utf8::{decode_utf8, encode_utf8, is_char_boundary, valid_utf8};
use time::OffsetDateTime;

use crate::clock::{self, date_or_now, max_unix, min_unix, unix_datetime};
use crate::model::commit::{chip_view, chips_view, copy_chip, lemma_chips_view_push, Author, ChipView, Commit, RefChip};
use crate::model::repo::{Branch, Remote, RepoView, Tag};
use crate::text::{chars_of, lemma_strings_view_push, split_once, split_once_str, strings_view, substring, trim_end_char};

verus! {

/// What a repository walk reads of one commit.
#[derive(Clone, Debug)]
pub struct RawCommit {
    /// Full hex object id.
    pub oid: String,
    /// The raw message bytes.
    pub message: Vec<u8>,
    /// Full hex ids of the parents, first parent first.
    pub parents: Vec<String>,
    /// The author signature, when it could be read.
    pub author: Option<RawSignature>,
    /// Whether the commit object carries a signature header.
    pub signed: bool,
}

/// A signature: name, email, and the time in seconds since the epoch when it parsed.
#[derive(Clone, Debug)]
pub struct RawSignature {
    pub name: String,
    pub email: String,
    pub seconds: Option<i64>,
}

/// What `String::from_utf8_lossy` gives for `bytes`.
pub uninterp spec fn utf8_lossy(bytes: Seq<u8>) -> Seq<char>;

/// `String::from_utf8_lossy(raw).into_owned()`. The result is a function of
/// the bytes, and for valid UTF-8 it is the decoded text (invalid sequences
/// become U+FFFD; how is left to the name).
#[verifier::external_body]
pub(crate) fn from_utf8_lossy(raw: &[u8]) -> (s: String)
    ensures
        s@ == utf8_lossy(raw@),
        valid_utf8(raw@) ==> s@ == decode_utf8(raw@),
{
    String::from_utf8_lossy(raw).into_owned()
}

// ── message split ───────────────────────────────────────────────────────

pub open spec fn blank_line() -> Seq<char> {
    seq!['\n', '\n']
}

pub open spec fn newline() -> Seq<char> {
    seq!['\n']
}

/// Subject and optional body of a message text: split at the first blank
/// line, else at the first newline; the body loses trailing newlines and is
/// absent when nothing is left.
pub open spec fn split_message_spec(s: Seq<char>) -> (Seq<char>, Option<Seq<char>>) {
    let (sub, body) = match split_once(s, blank_line()) {
        Some((a, b)) => (a, Some(b)),
        None => match split_once(s, newline()) {
            Some((a, b)) => (a, Some(b)),
            None => (s, None),
        },
    };
    let body = match body {
        Some(b) => if trim_end_char(b, '\n').len() == 0 { None } else { Some(trim_end_char(b, '\n')) },
        None => None,
    };
    (sub, body)
}

/// A message written the conventional way, a one-line subject, a blank
/// line and a body, reads back as that subject and body.
pub proof fn law_split_message_round_trip(subject: Seq<char>, body: Seq<char>)
    requires
        !subject.contains('\n'),
        body.len() > 0,
        body.last() != '\n',
    ensures
        split_message_spec(subject + blank_line() + body) == (subject, Some(body)),
{
    let s = subject + blank_line() + body;
    let l = subject.len() as int;
    assert(s.subrange(l, l + 2) =~= blank_line());
    assert(crate::text::occurs_at(s, blank_line(), l));
    assert forall|j: int| 0 <= j < l implies !crate::text::occurs_at(s, blank_line(), j) by {
        if crate::text::occurs_at(s, blank_line(), j) {
            assert(s.subrange(j, j + 2)[0] == s[j]);
            assert(s[j] == subject[j]);
        }
    }
    assert(crate::text::is_first_occ(s, blank_line(), l));
    let w = choose|i: int| crate::text::is_first_occ(s, blank_line(), i);
    assert(crate::text::is_first_occ(s, blank_line(), w));
    assert(w == l) by {
        if w < l {
            assert(!crate::text::occurs_at(s, blank_line(), w));
        } else if w > l {
            assert(!crate::text::occurs_at(s, blank_line(), l));
        }
    }
    assert(s.take(l) =~= subject);
    assert(s.skip(l + 2) =~= body);
    assert(trim_end_char(body, '\n') == body);
}

/// `str::trim_end_matches('\n')`.
pub(crate) fn trim_trailing_newlines(s: &str) -> (r: String)
    ensures
        r@ == trim_end_char(s@, '\n'),
{
    let v = chars_of(s);
    let mut hi = v.len();
    assert(s@.take(v@.len() as int) =~= s@);
    while hi > 0 && v[hi - 1] == '\n'
        invariant
            hi <= v@.len(),
            v@ == s@,
            trim_end_char(s@, '\n') == trim_end_char(s@.take(hi as int), '\n'),
        decreases hi,
    {
        proof {
            assert(s@.take(hi as int).drop_last() =~= s@.take(hi - 1));
        }
        hi = hi - 1;
    }
    proof {
        assert(s@.take(v@.len() as int) =~= s@);
    }
    let r = substring(s, 0, hi);
    proof {
        assert(s@.subrange(0, hi as int) =~= s@.take(hi as int));
    }
    r
}

/// Subject and optional body of a commit message text.
pub fn split_message_text(s: &str) -> (r: (String, Option<String>))
    ensures
        r.0@ == split_message_spec(s@).0,
        match split_message_spec(s@).1 {
            Some(b) => r.1 matches Some(x) && x@ == b,
            None => r.1 is None,
        },
{
    let v = chars_of(s);
    let blank = vec!['\n', '\n'];
    let nl = vec!['\n'];
    proof {
        assert(blank@ == blank_line());
        assert(nl@ == newline());
    }
    let (subject, body) = match split_once_str(s, &v, &blank) {
        Some((a, b)) => (a, Some(b)),
        None => match split_once_str(s, &v, &nl) {
            Some((a, b)) => (a, Some(b)),
            None => (s.to_owned(), None),
        },
    };
    let body = match body {
        Some(b) => {
            let t = trim_trailing_newlines(b.as_str());
            if t.unicode_len() == 0 {
                None
            } else {
                Some(t)
            }
        },
        None => None,
    };
    (subject, body)
}

/// Subject and optional body of a raw commit message: the bytes are read as
/// UTF-8 (invalid sequences replaced) and split by `split_message_spec`.
pub fn split_message(raw: &[u8]) -> (r: (String, Option<String>))
    ensures
        r.0@ == split_message_spec(utf8_lossy(raw@)).0,
        match split_message_spec(utf8_lossy(raw@)).1 {
            Some(b) => r.1 matches Some(x) && x@ == b,
            None => r.1 is None,
        },
{
    let s = from_utf8_lossy(raw);
    split_message_text(s.as_str())
}

// ── ref chips ───────────────────────────────────────────────────────────

pub open spec fn branch_chips(bs: Seq<Branch>, oid: Seq<char>) -> Seq<ChipView>
    decreases bs.len(),
{
    if bs.len() == 0 {
        Seq::empty()
    } else {
        let rest = branch_chips(bs.drop_last(), oid);
        if bs.last().tip_oid@ == oid {
            rest.push(ChipView::Branch(bs.last().name@, bs.last().current))
        } else {
            rest
        }
    }
}

pub open spec fn remote_branch_chips(r: Remote, oid: Seq<char>, n: int) -> Seq<ChipView>
    decreases n,
{
    if n <= 0 {
        Seq::empty()
    } else {
        let rest = remote_branch_chips(r, oid, n - 1);
        if r.branches@[n - 1].tip_oid@ == oid {
            rest.push(ChipView::Remote(r.branches@[n - 1].name@))
        } else {
            rest
        }
    }
}

pub open spec fn remote_chips(rs: Seq<Remote>, oid: Seq<char>) -> Seq<ChipView>
    decreases rs.len(),
{
    if rs.len() == 0 {
        Seq::empty()
    } else {
        remote_chips(rs.drop_last(), oid) + remote_branch_chips(rs.last(), oid, rs.last().branches@.len() as int)
    }
}

pub open spec fn tag_chips(ts: Seq<Tag>, oid: Seq<char>) -> Seq<ChipView>
    decreases ts.len(),
{
    if ts.len() == 0 {
        Seq::empty()
    } else {
        let rest = tag_chips(ts.drop_last(), oid);
        if ts.last().oid@ == oid {
            rest.push(ChipView::Tag(ts.last().name@, ts.last().annotated))
        } else {
            rest
        }
    }
}

/// The chips a commit gets, in the order refs are listed: branches, remote
/// branches, tags, then HEAD when it points at the commit.
pub open spec fn chips_for(view: RepoView, head: Option<Seq<char>>, oid: Seq<char>) -> Seq<ChipView> {
    branch_chips(view.branches@, oid) + remote_chips(view.remotes@, oid) + tag_chips(view.tags@, oid)
        + (if head == Some(oid) { seq![ChipView::Head] } else { Seq::empty() })
}

/// Display rank: current branch, other branches, HEAD, remotes, tags.
pub open spec fn chip_rank(c: ChipView) -> int {
    match c {
        ChipView::Branch(_, current) => if current { 0 } else { 1 },
        ChipView::Head => 2,
        ChipView::Remote(_) => 3,
        ChipView::Tag(_, _) => 4,
    }
}

pub open spec fn of_rank(cs: Seq<ChipView>, k: int, n: int) -> Seq<ChipView>
    decreases n,
{
    if n <= 0 {
        Seq::empty()
    } else if chip_rank(cs[n - 1]) == k {
        of_rank(cs, k, n - 1).push(cs[n - 1])
    } else {
        of_rank(cs, k, n - 1)
    }
}

/// A stable sort by rank: the chips of each rank in the order they were found,
/// lower ranks first.
pub open spec fn sort_by_rank(cs: Seq<ChipView>) -> Seq<ChipView> {
    let n = cs.len() as int;
    of_rank(cs, 0, n) + of_rank(cs, 1, n) + of_rank(cs, 2, n) + of_rank(cs, 3, n) + of_rank(cs, 4, n)
}

proof fn lemma_of_rank(cs: Seq<ChipView>, k: int, n: int)
    requires
        0 <= n <= cs.len(),
    ensures
        forall|i: int| 0 <= i < of_rank(cs, k, n).len() ==> chip_rank(#[trigger] of_rank(cs, k, n)[i]) == k,
        forall|i: int| 0 <= i < of_rank(cs, k, n).len() ==> exists|j: int| 0 <= j < n && cs[j] == #[trigger] of_rank(cs, k, n)[i],
        forall|j: int| 0 <= j < n && chip_rank(cs[j]) == k ==> of_rank(cs, k, n).contains(#[trigger] cs[j]),
    decreases n,
{
    if n > 0 {
        lemma_of_rank(cs, k, n - 1);
        let prev = of_rank(cs, k, n - 1);
        let cur = of_rank(cs, k, n);
        assert forall|i: int| 0 <= i < cur.len() implies exists|j: int| 0 <= j < n && cs[j] == #[trigger] cur[i] by {
            if i < prev.len() {
                assert(cur[i] == prev[i]);
                let j = choose|j: int| 0 <= j < n - 1 && cs[j] == prev[i];
                assert(cs[j] == cur[i]);
            } else {
                assert(cs[n - 1] == cur[i]);
            }
        }
        assert forall|j: int| 0 <= j < n && chip_rank(cs[j]) == k implies cur.contains(#[trigger] cs[j]) by {
            if j < n - 1 {
                assert(prev.contains(cs[j]));
                let i = choose|i: int| 0 <= i < prev.len() && prev[i] == cs[j];
                assert(cur[i] == cs[j]);
            } else {
                assert(cur[cur.len() - 1] == cs[j]);
            }
        }
    }
}

proof fn lemma_rank_lengths(cs: Seq<ChipView>, n: int)
    requires
        0 <= n <= cs.len(),
    ensures
        of_rank(cs, 0, n).len() + of_rank(cs, 1, n).len() + of_rank(cs, 2, n).len() + of_rank(cs, 3, n).len()
            + of_rank(cs, 4, n).len() == n,
    decreases n,
{
    if n > 0 {
        lemma_rank_lengths(cs, n - 1);
    }
}

/// The chips of a commit come ordered by rank (current branch, other
/// branches, HEAD, remote branches, tags) and are a rearrangement of the
/// chips found for it: the same number, each found chip shown, and only
/// found chips shown.
pub proof fn law_chips_by_rank(cs: Seq<ChipView>)
    ensures
        sort_by_rank(cs).len() == cs.len(),
        forall|i: int, j: int| 0 <= i < j < sort_by_rank(cs).len()
            ==> chip_rank(#[trigger] sort_by_rank(cs)[i]) <= chip_rank(#[trigger] sort_by_rank(cs)[j]),
        forall|j: int| 0 <= j < cs.len() ==> sort_by_rank(cs).contains(#[trigger] cs[j]),
        forall|i: int| 0 <= i < sort_by_rank(cs).len() ==> cs.contains(#[trigger] sort_by_rank(cs)[i]),
{
    let n = cs.len() as int;
    lemma_rank_lengths(cs, n);
    lemma_of_rank(cs, 0, n);
    lemma_of_rank(cs, 1, n);
    lemma_of_rank(cs, 2, n);
    lemma_of_rank(cs, 3, n);
    lemma_of_rank(cs, 4, n);
    let b0 = of_rank(cs, 0, n);
    let b1 = of_rank(cs, 1, n);
    let b2 = of_rank(cs, 2, n);
    let b3 = of_rank(cs, 3, n);
    let b4 = of_rank(cs, 4, n);
    let s = sort_by_rank(cs);
    let o1 = b0.len() as int;
    let o2 = o1 + b1.len();
    let o3 = o2 + b2.len();
    let o4 = o3 + b3.len();
    assert forall|i: int| 0 <= i < s.len() implies {
        &&& chip_rank(s[i]) == (if i < o1 { 0int } else if i < o2 { 1int } else if i < o3 { 2int } else if i < o4 { 3int } else { 4int })
        &&& cs.contains(s[i])
    } by {
        if i < o1 {
            assert(s[i] == b0[i]);
        } else if i < o2 {
            assert(s[i] == b1[i - o1]);
        } else if i < o3 {
            assert(s[i] == b2[i - o2]);
        } else if i < o4 {
            assert(s[i] == b3[i - o3]);
        } else {
            assert(s[i] == b4[i - o4]);
        }
    }
    assert forall|i: int, j: int| 0 <= i < j < s.len() implies chip_rank(#[trigger] s[i]) <= chip_rank(#[trigger] s[j]) by {
        assert(cs.contains(s[i]) && cs.contains(s[j]));
    }
    assert forall|j: int| 0 <= j < cs.len() implies s.contains(#[trigger] cs[j]) by {
        let r = chip_rank(cs[j]);
        if r == 0 {
            let i = choose|i: int| 0 <= i < b0.len() && b0[i] == cs[j];
            assert(s[i] == cs[j]);
        } else if r == 1 {
            let i = choose|i: int| 0 <= i < b1.len() && b1[i] == cs[j];
            assert(s[o1 + i] == cs[j]);
        } else if r == 2 {
            let i = choose|i: int| 0 <= i < b2.len() && b2[i] == cs[j];
            assert(s[o2 + i] == cs[j]);
        } else if r == 3 {
            let i = choose|i: int| 0 <= i < b3.len() && b3[i] == cs[j];
            assert(s[o3 + i] == cs[j]);
        } else {
            let i = choose|i: int| 0 <= i < b4.len() && b4[i] == cs[j];
            assert(s[o4 + i] == cs[j]);
        }
    }
}

fn rank_of(c: &RefChip) -> (r: u8)
    ensures
        r == chip_rank(chip_view(*c)),
{
    match c {
        RefChip::Branch { current, .. } => if *current { 0 } else { 1 },
        RefChip::Head => 2,
        RefChip::Remote { .. } => 3,
        RefChip::Tag { .. } => 4,
    }
}

/// Append the chips of `cs` with rank `k` to `out`, keeping their order.
fn push_rank(out: &mut Vec<RefChip>, cs: &Vec<RefChip>, k: u8)
    ensures
        chips_view(final(out)@) == chips_view(old(out)@) + of_rank(chips_view(cs@), k as int, cs@.len() as int),
{
    let ghost base = chips_view(out@);
    let mut i: usize = 0;
    while i < cs.len()
        invariant
            i <= cs@.len(),
            chips_view(out@) == base + of_rank(chips_view(cs@), k as int, i as int),
        decreases cs@.len() - i,
    {
        if rank_of(&cs[i]) == k {
            let c = copy_chip(&cs[i]);
            let ghost prev = out@;
            out.push(c);
            proof {
                lemma_chips_view_push(prev, c);
                assert(chips_view(out@) =~= base + of_rank(chips_view(cs@), k as int, i as int).push(chip_view(cs@[i as int])));
            }
        }
        i = i + 1;
    }
}

fn same(a: &String, b: &String) -> (r: bool)
    ensures
        r == (a@ == b@),
{
    *a == *b
}

/// The chips of the commit `oid`, sorted for display.
pub fn chips_for_commit(view: &RepoView, head: &Option<String>, oid: &String) -> (r: Vec<RefChip>)
    ensures
        chips_view(r@) == sort_by_rank(chips_for(*view, match head { Some(h) => Some(h@), None => None }, oid@)),
{
    let ghost o = oid@;
    let mut chips: Vec<RefChip> = Vec::new();
    let mut i: usize = 0;
    while i < view.branches.len()
        invariant
            i <= view.branches@.len(),
            o == oid@,
            chips_view(chips@) == branch_chips(view.branches@.take(i as int), o),
        decreases view.branches@.len() - i,
    {
        let b = &view.branches[i];
        proof {
            assert(view.branches@.take(i + 1).drop_last() =~= view.branches@.take(i as int));
            assert(view.branches@.take(i + 1).last() == *b);
        }
        let ghost expect = branch_chips(view.branches@.take(i + 1), o);
        assert(expect == (if b.tip_oid@ == o {
            branch_chips(view.branches@.take(i as int), o).push(ChipView::Branch(b.name@, b.current))
        } else {
            branch_chips(view.branches@.take(i as int), o)
        }));
        let hit = same(&b.tip_oid, oid);
        assert(hit == (b.tip_oid@ == oid@));
        assert(oid@ == o);
        if hit {
            let ghost prev = chips@;
            let chip = RefChip::Branch { name: b.name.clone(), current: b.current };
            chips.push(chip);
            proof {
                lemma_chips_view_push(prev, chip);
                assert(chips_view(chips@) =~= branch_chips(view.branches@.take(i as int), o).push(
                    ChipView::Branch(b.name@, b.current)));
                assert(chips_view(chips@) == expect);
            }
        } else {
            assert(b.tip_oid@ != o);
            assert(chips_view(chips@) == expect);
        }
        assert(chips_view(chips@) == expect);
        i = i + 1;
    }
    proof {
        assert(view.branches@.take(view.branches@.len() as int) =~= view.branches@);
    }
    let ghost after_branches = chips_view(chips@);
    let mut r: usize = 0;
    while r < view.remotes.len()
        invariant
            r <= view.remotes@.len(),
            o == oid@,
            chips_view(chips@) == after_branches + remote_chips(view.remotes@.take(r as int), o),
        decreases view.remotes@.len() - r,
    {
        let rm = &view.remotes[r];
        let ghost before = chips_view(chips@);
        let mut j: usize = 0;
        while j < rm.branches.len()
            invariant
                j <= rm.branches@.len(),
                o == oid@,
                chips_view(chips@) == before + remote_branch_chips(*rm, o, j as int),
            decreases rm.branches@.len() - j,
        {
            let rb = &rm.branches[j];
            let ghost expect = remote_branch_chips(*rm, o, j + 1);
            if same(&rb.tip_oid, oid) {
                let ghost prev = chips@;
                let chip = RefChip::Remote { name: rb.name.clone() };
                chips.push(chip);
                proof {
                    lemma_chips_view_push(prev, chip);
                    assert(chips_view(chips@) =~= before + remote_branch_chips(*rm, o, j as int).push(
                        ChipView::Remote(rb.name@)));
                }
            }
            assert(chips_view(chips@) == before + expect);
            j = j + 1;
        }
        proof {
            assert(view.remotes@.take(r + 1).drop_last() =~= view.remotes@.take(r as int));
            assert(view.remotes@.take(r + 1).last() == *rm);
        }
        r = r + 1;
    }
    proof {
        assert(view.remotes@.take(view.remotes@.len() as int) =~= view.remotes@);
    }
    let ghost after_remotes = chips_view(chips@);
    let mut t: usize = 0;
    while t < view.tags.len()
        invariant
            t <= view.tags@.len(),
            o == oid@,
            chips_view(chips@) == after_remotes + tag_chips(view.tags@.take(t as int), o),
        decreases view.tags@.len() - t,
    {
        let tg = &view.tags[t];
        proof {
            assert(view.tags@.take(t + 1).drop_last() =~= view.tags@.take(t as int));
            assert(view.tags@.take(t + 1).last() == *tg);
        }
        let ghost expect = tag_chips(view.tags@.take(t + 1), o);
        assert(expect == (if tg.oid@ == o {
            tag_chips(view.tags@.take(t as int), o).push(ChipView::Tag(tg.name@, tg.annotated))
        } else {
            tag_chips(view.tags@.take(t as int), o)
        }));
        if same(&tg.oid, oid) {
            let ghost prev = chips@;
            let chip = RefChip::Tag { name: tg.name.clone(), annotated: tg.annotated };
            chips.push(chip);
            proof {
                lemma_chips_view_push(prev, chip);
                assert(chips_view(chips@) =~= after_remotes + tag_chips(view.tags@.take(t as int), o).push(
                    ChipView::Tag(tg.name@, tg.annotated)));
            }
        }
        assert(chips_view(chips@) == after_remotes + expect);
        t = t + 1;
    }
    proof {
        assert(view.tags@.take(view.tags@.len() as int) =~= view.tags@);
    }
    let ghost after_tags = chips_view(chips@);
    let head_here = match head {
        Some(h) => same(h, oid),
        None => false,
    };
    if head_here {
        let ghost prev = chips@;
        chips.push(RefChip::Head);
        proof {
            lemma_chips_view_push(prev, RefChip::Head);
            assert(chips_view(chips@) =~= after_tags.push(ChipView::Head));
        }
    } else {
        proof {
            assert(after_tags + Seq::<ChipView>::empty() =~= after_tags);
        }
    }
    proof {
        let h = match head { Some(h) => Some(h@), None => None };
        assert(chips_view(chips@) =~= chips_for(*view, h, o));
    }
    let mut sorted: Vec<RefChip> = Vec::new();
    proof {
        assert(chips_view(sorted@) =~= Seq::<ChipView>::empty());
    }
    push_rank(&mut sorted, &chips, 0);
    push_rank(&mut sorted, &chips, 1);
    push_rank(&mut sorted, &chips, 2);
    push_rank(&mut sorted, &chips, 3);
    push_rank(&mut sorted, &chips, 4);
    proof {
        let cv = chips_view(chips@);
        let n = chips@.len() as int;
        assert(Seq::<ChipView>::empty() + of_rank(cv, 0, n) =~= of_rank(cv, 0, n));
    }
    sorted
}

// ── walk start set and commits ─────────────────────────────────────────

pub open spec fn is_hex_char(c: char) -> bool {
    ('0' <= c <= '9') || ('a' <= c <= 'f') || ('A' <= c <= 'F')
}

/// Text `gix::ObjectId::from_hex` accepts (SHA-1 object ids): exactly 40 hex
/// digits, either case. Hex digits are ASCII, so counting characters and
/// counting bytes agree here.
pub open spec fn is_hex_oid_spec(s: Seq<char>) -> bool {
    s.len() == 40 && forall|i: int| 0 <= i < s.len() ==> is_hex_char(#[trigger] s[i])
}

/// Whether `s` parses as an object id.
pub fn is_hex_oid(s: &str) -> (r: bool)
    ensures
        r == is_hex_oid_spec(s@),
{
    let v = chars_of(s);
    if v.len() != 40 {
        return false;
    }
    let mut i: usize = 0;
    while i < v.len()
        invariant
            v@ == s@,
            i <= v@.len(),
            forall|j: int| 0 <= j < i ==> is_hex_char(#[trigger] v@[j]),
        decreases v@.len() - i,
    {
        let c = v[i];
        if !(('0' <= c && c <= '9') || ('a' <= c && c <= 'f') || ('A' <= c && c <= 'F')) {
            return false;
        }
        i = i + 1;
    }
    true
}

pub open spec fn hex_tips_of_branches(bs: Seq<Branch>) -> Seq<Seq<char>>
    decreases bs.len(),
{
    if bs.len() == 0 {
        Seq::empty()
    } else {
        let rest = hex_tips_of_branches(bs.drop_last());
        if is_hex_oid_spec(bs.last().tip_oid@) { rest.push(bs.last().tip_oid@) } else { rest }
    }
}

pub open spec fn hex_tips_of_remote(r: Remote, n: int) -> Seq<Seq<char>>
    decreases n,
{
    if n <= 0 {
        Seq::empty()
    } else {
        let rest = hex_tips_of_remote(r, n - 1);
        let t = r.branches@[n - 1].tip_oid@;
        if is_hex_oid_spec(t) { rest.push(t) } else { rest }
    }
}

pub open spec fn hex_tips_of_remotes(rs: Seq<Remote>) -> Seq<Seq<char>>
    decreases rs.len(),
{
    if rs.len() == 0 {
        Seq::empty()
    } else {
        hex_tips_of_remotes(rs.drop_last()) + hex_tips_of_remote(rs.last(), rs.last().branches@.len() as int)
    }
}

pub open spec fn hex_tips_of_tags(ts: Seq<Tag>) -> Seq<Seq<char>>
    decreases ts.len(),
{
    if ts.len() == 0 {
        Seq::empty()
    } else {
        let rest = hex_tips_of_tags(ts.drop_last());
        if is_hex_oid_spec(ts.last().oid@) { rest.push(ts.last().oid@) } else { rest }
    }
}

/// Where the walk starts: with `all_refs` every branch, remote-branch and
/// tag tip that parses as an object id, in that order; then HEAD when it
/// resolves.
pub open spec fn walk_starts_spec(view: RepoView, all_refs: bool, head: Option<Seq<char>>) -> Seq<Seq<char>> {
    (if all_refs {
        hex_tips_of_branches(view.branches@) + hex_tips_of_remotes(view.remotes@) + hex_tips_of_tags(view.tags@)
    } else {
        Seq::empty()
    }) + match head {
        Some(h) => seq![h],
        None => Seq::empty(),
    }
}

proof fn lemma_branch_tips(bs: Seq<Branch>, t: Seq<char>)
    ensures
        hex_tips_of_branches(bs).contains(t) <==> is_hex_oid_spec(t) && exists|i: int| 0 <= i < bs.len() && (#[trigger] bs[i]).tip_oid@ == t,
    decreases bs.len(),
{
    if bs.len() > 0 {
        let rest = bs.drop_last();
        lemma_branch_tips(rest, t);
        let r = hex_tips_of_branches(rest);
        if hex_tips_of_branches(bs).contains(t) {
            let w = choose|w: int| 0 <= w < hex_tips_of_branches(bs).len() && hex_tips_of_branches(bs)[w] == t;
            if w < r.len() {
                assert(r[w] == t);
                let i = choose|i: int| 0 <= i < rest.len() && (#[trigger] rest[i]).tip_oid@ == t;
                assert(bs[i] == rest[i]);
            } else {
                assert(bs[bs.len() - 1].tip_oid@ == t);
            }
        }
        if is_hex_oid_spec(t) && exists|i: int| 0 <= i < bs.len() && (#[trigger] bs[i]).tip_oid@ == t {
            let i = choose|i: int| 0 <= i < bs.len() && (#[trigger] bs[i]).tip_oid@ == t;
            if i < bs.len() - 1 {
                assert(rest[i] == bs[i]);
                assert(r.contains(t));
                let w = choose|w: int| 0 <= w < r.len() && r[w] == t;
                assert(hex_tips_of_branches(bs)[w] == t);
            } else {
                assert(hex_tips_of_branches(bs)[r.len() as int] == t);
            }
        }
    }
}

proof fn lemma_remote_tips(rm: Remote, n: int, t: Seq<char>)
    requires
        0 <= n <= rm.branches@.len(),
    ensures
        hex_tips_of_remote(rm, n).contains(t) <==> is_hex_oid_spec(t) && exists|j: int| 0 <= j < n && (#[trigger] rm.branches@[j]).tip_oid@ == t,
    decreases n,
{
    if n > 0 {
        lemma_remote_tips(rm, n - 1, t);
        let r = hex_tips_of_remote(rm, n - 1);
        let full = hex_tips_of_remote(rm, n);
        if full.contains(t) {
            let w = choose|w: int| 0 <= w < full.len() && full[w] == t;
            if w < r.len() {
                assert(r[w] == t);
            } else {
                assert(rm.branches@[n - 1].tip_oid@ == t);
            }
        }
        if is_hex_oid_spec(t) && exists|j: int| 0 <= j < n && (#[trigger] rm.branches@[j]).tip_oid@ == t {
            let j = choose|j: int| 0 <= j < n && (#[trigger] rm.branches@[j]).tip_oid@ == t;
            if j < n - 1 {
                assert(r.contains(t));
                let w = choose|w: int| 0 <= w < r.len() && r[w] == t;
                assert(full[w] == t);
            } else {
                assert(full[r.len() as int] == t);
            }
        }
    }
}

/// Some remote has a branch whose tip is `t`.
pub open spec fn remote_tip(rs: Seq<Remote>, t: Seq<char>) -> bool {
    exists|i: int, j: int| 0 <= i < rs.len() && 0 <= j < rs[i].branches@.len() && (#[trigger] rs[i].branches@[j]).tip_oid@ == t
}

proof fn lemma_remotes_tips(rs: Seq<Remote>, t: Seq<char>)
    ensures
        hex_tips_of_remotes(rs).contains(t) <==> is_hex_oid_spec(t) && remote_tip(rs, t),
    decreases rs.len(),
{
    if rs.len() > 0 {
        let rest = rs.drop_last();
        let last = rs.last();
        lemma_remotes_tips(rest, t);
        lemma_remote_tips(last, last.branches@.len() as int, t);
        let a = hex_tips_of_remotes(rest);
        let b = hex_tips_of_remote(last, last.branches@.len() as int);
        let full = a + b;
        assert(hex_tips_of_remotes(rs) == full);
        if full.contains(t) {
            let w = choose|w: int| 0 <= w < full.len() && full[w] == t;
            if w < a.len() {
                assert(a[w] == t);
                let (i, j) = choose|i: int, j: int| 0 <= i < rest.len() && 0 <= j < rest[i].branches@.len() && (#[trigger] rest[i].branches@[j]).tip_oid@ == t;
                assert(rs[i] == rest[i]);
                assert(remote_tip(rs, t));
            } else {
                assert(b[w - a.len()] == t);
                assert(b.contains(t));
                let j = choose|j: int| 0 <= j < last.branches@.len() && (#[trigger] last.branches@[j]).tip_oid@ == t;
                assert(rs[rs.len() - 1] == last);
                assert(remote_tip(rs, t));
            }
        }
        if is_hex_oid_spec(t) && remote_tip(rs, t) {
            let (i, j) = choose|i: int, j: int| 0 <= i < rs.len() && 0 <= j < rs[i].branches@.len() && (#[trigger] rs[i].branches@[j]).tip_oid@ == t;
            if i < rs.len() - 1 {
                assert(rest[i] == rs[i]);
                assert(remote_tip(rest, t));
                assert(a.contains(t));
                let w = choose|w: int| 0 <= w < a.len() && a[w] == t;
                assert(full[w] == t);
            } else {
                assert(last.branches@[j].tip_oid@ == t);
                assert(b.contains(t));
                let w = choose|w: int| 0 <= w < b.len() && b[w] == t;
                assert(full[a.len() + w] == t);
            }
        }
    }
}

proof fn lemma_tag_tips(ts: Seq<Tag>, t: Seq<char>)
    ensures
        hex_tips_of_tags(ts).contains(t) <==> is_hex_oid_spec(t) && exists|i: int| 0 <= i < ts.len() && (#[trigger] ts[i]).oid@ == t,
    decreases ts.len(),
{
    if ts.len() > 0 {
        let rest = ts.drop_last();
        lemma_tag_tips(rest, t);
        let r = hex_tips_of_tags(rest);
        let full = hex_tips_of_tags(ts);
        if full.contains(t) {
            let w = choose|w: int| 0 <= w < full.len() && full[w] == t;
            if w < r.len() {
                assert(r[w] == t);
                let i = choose|i: int| 0 <= i < rest.len() && (#[trigger] rest[i]).oid@ == t;
                assert(ts[i] == rest[i]);
            } else {
                assert(ts[ts.len() - 1].oid@ == t);
            }
        }
        if is_hex_oid_spec(t) && exists|i: int| 0 <= i < ts.len() && (#[trigger] ts[i]).oid@ == t {
            let i = choose|i: int| 0 <= i < ts.len() && (#[trigger] ts[i]).oid@ == t;
            if i < ts.len() - 1 {
                assert(rest[i] == ts[i]);
                assert(r.contains(t));
                let w = choose|w: int| 0 <= w < r.len() && r[w] == t;
                assert(full[w] == t);
            } else {
                assert(full[r.len() as int] == t);
            }
        }
    }
}

/// What the history walk starts from: HEAD when it resolves, and, when
/// every ref is shown, each local branch, remote-tracking branch and tag
/// whose tip parses as an object id; nothing else. HEAD comes last.
pub proof fn law_walk_starts_members(view: RepoView, all_refs: bool, head: Option<Seq<char>>, t: Seq<char>)
    ensures
        walk_starts_spec(view, all_refs, head).contains(t) <==> (head == Some(t) || (all_refs && is_hex_oid_spec(t) && (
            (exists|i: int| 0 <= i < view.branches@.len() && (#[trigger] view.branches@[i]).tip_oid@ == t)
            || remote_tip(view.remotes@, t)
            || (exists|i: int| 0 <= i < view.tags@.len() && (#[trigger] view.tags@[i]).oid@ == t)))),
        head matches Some(h) ==> walk_starts_spec(view, all_refs, head).last() == h,
{
    let refs = if all_refs {
        hex_tips_of_branches(view.branches@) + hex_tips_of_remotes(view.remotes@) + hex_tips_of_tags(view.tags@)
    } else {
        Seq::empty()
    };
    let hd = match head { Some(h) => seq![h], None => Seq::<Seq<char>>::empty() };
    let all = refs + hd;
    assert(walk_starts_spec(view, all_refs, head) == all);
    lemma_branch_tips(view.branches@, t);
    lemma_remotes_tips(view.remotes@, t);
    lemma_tag_tips(view.tags@, t);
    let b = hex_tips_of_branches(view.branches@);
    let r = hex_tips_of_remotes(view.remotes@);
    let g = hex_tips_of_tags(view.tags@);
    if all_refs {
        assert(refs.contains(t) <==> (b.contains(t) || r.contains(t) || g.contains(t))) by {
            if refs.contains(t) {
                let w = choose|w: int| 0 <= w < refs.len() && refs[w] == t;
                if w < b.len() {
                    assert(b[w] == t);
                } else if w < b.len() + r.len() {
                    assert(r[w - b.len()] == t);
                } else {
                    assert(g[w - b.len() - r.len()] == t);
                }
            }
            if b.contains(t) {
                let w = choose|w: int| 0 <= w < b.len() && b[w] == t;
                assert(refs[w] == t);
            }
            if r.contains(t) {
                let w = choose|w: int| 0 <= w < r.len() && r[w] == t;
                assert(refs[b.len() + w] == t);
            }
            if g.contains(t) {
                let w = choose|w: int| 0 <= w < g.len() && g[w] == t;
                assert(refs[b.len() + r.len() + w] == t);
            }
        }
    } else {
        assert(!refs.contains(t));
    }
    assert(all.contains(t) <==> (refs.contains(t) || hd.contains(t))) by {
        if all.contains(t) {
            let w = choose|w: int| 0 <= w < all.len() && all[w] == t;
            if w < refs.len() {
                assert(refs[w] == t);
            } else {
                assert(hd[w - refs.len()] == t);
            }
        }
        if refs.contains(t) {
            let w = choose|w: int| 0 <= w < refs.len() && refs[w] == t;
            assert(all[w] == t);
        }
        if hd.contains(t) {
            let w = choose|w: int| 0 <= w < hd.len() && hd[w] == t;
            assert(all[refs.len() + w] == t);
        }
    }
    if let Some(h) = head {
        assert(hd.contains(t) <==> h == t) by {
            if h == t {
                assert(hd[0] == t);
            }
        }
    } else {
        assert(!hd.contains(t));
    }
}

/// The start set of the rev walk.
pub fn walk_starts(view: &RepoView, all_refs: bool, head: &Option<String>) -> (r: Vec<String>)
    ensures
        strings_view(r@) == walk_starts_spec(*view, all_refs, match head { Some(h) => Some(h@), None => None }),
{
    let mut starts: Vec<String> = Vec::new();
    if all_refs {
        let mut i: usize = 0;
        while i < view.branches.len()
            invariant
                i <= view.branches@.len(),
                strings_view(starts@) == hex_tips_of_branches(view.branches@.take(i as int)),
            decreases view.branches@.len() - i,
        {
            let t = &view.branches[i].tip_oid;
            proof {
                assert(view.branches@.take(i + 1).drop_last() =~= view.branches@.take(i as int));
                assert(view.branches@.take(i + 1).last() == view.branches@[i as int]);
            }
            if is_hex_oid(t.as_str()) {
                let ghost prev = starts@;
                starts.push(t.clone());
                proof {
                    lemma_strings_view_push(prev, *t);
                }
            }
            i = i + 1;
        }
        proof {
            assert(view.branches@.take(view.branches@.len() as int) =~= view.branches@);
        }
        let ghost after_branches = strings_view(starts@);
        let mut r: usize = 0;
        while r < view.remotes.len()
            invariant
                r <= view.remotes@.len(),
                strings_view(starts@) == after_branches + hex_tips_of_remotes(view.remotes@.take(r as int)),
            decreases view.remotes@.len() - r,
        {
            let rm = &view.remotes[r];
            let ghost before = strings_view(starts@);
            let mut j: usize = 0;
            while j < rm.branches.len()
                invariant
                    j <= rm.branches@.len(),
                    strings_view(starts@) == before + hex_tips_of_remote(*rm, j as int),
                decreases rm.branches@.len() - j,
            {
                let t = &rm.branches[j].tip_oid;
                if is_hex_oid(t.as_str()) {
                    let ghost prev = starts@;
                    starts.push(t.clone());
                    proof {
                        lemma_strings_view_push(prev, *t);
                    }
                }
                j = j + 1;
            }
            proof {
                assert(view.remotes@.take(r + 1).drop_last() =~= view.remotes@.take(r as int));
                assert(view.remotes@.take(r + 1).last() == *rm);
            }
            r = r + 1;
        }
        proof {
            assert(view.remotes@.take(view.remotes@.len() as int) =~= view.remotes@);
        }
        let ghost after_remotes = strings_view(starts@);
        let mut t: usize = 0;
        while t < view.tags.len()
            invariant
                t <= view.tags@.len(),
                strings_view(starts@) == after_remotes + hex_tips_of_tags(view.tags@.take(t as int)),
            decreases view.tags@.len() - t,
        {
            let o = &view.tags[t].oid;
            proof {
                assert(view.tags@.take(t + 1).drop_last() =~= view.tags@.take(t as int));
                assert(view.tags@.take(t + 1).last() == view.tags@[t as int]);
            }
            if is_hex_oid(o.as_str()) {
                let ghost prev = starts@;
                starts.push(o.clone());
                proof {
                    lemma_strings_view_push(prev, *o);
                }
            }
            t = t + 1;
        }
        proof {
            assert(view.tags@.take(view.tags@.len() as int) =~= view.tags@);
        }
    } else {
        proof {
            assert(strings_view(starts@) =~= Seq::<Seq<char>>::empty());
        }
    }
    let ghost prev = starts@;
    match head {
        Some(h) => {
            starts.push(h.clone());
            proof {
                lemma_strings_view_push(prev, *h);
            }
        },
        None => {
            proof {
                assert(strings_view(prev) + Seq::<Seq<char>>::empty() =~= strings_view(prev));
            }
        },
    }
    starts
}

/// Length in bytes of the abbreviated oid: the first 7 bytes, or all of a shorter one.
pub open spec fn short_len(bytes: Seq<u8>) -> int {
    if bytes.len() < 7 { bytes.len() as int } else { 7 }
}

/// `&oid[..oid.len().min(7)]` can be taken without splitting a character.
pub open spec fn short_ok(oid: Seq<char>) -> bool {
    is_char_boundary(encode_utf8(oid), short_len(encode_utf8(oid)))
}

/// The abbreviated oid: its first 7 bytes.
pub fn short_oid(oid: &str) -> (r: String)
    requires
        short_ok(oid@),
    ensures
        encode_utf8(r@) == encode_utf8(oid@).take(short_len(encode_utf8(oid@))),
{
    let n = oid.as_bytes().len();
    let k = if n < 7 { n } else { 7 };
    assert(oid.spec_bytes() == encode_utf8(oid@));
    let (head, _) = oid.split_at(k);
    head.to_owned()
}

pub open spec fn author_view(a: Author) -> (Seq<char>, Seq<char>) {
    (a.name@, a.email@)
}

/// The author a signature gives; `?` for both fields when it could not be read.
pub open spec fn author_of(sig: Option<RawSignature>) -> (Seq<char>, Seq<char>) {
    match sig {
        Some(s) => (s.name@, s.email@),
        None => (seq!['?'], seq!['?']),
    }
}

fn copy_strings(v: &Vec<String>) -> (r: Vec<String>)
    ensures
        strings_view(r@) == strings_view(v@),
{
    let mut out: Vec<String> = Vec::new();
    let mut i: usize = 0;
    while i < v.len()
        invariant
            i <= v@.len(),
            strings_view(out@) == strings_view(v@.take(i as int)),
        decreases v@.len() - i,
    {
        let ghost prev = out@;
        out.push(v[i].clone());
        proof {
            lemma_strings_view_push(prev, v@[i as int]);
            assert(v@.take(i + 1) =~= v@.take(i as int).push(v@[i as int]));
            lemma_strings_view_push(v@.take(i as int), v@[i as int]);
        }
        i = i + 1;
    }
    proof {
        assert(v@.take(v@.len() as int) =~= v@);
    }
    out
}

/// Author and date of a signature: the date is the signature's time, or the
/// current time when it is missing or outside the calendar range.
fn extract_author(sig: &Option<RawSignature>) -> (r: (Author, OffsetDateTime))
    ensures
        author_view(r.0) == author_of(*sig),
        sig matches Some(s) ==> (s.seconds matches Some(t) ==> (min_unix() <= t <= max_unix() ==> r.1
            == unix_datetime(t))),
{
    match sig {
        Some(s) => (Author { name: s.name.clone(), email: s.email.clone() }, date_or_now(s.seconds)),
        None => {
            let q = "?";
            proof {
                reveal_strlit("?");
            }
            (Author { name: q.to_owned(), email: q.to_owned() }, clock::now_utc())
        },
    }
}

/// The history row of one walked commit.
pub fn build_commit(raw: &RawCommit, view: &RepoView, head: &Option<String>) -> (c: Commit)
    requires
        short_ok(raw.oid@),
    ensures
        c.oid@ == raw.oid@,
        encode_utf8(c.short@) == encode_utf8(raw.oid@).take(short_len(encode_utf8(raw.oid@))),
        c.subject@ == split_message_spec(utf8_lossy(raw.message@)).0,
        match split_message_spec(utf8_lossy(raw.message@)).1 {
            Some(b) => c.body matches Some(x) && x@ == b,
            None => c.body is None,
        },
        author_view(c.author) == author_of(raw.author),
        author_view(c.committer) == author_of(raw.author),
        raw.author matches Some(s) ==> (s.seconds matches Some(t) ==> (min_unix() <= t <= max_unix()
            ==> c.date == unix_datetime(t))),
        strings_view(c.parents@) == strings_view(raw.parents@),
        chips_view(c.refs@) == sort_by_rank(chips_for(*view, match head { Some(h) => Some(h@), None => None }, raw.oid@)),
        c.signed == raw.signed,
{
    let (subject, body) = split_message(raw.message.as_slice());
    let (author, date) = extract_author(&raw.author);
    let committer = Author { name: author.name.clone(), email: author.email.clone() };
    Commit {
        oid: raw.oid.clone(),
        short: short_oid(raw.oid.as_str()),
        subject,
        body,
        author,
        committer,
        date,
        parents: copy_strings(&raw.parents),
        refs: chips_for_commit(view, head, &raw.oid),
        signed: raw.signed,
    }
}

/// The short oid, body, committer and date a history row takes from its
/// walked commit.
pub open spec fn built_extras(c: Commit, raw: RawCommit) -> bool {
    &&& encode_utf8(c.short@) == encode_utf8(raw.oid@).take(short_len(encode_utf8(raw.oid@)))
    &&& match split_message_spec(utf8_lossy(raw.message@)).1 {
        Some(b) => c.body matches Some(x) && x@ == b,
        None => c.body is None,
    }
    &&& author_view(c.committer) == author_of(raw.author)
    &&& (raw.author matches Some(s) ==> (s.seconds matches Some(t) ==> (min_unix() <= t <= max_unix()
        ==> c.date == unix_datetime(t))))
}

/// The history rows of a walk, in walk order: one per walked commit, and
/// no more than `limit`.
pub fn build_commits(raws: &Vec<RawCommit>, view: &RepoView, head: &Option<String>, limit: usize) -> (cs: Vec<Commit>)
    requires
        forall|i: int| 0 <= i < raws@.len() && i < limit ==> short_ok(#[trigger] raws@[i].oid@),
    ensures
        cs@.len() == (if raws@.len() <= limit { raws@.len() as int } else { limit as int }),
        cs@.len() <= limit,
        (forall|i: int, j: int| 0 <= i < j < raws@.len() ==> (#[trigger] raws@[i]).oid@ != (#[trigger] raws@[j]).oid@)
            ==> forall|i: int, j: int| 0 <= i < j < cs@.len() ==> (#[trigger] cs@[i]).oid@ != (#[trigger] cs@[j]).oid@,
        forall|i: int| 0 <= i < cs@.len() ==> {
            let c = #[trigger] cs@[i];
            let raw = raws@[i];
            &&& c.oid@ == raw.oid@
            &&& c.subject@ == split_message_spec(utf8_lossy(raw.message@)).0
            &&& strings_view(c.parents@) == strings_view(raw.parents@)
            &&& chips_view(c.refs@) == sort_by_rank(chips_for(*view, match head { Some(h) => Some(h@), None => None }, raw.oid@))
            &&& author_view(c.author) == author_of(raw.author)
            &&& c.signed == raw.signed
            &&& built_extras(c, raw)
        },
{
    let mut out: Vec<Commit> = Vec::new();
    let mut i: usize = 0;
    while i < raws.len() && i < limit
        invariant
            i <= raws@.len(),
            i <= limit,
            out@.len() == i,
            forall|k: int| 0 <= k < raws@.len() && k < limit ==> short_ok(#[trigger] raws@[k].oid@),
            forall|k: int| 0 <= k < i ==> {
                let c = #[trigger] out@[k];
                let raw = raws@[k];
                &&& c.oid@ == raw.oid@
                &&& c.subject@ == split_message_spec(utf8_lossy(raw.message@)).0
                &&& strings_view(c.parents@) == strings_view(raw.parents@)
                &&& chips_view(c.refs@) == sort_by_rank(chips_for(*view, match head { Some(h) => Some(h@), None => None }, raw.oid@))
                &&& author_view(c.author) == author_of(raw.author)
                &&& c.signed == raw.signed
                &&& built_extras(c, raw)
            },
        decreases raws@.len() - i,
    {
        let c = build_commit(&raws[i], view, head);
        out.push(c);
        i = i + 1;
    }
    out
}

} // verus!
