//! What the panes show: the texts of rows, chips, labels and the status
//! bar, the role each takes in the theme, and the rows of a diff.
use vstd::prelude::*;
use vstd::utf8::encode_utf8;

use crate::app::{sel_view, CommitModalState, CtxMenuKind, PushModalState, Selection};
use crate::git::log::{short_len, short_ok, short_oid};
use crate::model::commit::{Author, Commit, RefChip};
use crate::model::diff::{DiffLine, DiffOrigin, FileChange, FileStatus, Hunk};
use crate::model::reflog::ReflogAction;
use crate::model::repo::{Branch, HeadState, Remote, RepoView, Stash};
use crate::choices::{is_push_target, push_targets, remote_names, strictly_sorted};
use crate::text::{concat, decimal, owned, same_text, strings_view, u32_to_string, usize_to_string};
use crate::theme::ThemeMode;

verus! {

/// The role a text or a chip takes; the theme gives each its colors.
#[derive(Clone, Copy, Debug, PartialEq, Eq, Structural)]
pub enum Tone {
    Accent,
    Plain,
    Muted,
    Dim,
    Warn,
    Info,
    Added,
    Removed,
}

// ── commit rows ─────────────────────────────────────────────────────────

pub open spec fn author_label_spec(name: Seq<char>, email: Seq<char>) -> Seq<char> {
    if email.len() == 0 { name } else { name + "  <"@ + email + ">"@ }
}

/// The author column: the name, with the address in angle brackets when
/// there is one.
pub fn author_label(a: &Author) -> (r: String)
    ensures
        r@ == author_label_spec(a.name@, a.email@),
{
    if a.email.unicode_len() == 0 {
        a.name.clone()
    } else {
        let mut s = a.name.clone();
        s.append("  <");
        s.append(a.email.as_str());
        s.append(">");
        s
    }
}

/// The inspector's byline: name and address.
pub fn byline(a: &Author) -> (r: String)
    ensures
        r@ == a.name@ + " · "@ + a.email@,
{
    let mut s = a.name.clone();
    s.append(" · ");
    s.append(a.email.as_str());
    s
}

pub open spec fn chip_label_spec(c: RefChip) -> Seq<char> {
    match c {
        RefChip::Head => "HEAD"@,
        RefChip::Branch { name, .. } => name@,
        RefChip::Remote { name } => name@,
        RefChip::Tag { name, .. } => "tag: "@ + name@,
    }
}

/// A ref chip's text.
pub fn chip_label(c: &RefChip) -> (r: String)
    ensures
        r@ == chip_label_spec(*c),
{
    match c {
        RefChip::Head => owned("HEAD"),
        RefChip::Branch { name, .. } => name.clone(),
        RefChip::Remote { name } => name.clone(),
        RefChip::Tag { name, .. } => concat("tag: ", name.as_str()),
    }
}

pub open spec fn chip_tone_spec(c: RefChip) -> Tone {
    match c {
        RefChip::Head => Tone::Accent,
        RefChip::Branch { current, .. } => if current { Tone::Accent } else { Tone::Plain },
        RefChip::Remote { .. } => Tone::Muted,
        RefChip::Tag { .. } => Tone::Warn,
    }
}

/// HEAD and the current branch stand out; other branches are plain,
/// remote branches muted and tags warm.
pub fn chip_tone(c: &RefChip) -> (t: Tone)
    ensures
        t == chip_tone_spec(*c),
{
    match c {
        RefChip::Head => Tone::Accent,
        RefChip::Branch { current, .. } => if *current { Tone::Accent } else { Tone::Plain },
        RefChip::Remote { .. } => Tone::Muted,
        RefChip::Tag { .. } => Tone::Warn,
    }
}

/// The menu a right click on a chip opens: a branch's or a tag's own; HEAD
/// and remote chips leave the click to the row.
pub fn chip_menu(c: &RefChip) -> (r: Option<CtxMenuKind>)
    ensures
        match *c {
            RefChip::Branch { name, .. } => r matches Some(CtxMenuKind::Branch { name: n }) && n@ == name@,
            RefChip::Tag { name, .. } => r matches Some(CtxMenuKind::Tag { name: n }) && n@ == name@,
            _ => r is None,
        },
{
    match c {
        RefChip::Branch { name, .. } => Some(CtxMenuKind::Branch { name: name.clone() }),
        RefChip::Tag { name, .. } => Some(CtxMenuKind::Tag { name: name.clone() }),
        _ => None,
    }
}

/// The menu a click on a commit row opens: the commit menu on a right
/// click, none otherwise (which also closes an open menu).
pub fn row_menu(oid: &str, secondary: bool) -> (r: Option<CtxMenuKind>)
    ensures
        secondary ==> (r matches Some(CtxMenuKind::Commit { oid: o }) && o@ == oid@),
        !secondary ==> r is None,
{
    if secondary {
        Some(CtxMenuKind::Commit { oid: owned(oid) })
    } else {
        None
    }
}

pub open spec fn action_word_spec(a: ReflogAction) -> Seq<char> {
    match a {
        ReflogAction::Commit => "commit"@,
        ReflogAction::Merge => "merge"@,
        ReflogAction::Checkout => "checkout"@,
        ReflogAction::Rebase => "rebase"@,
        ReflogAction::Reset => "reset"@,
        ReflogAction::Pull => "pull"@,
        ReflogAction::Push => "push"@,
        ReflogAction::Clone => "clone"@,
        ReflogAction::CherryPick => "cherry-pick"@,
        ReflogAction::Amend => "amend"@,
        ReflogAction::Other => "other"@,
    }
}

/// The action column of a reflog row.
pub fn action_word(a: ReflogAction) -> (r: &'static str)
    ensures
        r@ == action_word_spec(a),
{
    match a {
        ReflogAction::Commit => "commit",
        ReflogAction::Merge => "merge",
        ReflogAction::Checkout => "checkout",
        ReflogAction::Rebase => "rebase",
        ReflogAction::Reset => "reset",
        ReflogAction::Pull => "pull",
        ReflogAction::Push => "push",
        ReflogAction::Clone => "clone",
        ReflogAction::CherryPick => "cherry-pick",
        ReflogAction::Amend => "amend",
        ReflogAction::Other => "other",
    }
}

/// The label of the subject-wrapping toggle.
pub fn wrap_label(on: bool) -> (r: &'static str)
    ensures
        r@ == (if on { "✓ wrap"@ } else { "wrap"@ }),
{
    if on { "✓ wrap" } else { "wrap" }
}

/// The label of the all-branches toggle.
pub fn all_refs_label(on: bool) -> (r: &'static str)
    ensures
        r@ == (if on { "✓ all branches"@ } else { "all branches"@ }),
{
    if on { "✓ all branches" } else { "all branches" }
}

/// The theme button names the current mode.
pub fn theme_label(mode: ThemeMode) -> (r: &'static str)
    ensures
        r@ == (match mode { ThemeMode::Light => "Light"@, ThemeMode::Dark => "Dark"@ }),
{
    match mode {
        ThemeMode::Light => "Light",
        ThemeMode::Dark => "Dark",
    }
}

/// The palette slot of lane `col` among `lanes` colors: lanes cycle
/// through the palette; none when the palette is empty.
pub fn lane_index(col: u8, lanes: usize) -> (r: Option<usize>)
    ensures
        lanes == 0 ==> r is None,
        lanes > 0 ==> r == Some(((col as int) % (lanes as int)) as usize),
{
    if lanes == 0 {
        None
    } else {
        Some((col as usize) % lanes)
    }
}

// ── sidebar ─────────────────────────────────────────────────────────────

pub open spec fn branch_row_spec(b: Branch) -> Seq<char> {
    (if b.current { "●  "@ } else { "   "@ }) + b.name@
        + (if b.ahead > 0 || b.behind > 0 {
            "  ↑"@ + decimal(b.ahead as nat) + " ↓"@ + decimal(b.behind as nat)
        } else {
            Seq::empty()
        })
}

/// A branch row: a dot for the current branch, the name, and the counts
/// ahead of and behind its upstream when either is not zero.
pub fn branch_row_text(b: &Branch) -> (r: String)
    ensures
        r@ == branch_row_spec(*b),
{
    let mut s = owned(if b.current { "●  " } else { "   " });
    s.append(b.name.as_str());
    if b.ahead > 0 || b.behind > 0 {
        s.append("  ↑");
        s.append(u32_to_string(b.ahead).as_str());
        s.append(" ↓");
        s.append(u32_to_string(b.behind).as_str());
    }
    s
}

/// A branch row starts with the current-branch marker and the name. When
/// the branch is ahead of or behind its upstream by anything, the row then
/// shows both counts, ending with the count behind; when it is neither,
/// the row is just the marker and the name.
pub proof fn law_branch_row_counts(b: Branch)
    ensures
        ({
            let head = (if b.current { "●  "@ } else { "   "@ }) + b.name@;
            let t = branch_row_spec(b);
            let counts = "  ↑"@ + decimal(b.ahead as nat) + " ↓"@ + decimal(b.behind as nat);
            &&& t.len() >= head.len()
            &&& t.subrange(0, head.len() as int) == head
            &&& (b.ahead > 0 || b.behind > 0) ==> t.skip(head.len() as int) == counts
            &&& (b.behind > 0) ==> t.skip(t.len() - decimal(b.behind as nat).len()) == decimal(b.behind as nat)
            &&& (b.ahead == 0 && b.behind == 0) ==> t == head
        }),
{
    let head = (if b.current { "●  "@ } else { "   "@ }) + b.name@;
    let t = branch_row_spec(b);
    let counts = "  ↑"@ + decimal(b.ahead as nat) + " ↓"@ + decimal(b.behind as nat);
    if b.ahead > 0 || b.behind > 0 {
        assert(t == head + counts);
        assert(t.subrange(0, head.len() as int) =~= head);
        assert(t.skip(head.len() as int) =~= counts);
        let d = decimal(b.behind as nat);
        assert(t.skip(t.len() - d.len()) =~= d);
    } else {
        assert(t =~= head);
        assert(t.subrange(0, head.len() as int) =~= head);
    }
}

/// A remote or tag row: the name, indented.
pub fn name_row_text(name: &str) -> (r: String)
    ensures
        r@ == "   "@ + name@,
{
    concat("   ", name)
}

/// A stash row: its reference and message.
pub fn stash_row_text(s: &Stash) -> (r: String)
    ensures
        r@ == "   stash@{"@ + decimal(s.idx as nat) + "} · "@ + s.message@,
{
    let mut t = owned("   stash@{");
    t.append(u32_to_string(s.idx).as_str());
    t.append("} · ");
    t.append(s.message.as_str());
    t
}

// ── status bar ──────────────────────────────────────────────────────────

/// A detached HEAD's oid has a first seven bytes to show.
pub open spec fn head_showable(h: HeadState) -> bool {
    h matches HeadState::Detached { oid } ==> encode_utf8(oid@).len() >= 7 && short_ok(oid@)
}

/// Where HEAD is: the branch's name, the first seven bytes of a detached
/// oid (the character text `sh` encodes them), or "(unborn)".
pub fn head_text(h: &HeadState) -> (r: String)
    requires
        head_showable(*h),
    ensures
        match *h {
            HeadState::Branch { name } => r@ == name@,
            HeadState::Detached { oid } => exists|sh: Seq<char>| encode_utf8(sh) == encode_utf8(oid@).take(7)
                && r@ == "HEAD @ "@ + sh,
            HeadState::Unborn => r@ == "(unborn)"@,
        },
{
    match h {
        HeadState::Branch { name } => name.clone(),
        HeadState::Detached { oid } => {
            let short = short_oid(oid.as_str());
            let r = concat("HEAD @ ", short.as_str());
            assert(encode_utf8(short@) == encode_utf8(oid@).take(7));
            r
        },
        HeadState::Unborn => owned("(unborn)"),
    }
}

pub open spec fn is_first_with_oid(cs: Seq<Commit>, oid: Seq<char>, i: int) -> bool {
    &&& 0 <= i < cs.len()
    &&& cs[i].oid@ == oid
    &&& forall|j: int| 0 <= j < i ==> (#[trigger] cs[j]).oid@ != oid
}

/// The first commit with this oid.
pub open spec fn commit_with_oid(cs: Seq<Commit>, oid: Seq<char>) -> Option<Commit> {
    if exists|i: int| is_first_with_oid(cs, oid, i) {
        Some(cs[choose|i: int| is_first_with_oid(cs, oid, i)])
    } else {
        None
    }
}

/// The index of the first commit with this oid.
pub fn find_commit(cs: &Vec<Commit>, oid: &str) -> (r: Option<usize>)
    ensures
        match r {
            Some(i) => is_first_with_oid(cs@, oid@, i as int) && commit_with_oid(cs@, oid@) == Some(cs@[i as int]),
            None => commit_with_oid(cs@, oid@) is None,
        },
{
    let mut i: usize = 0;
    while i < cs.len()
        invariant
            i <= cs@.len(),
            forall|j: int| 0 <= j < i ==> (#[trigger] cs@[j]).oid@ != oid@,
        decreases cs@.len() - i,
    {
        if same_text(cs[i].oid.as_str(), oid) {
            proof {
                assert(is_first_with_oid(cs@, oid@, i as int));
                let w = choose|w: int| is_first_with_oid(cs@, oid@, w);
                assert(is_first_with_oid(cs@, oid@, w));
                assert(w == i) by {
                    if w < i {
                        assert(cs@[w].oid@ != oid@);
                    } else if w > i {
                        assert(cs@[i as int].oid@ != oid@);
                    }
                }
            }
            return Some(i);
        }
        i = i + 1;
    }
    proof {
        assert forall|w: int| !is_first_with_oid(cs@, oid@, w) by {
            if 0 <= w < cs@.len() {
                assert(cs@[w].oid@ != oid@);
            }
        }
    }
    None
}

pub open spec fn selection_summary_spec(set: Seq<Seq<char>>, cs: Seq<Commit>) -> Seq<char> {
    if set.len() == 0 {
        Seq::empty()
    } else if set.len() == 1 {
        match commit_with_oid(cs, set[0]) {
            Some(c) => c.short@ + " · "@ + c.subject@,
            None => Seq::empty(),
        }
    } else {
        decimal(set.len()) + " commits selected"@
    }
}

/// The status bar's right end: the one selected commit's short oid and
/// subject, or how many commits are selected.
pub fn selection_summary(sel: &Selection, commits: &Vec<Commit>) -> (r: String)
    ensures
        r@ == selection_summary_spec(crate::text::strings_view(sel.set@), commits@),
{
    let n = sel.set.len();
    if n == 0 {
        String::new()
    } else if n == 1 {
        match find_commit(commits, sel.set[0].as_str()) {
            Some(i) => {
                let c = &commits[i];
                let mut s = c.short.clone();
                s.append(" · ");
                s.append(c.subject.as_str());
                s
            },
            None => String::new(),
        }
    } else {
        concat(usize_to_string(n).as_str(), " commits selected")
    }
}

// ── file lists ──────────────────────────────────────────────────────────

pub open spec fn status_letter_spec(s: FileStatus) -> Seq<char> {
    match s {
        FileStatus::Added => "A"@,
        FileStatus::Deleted => "D"@,
        FileStatus::Modified => "M"@,
        FileStatus::Renamed => "R"@,
        FileStatus::Copied => "C"@,
        FileStatus::TypeChange => "T"@,
        FileStatus::Conflicted => "!"@,
        FileStatus::Untracked => "?"@,
    }
}

/// The status column of a file row.
pub fn status_letter(s: FileStatus) -> (r: &'static str)
    ensures
        r@ == status_letter_spec(s),
{
    match s {
        FileStatus::Added => "A",
        FileStatus::Deleted => "D",
        FileStatus::Modified => "M",
        FileStatus::Renamed => "R",
        FileStatus::Copied => "C",
        FileStatus::TypeChange => "T",
        FileStatus::Conflicted => "!",
        FileStatus::Untracked => "?",
    }
}

pub open spec fn status_tone_spec(s: FileStatus) -> Tone {
    match s {
        FileStatus::Added => Tone::Added,
        FileStatus::Deleted => Tone::Removed,
        FileStatus::Modified => Tone::Warn,
        FileStatus::Renamed => Tone::Info,
        FileStatus::Copied => Tone::Info,
        FileStatus::TypeChange => Tone::Warn,
        FileStatus::Conflicted => Tone::Removed,
        FileStatus::Untracked => Tone::Dim,
    }
}

pub fn status_tone(s: FileStatus) -> (t: Tone)
    ensures
        t == status_tone_spec(s),
{
    match s {
        FileStatus::Added => Tone::Added,
        FileStatus::Deleted => Tone::Removed,
        FileStatus::Modified => Tone::Warn,
        FileStatus::Renamed => Tone::Info,
        FileStatus::Copied => Tone::Info,
        FileStatus::TypeChange => Tone::Warn,
        FileStatus::Conflicted => Tone::Removed,
        FileStatus::Untracked => Tone::Dim,
    }
}

/// The counts of a file row; empty when the file has neither.
pub fn file_counts(f: &FileChange) -> (r: String)
    ensures
        r@ == (if f.additions > 0 || f.deletions > 0 {
            "+"@ + decimal(f.additions as nat) + " −"@ + decimal(f.deletions as nat)
        } else {
            Seq::empty()
        }),
{
    if f.additions > 0 || f.deletions > 0 {
        let mut s = owned("+");
        s.append(u32_to_string(f.additions).as_str());
        s.append(" −");
        s.append(u32_to_string(f.deletions).as_str());
        s
    } else {
        String::new()
    }
}

/// The button of a workbench row: − unstages a staged file, + stages one.
pub fn stage_button(staged: bool) -> (r: &'static str)
    ensures
        r@ == (if staged { "−"@ } else { "+"@ }),
{
    if staged { "−" } else { "+" }
}

/// A commit needs something staged, unless it amends.
pub fn can_commit(s: &CommitModalState) -> (r: bool)
    ensures
        r == (s.staged@.len() > 0 || s.amend),
{
    s.staged.len() > 0 || s.amend
}

pub fn commit_button(amend: bool) -> (r: &'static str)
    ensures
        r@ == (if amend { "Amend"@ } else { "Commit"@ }),
{
    if amend { "Amend" } else { "Commit" }
}

// ── dialog subtitles ────────────────────────────────────────────────────

/// The first bytes of an oid a subtitle shows: up to seven.
pub open spec fn shows_short(r: Seq<char>, lead: Seq<char>, oid: Seq<char>) -> bool {
    exists|sh: Seq<char>| encode_utf8(sh) == encode_utf8(oid).take(short_len(encode_utf8(oid))) && r == lead + sh
}

fn with_short(lead: &str, oid: &str) -> (r: String)
    requires
        short_ok(oid@),
    ensures
        shows_short(r@, lead@, oid@),
{
    let short = short_oid(oid);
    let r = concat(lead, short.as_str());
    assert(encode_utf8(short@) == encode_utf8(oid@).take(short_len(encode_utf8(oid@))));
    r
}

/// The new-branch dialog's subtitle.
pub fn branch_subtitle(start: &Option<String>) -> (r: String)
    requires
        start matches Some(o) ==> short_ok(o@),
    ensures
        match *start {
            Some(o) => shows_short(r@, "Create a branch starting at "@, o@),
            None => r@ == "Create a branch from the current HEAD"@,
        },
{
    match start {
        Some(o) => with_short("Create a branch starting at ", o.as_str()),
        None => owned("Create a branch from the current HEAD"),
    }
}

/// The tag dialog's subtitle.
pub fn tag_subtitle(oid: &Option<String>) -> (r: String)
    requires
        oid matches Some(o) ==> short_ok(o@),
    ensures
        match *oid {
            Some(o) => shows_short(r@, "Tag commit "@, o@),
            None => r@ == "Tag the current HEAD"@,
        },
{
    match oid {
        Some(o) => with_short("Tag commit ", o.as_str()),
        None => owned("Tag the current HEAD"),
    }
}

/// The reset dialog's subtitle.
pub fn reset_subtitle(oid: &str) -> (r: String)
    requires
        short_ok(oid@),
    ensures
        shows_short(r@, "Move HEAD to "@, oid@),
{
    with_short("Move HEAD to ", oid)
}

/// The rename dialog's subtitle.
pub fn rename_subtitle(old_name: &str) -> (r: String)
    ensures
        r@ == "Rename branch "@ + old_name@,
{
    concat("Rename branch ", old_name)
}

// ── diff rows ───────────────────────────────────────────────────────────

/// One row of a rendered diff.
#[derive(Clone, Debug)]
pub enum DiffRow {
    /// The path of the file whose hunks follow.
    File(String),
    /// A hunk's header.
    Header(String),
    /// A line, prefixed by its origin's mark.
    Line(DiffOrigin, String),
    /// The space after a hunk.
    Gap,
}

pub open spec fn origin_mark(o: DiffOrigin) -> Seq<char> {
    match o {
        DiffOrigin::Added => "+"@,
        DiffOrigin::Removed => "−"@,
        DiffOrigin::Context => " "@,
    }
}

pub open spec fn line_text_spec(l: DiffLine) -> Seq<char> {
    origin_mark(l.origin) + " "@ + l.content@
}

/// A diff line as shown: its origin's mark, a space, its text.
pub fn line_text(l: &DiffLine) -> (r: String)
    ensures
        r@ == line_text_spec(*l),
{
    let mark = match l.origin {
        DiffOrigin::Added => "+",
        DiffOrigin::Removed => "−",
        DiffOrigin::Context => " ",
    };
    let mut s = owned(mark);
    s.append(" ");
    s.append(l.content.as_str());
    s
}

pub open spec fn row_view(r: DiffRow) -> (int, Seq<char>, DiffOrigin) {
    match r {
        DiffRow::File(p) => (0, p@, DiffOrigin::Context),
        DiffRow::Header(h) => (1, h@, DiffOrigin::Context),
        DiffRow::Line(o, t) => (2, t@, o),
        DiffRow::Gap => (3, Seq::empty(), DiffOrigin::Context),
    }
}

pub open spec fn rows_view(rs: Seq<DiffRow>) -> Seq<(int, Seq<char>, DiffOrigin)> {
    rs.map_values(|r: DiffRow| row_view(r))
}

/// The rows of one hunk: its header, its lines, a gap.
pub open spec fn hunk_rows(h: Hunk) -> Seq<(int, Seq<char>, DiffOrigin)> {
    seq![(1, h.header@, DiffOrigin::Context)]
        + h.lines@.map_values(|l: DiffLine| (2, line_text_spec(l), l.origin))
        + seq![(3, Seq::<char>::empty(), DiffOrigin::Context)]
}

/// The rows of the hunks: a file row before each run of hunks of one path
/// (whenever the path differs from the previous hunk's), then each hunk's rows.
pub open spec fn diff_rows_spec(hs: Seq<(String, Hunk)>) -> Seq<(int, Seq<char>, DiffOrigin)>
    decreases hs.len(),
{
    if hs.len() == 0 {
        Seq::empty()
    } else {
        let k = hs.len() - 1;
        diff_rows_spec(hs.drop_last())
            + (if k == 0 || hs[k - 1].0@ != hs[k].0@ { seq![(0, hs[k].0@, DiffOrigin::Context)] } else { Seq::empty() })
            + hunk_rows(hs[k].1)
    }
}

fn push_row(rows: &mut Vec<DiffRow>, r: DiffRow)
    ensures
        rows_view(final(rows)@) == rows_view(old(rows)@).push(row_view(r)),
{
    let ghost before = rows@;
    rows.push(r);
    proof {
        assert(rows_view(rows@) =~= rows_view(before).push(row_view(r)));
    }
}

/// The rows of a diff pane.
pub fn diff_rows(hunks: &Vec<(String, Hunk)>) -> (r: Vec<DiffRow>)
    ensures
        rows_view(r@) == diff_rows_spec(hunks@),
{
    let mut rows: Vec<DiffRow> = Vec::new();
    let mut k: usize = 0;
    while k < hunks.len()
        invariant
            k <= hunks@.len(),
            rows_view(rows@) == diff_rows_spec(hunks@.take(k as int)),
        decreases hunks@.len() - k,
    {
        let ghost before = rows_view(rows@);
        let (path, hunk) = (&hunks[k].0, &hunks[k].1);
        let new_file = k == 0 || !same_text(hunks[k - 1].0.as_str(), path.as_str());
        if new_file {
            push_row(&mut rows, DiffRow::File(path.clone()));
        }
        let ghost after_file = rows_view(rows@);
        push_row(&mut rows, DiffRow::Header(hunk.header.clone()));
        let mut i: usize = 0;
        while i < hunk.lines.len()
            invariant
                i <= hunk.lines@.len(),
                rows_view(rows@) == after_file + seq![(1int, hunk.header@, DiffOrigin::Context)]
                    + hunk.lines@.take(i as int).map_values(|l: DiffLine| (2int, line_text_spec(l), l.origin)),
            decreases hunk.lines@.len() - i,
        {
            let l = &hunk.lines[i];
            push_row(&mut rows, DiffRow::Line(l.origin, line_text(l)));
            proof {
                assert(hunk.lines@.take(i + 1).map_values(|l: DiffLine| (2int, line_text_spec(l), l.origin))
                    =~= hunk.lines@.take(i as int).map_values(|l: DiffLine| (2int, line_text_spec(l), l.origin))
                        .push((2int, line_text_spec(hunk.lines@[i as int]), hunk.lines@[i as int].origin)));
            }
            i = i + 1;
        }
        push_row(&mut rows, DiffRow::Gap);
        proof {
            let t = hunks@.take(k + 1);
            assert(t.drop_last() =~= hunks@.take(k as int));
            assert(hunk.lines@.take(hunk.lines@.len() as int) =~= hunk.lines@);
            assert(rows_view(rows@) =~= diff_rows_spec(t));
        }
        k = k + 1;
    }
    assert(hunks@.take(hunks@.len() as int) =~= hunks@);
    rows
}


// ── commit workbench panes ──────────────────────────────────────────────

/// The header of a file list: its name and how many files it holds.
pub fn section_header(staged: bool, count: usize) -> (r: (&'static str, String))
    ensures
        r.0@ == (if staged { "Staged"@ } else { "Unstaged"@ }),
        r.1@ == decimal(count as nat),
{
    (if staged { "Staged" } else { "Unstaged" }, usize_to_string(count))
}

/// The row shown in place of an empty file list.
pub fn file_list_note(s: &CommitModalState, staged: bool) -> (r: Option<&'static str>)
    ensures
        staged ==> match r {
            Some(t) => s.staged@.len() == 0 && t@ == "nothing staged yet"@,
            None => s.staged@.len() > 0,
        },
        !staged ==> match r {
            Some(t) => s.unstaged@.len() == 0 && t@ == "clean — nothing to stage"@,
            None => s.unstaged@.len() > 0,
        },
{
    if staged {
        if s.staged.len() == 0 { Some("nothing staged yet") } else { None }
    } else {
        if s.unstaged.len() == 0 { Some("clean — nothing to stage") } else { None }
    }
}

/// The text the diff pane shows in place of hunks: a prompt without a
/// selection, a note when the selected file has no hunks; none otherwise.
pub fn diff_pane_note(s: &CommitModalState) -> (r: Option<&'static str>)
    ensures
        match r {
            Some(t) => if s.selected_path is None {
                t@ == "Select a file to view its diff."@
            } else {
                s.hunks@.len() == 0 && t@ == "No diff for this file."@
            },
            None => s.selected_path is Some && s.hunks@.len() > 0,
        },
{
    if s.selected_path.is_none() {
        Some("Select a file to view its diff.")
    } else if s.hunks.len() == 0 {
        Some("No diff for this file.")
    } else {
        None
    }
}

// ── push dialog ─────────────────────────────────────────────────────────

/// The chips of a picker: each name, and whether it is the chosen one.
pub fn choice_chips(names: &Vec<String>, chosen: &str) -> (r: Vec<(String, bool)>)
    ensures
        r@.len() == names@.len(),
        forall|i: int| 0 <= i < names@.len() ==> (#[trigger] r@[i]).0@ == names@[i]@ && r@[i].1 == (names@[i]@ == chosen@),
{
    let mut out: Vec<(String, bool)> = Vec::new();
    let mut i: usize = 0;
    while i < names.len()
        invariant
            i <= names@.len(),
            out@.len() == i,
            forall|j: int| 0 <= j < i ==> (#[trigger] out@[j]).0@ == names@[j]@ && out@[j].1 == (names@[j]@ == chosen@),
        decreases names@.len() - i,
    {
        let sel = same_text(names[i].as_str(), chosen);
        out.push((names[i].clone(), sel));
        i = i + 1;
    }
    out
}

/// What the push dialog's status line reads: the error, else a note while
/// the push runs, else nothing.
pub open spec fn push_status_spec(error: Option<Seq<char>>, running: bool) -> Seq<char> {
    match error {
        Some(e) => e,
        None => if running { "pushing…"@ } else { ""@ },
    }
}

/// Everything the push dialog shows.
pub struct PushView {
    pub title: String,
    pub subtitle: String,
    pub source_label: String,
    /// The local branch being pushed.
    pub source: String,
    pub remote_label: String,
    /// One chip per configured remote, the chosen one marked.
    pub remotes: Vec<(String, bool)>,
    /// Shown in place of the chips when no remote is configured.
    pub remotes_note: Option<String>,
    pub target_label: String,
    /// The branches already on the chosen remote, the one typed marked.
    pub targets: Vec<(String, bool)>,
    /// Shown in place of the suggestions when there are none.
    pub targets_note: Option<String>,
    pub force_label: String,
    pub force: bool,
    pub force_help: String,
    pub status: String,
    pub ok_label: String,
}

/// The push dialog for state `s` on `repo`.
pub fn push_view(s: &PushModalState, repo: &RepoView) -> (v: PushView)
    ensures
        v.title@ == "Push"@,
        v.subtitle@ == "Push the current branch"@,
        v.source_label@ == "source"@,
        v.source@ == (if s.branch@.len() == 0 { "(no current branch)"@ } else { s.branch@ }),
        v.remote_label@ == "remote"@,
        v.remotes@.len() == repo.remotes@.len(),
        forall|i: int| 0 <= i < repo.remotes@.len() ==> (#[trigger] v.remotes@[i]).0@ == repo.remotes@[i].name@
            && v.remotes@[i].1 == (repo.remotes@[i].name@ == s.remote@),
        match v.remotes_note {
            Some(t) => repo.remotes@.len() == 0 && t@ == "(no remotes configured)"@,
            None => repo.remotes@.len() > 0,
        },
        v.target_label@ == "target branch (on the remote)"@,
        strictly_sorted(v.targets@.map_values(|c: (String, bool)| c.0@)),
        forall|t: Seq<char>| v.targets@.map_values(|c: (String, bool)| c.0@).contains(t)
            <==> is_push_target(repo.remotes@, s.remote@, t),
        forall|i: int| 0 <= i < v.targets@.len() ==> (#[trigger] v.targets@[i]).1 == (v.targets@[i].0@ == s.target_branch@),
        match v.targets_note {
            Some(t) => v.targets@.len() == 0 && t@ == "(no existing branches on this remote)"@,
            None => v.targets@.len() > 0,
        },
        v.force_label@ == "force with lease"@,
        v.force == s.force_with_lease,
        v.force_help@ == "rejects the push if the remote has commits we haven't seen — safer than --force, still a rewrite"@,
        v.status@ == push_status_spec(match s.error { Some(e) => Some(e@), None => None }, s.running),
        v.ok_label@ == "Push"@,
{
    let names = remote_names(repo);
    let remotes = choice_chips(&names, s.remote.as_str());
    proof {
        assert(names@.len() == strings_view(names@).len());
        assert forall|i: int| 0 <= i < repo.remotes@.len() implies (#[trigger] remotes@[i]).0@ == repo.remotes@[i].name@ by {
            assert(strings_view(names@).len() == names@.len());
            assert(strings_view(names@)[i] == names@[i]@);
            assert(repo.remotes@.map_values(|x: Remote| x.name@)[i] == repo.remotes@[i].name@);
        }
    }
    let remotes_note = if remotes.len() == 0 { Some(owned("(no remotes configured)")) } else { None };
    let found = push_targets(repo, s.remote.as_str());
    let targets = choice_chips(&found, s.target_branch.as_str());
    proof {
        assert(targets@.map_values(|c: (String, bool)| c.0@) =~= strings_view(found@));
    }
    let targets_note = if targets.len() == 0 { Some(owned("(no existing branches on this remote)")) } else { None };
    let source = if s.branch.unicode_len() == 0 { owned("(no current branch)") } else { s.branch.clone() };
    let status = match &s.error {
        Some(e) => e.clone(),
        None => if s.running { owned("pushing…") } else { owned("") },
    };
    PushView {
        title: owned("Push"),
        subtitle: owned("Push the current branch"),
        source_label: owned("source"),
        source,
        remote_label: owned("remote"),
        remotes,
        remotes_note,
        target_label: owned("target branch (on the remote)"),
        targets,
        targets_note,
        force_label: owned("force with lease"),
        force: s.force_with_lease,
        force_help: owned("rejects the push if the remote has commits we haven't seen — safer than --force, still a rewrite"),
        status,
        ok_label: owned("Push"),
    }
}

} // verus!
