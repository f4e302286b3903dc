//! The inspector pane: which commit it shows, what its details read, and
//! what each tab reads and shows.
use vstd::prelude::*;
use vstd::utf8::encode_utf8;

use crate::app::sel_view;
use crate::git::log::{short_len, short_ok, short_oid};
use crate::model::commit::{Commit, RefChip};
use crate::present::{commit_with_oid, diff_rows, diff_rows_spec, find_commit, is_first_with_oid, rows_view, DiffRow, Tone};
use crate::model::diff::{FileChange, Hunk};
use crate::startup::{working_tree_id, working_tree_oid};
use crate::text::{concat, join, owned, same_text, strings_view};

verus! {

/// The oid the inspector looks for: the clicked row's, else the first
/// commit's.
pub open spec fn inspected(primary: Option<String>, cs: Seq<Commit>) -> Option<Seq<char>> {
    match primary {
        Some(p) => Some(p@),
        None => if cs.len() > 0 { Some(cs[0].oid@) } else { None },
    }
}

/// The commit the inspector shows: the first one with the inspected oid;
/// none for the working-tree row.
pub open spec fn shown_commit(primary: Option<String>, cs: Seq<Commit>) -> Option<Commit> {
    match inspected(primary, cs) {
        Some(o) => if o == working_tree_id() { None } else { commit_with_oid(cs, o) },
        None => None,
    }
}

/// The index of the commit the inspector shows.
pub fn selected_commit(primary: &Option<String>, commits: &Vec<Commit>) -> (r: Option<usize>)
    ensures
        match r {
            Some(i) => i < commits@.len() && shown_commit(*primary, commits@) == Some(commits@[i as int]),
            None => shown_commit(*primary, commits@) is None,
        },
{
    let oid: &str = match primary {
        Some(p) => p.as_str(),
        None => {
            if commits.len() == 0 {
                return None;
            }
            commits[0].oid.as_str()
        },
    };
    if same_text(oid, working_tree_oid()) {
        return None;
    }
    find_commit(commits, oid)
}

/// Whether the working-tree row is the clicked one.
pub fn working_tree_selected(primary: &Option<String>) -> (r: bool)
    ensures
        r == (sel_view(*primary) == Some(working_tree_id())),
{
    match primary {
        Some(p) => same_text(p.as_str(), working_tree_oid()),
        None => false,
    }
}

// ── details ─────────────────────────────────────────────────────────────

/// The first bytes of an oid that the details show for a parent.
pub open spec fn short_bytes(oid: Seq<char>) -> Seq<u8> {
    encode_utf8(oid).take(short_len(encode_utf8(oid)))
}

/// The parents line as bytes: each parent's first seven bytes, three
/// spaces apart.
pub open spec fn parents_bytes(ps: Seq<Seq<char>>) -> Seq<u8>
    decreases ps.len(),
{
    if ps.len() == 0 {
        Seq::empty()
    } else if ps.len() == 1 {
        short_bytes(ps[0])
    } else {
        parents_bytes(ps.drop_last()) + encode_utf8("   "@) + short_bytes(ps.last())
    }
}

proof fn lemma_encode_concat(a: Seq<char>, b: Seq<char>)
    ensures
        encode_utf8(a + b) == encode_utf8(a) + encode_utf8(b),
    decreases a.len(),
{
    if a.len() > 0 {
        assert((a + b).drop_first() =~= a.drop_first() + b);
        lemma_encode_concat(a.drop_first(), b);
        assert((a + b)[0] == a[0]);
        assert(encode_utf8(a + b) =~= encode_utf8(a) + encode_utf8(b));
    } else {
        assert(a + b =~= b);
        assert(encode_utf8(a) =~= Seq::<u8>::empty());
        assert(encode_utf8(a) + encode_utf8(b) =~= encode_utf8(b));
    }
}

/// Every parent's first seven bytes can be cut without splitting a character.
pub open spec fn parents_showable(c: Commit) -> bool {
    forall|i: int| 0 <= i < c.parents@.len() ==> short_ok(#[trigger] c.parents@[i]@)
}

/// The parents line: "(root)" for a root commit, else each parent's
/// first seven bytes, three spaces apart.
pub fn parents_text(c: &Commit) -> (r: String)
    requires
        parents_showable(*c),
    ensures
        c.parents@.len() == 0 ==> r@ == "(root)"@,
        c.parents@.len() > 0 ==> encode_utf8(r@) == parents_bytes(strings_view(c.parents@)),
{
    if c.parents.len() == 0 {
        return owned("(root)");
    }
    let ghost ps = strings_view(c.parents@);
    let mut s = short_oid(c.parents[0].as_str());
    let mut i: usize = 1;
    assert(ps.take(1).drop_last() =~= Seq::<Seq<char>>::empty());
    while i < c.parents.len()
        invariant
            1 <= i <= c.parents@.len(),
            ps == strings_view(c.parents@),
            parents_showable(*c),
            encode_utf8(s@) == parents_bytes(ps.take(i as int)),
        decreases c.parents@.len() - i,
    {
        let short = short_oid(c.parents[i].as_str());
        let ghost before = s@;
        s.append("   ");
        s.append(short.as_str());
        proof {
            lemma_encode_concat(before, "   "@);
            lemma_encode_concat(before + "   "@, short@);
            assert(s@ == before + "   "@ + short@);
            assert(ps.take(i + 1).drop_last() =~= ps.take(i as int));
            assert(ps.take(i + 1).last() == c.parents@[i as int]@);
        }
        i = i + 1;
    }
    assert(ps.take(c.parents@.len() as int) =~= ps);
    s
}

/// The names of the commit's tags, in order.
pub open spec fn tag_names(refs: Seq<RefChip>) -> Seq<Seq<char>>
    decreases refs.len(),
{
    if refs.len() == 0 {
        Seq::empty()
    } else {
        tag_names(refs.drop_last()) + match refs.last() {
            RefChip::Tag { name, .. } => seq![name@],
            _ => Seq::empty(),
        }
    }
}

/// The tags line: the commit's tag names, three spaces apart; none when
/// it has no tag.
pub fn tags_text(c: &Commit) -> (r: Option<String>)
    ensures
        tag_names(c.refs@).len() == 0 ==> r is None,
        tag_names(c.refs@).len() > 0 ==> (r matches Some(t) && t@ == join(tag_names(c.refs@), "   "@)),
{
    let mut names: Vec<String> = Vec::new();
    let mut i: usize = 0;
    while i < c.refs.len()
        invariant
            i <= c.refs@.len(),
            strings_view(names@) == tag_names(c.refs@.take(i as int)),
        decreases c.refs@.len() - i,
    {
        proof {
            assert(c.refs@.take(i + 1).drop_last() =~= c.refs@.take(i as int));
        }
        match &c.refs[i] {
            RefChip::Tag { name, .. } => {
                let ghost before = names@;
                names.push(name.clone());
                proof {
                    crate::text::lemma_strings_view_push(before, names@.last());
                }
            },
            _ => {
                proof {
                    assert(tag_names(c.refs@.take(i + 1)) =~= tag_names(c.refs@.take(i as int)));
                }
            },
        }
        i = i + 1;
    }
    assert(c.refs@.take(c.refs@.len() as int) =~= c.refs@);
    if names.len() == 0 {
        None
    } else {
        Some(crate::text::join_strings(&names, "   "))
    }
}

/// The signature line and its role.
pub fn signed_label(signed: bool) -> (r: (&'static str, Tone))
    ensures
        r.0@ == (if signed { "✓ signed"@ } else { "not signed"@ }),
        r.1 == (if signed { Tone::Added } else { Tone::Muted }),
{
    if signed { ("✓ signed", Tone::Added) } else { ("not signed", Tone::Muted) }
}

// ── tabs ────────────────────────────────────────────────────────────────

/// What a tab reads: the working tree's changes or a commit's.
#[derive(Clone, Debug)]
pub enum Target {
    WorkingTree,
    Commit(String),
}

/// A tab either shows a note without reading, or reads its target and
/// shows `empty` when the read finds nothing.
#[derive(Clone, Debug)]
pub enum PaneSource {
    Note(String),
    Read { target: Target, empty: String },
}

pub open spec fn notes(s: PaneSource, m: Seq<char>) -> bool {
    s matches PaneSource::Note(n) && n@ == m
}

pub open spec fn reads_tree(s: PaneSource, empty: Seq<char>) -> bool {
    s matches PaneSource::Read { target: Target::WorkingTree, empty: e } && e@ == empty
}

pub open spec fn reads_commit(s: PaneSource, oid: Seq<char>, empty: Seq<char>) -> bool {
    s matches PaneSource::Read { target: Target::Commit(o), empty: e } && o@ == oid && e@ == empty
}

fn note(m: &str) -> (s: PaneSource)
    ensures
        notes(s, m@),
{
    PaneSource::Note(owned(m))
}

fn read_tree(empty: &str) -> (s: PaneSource)
    ensures
        reads_tree(s, empty@),
{
    PaneSource::Read { target: Target::WorkingTree, empty: owned(empty) }
}

fn read_commit(oid: &String, empty: &str) -> (s: PaneSource)
    ensures
        reads_commit(s, oid@, empty@),
{
    PaneSource::Read { target: Target::Commit(oid.clone()), empty: owned(empty) }
}

/// The Changes tab: the working tree's changes when its row (or nothing)
/// is clicked, else the shown commit's files.
pub fn changes_source(demo: bool, primary: &Option<String>, commits: &Vec<Commit>) -> (s: PaneSource)
    ensures
        demo ==> notes(s, "demo mode — changes are only shown for real repos"@),
        !demo && (primary is None || sel_view(*primary) == Some(working_tree_id())) ==> reads_tree(s, "No uncommitted changes."@),
        !demo && !(primary is None || sel_view(*primary) == Some(working_tree_id())) ==> match shown_commit(*primary, commits@) {
            Some(c) => reads_commit(s, c.oid@, "No files changed."@),
            None => notes(s, "Select a commit or the working-tree row."@),
        },
{
    if demo {
        return note("demo mode — changes are only shown for real repos");
    }
    if working_tree_selected(primary) || primary.is_none() {
        return read_tree("No uncommitted changes.");
    }
    match selected_commit(primary, commits) {
        Some(i) => read_commit(&commits[i].oid, "No files changed."),
        None => note("Select a commit or the working-tree row."),
    }
}

/// The Files tab: the shown commit's files.
pub fn files_source(demo: bool, primary: &Option<String>, commits: &Vec<Commit>) -> (s: PaneSource)
    ensures
        sel_view(*primary) == Some(working_tree_id()) ==> notes(s, "Working-tree files — see the Changes tab."@),
        sel_view(*primary) != Some(working_tree_id()) ==> match shown_commit(*primary, commits@) {
            Some(c) => if demo { notes(s, "demo mode — files are only shown for real repos"@) }
                else { reads_commit(s, c.oid@, "No files changed."@) },
            None => notes(s, "Select a commit to see its files."@),
        },
{
    if working_tree_selected(primary) {
        return note("Working-tree files — see the Changes tab.");
    }
    match selected_commit(primary, commits) {
        Some(i) => if demo {
            note("demo mode — files are only shown for real repos")
        } else {
            read_commit(&commits[i].oid, "No files changed.")
        },
        None => note("Select a commit to see its files."),
    }
}

/// The Diff tab: the working tree's hunks when its row is clicked, else
/// the shown commit's.
pub fn diff_source(demo: bool, primary: &Option<String>, commits: &Vec<Commit>) -> (s: PaneSource)
    ensures
        demo ==> notes(s, "demo mode — diffs are only shown for real repos"@),
        !demo && sel_view(*primary) == Some(working_tree_id()) ==> reads_tree(s, "No uncommitted changes."@),
        !demo && sel_view(*primary) != Some(working_tree_id()) ==> match shown_commit(*primary, commits@) {
            Some(c) => reads_commit(s, c.oid@, "No changes in this commit."@),
            None => notes(s, "Select a commit to see its diff."@),
        },
{
    if demo {
        return note("demo mode — diffs are only shown for real repos");
    }
    if working_tree_selected(primary) {
        return read_tree("No uncommitted changes.");
    }
    match selected_commit(primary, commits) {
        Some(i) => read_commit(&commits[i].oid, "No changes in this commit."),
        None => note("Select a commit to see its diff."),
    }
}

/// What a tab shows once read: a note, or the files.
#[derive(Clone, Debug)]
pub enum FilesPane {
    Note(String),
    Files(Vec<FileChange>),
}

/// The read's files; the empty note when there are none; the error when
/// the read failed.
pub fn files_pane(read: Result<Vec<FileChange>, String>, empty: &str) -> (p: FilesPane)
    ensures
        match read {
            Ok(fs) => if fs@.len() == 0 { p matches FilesPane::Note(n) && n@ == empty@ } else { p matches FilesPane::Files(x) && x == fs },
            Err(e) => p matches FilesPane::Note(n) && n@ == "error: "@ + e@,
        },
{
    match read {
        Ok(fs) => if fs.len() == 0 { FilesPane::Note(owned(empty)) } else { FilesPane::Files(fs) },
        Err(e) => FilesPane::Note(concat("error: ", e.as_str())),
    }
}

/// What the Diff tab shows once read: a note, or the rows of the hunks.
#[derive(Clone, Debug)]
pub enum DiffPane {
    Note(String),
    Rows(Vec<DiffRow>),
}

pub fn diff_pane(read: Result<Vec<(String, Hunk)>, String>, empty: &str) -> (p: DiffPane)
    ensures
        match read {
            Ok(hs) => if hs@.len() == 0 { p matches DiffPane::Note(n) && n@ == empty@ }
                else { p matches DiffPane::Rows(rs) && rows_view(rs@) == diff_rows_spec(hs@) },
            Err(e) => p matches DiffPane::Note(n) && n@ == "error: "@ + e@,
        },
{
    match read {
        Ok(hs) => if hs.len() == 0 { DiffPane::Note(owned(empty)) } else { DiffPane::Rows(diff_rows(&hs)) },
        Err(e) => DiffPane::Note(concat("error: ", e.as_str())),
    }
}

} // verus!
