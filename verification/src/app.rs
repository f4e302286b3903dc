//! Application state: views, selection, modal dialogs and their transitions.
use vstd::prelude::*;

use crate::model::diff::{FileChange, FileStatus, Hunk};
use crate::text::owned;
use crate::git::diff::{path_eq, same_path};
use vstd::view::View as _;

verus! {

#[derive(Clone, Copy, Debug, PartialEq, Eq, Structural)]
pub enum View {
    History,
    Reflog,
}

#[derive(Clone, Debug, Default)]
pub struct Selection {
    /// Oid of the last-clicked row.
    pub primary: Option<String>,
    /// All selected oids.
    pub set: Vec<String>,
    /// Start of a shift-click range.
    pub anchor: Option<String>,
}

#[derive(Clone, Copy, Debug, PartialEq, Eq, Structural)]
pub enum InspectorTab {
    Changes,
    Diff,
    Files,
    Details,
}

#[derive(Clone, Debug, Default)]
pub struct BranchModalState {
    pub name: String,
    pub checkout: bool,
    /// Commit to branch from; HEAD when none.
    pub start_oid: Option<String>,
    pub error: Option<String>,
}

#[derive(Clone, Copy, Debug, PartialEq, Eq, Default, Structural)]
pub enum ResetMode {
    /// Move HEAD only — index and working tree untouched.
    Soft,
    /// Move HEAD + reset index — working tree untouched. Default `git reset`.
    #[default]
    Mixed,
    /// Move HEAD + reset index + working tree. Destructive.
    Hard,
}

#[derive(Clone, Debug, Default)]
pub struct ResetModalState {
    pub oid: String,
    pub mode: ResetMode,
    pub error: Option<String>,
}

#[derive(Clone, Debug, Default)]
pub struct RenameBranchModalState {
    pub old_name: String,
    pub new_name: String,
    pub error: Option<String>,
}

#[derive(Clone, Debug, Default)]
pub struct TagModalState {
    pub name: String,
    /// Non-blank makes the tag annotated; blank makes it lightweight.
    pub message: String,
    /// Commit to tag; HEAD when none.
    pub oid: Option<String>,
    pub error: Option<String>,
}

#[derive(Clone, Debug, Default)]
pub struct FetchModalState {
    pub remote: String,
    pub prune: bool,
    pub error: Option<String>,
    pub running: bool,
}

#[derive(Clone, Debug, Default)]
pub struct PushModalState {
    pub remote: String,
    /// Local branch being pushed.
    pub branch: String,
    /// Remote branch name to push to.
    pub target_branch: String,
    pub force_with_lease: bool,
    pub error: Option<String>,
    pub running: bool,
}

/// The commit workbench: unstaged and staged file lists, the file whose
/// diff is shown, and the message being written.
#[derive(Clone, Debug, Default)]
pub struct CommitModalState {
    pub message: String,
    pub amend: bool,
    pub error: Option<String>,
    /// Working-tree files not yet staged.
    pub unstaged: Vec<FileChange>,
    /// Files in the index that differ from HEAD.
    pub staged: Vec<FileChange>,
    /// Path of the file whose diff is shown.
    pub selected_path: Option<String>,
    /// Whether the selected file is on the staged side.
    pub selected_staged: bool,
    /// Hunks of the selected file.
    pub hunks: Vec<(String, Hunk)>,
    /// Last click on a file row: its path and the time in milliseconds of a
    /// monotonic clock, for double-click detection.
    pub last_click: Option<(String, u64)>,
    /// Set when a read of the lists or of a diff failed.
    pub read_error: Option<String>,
}

#[derive(Clone, Debug, Default)]
pub struct MergeModalState {
    pub branch: String,
    pub no_ff: bool,
    pub error: Option<String>,
}

#[derive(Clone, Debug, Default)]
pub struct RebaseModalState {
    pub onto: String,
    pub error: Option<String>,
}

#[derive(Clone, Debug, Default)]
pub struct AddRemoteModalState {
    pub name: String,
    pub url: String,
    pub error: Option<String>,
}

#[derive(Clone, Debug, Default)]
pub struct CherryPickModalState {
    pub oid: String,
    pub no_commit: bool,
    pub error: Option<String>,
}

#[derive(Clone, Debug)]
pub enum Modal {
    Commit(CommitModalState),
    Rebase(RebaseModalState),
    Fetch(FetchModalState),
    Push(PushModalState),
    AddRemote(AddRemoteModalState),
    Branch(BranchModalState),
    Merge(MergeModalState),
    CherryPick(CherryPickModalState),
    Reset(ResetModalState),
    RenameBranch(RenameBranchModalState),
    Tag(TagModalState),
}

#[derive(Clone, Debug)]
pub enum CtxMenuKind {
    Commit { oid: String },
    Branch { name: String },
    Remote { name: String },
    Tag { name: String },
    Stash { idx: u32 },
}

/// Transient banner shown above the statusbar to surface op results.
#[derive(Clone, Debug)]
pub struct Toast {
    pub kind: ToastKind,
    pub message: String,
}

#[derive(Clone, Copy, Debug, PartialEq, Eq, Structural)]
pub enum ToastKind {
    Info,
    Error,
}

impl Toast {
    pub fn info(message: String) -> (t: Self)
        ensures
            t.kind == ToastKind::Info,
            t.message == message,
    {
        Toast { kind: ToastKind::Info, message }
    }

    pub fn error(message: String) -> (t: Self)
        ensures
            t.kind == ToastKind::Error,
            t.message == message,
    {
        Toast { kind: ToastKind::Error, message }
    }
}

/// The dialog `m` showing the error `e`, all else as it was.
pub open spec fn with_error(m: Modal, e: String) -> Modal {
    match m {
        Modal::Commit(s) => Modal::Commit(CommitModalState { error: Some(e), ..s }),
        Modal::Rebase(s) => Modal::Rebase(RebaseModalState { error: Some(e), ..s }),
        Modal::Fetch(s) => Modal::Fetch(FetchModalState { error: Some(e), ..s }),
        Modal::Push(s) => Modal::Push(PushModalState { error: Some(e), ..s }),
        Modal::AddRemote(s) => Modal::AddRemote(AddRemoteModalState { error: Some(e), ..s }),
        Modal::Branch(s) => Modal::Branch(BranchModalState { error: Some(e), ..s }),
        Modal::Merge(s) => Modal::Merge(MergeModalState { error: Some(e), ..s }),
        Modal::CherryPick(s) => Modal::CherryPick(CherryPickModalState { error: Some(e), ..s }),
        Modal::Reset(s) => Modal::Reset(ResetModalState { error: Some(e), ..s }),
        Modal::RenameBranch(s) => Modal::RenameBranch(RenameBranchModalState { error: Some(e), ..s }),
        Modal::Tag(s) => Modal::Tag(TagModalState { error: Some(e), ..s }),
    }
}

impl Modal {
    /// Show `e` as the dialog's error.
    pub fn set_error(&mut self, e: String)
        ensures
            *final(self) == with_error(*old(self), e),
    {
        match self {
            Modal::Commit(s) => s.error = Some(e),
            Modal::Rebase(s) => s.error = Some(e),
            Modal::Fetch(s) => s.error = Some(e),
            Modal::Push(s) => s.error = Some(e),
            Modal::AddRemote(s) => s.error = Some(e),
            Modal::Branch(s) => s.error = Some(e),
            Modal::Merge(s) => s.error = Some(e),
            Modal::CherryPick(s) => s.error = Some(e),
            Modal::Reset(s) => s.error = Some(e),
            Modal::RenameBranch(s) => s.error = Some(e),
            Modal::Tag(s) => s.error = Some(e),
        }
    }
}

// ── demo mode ───────────────────────────────────────────────────────────

/// What `Path::starts_with` answers for these two paths.
pub uninterp spec fn path_starts_with(path: Seq<char>, base: Seq<char>) -> bool;

/// `path` is `base`, a separator and one further component.
pub open spec fn is_child_of(path: Seq<char>, base: Seq<char>) -> bool {
    exists|c: Seq<char>| path == base + "/"@ + c && !c.contains('/')
}

/// `std::path::Path::starts_with`: whether `base` is a prefix of `path`
/// in whole path components. The answer depends on the two texts alone; a
/// path starts with itself, and with the path one component up. How
/// components are split otherwise is left to the name.
#[verifier::external_body]
fn path_has_prefix(path: &str, base: &str) -> (r: bool)
    ensures
        r == path_starts_with(path@, base@),
        path@ == base@ ==> r,
        is_child_of(path@, base@) ==> r,
{
    std::path::Path::new(path).starts_with(base)
}

pub open spec fn demo_root() -> Seq<char> {
    "/nonexistent/demo"@
}

/// True when no real repository is loaded (the demo data's path) and write
/// ops should refuse instead of touching a bogus path.
pub fn is_demo_repo(path: &str) -> (r: bool)
    ensures
        r == path_starts_with(path@, demo_root()),
        path@ == demo_root() ==> r,
        is_child_of(path@, demo_root()) ==> r,
{
    path_has_prefix(path, "/nonexistent/demo")
}

// ── commit workbench ────────────────────────────────────────────────────

/// Whether `files` lists the path `p`, paths compared as `Path`s are.
pub open spec fn lists_path(files: Seq<FileChange>, p: Seq<char>) -> bool {
    exists|i: int| 0 <= i < files.len() && same_path((#[trigger] files[i]).path@, p)
}

/// Whether one of `files` has exactly the path text `p`.
pub open spec fn names_file(files: Seq<FileChange>, p: Seq<char>) -> bool {
    exists|i: int| 0 <= i < files.len() && (#[trigger] files[i]).path@ == p
}

pub open spec fn sel_view(s: Option<String>) -> Option<Seq<char>> {
    match s {
        Some(p) => Some(p@),
        None => None,
    }
}

/// The selection a fresh workbench starts with: the first staged file, else
/// the first unstaged one, else none.
pub open spec fn initial_selection(st: Seq<FileChange>, un: Seq<FileChange>) -> (Option<Seq<char>>, bool) {
    if st.len() > 0 {
        (Some(st[0].path@), true)
    } else if un.len() > 0 {
        (Some(un[0].path@), false)
    } else {
        (None, false)
    }
}

/// The selection after the lists change: it stays on its side while the
/// file is listed there, moves to the other side when only that one lists
/// it, and is dropped when neither does. Without a selection, the first
/// staged file, else the first unstaged one, is picked.
pub open spec fn reloaded_selection(sel: Option<Seq<char>>, staged: bool, st: Seq<FileChange>, un: Seq<FileChange>) -> (Option<Seq<char>>, bool) {
    match sel {
        Some(p) => {
            let os = lists_path(st, p);
            let ou = lists_path(un, p);
            if staged && !os && ou {
                (Some(p), false)
            } else if !staged && !ou && os {
                (Some(p), true)
            } else if !os && !ou {
                (None, staged)
            } else {
                (Some(p), staged)
            }
        },
        None => if st.len() > 0 || un.len() > 0 { initial_selection(st, un) } else { (None, staged) },
    }
}

/// After the lists are re-read: a selection still listed on its side stays
/// as it was; one listed only on the other side moves there; one listed on
/// neither side is cleared; and where there was no selection, the file a
/// fresh workbench would pick is selected.
pub proof fn law_reloaded_selection(sel: Option<Seq<char>>, staged: bool, st: Seq<FileChange>, un: Seq<FileChange>)
    ensures
        sel matches Some(p) && lists_path(if staged { st } else { un }, p) ==> reloaded_selection(sel, staged, st, un) == (sel, staged),
        sel matches Some(p) && !lists_path(if staged { st } else { un }, p) && lists_path(if staged { un } else { st }, p)
            ==> reloaded_selection(sel, staged, st, un) == (sel, !staged),
        sel matches Some(p) && !lists_path(st, p) && !lists_path(un, p) ==> reloaded_selection(sel, staged, st, un).0 is None,
        sel is None && (st.len() > 0 || un.len() > 0) ==> reloaded_selection(sel, staged, st, un) == initial_selection(st, un),
        sel is None && st.len() == 0 && un.len() == 0 ==> reloaded_selection(sel, staged, st, un).0 is None,
{
}

/// A fresh workbench selects the first staged file when there is one, else
/// the first unstaged file, and has no selection exactly when both lists
/// are empty; the file it selects is one of its side's.
pub proof fn law_initial_selection(st: Seq<FileChange>, un: Seq<FileChange>)
    ensures
        st.len() > 0 ==> initial_selection(st, un) == (Some(st[0].path@), true),
        st.len() == 0 && un.len() > 0 ==> initial_selection(st, un) == (Some(un[0].path@), false),
        initial_selection(st, un).0 is None <==> (st.len() == 0 && un.len() == 0),
        initial_selection(st, un).0 matches Some(p) ==> names_file(if initial_selection(st, un).1 { st } else { un }, p),
{
    if st.len() > 0 {
        assert(names_file(st, st[0].path@));
    } else if un.len() > 0 {
        assert(names_file(un, un[0].path@));
    }
}

/// Whether `files` lists `p`.
fn lists_path_exec(files: &Vec<FileChange>, p: &String) -> (r: bool)
    ensures
        r == lists_path(files@, p@),
{
    let mut i: usize = 0;
    while i < files.len()
        invariant
            i <= files@.len(),
            forall|j: int| 0 <= j < i ==> !same_path((#[trigger] files@[j]).path@, p@),
        decreases files@.len() - i,
    {
        if path_eq(files[i].path.as_str(), p.as_str()) {
            return true;
        }
        i = i + 1;
    }
    false
}

/// The read of both file lists: `(unstaged, staged)`, or the read's error text.
pub type ListsRead = Result<(Vec<FileChange>, Vec<FileChange>), String>;

/// The read of the selected file's hunks, or the read's error text.
pub type HunksRead = Result<Vec<(String, Hunk)>, String>;

impl CommitModalState {
    /// Whether the row of `path` on the given side is the selected one.
    pub fn is_selected(&self, path: &str, staged: bool) -> (r: bool)
        ensures
            r == (self.selected_staged == staged && match self.selected_path {
                Some(p) => same_path(p@, path@),
                None => false,
            }),
    {
        self.selected_staged == staged && match &self.selected_path {
            Some(p) => path_eq(p.as_str(), path),
            None => false,
        }
    }

    /// Take freshly read file lists. On success the lists are replaced, the
    /// read error cleared, and the selection follows `reloaded_selection`;
    /// on failure everything is kept and the read error says why.
    pub fn reload_lists(&mut self, read: ListsRead)
        ensures
            match read {
                Ok((un, st)) => {
                    &&& final(self).unstaged == un
                    &&& final(self).staged == st
                    &&& final(self).read_error is None
                    &&& (sel_view(final(self).selected_path), final(self).selected_staged)
                        == reloaded_selection(sel_view(old(self).selected_path), old(self).selected_staged, st@, un@)
                },
                Err(e) => {
                    &&& final(self).unstaged == old(self).unstaged
                    &&& final(self).staged == old(self).staged
                    &&& final(self).selected_path == old(self).selected_path
                    &&& final(self).selected_staged == old(self).selected_staged
                    &&& final(self).read_error matches Some(m) && m@ == "failed to read working tree: "@ + e@
                },
            },
            final(self).message == old(self).message,
            final(self).amend == old(self).amend,
            final(self).error == old(self).error,
            final(self).hunks == old(self).hunks,
            final(self).last_click == old(self).last_click,
    {
        match read {
            Ok((unstaged, staged)) => {
                self.unstaged = unstaged;
                self.staged = staged;
                self.read_error = None;
            },
            Err(e) => {
                let mut m = owned("failed to read working tree: ");
                m.append(e.as_str());
                self.read_error = Some(m);
                return;
            },
        }
        let sel = self.selected_path.clone();
        match sel {
            Some(p) => {
                let on_staged = lists_path_exec(&self.staged, &p);
                let on_unstaged = lists_path_exec(&self.unstaged, &p);
                if self.selected_staged && !on_staged && on_unstaged {
                    self.selected_staged = false;
                } else if !self.selected_staged && !on_unstaged && on_staged {
                    self.selected_staged = true;
                } else if !on_staged && !on_unstaged {
                    self.selected_path = None;
                }
            },
            None => {
                if self.staged.len() > 0 {
                    self.selected_path = Some(self.staged[0].path.clone());
                    self.selected_staged = true;
                } else if self.unstaged.len() > 0 {
                    self.selected_path = Some(self.unstaged[0].path.clone());
                    self.selected_staged = false;
                }
            },
        }
    }

    /// A fresh workbench on the given lists, selecting by `initial_selection`.
    /// Its hunks are read next, for `hunk_source`.
    pub fn open(read: ListsRead) -> (s: Self)
        ensures
            match read {
                Ok((un, st)) => {
                    &&& s.unstaged == un
                    &&& s.staged == st
                    &&& s.read_error is None
                    &&& (sel_view(s.selected_path), s.selected_staged) == initial_selection(st@, un@)
                },
                Err(e) => {
                    &&& s.unstaged@.len() == 0
                    &&& s.staged@.len() == 0
                    &&& s.selected_path is None
                    &&& s.read_error matches Some(m) && m@ == "failed to read working tree: "@ + e@
                },
            },
            s.message@.len() == 0,
            !s.amend,
            s.error is None,
            s.hunks@.len() == 0,
            s.last_click is None,
    {
        let mut s = CommitModalState {
            message: String::new(),
            amend: false,
            error: None,
            unstaged: Vec::new(),
            staged: Vec::new(),
            selected_path: None,
            selected_staged: false,
            hunks: Vec::new(),
            last_click: None,
            read_error: None,
        };
        s.reload_lists(read);
        s
    }

    /// Which diff `reload_hunks` needs: the selected path and its side.
    pub fn hunk_source(&self) -> (r: Option<(String, bool)>)
        ensures
            match self.selected_path {
                Some(p) => r matches Some((q, st)) && q@ == p@ && st == self.selected_staged,
                None => r is None,
            },
    {
        match &self.selected_path {
            Some(p) => Some((p.clone(), self.selected_staged)),
            None => None,
        }
    }

    /// Take the hunks read for the selection. Without a selection the hunks
    /// are cleared whatever was read; on a failed read the hunks are kept
    /// and the read error says why.
    pub fn reload_hunks(&mut self, read: HunksRead)
        ensures
            old(self).selected_path is None ==> final(self).hunks@.len() == 0 && final(self).read_error == old(self).read_error,
            old(self).selected_path is Some ==> match read {
                Ok(h) => final(self).hunks == h && final(self).read_error is None,
                Err(e) => final(self).hunks == old(self).hunks
                    && (final(self).read_error matches Some(m) && m@ == "failed to read diff: "@ + e@),
            },
            final(self).unstaged == old(self).unstaged,
            final(self).staged == old(self).staged,
            final(self).selected_path == old(self).selected_path,
            final(self).selected_staged == old(self).selected_staged,
            final(self).message == old(self).message,
            final(self).amend == old(self).amend,
            final(self).error == old(self).error,
            final(self).last_click == old(self).last_click,
    {
        if self.selected_path.is_none() {
            self.hunks = Vec::new();
            return;
        }
        match read {
            Ok(h) => {
                self.hunks = h;
                self.read_error = None;
            },
            Err(e) => {
                let mut m = owned("failed to read diff: ");
                m.append(e.as_str());
                self.read_error = Some(m);
            },
        }
    }

    /// Re-read both lists; the caller then reads the hunks `hunk_source`
    /// names and hands them to `reload_hunks`.
    pub fn refresh(&mut self, lists: ListsRead) -> (next: Option<(String, bool)>)
        ensures
            match lists {
                Ok((un, st)) => {
                    &&& final(self).unstaged == un
                    &&& final(self).staged == st
                    &&& (sel_view(final(self).selected_path), final(self).selected_staged)
                        == reloaded_selection(sel_view(old(self).selected_path), old(self).selected_staged, st@, un@)
                },
                Err(_) => final(self).selected_path == old(self).selected_path,
            },
            match final(self).selected_path {
                Some(p) => next matches Some((q, st)) && q@ == p@ && st == final(self).selected_staged,
                None => next is None,
            },
            match lists {
                Ok(_) => final(self).read_error is None,
                Err(e) => final(self).unstaged == old(self).unstaged && final(self).staged == old(self).staged
                    && final(self).selected_staged == old(self).selected_staged
                    && (final(self).read_error matches Some(m) && m@ == "failed to read working tree: "@ + e@),
            },
            final(self).message == old(self).message,
            final(self).amend == old(self).amend,
            final(self).error == old(self).error,
            final(self).hunks == old(self).hunks,
            final(self).last_click == old(self).last_click,
    {
        self.reload_lists(lists);
        self.hunk_source()
    }

    /// A click on the row of `path` at `now_ms`: it becomes the selection,
    /// and the answer is whether it is a double click (same path within
    /// 400 ms of the previous click), which also stages or unstages it.
    pub fn click(&mut self, path: &str, staged: bool, now_ms: u64) -> (double: bool)
        ensures
            double == (old(self).last_click matches Some((p, t)) && same_path(p@, path@) && (if now_ms >= t { now_ms - t } else { 0 }) < 400),
            sel_view(final(self).selected_path) == Some(path@),
            final(self).selected_staged == staged,
            final(self).last_click matches Some((p, t)) && p@ == path@ && t == now_ms,
            final(self).unstaged == old(self).unstaged,
            final(self).staged == old(self).staged,
            final(self).hunks == old(self).hunks,
            final(self).message == old(self).message,
            final(self).amend == old(self).amend,
            final(self).error == old(self).error,
            final(self).read_error == old(self).read_error,
    {
        let double = match &self.last_click {
            Some((p, t)) => path_eq(p.as_str(), path) && (if now_ms >= *t { now_ms - *t } else { 0 }) < 400,
            None => false,
        };
        self.selected_path = Some(owned(path));
        self.selected_staged = staged;
        self.last_click = Some((owned(path), now_ms));
        double
    }

    /// After `path` was staged (`staged == false`) or unstaged: a selection
    /// on that file follows it to its new side, and the error is cleared.
    /// The lists are re-read next with `refresh`.
    pub fn toggled(&mut self, path: &str, staged: bool)
        ensures
            final(self).selected_path == old(self).selected_path,
            final(self).selected_staged == (if (match old(self).selected_path { Some(p) => same_path(p@, path@), None => false }) { !staged } else { old(self).selected_staged }),
            final(self).error is None,
            final(self).unstaged == old(self).unstaged,
            final(self).staged == old(self).staged,
            final(self).hunks == old(self).hunks,
            final(self).message == old(self).message,
            final(self).amend == old(self).amend,
            final(self).last_click == old(self).last_click,
            final(self).read_error == old(self).read_error,
    {
        let same = match &self.selected_path {
            Some(p) => path_eq(p.as_str(), path),
            None => false,
        };
        if same {
            self.selected_staged = !staged;
        }
        self.error = None;
    }
}

} // verus!
