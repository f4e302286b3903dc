//! How the window starts: the pre-selected row, the dialog or context menu
//! opened at launch, and the inspector tab, each named by a setting read
//! from the environment.
use vstd::prelude::*;

use crate::actions::{current_name, default_remote, fetch_dialog, push_dialog, current_branch_name};
use crate::app::{
    BranchModalState, CherryPickModalState, CtxMenuKind, InspectorTab, MergeModalState, Modal,
    RebaseModalState, RenameBranchModalState, ResetMode, ResetModalState, Selection, TagModalState,
    sel_view,
};
use crate::model::commit::Commit;
use crate::model::reflog::ReflogEntry;
use crate::model::repo::RepoView;
use crate::git::status::WorkingStatus;
use crate::mock::{demo_history, demo_reflog, is_demo_commit, is_demo_entry, is_demo_repo_view, seed};
use crate::text::{chars_of, owned, same_text, starts_with, starts_with_exec, strings_view};

verus! {

/// The "oid" of the working-tree pseudo-row in a selection.
pub const WORKING_TREE_OID: &'static str = "__working_tree__";

pub open spec fn working_tree_id() -> Seq<char> {
    "__working_tree__"@
}

/// The working-tree pseudo-row's selection id.
pub fn working_tree_oid() -> (r: &'static str)
    ensures
        r@ == working_tree_id(),
{
    "__working_tree__"
}

/// The selection holds exactly `o`: as the clicked row, the whole set and
/// the anchor; or nothing.
pub open spec fn selects(s: Selection, o: Option<Seq<char>>) -> bool {
    match o {
        Some(x) => sel_view(s.primary) == Some(x) && strings_view(s.set@) == seq![x] && sel_view(s.anchor) == Some(x),
        None => s.primary is None && s.set@.len() == 0 && s.anchor is None,
    }
}

impl Selection {
    /// Nothing selected.
    pub fn empty() -> (s: Selection)
        ensures
            selects(s, None),
    {
        Selection { primary: None, set: Vec::new(), anchor: None }
    }

    /// Exactly the row `oid` selected.
    pub fn only(oid: &str) -> (s: Selection)
        ensures
            selects(s, Some(oid@)),
    {
        let mut set: Vec<String> = Vec::new();
        set.push(owned(oid));
        proof {
            assert(strings_view(set@) =~= seq![oid@]);
        }
        Selection { primary: Some(owned(oid)), set, anchor: Some(owned(oid)) }
    }
}

/// The commit is named by the prefix: its oid starts with it, or its short
/// oid is exactly it.
pub open spec fn picked_by(c: Commit, p: Seq<char>) -> bool {
    starts_with(c.oid@, p) || c.short@ == p
}

pub open spec fn is_first_picked(cs: Seq<Commit>, p: Seq<char>, i: int) -> bool {
    &&& 0 <= i < cs.len()
    &&& picked_by(cs[i], p)
    &&& forall|j: int| 0 <= j < i ==> !picked_by(#[trigger] cs[j], p)
}

/// The row a launch-time prefix selects: the working-tree row for its id,
/// else the first commit the prefix names, else none.
pub open spec fn startup_pick(cs: Seq<Commit>, p: Seq<char>) -> Option<Seq<char>> {
    if p == working_tree_id() {
        Some(p)
    } else if exists|i: int| is_first_picked(cs, p, i) {
        Some(cs[choose|i: int| is_first_picked(cs, p, i)].oid@)
    } else {
        None
    }
}

/// The selection at launch for the optional prefix setting.
pub fn startup_selection(prefix: Option<&str>, commits: &Vec<Commit>) -> (s: Selection)
    ensures
        match prefix {
            Some(p) => selects(s, startup_pick(commits@, p@)),
            None => selects(s, None),
        },
{
    match prefix {
        Some(p) => select_by_prefix(p, commits),
        None => Selection::empty(),
    }
}

fn select_by_prefix(p: &str, commits: &Vec<Commit>) -> (s: Selection)
    ensures
        selects(s, startup_pick(commits@, p@)),
{
    if same_text(p, working_tree_oid()) {
        return Selection::only(p);
    }
    let pv = chars_of(p);
    let mut i: usize = 0;
    while i < commits.len()
        invariant
            i <= commits@.len(),
            pv@ == p@,
            p@ != working_tree_id(),
            forall|j: int| 0 <= j < i ==> !picked_by(#[trigger] commits@[j], p@),
        decreases commits@.len() - i,
    {
        let c = &commits[i];
        let ov = chars_of(c.oid.as_str());
        if starts_with_exec(&ov, &pv) || same_text(c.short.as_str(), p) {
            proof {
                assert(picked_by(commits@[i as int], p@));
                assert(is_first_picked(commits@, p@, i as int));
                let w = choose|w: int| is_first_picked(commits@, p@, w);
                assert(is_first_picked(commits@, p@, w));
                assert(w == i) by {
                    if w < i {
                        assert(!picked_by(commits@[w], p@));
                    } else if w > i {
                        assert(!picked_by(commits@[i as int], p@));
                    }
                }
            }
            return Selection::only(c.oid.as_str());
        }
        i = i + 1;
    }
    proof {
        assert forall|w: int| !is_first_picked(commits@, p@, w) by {
            if 0 <= w < commits@.len() {
                assert(!picked_by(commits@[w], p@));
            }
        }
    }
    Selection::empty()
}

/// The clicked row, unless it is the working-tree row.
pub open spec fn commit_of(primary: Option<String>) -> Option<Seq<char>> {
    match primary {
        Some(p) => if p@ == working_tree_id() { None } else { Some(p@) },
        None => None,
    }
}

fn selected_commit(sel: &Selection) -> (r: Option<String>)
    ensures
        sel_view(r) == commit_of(sel.primary),
{
    match &sel.primary {
        Some(p) => if same_text(p.as_str(), working_tree_oid()) { None } else { Some(p.clone()) },
        None => None,
    }
}

/// A dialog opened at launch.
#[derive(Clone, Debug)]
pub enum StartupModal {
    /// The commit workbench, which needs the file lists read first.
    Commit,
    Open(Modal),
}

/// The dialog the launch setting names, with the defaults the toolbar and
/// the selection give it; none for an unknown name.
pub fn startup_modal(name: &str, repo: &crate::model::repo::RepoView, sel: &Selection) -> (r: Option<StartupModal>)
    ensures
        name@ == "commit"@ ==> (r matches Some(StartupModal::Commit)),
        name@ == "fetch"@ ==> (r matches Some(StartupModal::Open(Modal::Fetch(m)))
            && m.remote@ == default_remote(repo.remotes@) && !m.prune && m.error is None && !m.running),
        name@ == "push"@ ==> (r matches Some(StartupModal::Open(Modal::Push(m)))
            && m.remote@ == default_remote(repo.remotes@) && m.branch@ == current_name(repo.branches@)
            && m.target_branch@ == current_name(repo.branches@) && !m.force_with_lease && m.error is None && !m.running),
        name@ == "branch"@ ==> (r matches Some(StartupModal::Open(Modal::Branch(m)))
            && m.name@.len() == 0 && !m.checkout && sel_view(m.start_oid) == commit_of(sel.primary) && m.error is None),
        name@ == "merge"@ ==> (r matches Some(StartupModal::Open(Modal::Merge(m)))
            && m.branch@.len() == 0 && !m.no_ff && m.error is None),
        name@ == "rebase"@ ==> (r matches Some(StartupModal::Open(Modal::Rebase(m)))
            && m.onto@.len() == 0 && m.error is None),
        name@ == "cherry_pick"@ ==> (r matches Some(StartupModal::Open(Modal::CherryPick(m)))
            && m.oid@.len() == 0 && !m.no_commit && m.error is None),
        name@ == "reset"@ ==> (r matches Some(StartupModal::Open(Modal::Reset(m)))
            && m.oid@ == (match sel_view(sel.primary) { Some(p) => p, None => Seq::empty() })
            && m.mode == ResetMode::Mixed && m.error is None),
        name@ == "rename_branch"@ ==> (r matches Some(StartupModal::Open(Modal::RenameBranch(m)))
            && m.old_name@ == current_name(repo.branches@) && m.new_name@ == current_name(repo.branches@) && m.error is None),
        name@ == "tag"@ ==> (r matches Some(StartupModal::Open(Modal::Tag(m)))
            && m.name@.len() == 0 && m.message@.len() == 0 && sel_view(m.oid) == commit_of(sel.primary) && m.error is None),
        !(name@ == "commit"@ || name@ == "fetch"@ || name@ == "push"@ || name@ == "branch"@ || name@ == "merge"@
            || name@ == "rebase"@ || name@ == "cherry_pick"@ || name@ == "reset"@ || name@ == "rename_branch"@
            || name@ == "tag"@) ==> r is None,
{
    proof {
        reveal_strlit("commit");
        reveal_strlit("fetch");
        reveal_strlit("push");
        reveal_strlit("branch");
        reveal_strlit("merge");
        reveal_strlit("rebase");
        reveal_strlit("cherry_pick");
        reveal_strlit("reset");
        reveal_strlit("rename_branch");
        reveal_strlit("tag");
        assert("commit"@.len() == 6 && "commit"@[0] == 'c');
        assert("fetch"@.len() == 5 && "fetch"@[0] == 'f');
        assert("push"@.len() == 4);
        assert("branch"@.len() == 6 && "branch"@[0] == 'b');
        assert("merge"@.len() == 5 && "merge"@[0] == 'm');
        assert("rebase"@.len() == 6 && "rebase"@[0] == 'r');
        assert("cherry_pick"@.len() == 11);
        assert("reset"@.len() == 5 && "reset"@[0] == 'r');
        assert("rename_branch"@.len() == 13);
        assert("tag"@.len() == 3);
    }
    if same_text(name, "commit") {
        Some(StartupModal::Commit)
    } else if same_text(name, "fetch") {
        Some(StartupModal::Open(Modal::Fetch(fetch_dialog(repo))))
    } else if same_text(name, "push") {
        Some(StartupModal::Open(Modal::Push(push_dialog(repo))))
    } else if same_text(name, "branch") {
        Some(StartupModal::Open(Modal::Branch(BranchModalState {
            name: String::new(),
            checkout: false,
            start_oid: selected_commit(sel),
            error: None,
        })))
    } else if same_text(name, "merge") {
        Some(StartupModal::Open(Modal::Merge(MergeModalState { branch: String::new(), no_ff: false, error: None })))
    } else if same_text(name, "rebase") {
        Some(StartupModal::Open(Modal::Rebase(RebaseModalState { onto: String::new(), error: None })))
    } else if same_text(name, "cherry_pick") {
        Some(StartupModal::Open(Modal::CherryPick(CherryPickModalState { oid: String::new(), no_commit: false, error: None })))
    } else if same_text(name, "reset") {
        let oid = match &sel.primary {
            Some(p) => p.clone(),
            None => String::new(),
        };
        Some(StartupModal::Open(Modal::Reset(ResetModalState { oid, mode: ResetMode::Mixed, error: None })))
    } else if same_text(name, "rename_branch") {
        let cur = current_branch_name(repo);
        Some(StartupModal::Open(Modal::RenameBranch(RenameBranchModalState {
            old_name: cur.clone(),
            new_name: cur,
            error: None,
        })))
    } else if same_text(name, "tag") {
        Some(StartupModal::Open(Modal::Tag(TagModalState {
            name: String::new(),
            message: String::new(),
            oid: selected_commit(sel),
            error: None,
        })))
    } else {
        None
    }
}

/// The context menu the launch setting pins open: "commit" opens the
/// commit menu on the clicked row, when there is one.
pub fn startup_menu(name: &str, sel: &Selection) -> (r: Option<CtxMenuKind>)
    ensures
        name@ == "commit"@ && sel.primary is Some ==> (r matches Some(CtxMenuKind::Commit { oid })
            && Some(oid@) == sel_view(sel.primary)),
        !(name@ == "commit"@ && sel.primary is Some) ==> r is None,
{
    if same_text(name, "commit") {
        match &sel.primary {
            Some(p) => Some(CtxMenuKind::Commit { oid: p.clone() }),
            None => None,
        }
    } else {
        None
    }
}

/// The inspector tab a lower-cased name picks.
pub open spec fn tab_named(lower: Seq<char>) -> Option<InspectorTab> {
    if lower == "changes"@ {
        Some(InspectorTab::Changes)
    } else if lower == "diff"@ {
        Some(InspectorTab::Diff)
    } else if lower == "files"@ {
        Some(InspectorTab::Files)
    } else if lower == "details"@ {
        Some(InspectorTab::Details)
    } else {
        None
    }
}

/// The tab for an already lower-cased name; Details for any other name.
pub fn tab_for(lower: &str) -> (t: InspectorTab)
    ensures
        t == (match tab_named(lower@) { Some(x) => x, None => InspectorTab::Details }),
{
    if same_text(lower, "changes") {
        InspectorTab::Changes
    } else if same_text(lower, "diff") {
        InspectorTab::Diff
    } else if same_text(lower, "files") {
        InspectorTab::Files
    } else {
        InspectorTab::Details
    }
}

/// What `str::to_lowercase` gives for this text.
pub uninterp spec fn lowercase(s: Seq<char>) -> Seq<char>;

/// Text made only of ASCII characters.
pub open spec fn is_ascii_text(s: Seq<char>) -> bool {
    forall|i: int| 0 <= i < s.len() ==> (#[trigger] s[i] as u32) < 128
}

/// An ASCII capital letter made small; any other character kept.
pub open spec fn ascii_lower(c: char) -> char {
    if 'A' <= c && c <= 'Z' { ((c as u32) + 32) as char } else { c }
}

pub open spec fn ascii_lowercase(s: Seq<char>) -> Seq<char> {
    s.map_values(|c: char| ascii_lower(c))
}

/// `str::to_lowercase`: the text with every character mapped by Unicode's
/// lower-case mapping, which on ASCII text turns `A`–`Z` into `a`–`z` and
/// keeps every other character. Its result depends on the text alone; on
/// other text the mapping is left to the name.
#[verifier::external_body]
fn to_lowercase(s: &str) -> (r: String)
    ensures
        r@ == lowercase(s@),
        is_ascii_text(s@) ==> r@ == ascii_lowercase(s@),
{
    s.to_lowercase()
}

/// The inspector tab at launch: the one the setting names, compared without
/// regard to case; Details when unset or unknown.
pub fn startup_tab(name: Option<&str>) -> (t: InspectorTab)
    ensures
        t == (match name {
            Some(n) => match tab_named(lowercase(n@)) { Some(x) => x, None => InspectorTab::Details },
            None => InspectorTab::Details,
        }),
        match name {
            Some(n) => is_ascii_text(n@)
                ==> t == (match tab_named(ascii_lowercase(n@)) { Some(x) => x, None => InspectorTab::Details }),
            None => true,
        },
{
    match name {
        Some(n) => {
            let lower = to_lowercase(n);
            tab_for(lower.as_str())
        },
        None => InspectorTab::Details,
    }
}


// ── what the window starts with ─────────────────────────────────────────

/// How many commits the history loads.
pub const HISTORY_LIMIT: usize = 200;

/// The launch settings that no setting or environment variable changes.
pub struct LaunchDefaults {
    pub view: crate::app::View,
    pub inspector_collapsed: bool,
    /// The history walks every branch, remote branch and tag, not only HEAD.
    pub show_all_refs: bool,
    pub wrap_subjects: bool,
    pub history_limit: usize,
}

/// The window opens on the history of every ref, up to `HISTORY_LIMIT`
/// commits, with the inspector open and long subjects wrapped.
pub fn launch_defaults() -> (d: LaunchDefaults)
    ensures
        d.view == crate::app::View::History,
        !d.inspector_collapsed,
        d.show_all_refs,
        d.wrap_subjects,
        d.history_limit == HISTORY_LIMIT,
{
    LaunchDefaults {
        view: crate::app::View::History,
        inspector_collapsed: false,
        show_all_refs: true,
        wrap_subjects: true,
        history_limit: HISTORY_LIMIT,
    }
}

/// What was read of the repository at launch: the repository itself, and
/// the reads of its history, reflog and working-tree status.
pub struct RepoRead {
    pub repo: RepoView,
    pub commits: Result<Vec<Commit>, String>,
    pub reflog: Result<Vec<ReflogEntry>, String>,
    pub status: Option<WorkingStatus>,
}

/// The data the window starts with. A repository that was read is shown
/// with an empty history or reflog where that read failed; without one
/// (no candidate path, or it could not be opened) the demo data is shown,
/// with no working-tree status.
pub fn launch_data(read: Option<RepoRead>) -> (r: (RepoView, Vec<Commit>, Vec<ReflogEntry>, Option<WorkingStatus>))
    ensures
        match read {
            Some(rr) => {
                &&& r.0 == rr.repo
                &&& r.1@ == (match rr.commits { Ok(c) => c@, Err(_) => Seq::empty() })
                &&& r.2@ == (match rr.reflog { Ok(l) => l@, Err(_) => Seq::empty() })
                &&& r.3 == rr.status
            },
            None => {
                &&& is_demo_repo_view(r.0, r.1@[0].date)
                &&& crate::app::is_child_of(r.0.path@, crate::app::demo_root())
                &&& r.1@.len() == demo_history().len()
                &&& forall|i: int| 0 <= i < r.1@.len() ==> is_demo_commit(#[trigger] r.1@[i], demo_history()[i], r.1@[0].date)
                &&& r.2@.len() == demo_reflog().len()
                &&& forall|i: int| 0 <= i < r.2@.len() ==> is_demo_entry(#[trigger] r.2@[i], i, demo_reflog()[i], r.1@[0].date)
                &&& r.3 is None
            },
        },
{
    match read {
        Some(rr) => {
            let commits = match rr.commits {
                Ok(c) => c,
                Err(_) => Vec::new(),
            };
            let reflog = match rr.reflog {
                Ok(l) => l,
                Err(_) => Vec::new(),
            };
            (rr.repo, commits, reflog, rr.status)
        },
        None => {
            let (repo, commits, reflog) = seed();
            (repo, commits, reflog, None)
        },
    }
}

} // verus!
