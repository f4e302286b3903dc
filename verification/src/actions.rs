//! What the toolbar buttons, the sidebar's branch rows and the context
//! menus do: open a dialog, show a toast, or run a git operation whose
//! outcome decides the toast that follows.
use vstd::prelude::*;

use crate::app::{
    BranchModalState, CherryPickModalState, CtxMenuKind, FetchModalState, Modal, PushModalState,
    RenameBranchModalState, ResetMode, ResetModalState, TagModalState, Toast, ToastKind,
};
use crate::git::ops::{self, commands_view, stash_ref, GitPlan, OpError};
use crate::model::repo::{Branch, RepoView, Remote};
use crate::text::{concat, owned, same_text, u32_to_string};

verus! {

// ── the repository's defaults ───────────────────────────────────────────

/// `i` is the first branch marked current.
pub open spec fn is_first_current(bs: Seq<Branch>, i: int) -> bool {
    &&& 0 <= i < bs.len()
    &&& bs[i].current
    &&& forall|j: int| 0 <= j < i ==> !(#[trigger] bs[j]).current
}

/// The first branch marked current, if any.
pub open spec fn current_branch(bs: Seq<Branch>) -> Option<Branch> {
    if exists|i: int| is_first_current(bs, i) {
        Some(bs[choose|i: int| is_first_current(bs, i)])
    } else {
        None
    }
}

/// The current branch's name; empty when no branch is current.
pub open spec fn current_name(bs: Seq<Branch>) -> Seq<char> {
    match current_branch(bs) {
        Some(b) => b.name@,
        None => Seq::empty(),
    }
}

/// The first remote's name (usually "origin"); empty without remotes.
pub open spec fn default_remote(rs: Seq<Remote>) -> Seq<char> {
    if rs.len() > 0 { rs[0].name@ } else { Seq::empty() }
}

proof fn lemma_first_current(bs: Seq<Branch>, i: int)
    requires
        is_first_current(bs, i),
    ensures
        current_branch(bs) == Some(bs[i]),
{
    let w = choose|w: int| is_first_current(bs, w);
    assert(is_first_current(bs, w));
    if w < i {
        assert(!bs[w].current);
    } else if w > i {
        assert(!bs[i].current);
    }
}

fn current_index(bs: &Vec<Branch>) -> (r: Option<usize>)
    ensures
        match r {
            Some(i) => is_first_current(bs@, i as int) && current_branch(bs@) == Some(bs@[i as int]),
            None => current_branch(bs@) is None,
        },
{
    let mut i: usize = 0;
    while i < bs.len()
        invariant
            i <= bs@.len(),
            forall|j: int| 0 <= j < i ==> !(#[trigger] bs@[j]).current,
        decreases bs@.len() - i,
    {
        if bs[i].current {
            proof {
                lemma_first_current(bs@, i as int);
            }
            return Some(i);
        }
        i = i + 1;
    }
    proof {
        assert forall|w: int| !is_first_current(bs@, w) by {
            if 0 <= w < bs@.len() {
                assert(!bs@[w].current);
            }
        }
    }
    None
}

/// The current branch's name, or an empty string.
pub fn current_branch_name(repo: &RepoView) -> (r: String)
    ensures
        r@ == current_name(repo.branches@),
{
    match current_index(&repo.branches) {
        Some(i) => repo.branches[i].name.clone(),
        None => String::new(),
    }
}

/// The first remote's name, or an empty string.
pub fn default_remote_name(repo: &RepoView) -> (r: String)
    ensures
        r@ == default_remote(repo.remotes@),
{
    if repo.remotes.len() > 0 {
        repo.remotes[0].name.clone()
    } else {
        String::new()
    }
}

/// The toolbar's accent goes to Push when the current branch is ahead of
/// its upstream, to Commit otherwise.
pub fn primary_is_push(repo: &RepoView) -> (r: bool)
    ensures
        r == (current_branch(repo.branches@) matches Some(b) && b.ahead > 0),
{
    match current_index(&repo.branches) {
        Some(i) => repo.branches[i].ahead > 0,
        None => false,
    }
}

// ── dialogs opened with defaults ────────────────────────────────────────

/// The fetch dialog, on the first remote.
pub fn fetch_dialog(repo: &RepoView) -> (m: FetchModalState)
    ensures
        m.remote@ == default_remote(repo.remotes@),
        !m.prune,
        m.error is None,
        !m.running,
{
    FetchModalState { remote: default_remote_name(repo), prune: false, error: None, running: false }
}

/// The push dialog: the current branch to the same-named branch of the
/// first remote.
pub fn push_dialog(repo: &RepoView) -> (m: PushModalState)
    ensures
        m.remote@ == default_remote(repo.remotes@),
        m.branch@ == current_name(repo.branches@),
        m.target_branch@ == current_name(repo.branches@),
        !m.force_with_lease,
        m.error is None,
        !m.running,
{
    let branch = current_branch_name(repo);
    PushModalState {
        remote: default_remote_name(repo),
        target_branch: branch.clone(),
        branch,
        force_with_lease: false,
        error: None,
        running: false,
    }
}

/// The new-branch dialog, starting at `start` (HEAD when none).
pub fn branch_dialog(start: Option<String>) -> (m: BranchModalState)
    ensures
        m.name@.len() == 0,
        !m.checkout,
        m.start_oid == start,
        m.error is None,
{
    BranchModalState { name: String::new(), checkout: false, start_oid: start, error: None }
}

/// The tag dialog, tagging `oid` (HEAD when none).
pub fn tag_dialog(oid: Option<String>) -> (m: TagModalState)
    ensures
        m.name@.len() == 0,
        m.message@.len() == 0,
        m.oid == oid,
        m.error is None,
{
    TagModalState { name: String::new(), message: String::new(), oid, error: None }
}

/// The reset dialog on `oid`, in the default (mixed) mode.
pub fn reset_dialog(oid: String) -> (m: ResetModalState)
    ensures
        m.oid == oid,
        m.mode == ResetMode::Mixed,
        m.error is None,
{
    ResetModalState { oid, mode: ResetMode::Mixed, error: None }
}

/// The cherry-pick dialog on `oid`.
pub fn cherry_pick_dialog(oid: String) -> (m: CherryPickModalState)
    ensures
        m.oid == oid,
        !m.no_commit,
        m.error is None,
{
    CherryPickModalState { oid, no_commit: false, error: None }
}

/// The rename dialog for `name`, the new name starting as the old one.
pub fn rename_dialog(name: &str) -> (m: RenameBranchModalState)
    ensures
        m.old_name@ == name@,
        m.new_name@ == name@,
        m.error is None,
{
    RenameBranchModalState { old_name: owned(name), new_name: owned(name), error: None }
}

// ── effects ─────────────────────────────────────────────────────────────

/// What follows a run: on success everything is reloaded, the `ok` toast
/// (if any) is shown as info and the commit selection is cleared when
/// `clear_selection`; on failure `failed` followed by the error is shown as
/// an error toast.
#[derive(Clone, Debug)]
pub struct Done {
    pub ok: Option<String>,
    pub failed: String,
    pub clear_selection: bool,
}

/// What a click does.
#[derive(Clone, Debug)]
pub enum Effect {
    Nothing,
    Open(Modal),
    Show(Toast),
    Run { plan: GitPlan, done: Done },
}

pub open spec fn shows(e: Effect, kind: ToastKind, msg: Seq<char>) -> bool {
    e matches Effect::Show(t) && t.kind == kind && t.message@ == msg
}

pub open spec fn opt_seq(o: Option<String>) -> Option<Seq<char>> {
    match o {
        Some(s) => Some(s@),
        None => None,
    }
}

/// The effect runs `cmds`, then shows `ok` or `failed` + the error.
pub open spec fn runs(e: Effect, cmds: Seq<Seq<Seq<char>>>, ok: Option<Seq<char>>, failed: Seq<char>, clear: bool) -> bool {
    e matches Effect::Run { plan, done } && commands_view(plan) == cmds && opt_seq(done.ok) == ok
        && done.failed@ == failed && done.clear_selection == clear
}

/// A request refused for `why` shows `failed` + `why`; an accepted one runs `cmds`.
pub open spec fn runs_or_refuses(e: Effect, refused: bool, why: Seq<char>, cmds: Seq<Seq<Seq<char>>>,
    ok: Option<Seq<char>>, failed: Seq<char>, clear: bool) -> bool {
    if refused {
        shows(e, ToastKind::Error, failed + why)
    } else {
        runs(e, cmds, ok, failed, clear)
    }
}

fn run_or_refuse(op: Result<GitPlan, OpError>, done: Done) -> (e: Effect)
    ensures
        match op {
            Ok(p) => runs(e, commands_view(p), opt_seq(done.ok), done.failed@, done.clear_selection),
            Err(err) => shows(e, ToastKind::Error, done.failed@ + err.text()),
        },
{
    match op {
        Ok(plan) => Effect::Run { plan, done },
        Err(err) => {
            let mut m = done.failed;
            m.append(err.message().as_str());
            Effect::Show(Toast::error(m))
        },
    }
}

/// The toast that follows a finished run, if any.
pub fn outcome_toast(done: &Done, outcome: &Result<String, OpError>) -> (t: Option<Toast>)
    ensures
        match outcome {
            Ok(_) => match done.ok {
                Some(m) => t matches Some(x) && x.kind == ToastKind::Info && x.message@ == m@,
                None => t is None,
            },
            Err(e) => t matches Some(x) && x.kind == ToastKind::Error && x.message@ == done.failed@ + e.text(),
        },
{
    match outcome {
        Ok(_) => match &done.ok {
            Some(m) => Some(Toast::info(m.clone())),
            None => None,
        },
        Err(e) => Some(Toast::error(concat(done.failed.as_str(), e.message().as_str()))),
    }
}

/// What follows a finished run of a click's effect.
pub struct RunAftermath {
    /// Re-read the repository.
    pub refresh: bool,
    /// Drop the history selection.
    pub clear_selection: bool,
    pub toast: Option<Toast>,
}

/// After a click's run: on success the repository is re-read and the
/// selection dropped when the effect says so; the toast follows
/// `outcome_toast`.
pub fn after_effect_run(done: &Done, outcome: &Result<String, OpError>) -> (a: RunAftermath)
    ensures
        a.refresh == (outcome is Ok),
        a.clear_selection == (outcome is Ok && done.clear_selection),
        match outcome {
            Ok(_) => match done.ok {
                Some(m) => a.toast matches Some(x) && x.kind == ToastKind::Info && x.message@ == m@,
                None => a.toast is None,
            },
            Err(e) => a.toast matches Some(x) && x.kind == ToastKind::Error && x.message@ == done.failed@ + e.text(),
        },
{
    let ok = match outcome {
        Ok(_) => true,
        Err(_) => false,
    };
    RunAftermath { refresh: ok, clear_selection: ok && done.clear_selection, toast: outcome_toast(done, outcome) }
}

// ── toolbar and sidebar ─────────────────────────────────────────────────

/// The Pull button.
pub fn pull_effect(demo: bool) -> (e: Effect)
    ensures
        demo ==> shows(e, ToastKind::Error, "demo mode — set GITARA_REPO=<path>"@),
        !demo ==> runs(e, seq![seq!["pull"@]], Some("pulled"@), "pull failed: "@, false),
{
    if demo {
        return Effect::Show(Toast::error(owned("demo mode — set GITARA_REPO=<path>")));
    }
    run_or_refuse(ops::pull(), Done { ok: Some(owned("pulled")), failed: owned("pull failed: "), clear_selection: false })
}

pub open spec fn checkout_cmds(target: Seq<char>) -> Seq<Seq<Seq<char>>> {
    seq![seq!["checkout"@, "--end-of-options"@, target]]
}

/// Whether a branch of that name is the current one.
pub open spec fn is_current(bs: Seq<Branch>, name: Seq<char>) -> bool {
    exists|i: int| 0 <= i < bs.len() && (#[trigger] bs[i]).current && bs[i].name@ == name
}

/// A left click on a sidebar branch row checks the branch out, unless in
/// demo mode or already current; on success the commit selection clears.
pub fn branch_click(repo: &RepoView, name: &str, demo: bool) -> (e: Effect)
    ensures
        demo || is_current(repo.branches@, name@) ==> e is Nothing,
        !demo && !is_current(repo.branches@, name@) ==> runs_or_refuses(e, ops::blank(name@), "checkout target is empty"@,
            checkout_cmds(name@), None, "checkout "@ + name@ + ": "@, true),
{
    if demo {
        return Effect::Nothing;
    }
    let mut i: usize = 0;
    while i < repo.branches.len()
        invariant
            i <= repo.branches@.len(),
            forall|j: int| 0 <= j < i ==> !((#[trigger] repo.branches@[j]).current && repo.branches@[j].name@ == name@),
        decreases repo.branches@.len() - i,
    {
        if repo.branches[i].current && same_text(repo.branches[i].name.as_str(), name) {
            return Effect::Nothing;
        }
        i = i + 1;
    }
    let mut failed = owned("checkout ");
    failed.append(name);
    failed.append(": ");
    run_or_refuse(ops::checkout(name), Done { ok: None, failed, clear_selection: true })
}

// ── context menus ───────────────────────────────────────────────────────

/// An item of a context menu.
#[derive(Clone, Debug)]
pub enum MenuAction {
    CreateBranchFrom(String),
    TagCommit(String),
    ResetTo(String),
    CherryPick(String),
    CheckoutBranch(String),
    RenameBranch(String),
    DeleteBranch(String),
    ForceDeleteBranch(String),
    FetchRemote(String),
    RemoveRemote(String),
    CheckoutTag(String),
    DeleteTag(String),
    StashApply(u32),
    StashPop(u32),
    StashDrop(u32),
}

/// The menu's title line.
pub open spec fn menu_title_spec(kind: CtxMenuKind) -> Seq<char> {
    match kind {
        CtxMenuKind::Commit { oid } => "commit  "@ + oid@.take(if oid@.len() < 7 { oid@.len() as int } else { 7 }),
        CtxMenuKind::Branch { name } => "branch  "@ + name@,
        CtxMenuKind::Remote { name } => "remote  "@ + name@,
        CtxMenuKind::Tag { name } => "tag  "@ + name@,
        CtxMenuKind::Stash { idx } => stash_ref(idx),
    }
}

/// The title line: the commit's first seven characters, or the ref's name.
pub fn menu_title(kind: &CtxMenuKind) -> (r: String)
    ensures
        r@ == menu_title_spec(*kind),
{
    match kind {
        CtxMenuKind::Commit { oid } => {
            let n = oid.unicode_len();
            let k = if n < 7 { n } else { 7 };
            let head = crate::text::substring(oid.as_str(), 0, k);
            concat("commit  ", head.as_str())
        },
        CtxMenuKind::Branch { name } => concat("branch  ", name.as_str()),
        CtxMenuKind::Remote { name } => concat("remote  ", name.as_str()),
        CtxMenuKind::Tag { name } => concat("tag  ", name.as_str()),
        CtxMenuKind::Stash { idx } => {
            let mut s = owned("stash@{");
            s.append(u32_to_string(*idx).as_str());
            s.append("}");
            s
        },
    }
}

/// The items of the menu, in order.
pub fn menu_items(kind: &CtxMenuKind) -> (r: Vec<MenuAction>)
    ensures
        match *kind {
            CtxMenuKind::Commit { oid } => r@.len() == 4
                && (r@[0] matches MenuAction::CreateBranchFrom(o) && o@ == oid@)
                && (r@[1] matches MenuAction::TagCommit(o) && o@ == oid@)
                && (r@[2] matches MenuAction::ResetTo(o) && o@ == oid@)
                && (r@[3] matches MenuAction::CherryPick(o) && o@ == oid@),
            CtxMenuKind::Branch { name } => r@.len() == 4
                && (r@[0] matches MenuAction::CheckoutBranch(n) && n@ == name@)
                && (r@[1] matches MenuAction::RenameBranch(n) && n@ == name@)
                && (r@[2] matches MenuAction::DeleteBranch(n) && n@ == name@)
                && (r@[3] matches MenuAction::ForceDeleteBranch(n) && n@ == name@),
            CtxMenuKind::Remote { name } => r@.len() == 2
                && (r@[0] matches MenuAction::FetchRemote(n) && n@ == name@)
                && (r@[1] matches MenuAction::RemoveRemote(n) && n@ == name@),
            CtxMenuKind::Tag { name } => r@.len() == 2
                && (r@[0] matches MenuAction::CheckoutTag(n) && n@ == name@)
                && (r@[1] matches MenuAction::DeleteTag(n) && n@ == name@),
            CtxMenuKind::Stash { idx } => r@.len() == 3
                && r@[0] == MenuAction::StashApply(idx)
                && r@[1] == MenuAction::StashPop(idx)
                && r@[2] == MenuAction::StashDrop(idx),
        },
{
    match kind {
        CtxMenuKind::Commit { oid } => vec![
            MenuAction::CreateBranchFrom(oid.clone()),
            MenuAction::TagCommit(oid.clone()),
            MenuAction::ResetTo(oid.clone()),
            MenuAction::CherryPick(oid.clone()),
        ],
        CtxMenuKind::Branch { name } => vec![
            MenuAction::CheckoutBranch(name.clone()),
            MenuAction::RenameBranch(name.clone()),
            MenuAction::DeleteBranch(name.clone()),
            MenuAction::ForceDeleteBranch(name.clone()),
        ],
        CtxMenuKind::Remote { name } => vec![MenuAction::FetchRemote(name.clone()), MenuAction::RemoveRemote(name.clone())],
        CtxMenuKind::Tag { name } => vec![MenuAction::CheckoutTag(name.clone()), MenuAction::DeleteTag(name.clone())],
        CtxMenuKind::Stash { idx } => vec![MenuAction::StashApply(*idx), MenuAction::StashPop(*idx), MenuAction::StashDrop(*idx)],
    }
}

pub open spec fn item_label_spec(a: MenuAction) -> Seq<char> {
    match a {
        MenuAction::CreateBranchFrom(_) => "Create branch from here"@,
        MenuAction::TagCommit(_) => "Tag commit…"@,
        MenuAction::ResetTo(_) => "Reset to here…"@,
        MenuAction::CherryPick(_) => "Cherry-pick"@,
        MenuAction::CheckoutBranch(_) => "Checkout"@,
        MenuAction::RenameBranch(_) => "Rename…"@,
        MenuAction::DeleteBranch(_) => "Delete"@,
        MenuAction::ForceDeleteBranch(_) => "Force delete"@,
        MenuAction::FetchRemote(_) => "Fetch"@,
        MenuAction::RemoveRemote(_) => "Remove"@,
        MenuAction::CheckoutTag(_) => "Checkout (detached)"@,
        MenuAction::DeleteTag(_) => "Delete tag"@,
        MenuAction::StashApply(_) => "Apply"@,
        MenuAction::StashPop(_) => "Pop"@,
        MenuAction::StashDrop(_) => "Drop"@,
    }
}

/// The item's label.
pub fn item_label(a: &MenuAction) -> (r: &'static str)
    ensures
        r@ == item_label_spec(*a),
{
    match a {
        MenuAction::CreateBranchFrom(_) => "Create branch from here",
        MenuAction::TagCommit(_) => "Tag commit…",
        MenuAction::ResetTo(_) => "Reset to here…",
        MenuAction::CherryPick(_) => "Cherry-pick",
        MenuAction::CheckoutBranch(_) => "Checkout",
        MenuAction::RenameBranch(_) => "Rename…",
        MenuAction::DeleteBranch(_) => "Delete",
        MenuAction::ForceDeleteBranch(_) => "Force delete",
        MenuAction::FetchRemote(_) => "Fetch",
        MenuAction::RemoveRemote(_) => "Remove",
        MenuAction::CheckoutTag(_) => "Checkout (detached)",
        MenuAction::DeleteTag(_) => "Delete tag",
        MenuAction::StashApply(_) => "Apply",
        MenuAction::StashPop(_) => "Pop",
        MenuAction::StashDrop(_) => "Drop",
    }
}

fn stash_effect(op: Result<GitPlan, OpError>, done_prefix: &str, failed: &str, idx: u32) -> (e: Effect)
    requires
        op is Ok,
    ensures
        runs(e, commands_view(op->Ok_0), Some(done_prefix@ + stash_ref(idx)), failed@, false),
{
    let num = u32_to_string(idx);
    let mut ok = owned(done_prefix);
    ok.append("stash@{");
    ok.append(num.as_str());
    ok.append("}");
    proof {
        assert(ok@ =~= done_prefix@ + stash_ref(idx));
    }
    run_or_refuse(op, Done { ok: Some(ok), failed: owned(failed), clear_selection: false })
}

/// A menu item that runs git refuses in demo mode.
pub open spec fn runs_git(a: MenuAction) -> bool {
    !(a is CreateBranchFrom || a is TagCommit || a is ResetTo || a is CherryPick || a is RenameBranch)
}

/// What choosing the item does. Items that open a dialog open it with the
/// menu's commit or branch filled in; items that run git refuse in demo
/// mode, and otherwise run the operation and report it in a toast.
pub fn menu_effect(a: MenuAction, demo: bool) -> (e: Effect)
    ensures
        runs_git(a) && demo ==> shows(e, ToastKind::Error, "demo mode"@),
        match a {
            MenuAction::CreateBranchFrom(oid) => e matches Effect::Open(Modal::Branch(m))
                && m.name@.len() == 0 && !m.checkout && m.start_oid == Some(oid) && m.error is None,
            MenuAction::TagCommit(oid) => e matches Effect::Open(Modal::Tag(m))
                && m.name@.len() == 0 && m.message@.len() == 0 && m.oid == Some(oid) && m.error is None,
            MenuAction::ResetTo(oid) => e matches Effect::Open(Modal::Reset(m))
                && m.oid == oid && m.mode == ResetMode::Mixed && m.error is None,
            MenuAction::CherryPick(oid) => e matches Effect::Open(Modal::CherryPick(m))
                && m.oid == oid && !m.no_commit && m.error is None,
            MenuAction::RenameBranch(name) => e matches Effect::Open(Modal::RenameBranch(m))
                && m.old_name@ == name@ && m.new_name@ == name@ && m.error is None,
            MenuAction::CheckoutBranch(n) => !demo ==> runs_or_refuses(e, ops::blank(n@), "checkout target is empty"@,
                checkout_cmds(n@), Some("checked out "@ + n@), "checkout failed: "@, false),
            MenuAction::CheckoutTag(n) => !demo ==> runs_or_refuses(e, ops::blank(n@), "checkout target is empty"@,
                checkout_cmds(n@), Some("checked out "@ + n@), "checkout failed: "@, false),
            MenuAction::DeleteBranch(n) => !demo ==> runs_or_refuses(e, ops::blank(n@), "branch name is empty"@,
                seq![seq!["branch"@, "-d"@, "--end-of-options"@, n@]], Some("deleted "@ + n@), "delete failed: "@, false),
            MenuAction::ForceDeleteBranch(n) => !demo ==> runs_or_refuses(e, ops::blank(n@), "branch name is empty"@,
                seq![seq!["branch"@, "-D"@, "--end-of-options"@, n@]], Some("force-deleted "@ + n@), "delete failed: "@, false),
            MenuAction::FetchRemote(n) => !demo ==> runs(e, seq![seq!["fetch"@, "--end-of-options"@] + ops::nonempty_arg(n@)],
                Some("fetched "@ + n@), "fetch failed: "@, false),
            MenuAction::RemoveRemote(n) => !demo ==> runs_or_refuses(e, ops::blank(n@), "remote name is empty"@,
                seq![seq!["remote"@, "remove"@, "--end-of-options"@, n@]], Some("removed remote "@ + n@), "remove failed: "@, false),
            MenuAction::DeleteTag(n) => !demo ==> runs_or_refuses(e, ops::blank(n@), "tag name is empty"@,
                seq![seq!["tag"@, "-d"@, "--end-of-options"@, n@]], Some("deleted tag "@ + n@), "delete failed: "@, false),
            MenuAction::StashApply(i) => !demo ==> runs(e, seq![seq!["stash"@, "apply"@, stash_ref(i)]],
                Some("applied "@ + stash_ref(i)), "stash applied failed: "@, false),
            MenuAction::StashPop(i) => !demo ==> runs(e, seq![seq!["stash"@, "pop"@, stash_ref(i)]],
                Some("popped "@ + stash_ref(i)), "stash popped failed: "@, false),
            MenuAction::StashDrop(i) => !demo ==> runs(e, seq![seq!["stash"@, "drop"@, stash_ref(i)]],
                Some("dropped "@ + stash_ref(i)), "stash dropped failed: "@, false),
        },
{
    match a {
        MenuAction::CreateBranchFrom(oid) => return Effect::Open(Modal::Branch(branch_dialog(Some(oid)))),
        MenuAction::TagCommit(oid) => return Effect::Open(Modal::Tag(tag_dialog(Some(oid)))),
        MenuAction::ResetTo(oid) => return Effect::Open(Modal::Reset(reset_dialog(oid))),
        MenuAction::CherryPick(oid) => return Effect::Open(Modal::CherryPick(cherry_pick_dialog(oid))),
        MenuAction::RenameBranch(name) => return Effect::Open(Modal::RenameBranch(rename_dialog(name.as_str()))),
        _ => {},
    }
    if demo {
        return Effect::Show(Toast::error(owned("demo mode")));
    }
    match a {
        MenuAction::CheckoutBranch(n) => run_or_refuse(ops::checkout(n.as_str()),
            Done { ok: Some(concat("checked out ", n.as_str())), failed: owned("checkout failed: "), clear_selection: false }),
        MenuAction::CheckoutTag(n) => run_or_refuse(ops::checkout(n.as_str()),
            Done { ok: Some(concat("checked out ", n.as_str())), failed: owned("checkout failed: "), clear_selection: false }),
        MenuAction::DeleteBranch(n) => run_or_refuse(ops::delete_branch(n.as_str(), false),
            Done { ok: Some(concat("deleted ", n.as_str())), failed: owned("delete failed: "), clear_selection: false }),
        MenuAction::ForceDeleteBranch(n) => run_or_refuse(ops::delete_branch(n.as_str(), true),
            Done { ok: Some(concat("force-deleted ", n.as_str())), failed: owned("delete failed: "), clear_selection: false }),
        MenuAction::FetchRemote(n) => {
            assert(seq!["fetch"@] + Seq::<Seq<char>>::empty() + seq!["--end-of-options"@] + ops::nonempty_arg(n@)
                =~= seq!["fetch"@, "--end-of-options"@] + ops::nonempty_arg(n@));
            run_or_refuse(ops::fetch(n.as_str(), false),
                Done { ok: Some(concat("fetched ", n.as_str())), failed: owned("fetch failed: "), clear_selection: false })
        },
        MenuAction::RemoveRemote(n) => run_or_refuse(ops::remove_remote(n.as_str()),
            Done { ok: Some(concat("removed remote ", n.as_str())), failed: owned("remove failed: "), clear_selection: false }),
        MenuAction::DeleteTag(n) => run_or_refuse(ops::delete_tag(n.as_str()),
            Done { ok: Some(concat("deleted tag ", n.as_str())), failed: owned("delete failed: "), clear_selection: false }),
        MenuAction::StashApply(i) => stash_effect(ops::stash_apply(i), "applied ", "stash applied failed: ", i),
        MenuAction::StashPop(i) => stash_effect(ops::stash_pop(i), "popped ", "stash popped failed: ", i),
        MenuAction::StashDrop(i) => stash_effect(ops::stash_drop(i), "dropped ", "stash dropped failed: ", i),
        _ => Effect::Nothing,
    }
}

} // verus!
