//! What the OK button of each modal dialog does: refuse with a message
//! shown in the dialog, or run an operation's git commands and, when they
//! succeed, close the dialog with an optional info toast.
use vstd::prelude::*;
use vstd::utf8::encode_utf8;

use crate::app::{
    AddRemoteModalState, BranchModalState, CherryPickModalState, CommitModalState, FetchModalState,
    MergeModalState, PushModalState, RebaseModalState, RenameBranchModalState, ResetMode, ResetModalState,
    TagModalState,
};
use crate::git::log::{short_len, short_ok, short_oid};
use crate::git::ops::{self, commands_view, opt_view, GitPlan, OpError};
use crate::text::{owned, trim, trim_str};

verus! {

/// What a successful run shows: a ready text, or a text that ends in the
/// abbreviated form of an oid, made once the run has succeeded.
#[derive(Clone, Debug)]
pub enum Notice {
    Text(String),
    Abbrev { before: String, oid: String },
}

/// The decision of a dialog's OK button.
#[derive(Clone, Debug)]
pub enum Submission {
    /// Shown as the dialog's error; nothing runs.
    Refused(String),
    /// Run `plan`; on success refresh, close the dialog and show `toast` if any.
    Run { plan: GitPlan, toast: Option<Notice> },
}

pub open spec fn refuses(s: Submission, msg: Seq<char>) -> bool {
    s matches Submission::Refused(m) && m@ == msg
}

/// The submission runs `cmds` and shows `toast` on success.
pub open spec fn runs(s: Submission, cmds: Seq<Seq<Seq<char>>>, yields: bool, toast: Option<Seq<char>>) -> bool {
    s matches Submission::Run { plan, toast: t } && commands_view(plan) == cmds && plan.yields_output == yields
        && match toast {
        Some(x) => t matches Some(Notice::Text(y)) && y@ == x,
        None => t is None,
    }
}

/// The submission runs `cmds` and, on success, shows `before` followed by
/// the abbreviated `oid`.
pub open spec fn runs_abbrev(s: Submission, cmds: Seq<Seq<Seq<char>>>, before: Seq<char>, oid: Seq<char>) -> bool {
    s matches Submission::Run { plan, toast: Some(Notice::Abbrev { before: b, oid: o }) }
        && commands_view(plan) == cmds && !plan.yields_output && b@ == before && o@ == oid
}

pub open spec fn text_notice(t: Option<String>) -> Option<Seq<char>> {
    match t {
        Some(x) => Some(x@),
        None => None,
    }
}

/// Whether the notice's text can be made: an abbreviated oid must end on a
/// character boundary.
pub open spec fn notice_ok(n: Notice) -> bool {
    match n {
        Notice::Abbrev { oid, .. } => short_ok(oid@),
        Notice::Text(_) => true,
    }
}

/// The abbreviated oid as a toast shows it.
pub open spec fn short_bytes(oid: Seq<char>) -> Seq<u8> {
    encode_utf8(oid).take(short_len(encode_utf8(oid)))
}

/// The text of a notice, once its run has succeeded.
pub fn notice_text(n: &Notice) -> (t: String)
    requires
        notice_ok(*n),
    ensures
        match *n {
            Notice::Text(x) => t@ == x@,
            Notice::Abbrev { before, oid } => exists|sh: Seq<char>| encode_utf8(sh) == short_bytes(oid@) && t@ == before@ + sh,
        },
{
    match n {
        Notice::Text(x) => x.clone(),
        Notice::Abbrev { before, oid } => {
            let short = short_oid(oid.as_str());
            let mut t = before.clone();
            t.append(short.as_str());
            proof {
                assert(encode_utf8(short@) == short_bytes(oid@));
            }
            t
        },
    }
}

fn submit(op: Result<GitPlan, OpError>, toast: Option<Notice>) -> (s: Submission)
    ensures
        op matches Ok(p) ==> s == (Submission::Run { plan: p, toast }),
        op matches Err(e) ==> refuses(s, e.text()),
{
    match op {
        Ok(plan) => Submission::Run { plan, toast },
        Err(e) => Submission::Refused(e.message()),
    }
}

fn text(t: String) -> (n: Option<Notice>)
    ensures
        n == Some(Notice::Text(t)),
{
    Some(Notice::Text(t))
}

/// What follows a dialog's run.
pub struct DialogAftermath {
    /// Re-read the repository.
    pub refresh: bool,
    /// Close the dialog.
    pub close: bool,
    /// Shown once the dialog is closed.
    pub toast: Option<Notice>,
    /// Shown in the dialog, which stays open.
    pub error: Option<String>,
}

/// After a dialog's run: on success the repository is re-read, the dialog
/// closes and its toast shows; on failure the dialog stays open with
/// git's message as its error.
pub fn after_dialog_run(toast: Option<Notice>, outcome: &Result<String, OpError>) -> (a: DialogAftermath)
    ensures
        match outcome {
            Ok(_) => a.refresh && a.close && a.toast == toast && a.error is None,
            Err(e) => !a.refresh && !a.close && a.toast is None && (a.error matches Some(m) && m@ == e.text()),
        },
{
    match outcome {
        Ok(_) => DialogAftermath { refresh: true, close: true, toast, error: None },
        Err(e) => DialogAftermath { refresh: false, close: false, toast: None, error: Some(e.message()) },
    }
}

fn refuse(msg: &str) -> (s: Submission)
    ensures
        refuses(s, msg@),
{
    Submission::Refused(owned(msg))
}

pub open spec fn demo_short() -> Seq<char> {
    "demo mode"@
}

pub open spec fn demo_long() -> Seq<char> {
    "demo mode — start gitara from a real repo or set GITARA_REPO=<path>"@
}

pub open spec fn demo_env() -> Seq<char> {
    "demo mode — set GITARA_REPO=<path>"@
}

/// Push: the current branch to the chosen remote, to the target branch
/// (trimmed; the branch's own name when blank).
pub fn submit_push(s: &PushModalState, demo: bool) -> (r: Submission)
    ensures
        demo ==> refuses(r, demo_env()),
        !demo && s.branch@.len() == 0 ==> refuses(r, "no current branch"@),
        !demo && s.branch@.len() > 0 && s.remote@.len() == 0 ==> refuses(r, "no remote configured"@),
        !demo && s.branch@.len() > 0 && s.remote@.len() > 0 ==> runs(r, seq![ops::push_args(s.remote@, s.branch@,
            if trim(s.target_branch@).len() == 0 { s.branch@ } else { trim(s.target_branch@) }, s.force_with_lease)], false, None),
{
    let target = trim_str(s.target_branch.as_str());
    if demo {
        return refuse("demo mode — set GITARA_REPO=<path>");
    }
    if s.branch.unicode_len() == 0 {
        return refuse("no current branch");
    }
    if s.remote.unicode_len() == 0 {
        return refuse("no remote configured");
    }
    let target = if target.unicode_len() == 0 { s.branch.clone() } else { target };
    submit(ops::push(s.remote.as_str(), s.branch.as_str(), target.as_str(), s.force_with_lease), None)
}

pub open spec fn opt_string_view(o: Option<String>) -> Option<Seq<char>> {
    match o {
        Some(x) => Some(x@),
        None => None,
    }
}

/// Commit the message (amending when asked).
pub fn submit_commit(s: &CommitModalState, demo: bool) -> (r: Submission)
    ensures
        demo ==> refuses(r, demo_env()),
        !demo && ops::blank(s.message@) && !s.amend ==> refuses(r, "commit message is empty"@),
        !demo && !(ops::blank(s.message@) && !s.amend) ==> runs(r, ops::commit_cmds(s.message@, s.amend), true, None),
{
    if demo {
        return refuse("demo mode — set GITARA_REPO=<path>");
    }
    submit(ops::commit(s.message.as_str(), s.amend), None)
}

/// Create the branch named in the dialog (trimmed) at its start commit.
pub fn submit_branch(s: &BranchModalState, demo: bool) -> (r: Submission)
    ensures
        demo ==> refuses(r, demo_long()),
        !demo && ops::blank(trim(s.name@)) ==> refuses(r, "branch name is empty"@),
        !demo && !ops::blank(trim(s.name@)) ==> runs(r, ops::create_branch_cmds(trim(s.name@), opt_string_view(s.start_oid), s.checkout), true, None),
{
    let name = trim_str(s.name.as_str());
    if demo {
        return refuse("demo mode — start gitara from a real repo or set GITARA_REPO=<path>");
    }
    let from: Option<&str> = match &s.start_oid {
        Some(o) => Some(o.as_str()),
        None => None,
    };
    submit(ops::create_branch(name.as_str(), from, s.checkout), None)
}

/// Cherry-pick the commit given in the dialog (trimmed); on success the
/// toast names it by its abbreviated oid.
pub fn submit_cherry_pick(s: &CherryPickModalState, demo: bool) -> (r: Submission)
    ensures
        demo ==> refuses(r, demo_short()),
        !demo && trim(s.oid@).len() == 0 ==> refuses(r, "no commit selected"@),
        !demo && trim(s.oid@).len() > 0 ==> runs_abbrev(r,
            seq![seq!["cherry-pick"@] + (if s.no_commit { seq!["--no-commit"@] } else { Seq::empty() })
                + seq!["--end-of-options"@, trim(s.oid@)]],
            "cherry-picked "@, trim(s.oid@)),
{
    let oid = trim_str(s.oid.as_str());
    if demo {
        return refuse("demo mode");
    }
    if oid.unicode_len() == 0 {
        return refuse("no commit selected");
    }
    let oids: [&str; 1] = [oid.as_str()];
    let op = ops::cherry_pick(&oids, s.no_commit);
    proof {
        assert(oids@.len() == 1);
        assert(ops::strs_view(oids@) =~= seq![oid@]);
        assert(seq!["cherry-pick"@] + (if s.no_commit { seq!["--no-commit"@] } else { Seq::empty() })
            + seq!["--end-of-options"@] + seq![oid@] =~= seq!["cherry-pick"@] + (if s.no_commit { seq!["--no-commit"@] } else { Seq::empty() })
            + seq!["--end-of-options"@, oid@]);
    }
    let before = owned("cherry-picked ");
    submit(op, Some(Notice::Abbrev { before, oid }))
}

/// Fetch from the chosen remote.
pub fn submit_fetch(s: &FetchModalState, demo: bool) -> (r: Submission)
    ensures
        demo ==> refuses(r, demo_long()),
        !demo && ops::blank(s.remote@) ==> refuses(r, "pick a remote first"@),
        !demo && !ops::blank(s.remote@) ==> runs(r, seq![seq!["fetch"@] + (if s.prune { seq!["--prune"@] } else { Seq::empty() })
            + seq!["--end-of-options"@] + ops::nonempty_arg(s.remote@)], false, None),
{
    if demo {
        return refuse("demo mode — start gitara from a real repo or set GITARA_REPO=<path>");
    }
    if crate::text::is_blank(s.remote.as_str()) {
        return refuse("pick a remote first");
    }
    submit(ops::fetch(s.remote.as_str(), s.prune), None)
}

/// Merge the chosen branch; the toast says so.
pub fn submit_merge(s: &MergeModalState, demo: bool) -> (r: Submission)
    ensures
        demo ==> refuses(r, demo_short()),
        !demo && s.branch@.len() == 0 ==> refuses(r, "pick a branch to merge"@),
        !demo && s.branch@.len() > 0 ==> runs(r, seq![seq!["merge"@] + (if s.no_ff { seq!["--no-ff"@] } else { Seq::empty() })
            + seq!["--end-of-options"@, s.branch@]], false, Some("merged "@ + s.branch@)),
{
    if demo {
        return refuse("demo mode");
    }
    if s.branch.unicode_len() == 0 {
        return refuse("pick a branch to merge");
    }
    let mut toast = owned("merged ");
    toast.append(s.branch.as_str());
    submit(ops::merge(s.branch.as_str(), s.no_ff), text(toast))
}

/// Rebase onto the chosen base; the toast says so.
pub fn submit_rebase(s: &RebaseModalState, demo: bool) -> (r: Submission)
    ensures
        demo ==> refuses(r, demo_short()),
        !demo && s.onto@.len() == 0 ==> refuses(r, "pick a base"@),
        !demo && s.onto@.len() > 0 ==> runs(r, seq![seq!["rebase"@, "--end-of-options"@, s.onto@]], false,
            Some("rebased onto "@ + s.onto@)),
{
    if demo {
        return refuse("demo mode");
    }
    if s.onto.unicode_len() == 0 {
        return refuse("pick a base");
    }
    let mut toast = owned("rebased onto ");
    toast.append(s.onto.as_str());
    submit(ops::rebase(s.onto.as_str()), text(toast))
}

/// Rename the branch to the new name (trimmed); the toast says so.
pub fn submit_rename(s: &RenameBranchModalState, demo: bool) -> (r: Submission)
    ensures
        demo ==> refuses(r, demo_short()),
        !demo && trim(s.new_name@).len() == 0 ==> refuses(r, "new name is empty"@),
        !demo && trim(s.new_name@).len() > 0 && ops::blank(s.old_name@) ==> refuses(r, "rename: empty name"@),
        !demo && trim(s.new_name@).len() > 0 && !ops::blank(s.old_name@) ==> runs(r,
            seq![seq!["branch"@, "-m"@, "--end-of-options"@, s.old_name@, trim(s.new_name@)]], false,
            Some("renamed "@ + s.old_name@ + " → "@ + trim(s.new_name@))),
{
    let new = trim_str(s.new_name.as_str());
    if demo {
        return refuse("demo mode");
    }
    if new.unicode_len() == 0 {
        return refuse("new name is empty");
    }
    let mut toast = owned("renamed ");
    toast.append(s.old_name.as_str());
    toast.append(" → ");
    toast.append(new.as_str());
    proof {
        assert(crate::text::trim(new@) == new@) by {
            crate::text::lemma_trim_idempotent(s.new_name@);
        }
    }
    submit(ops::rename_branch(s.old_name.as_str(), new.as_str()), text(toast))
}

pub open spec fn reset_word(mode: ResetMode) -> Seq<char> {
    match mode {
        ResetMode::Soft => "soft"@,
        ResetMode::Mixed => "mixed"@,
        ResetMode::Hard => "hard"@,
    }
}

/// Reset to the target commit in the chosen mode; on success the toast
/// names the mode and the abbreviated oid.
pub fn submit_reset(s: &ResetModalState, demo: bool) -> (r: Submission)
    ensures
        demo ==> refuses(r, demo_short()),
        !demo && s.oid@.len() == 0 ==> refuses(r, "no target commit"@),
        !demo && s.oid@.len() > 0 && ops::blank(s.oid@) ==> refuses(r, "reset target is empty"@),
        !demo && !ops::blank(s.oid@) ==> runs_abbrev(r,
            seq![seq!["reset"@, ops::reset_flag(s.mode), "--end-of-options"@, s.oid@]],
            "reset --"@ + reset_word(s.mode) + " to "@, s.oid@),
{
    if demo {
        return refuse("demo mode");
    }
    if s.oid.unicode_len() == 0 {
        return refuse("no target commit");
    }
    let word = match s.mode {
        ResetMode::Soft => "soft",
        ResetMode::Mixed => "mixed",
        ResetMode::Hard => "hard",
    };
    let mut before = owned("reset --");
    before.append(word);
    before.append(" to ");
    submit(ops::reset(s.oid.as_str(), s.mode), Some(Notice::Abbrev { before, oid: s.oid.clone() }))
}

/// Create the tag named in the dialog (trimmed), annotated when the
/// message is not blank, at the dialog's commit.
pub fn submit_tag(s: &TagModalState, demo: bool) -> (r: Submission)
    ensures
        demo ==> refuses(r, demo_long()),
        !demo && ops::blank(trim(s.name@)) ==> refuses(r, "tag name is empty"@),
        !demo && !ops::blank(trim(s.name@)) ==> runs(r, seq![ops::create_tag_args(trim(s.name@), opt_string_view(s.oid), s.message@)], false, None),
{
    let name = trim_str(s.name.as_str());
    if demo {
        return refuse("demo mode — start gitara from a real repo or set GITARA_REPO=<path>");
    }
    let oid: Option<&str> = match &s.oid {
        Some(o) => Some(o.as_str()),
        None => None,
    };
    submit(ops::create_tag(name.as_str(), oid, s.message.as_str()), None)
}

/// Add the remote named in the dialog (name and URL trimmed); the toast says so.
pub fn submit_add_remote(s: &AddRemoteModalState, demo: bool) -> (r: Submission)
    ensures
        demo ==> refuses(r, demo_short()),
        !demo && ops::blank(trim(s.name@)) ==> refuses(r, "remote name is empty"@),
        !demo && !ops::blank(trim(s.name@)) && ops::blank(trim(s.url@)) ==> refuses(r, "remote URL is empty"@),
        !demo && !ops::blank(trim(s.name@)) && !ops::blank(trim(s.url@)) ==> runs(r,
            seq![seq!["remote"@, "add"@, "--end-of-options"@, trim(s.name@), trim(s.url@)]], false,
            Some("added remote "@ + trim(s.name@))),
{
    let name = trim_str(s.name.as_str());
    let url = trim_str(s.url.as_str());
    if demo {
        return refuse("demo mode");
    }
    let mut toast = owned("added remote ");
    toast.append(name.as_str());
    submit(ops::add_remote(name.as_str(), url.as_str()), text(toast))
}

} // verus!
