use gitara::app::{
    AddRemoteModalState, BranchModalState, CherryPickModalState, CommitModalState, FetchModalState,
    MergeModalState, PushModalState, RebaseModalState, RenameBranchModalState, ResetMode,
    ResetModalState, TagModalState,
};
use gitara::git::ops::OpError;
use gitara::modals::{
    submit_add_remote, submit_branch, submit_cherry_pick, submit_commit, submit_fetch, submit_merge,
    submit_push, submit_rebase, submit_rename, submit_reset, submit_tag, after_dialog_run, notice_text, Notice, Submission,
};

fn words(ws: &[&str]) -> Vec<String> {
    ws.iter().map(|w| w.to_string()).collect()
}

fn refused(s: &Submission) -> String {
    match s {
        Submission::Refused(m) => m.clone(),
        Submission::Run { .. } => panic!("expected a refusal"),
    }
}

fn runs(s: &Submission) -> (Vec<Vec<String>>, Option<String>) {
    match s {
        Submission::Run { plan, toast } => (plan.commands.clone(), toast.as_ref().map(notice_text)),
        Submission::Refused(m) => panic!("refused: {m}"),
    }
}

fn push_state(remote: &str, branch: &str, target: &str) -> PushModalState {
    PushModalState {
        remote: remote.into(),
        branch: branch.into(),
        target_branch: target.into(),
        force_with_lease: false,
        error: None,
        running: false,
    }
}

#[test]
fn push_refuses_without_branch_or_remote() {
    assert_eq!(refused(&submit_push(&push_state("o", "main", ""), true)), "demo mode — set GITARA_REPO=<path>");
    assert_eq!(refused(&submit_push(&push_state("o", "", ""), false)), "no current branch");
    assert_eq!(refused(&submit_push(&push_state("", "main", ""), false)), "no remote configured");
}

#[test]
fn push_targets_the_trimmed_name_or_the_branch() {
    let (cmds, toast) = runs(&submit_push(&push_state("origin", "main", "  pr-1 "), false));
    assert_eq!(cmds, vec![words(&["push", "--end-of-options", "origin", "main:pr-1"])]);
    assert!(toast.is_none());
    let (cmds, _) = runs(&submit_push(&push_state("origin", "main", "   "), false));
    assert_eq!(cmds, vec![words(&["push", "--end-of-options", "origin", "main"])]);
}

#[test]
fn commit_dialog_refuses_a_blank_message_unless_amending() {
    let mut s = CommitModalState::open(Ok((vec![], vec![])));
    s.message = "  ".into();
    assert_eq!(refused(&submit_commit(&s, false)), "commit message is empty");
    assert_eq!(refused(&submit_commit(&s, true)), "demo mode — set GITARA_REPO=<path>");
    s.amend = true;
    let (cmds, _) = runs(&submit_commit(&s, false));
    assert_eq!(cmds[0], words(&["commit", "-m", "  ", "--amend"]));
}

#[test]
fn branch_dialog_trims_the_name() {
    let s = BranchModalState { name: "  feat ".into(), checkout: true, start_oid: Some("abc".into()), error: None };
    let (cmds, _) = runs(&submit_branch(&s, false));
    assert_eq!(cmds[0], words(&["branch", "--end-of-options", "feat", "abc"]));
    assert_eq!(cmds[1], words(&["checkout", "--end-of-options", "feat"]));
    let blank = BranchModalState { name: "   ".into(), checkout: false, start_oid: None, error: None };
    assert_eq!(refused(&submit_branch(&blank, false)), "branch name is empty");
    assert!(refused(&submit_branch(&s, true)).starts_with("demo mode — start gitara"));
}

#[test]
fn cherry_pick_toast_names_the_short_oid() {
    let s = CherryPickModalState { oid: " 0123456789abcdef ".into(), no_commit: true, error: None };
    let (cmds, toast) = runs(&submit_cherry_pick(&s, false));
    assert_eq!(cmds, vec![words(&["cherry-pick", "--no-commit", "--end-of-options", "0123456789abcdef"])]);
    assert_eq!(toast.as_deref(), Some("cherry-picked 0123456"));
    let empty = CherryPickModalState { oid: "  ".into(), no_commit: false, error: None };
    assert_eq!(refused(&submit_cherry_pick(&empty, false)), "no commit selected");
    assert_eq!(refused(&submit_cherry_pick(&s, true)), "demo mode");
}

#[test]
fn fetch_needs_a_remote() {
    let s = FetchModalState { remote: " ".into(), prune: true, error: None, running: false };
    assert_eq!(refused(&submit_fetch(&s, false)), "pick a remote first");
    let s = FetchModalState { remote: "origin".into(), prune: true, error: None, running: false };
    let (cmds, toast) = runs(&submit_fetch(&s, false));
    assert_eq!(cmds, vec![words(&["fetch", "--prune", "--end-of-options", "origin"])]);
    assert!(toast.is_none());
}

#[test]
fn merge_and_rebase_toasts() {
    let m = MergeModalState { branch: "feat".into(), no_ff: true, error: None };
    let (cmds, toast) = runs(&submit_merge(&m, false));
    assert_eq!(cmds, vec![words(&["merge", "--no-ff", "--end-of-options", "feat"])]);
    assert_eq!(toast.as_deref(), Some("merged feat"));
    let none = MergeModalState { branch: "".into(), no_ff: false, error: None };
    assert_eq!(refused(&submit_merge(&none, false)), "pick a branch to merge");
    let r = RebaseModalState { onto: "main".into(), error: None };
    let (cmds, toast) = runs(&submit_rebase(&r, false));
    assert_eq!(cmds, vec![words(&["rebase", "--end-of-options", "main"])]);
    assert_eq!(toast.as_deref(), Some("rebased onto main"));
    assert_eq!(refused(&submit_rebase(&RebaseModalState { onto: "".into(), error: None }, false)), "pick a base");
}

#[test]
fn rename_trims_the_new_name() {
    let s = RenameBranchModalState { old_name: "old".into(), new_name: " new ".into(), error: None };
    let (cmds, toast) = runs(&submit_rename(&s, false));
    assert_eq!(cmds, vec![words(&["branch", "-m", "--end-of-options", "old", "new"])]);
    assert_eq!(toast.as_deref(), Some("renamed old → new"));
    let blank = RenameBranchModalState { old_name: "old".into(), new_name: "  ".into(), error: None };
    assert_eq!(refused(&submit_rename(&blank, false)), "new name is empty");
    let no_old = RenameBranchModalState { old_name: " ".into(), new_name: "x".into(), error: None };
    assert_eq!(refused(&submit_rename(&no_old, false)), "rename: empty name");
}

#[test]
fn reset_toast_names_mode_and_short_oid() {
    let s = ResetModalState { oid: "0123456789".into(), mode: ResetMode::Hard, error: None };
    let (cmds, toast) = runs(&submit_reset(&s, false));
    assert_eq!(cmds, vec![words(&["reset", "--hard", "--end-of-options", "0123456789"])]);
    assert_eq!(toast.as_deref(), Some("reset --hard to 0123456"));
    let none = ResetModalState { oid: "".into(), mode: ResetMode::Mixed, error: None };
    assert_eq!(refused(&submit_reset(&none, false)), "no target commit");
    let blank = ResetModalState { oid: "  ".into(), mode: ResetMode::Mixed, error: None };
    assert_eq!(refused(&submit_reset(&blank, false)), "reset target is empty");
}

#[test]
fn tag_dialog_annotates_with_a_message() {
    let s = TagModalState { name: " v1 ".into(), message: "notes".into(), oid: Some("abc".into()), error: None };
    let (cmds, _) = runs(&submit_tag(&s, false));
    assert_eq!(cmds, vec![words(&["tag", "-a", "-m", "notes", "--end-of-options", "v1", "abc"])]);
    let blank = TagModalState { name: "".into(), message: "".into(), oid: None, error: None };
    assert_eq!(refused(&submit_tag(&blank, false)), "tag name is empty");
}

#[test]
fn add_remote_trims_and_checks_both_fields() {
    let s = AddRemoteModalState { name: " up ".into(), url: " https://x ".into(), error: None };
    let (cmds, toast) = runs(&submit_add_remote(&s, false));
    assert_eq!(cmds, vec![words(&["remote", "add", "--end-of-options", "up", "https://x"])]);
    assert_eq!(toast.as_deref(), Some("added remote up"));
    let no_url = AddRemoteModalState { name: "up".into(), url: "".into(), error: None };
    assert_eq!(refused(&submit_add_remote(&no_url, false)), "remote URL is empty");
    assert_eq!(refused(&submit_add_remote(&s, true)), "demo mode");
}

#[test]
fn an_abbreviated_toast_is_made_only_after_the_run() {
    // A multi-byte character across the seventh byte is accepted here; the
    // toast's text is made once git has succeeded.
    let s = CherryPickModalState { oid: "abcdeféé".into(), no_commit: false, error: None };
    match submit_cherry_pick(&s, false) {
        Submission::Run { toast: Some(Notice::Abbrev { before, oid }), .. } => {
            assert_eq!(before, "cherry-picked ");
            assert_eq!(oid, "abcdeféé");
        }
        _ => panic!("expected a run"),
    }
    assert_eq!(notice_text(&Notice::Abbrev { before: "x ".into(), oid: "01234567".into() }), "x 0123456");
    assert_eq!(notice_text(&Notice::Text("done".into())), "done");
}

#[test]
fn a_dialog_closes_on_success_and_shows_git_s_error_otherwise() {
    let a = after_dialog_run(Some(Notice::Text("merged feat".into())), &Ok(String::new()));
    assert!(a.refresh && a.close && a.error.is_none());
    assert!(matches!(a.toast, Some(Notice::Text(ref t)) if t == "merged feat"));
    let a = after_dialog_run(Some(Notice::Text("merged feat".into())), &Err(OpError::Git("git merge: conflict".into())));
    assert!(!a.refresh && !a.close && a.toast.is_none());
    assert_eq!(a.error.as_deref(), Some("git merge: conflict"));
}

#[test]
fn a_dialog_shows_its_error() {
    let mut m = gitara::app::Modal::Merge(MergeModalState { branch: "feat".into(), no_ff: true, error: None });
    m.set_error("no".into());
    match m {
        gitara::app::Modal::Merge(s) => {
            assert_eq!(s.error.as_deref(), Some("no"));
            assert_eq!(s.branch, "feat");
            assert!(s.no_ff);
        }
        _ => panic!("the dialog changed"),
    }
}
