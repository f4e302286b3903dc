use gitara::actions::{
    branch_click, current_branch_name, default_remote_name, fetch_dialog, item_label, menu_effect,
    after_effect_run, menu_items, menu_title, outcome_toast, primary_is_push, pull_effect, push_dialog, Done, Effect,
    MenuAction,
};
use gitara::app::{CtxMenuKind, Modal, ResetMode, ToastKind};
use gitara::git::ops::OpError;
use gitara::model::repo::{Branch, HeadState, Remote, RepoView};

fn branch(name: &str, current: bool, ahead: u32) -> Branch {
    Branch { name: name.into(), current, upstream: None, ahead, behind: 0, tip_oid: "t".into() }
}

fn repo(branches: Vec<Branch>, remotes: &[&str]) -> RepoView {
    RepoView {
        path: "/r".into(),
        name: "r".into(),
        head: HeadState::Unborn,
        branches,
        remotes: remotes
            .iter()
            .map(|n| Remote { name: n.to_string(), url: "u".into(), branches: vec![], last_fetched: None })
            .collect(),
        tags: vec![],
        stashes: vec![],
    }
}

fn words(ws: &[&str]) -> Vec<String> {
    ws.iter().map(|w| w.to_string()).collect()
}

fn run_parts(e: &Effect) -> (Vec<Vec<String>>, Option<String>, String, bool) {
    match e {
        Effect::Run { plan, done } => (plan.commands.clone(), done.ok.clone(), done.failed.clone(), done.clear_selection),
        other => panic!("expected a run, got {other:?}"),
    }
}

fn shown(e: &Effect) -> (ToastKind, String) {
    match e {
        Effect::Show(t) => (t.kind, t.message.clone()),
        other => panic!("expected a toast, got {other:?}"),
    }
}

#[test]
fn defaults_come_from_the_current_branch_and_first_remote() {
    let r = repo(vec![branch("dev", false, 0), branch("main", true, 2)], &["origin", "up"]);
    assert_eq!(current_branch_name(&r), "main");
    assert_eq!(default_remote_name(&r), "origin");
    assert!(primary_is_push(&r));
    let p = push_dialog(&r);
    assert_eq!((p.remote.as_str(), p.branch.as_str(), p.target_branch.as_str()), ("origin", "main", "main"));
    assert_eq!(fetch_dialog(&r).remote, "origin");
    let bare = repo(vec![branch("dev", false, 5)], &[]);
    assert_eq!(current_branch_name(&bare), "");
    assert_eq!(default_remote_name(&bare), "");
    assert!(!primary_is_push(&bare));
}

#[test]
fn pull_refuses_in_demo_mode() {
    assert_eq!(shown(&pull_effect(true)), (ToastKind::Error, "demo mode — set GITARA_REPO=<path>".to_string()));
    let (cmds, ok, failed, clear) = run_parts(&pull_effect(false));
    assert_eq!(cmds, vec![words(&["pull"])]);
    assert_eq!(ok.as_deref(), Some("pulled"));
    assert_eq!(failed, "pull failed: ");
    assert!(!clear);
}

#[test]
fn sidebar_click_checks_out_other_branches_only() {
    let r = repo(vec![branch("main", true, 0), branch("dev", false, 0)], &[]);
    assert!(matches!(branch_click(&r, "main", false), Effect::Nothing));
    assert!(matches!(branch_click(&r, "dev", true), Effect::Nothing));
    let (cmds, ok, failed, clear) = run_parts(&branch_click(&r, "dev", false));
    assert_eq!(cmds, vec![words(&["checkout", "--end-of-options", "dev"])]);
    assert!(ok.is_none());
    assert_eq!(failed, "checkout dev: ");
    assert!(clear);
    assert_eq!(shown(&branch_click(&r, " ", false)), (ToastKind::Error, "checkout  : checkout target is empty".to_string()));
}

#[test]
fn menus_list_their_items() {
    let commit = CtxMenuKind::Commit { oid: "0123456789".into() };
    assert_eq!(menu_title(&commit), "commit  0123456");
    let labels: Vec<&str> = menu_items(&commit).iter().map(item_label).collect();
    assert_eq!(labels, vec!["Create branch from here", "Tag commit…", "Reset to here…", "Cherry-pick"]);
    let b = CtxMenuKind::Branch { name: "dev".into() };
    assert_eq!(menu_title(&b), "branch  dev");
    let labels: Vec<&str> = menu_items(&b).iter().map(item_label).collect();
    assert_eq!(labels, vec!["Checkout", "Rename…", "Delete", "Force delete"]);
    assert_eq!(menu_title(&CtxMenuKind::Remote { name: "origin".into() }), "remote  origin");
    assert_eq!(menu_title(&CtxMenuKind::Tag { name: "v1".into() }), "tag  v1");
    let s = CtxMenuKind::Stash { idx: 2 };
    assert_eq!(menu_title(&s), "stash@{2}");
    let labels: Vec<&str> = menu_items(&s).iter().map(item_label).collect();
    assert_eq!(labels, vec!["Apply", "Pop", "Drop"]);
}

#[test]
fn commit_items_open_dialogs_on_the_commit() {
    match menu_effect(MenuAction::ResetTo("abc".into()), true) {
        Effect::Open(Modal::Reset(m)) => {
            assert_eq!(m.oid, "abc");
            assert_eq!(m.mode, ResetMode::Mixed);
        }
        other => panic!("{other:?}"),
    }
    match menu_effect(MenuAction::CreateBranchFrom("abc".into()), false) {
        Effect::Open(Modal::Branch(m)) => assert_eq!(m.start_oid.as_deref(), Some("abc")),
        other => panic!("{other:?}"),
    }
    match menu_effect(MenuAction::RenameBranch("dev".into()), false) {
        Effect::Open(Modal::RenameBranch(m)) => assert_eq!((m.old_name.as_str(), m.new_name.as_str()), ("dev", "dev")),
        other => panic!("{other:?}"),
    }
}

#[test]
fn git_items_refuse_in_demo_mode_and_report_outcomes() {
    assert_eq!(shown(&menu_effect(MenuAction::DeleteTag("v1".into()), true)), (ToastKind::Error, "demo mode".to_string()));
    let (cmds, ok, failed, _) = run_parts(&menu_effect(MenuAction::ForceDeleteBranch("dev".into()), false));
    assert_eq!(cmds, vec![words(&["branch", "-D", "--end-of-options", "dev"])]);
    assert_eq!(ok.as_deref(), Some("force-deleted dev"));
    assert_eq!(failed, "delete failed: ");
    let (_, ok, _, _) = run_parts(&menu_effect(MenuAction::DeleteBranch("dev".into()), false));
    assert_eq!(ok.as_deref(), Some("deleted dev"));
    let (cmds, ok, failed, _) = run_parts(&menu_effect(MenuAction::StashPop(1), false));
    assert_eq!(cmds, vec![words(&["stash", "pop", "stash@{1}"])]);
    assert_eq!(ok.as_deref(), Some("popped stash@{1}"));
    assert_eq!(failed, "stash popped failed: ");
    let (_, ok, _, _) = run_parts(&menu_effect(MenuAction::FetchRemote("origin".into()), false));
    assert_eq!(ok.as_deref(), Some("fetched origin"));
    let (_, ok, _, _) = run_parts(&menu_effect(MenuAction::CheckoutTag("v1".into()), false));
    assert_eq!(ok.as_deref(), Some("checked out v1"));
    assert_eq!(
        shown(&menu_effect(MenuAction::RemoveRemote("".into()), false)),
        (ToastKind::Error, "remove failed: remote name is empty".to_string())
    );
}

#[test]
fn outcome_toast_reports_success_or_failure() {
    let done = Done { ok: Some("pulled".into()), failed: "pull failed: ".into(), clear_selection: false };
    let t = outcome_toast(&done, &Ok(String::new())).unwrap();
    assert_eq!((t.kind, t.message.as_str()), (ToastKind::Info, "pulled"));
    let t = outcome_toast(&done, &Err(OpError::Git("git pull: no upstream".into()))).unwrap();
    assert_eq!((t.kind, t.message.as_str()), (ToastKind::Error, "pull failed: git pull: no upstream"));
    let quiet = Done { ok: None, failed: "x: ".into(), clear_selection: true };
    assert!(outcome_toast(&quiet, &Ok(String::new())).is_none());
}

#[test]
fn a_finished_run_refreshes_and_clears_only_on_success() {
    let done = Done { ok: Some("checked out x".into()), failed: "checkout failed: ".into(), clear_selection: true };
    let a = after_effect_run(&done, &Ok(String::new()));
    assert!(a.refresh && a.clear_selection);
    assert_eq!(a.toast.unwrap().message, "checked out x");
    let a = after_effect_run(&done, &Err(OpError::Git("git checkout: nope".into())));
    assert!(!a.refresh && !a.clear_selection);
    let t = a.toast.unwrap();
    assert_eq!((t.kind, t.message.as_str()), (ToastKind::Error, "checkout failed: git checkout: nope"));
}
