use gitara::app::{CtxMenuKind, InspectorTab, Modal, ResetMode, Selection};
use gitara::model::commit::{Author, Commit};
use gitara::model::repo::{Branch, HeadState, Remote, RepoView};
use gitara::startup::{
    startup_menu, startup_modal, startup_selection, startup_tab, tab_for, working_tree_oid,
    StartupModal, WORKING_TREE_OID,
};

fn commit(oid: &str, short: &str) -> Commit {
    let a = Author { name: "a".into(), email: "e".into() };
    Commit {
        oid: oid.into(),
        short: short.into(),
        subject: "s".into(),
        body: None,
        author: a.clone(),
        committer: a,
        date: time::OffsetDateTime::now_utc(),
        parents: vec![],
        refs: vec![],
        signed: false,
    }
}

fn repo() -> RepoView {
    RepoView {
        path: "/r".into(),
        name: "r".into(),
        head: HeadState::Branch { name: "main".into() },
        branches: vec![Branch { name: "main".into(), current: true, upstream: None, ahead: 0, behind: 0, tip_oid: "t".into() }],
        remotes: vec![Remote { name: "origin".into(), url: "u".into(), branches: vec![], last_fetched: None }],
        tags: vec![],
        stashes: vec![],
    }
}

#[test]
fn working_tree_id_is_shared() {
    assert_eq!(working_tree_oid(), WORKING_TREE_OID);
    assert_eq!(WORKING_TREE_OID, "__working_tree__");
}

#[test]
fn prefix_selects_the_first_matching_commit() {
    let cs = vec![commit("a1f3b2c00000", "a1f3b2c"), commit("a1ffff000000", "a1fffff"), commit("b000000000", "xyz")];
    let s = startup_selection(Some("a1f"), &cs);
    assert_eq!(s.primary.as_deref(), Some("a1f3b2c00000"));
    assert_eq!(s.set, vec!["a1f3b2c00000".to_string()]);
    assert_eq!(s.anchor.as_deref(), Some("a1f3b2c00000"));
    let by_short = startup_selection(Some("xyz"), &cs);
    assert_eq!(by_short.primary.as_deref(), Some("b000000000"));
    let none = startup_selection(Some("zzz"), &cs);
    assert!(none.primary.is_none() && none.set.is_empty() && none.anchor.is_none());
    let wt = startup_selection(Some("__working_tree__"), &cs);
    assert_eq!(wt.primary.as_deref(), Some("__working_tree__"));
    assert!(startup_selection(None, &cs).primary.is_none());
}

#[test]
fn named_dialogs_open_with_defaults() {
    let sel = Selection::only("abc");
    assert!(matches!(startup_modal("commit", &repo(), &sel), Some(StartupModal::Commit)));
    match startup_modal("push", &repo(), &sel) {
        Some(StartupModal::Open(Modal::Push(m))) => {
            assert_eq!((m.remote.as_str(), m.branch.as_str(), m.target_branch.as_str()), ("origin", "main", "main"))
        }
        other => panic!("{other:?}"),
    }
    match startup_modal("reset", &repo(), &sel) {
        Some(StartupModal::Open(Modal::Reset(m))) => {
            assert_eq!(m.oid, "abc");
            assert_eq!(m.mode, ResetMode::Mixed);
        }
        other => panic!("{other:?}"),
    }
    match startup_modal("tag", &repo(), &Selection::only(WORKING_TREE_OID)) {
        Some(StartupModal::Open(Modal::Tag(m))) => assert!(m.oid.is_none()),
        other => panic!("{other:?}"),
    }
    match startup_modal("branch", &repo(), &sel) {
        Some(StartupModal::Open(Modal::Branch(m))) => assert_eq!(m.start_oid.as_deref(), Some("abc")),
        other => panic!("{other:?}"),
    }
    match startup_modal("rename_branch", &repo(), &sel) {
        Some(StartupModal::Open(Modal::RenameBranch(m))) => assert_eq!(m.old_name, "main"),
        other => panic!("{other:?}"),
    }
    assert!(startup_modal("add_remote", &repo(), &sel).is_none());
    assert!(startup_modal("nope", &repo(), &sel).is_none());
}

#[test]
fn commit_menu_pins_on_the_selection() {
    match startup_menu("commit", &Selection::only("abc")) {
        Some(CtxMenuKind::Commit { oid }) => assert_eq!(oid, "abc"),
        other => panic!("{other:?}"),
    }
    assert!(startup_menu("commit", &Selection::empty()).is_none());
    assert!(startup_menu("branch", &Selection::only("abc")).is_none());
}

#[test]
fn tabs_are_named_without_regard_to_case() {
    assert_eq!(startup_tab(Some("CHANGES")), InspectorTab::Changes);
    assert_eq!(startup_tab(Some("Diff")), InspectorTab::Diff);
    assert_eq!(startup_tab(Some("files")), InspectorTab::Files);
    assert_eq!(startup_tab(Some("details")), InspectorTab::Details);
    assert_eq!(startup_tab(Some("other")), InspectorTab::Details);
    assert_eq!(startup_tab(None), InspectorTab::Details);
    assert_eq!(tab_for("changes"), InspectorTab::Changes);
    assert_eq!(tab_for("Changes"), InspectorTab::Details);
}

#[test]
fn upper_case_tab_names_pick_their_tab() {
    assert_eq!(startup_tab(Some("DIFF")), InspectorTab::Diff);
    assert_eq!(startup_tab(Some("FiLeS")), InspectorTab::Files);
}
