use gitara::app::CherryPickModalState;
use gitara::choices::{insert_sorted, other_branches, prefill_cherry_pick, push_targets, remote_names, text_lt};
use gitara::model::repo::{Branch, HeadState, Remote, RemoteBranch, RepoView};

fn rb(name: &str) -> RemoteBranch {
    RemoteBranch { name: name.into(), tip_oid: "t".into() }
}

fn repo() -> RepoView {
    let b = |name: &str, current: bool| Branch { name: name.into(), current, upstream: None, ahead: 0, behind: 0, tip_oid: "t".into() };
    RepoView {
        path: "/r".into(),
        name: "r".into(),
        head: HeadState::Unborn,
        branches: vec![b("dev", false), b("main", true), b("feat", false)],
        remotes: vec![
            Remote {
                name: "origin".into(),
                url: "u".into(),
                branches: vec![rb("origin/main"), rb("origin/feat/x"), rb("origin/main"), rb("upstream/zzz"), rb("origin/Beta")],
                last_fetched: None,
            },
            Remote { name: "up".into(), url: "u".into(), branches: vec![rb("up/a")], last_fetched: None },
            Remote { name: "origin".into(), url: "u".into(), branches: vec![rb("origin/second")], last_fetched: None },
        ],
        tags: vec![],
        stashes: vec![],
    }
}

#[test]
fn merge_candidates_skip_the_current_branch() {
    assert_eq!(other_branches(&repo()), vec!["dev".to_string(), "feat".to_string()]);
    assert_eq!(remote_names(&repo()), vec!["origin".to_string(), "up".to_string(), "origin".to_string()]);
}

#[test]
fn push_targets_are_stripped_sorted_and_unique() {
    assert_eq!(
        push_targets(&repo(), "origin"),
        vec!["Beta".to_string(), "feat/x".to_string(), "main".to_string()]
    );
    assert_eq!(push_targets(&repo(), "up"), vec!["a".to_string()]);
    assert!(push_targets(&repo(), "nowhere").is_empty());
}

#[test]
fn text_order_is_by_code_point() {
    assert!(text_lt("B", "a"));
    assert!(text_lt("a", "ab"));
    assert!(!text_lt("ab", "ab"));
    assert!(text_lt("", "a"));
    assert!(!text_lt("b", "a"));
    assert!(text_lt("z", "é"));
    let mut v: Vec<String> = Vec::new();
    for x in ["m", "a", "z", "a", "é", "b"] {
        insert_sorted(&mut v, x.to_string());
    }
    let mut expected = vec!["m", "a", "z", "é", "b"];
    expected.sort();
    assert_eq!(v, expected);
}

#[test]
fn cherry_pick_takes_the_clicked_commit_when_empty() {
    let mut s = CherryPickModalState { oid: String::new(), no_commit: false, error: None };
    prefill_cherry_pick(&mut s, &Some("__working_tree__".into()));
    assert_eq!(s.oid, "");
    prefill_cherry_pick(&mut s, &Some("abc".into()));
    assert_eq!(s.oid, "abc");
    prefill_cherry_pick(&mut s, &Some("def".into()));
    assert_eq!(s.oid, "abc");
}
