use gitara::app::View;
use gitara::mock::seed;
use gitara::model::repo::{HeadState, RepoView};
use gitara::startup::{launch_data, launch_defaults, RepoRead, HISTORY_LIMIT};

fn real_repo() -> RepoView {
    RepoView {
        path: "/work/r".into(),
        name: "r".into(),
        head: HeadState::Unborn,
        branches: vec![],
        remotes: vec![],
        tags: vec![],
        stashes: vec![],
    }
}

#[test]
fn the_window_opens_on_the_history_of_every_ref() {
    let d = launch_defaults();
    assert!(matches!(d.view, View::History));
    assert!(!d.inspector_collapsed);
    assert!(d.show_all_refs);
    assert!(d.wrap_subjects);
    assert_eq!(d.history_limit, 200);
    assert_eq!(HISTORY_LIMIT, 200);
}

#[test]
fn without_a_repository_the_demo_data_is_shown() {
    let (repo, commits, reflog, status) = launch_data(None);
    let (demo, demo_commits, demo_reflog) = seed();
    assert_eq!(repo.path, demo.path);
    assert_eq!(commits.len(), demo_commits.len());
    assert_eq!(reflog.len(), demo_reflog.len());
    assert!(status.is_none());
}

#[test]
fn failed_reads_leave_empty_lists() {
    let read = RepoRead { repo: real_repo(), commits: Err("walk failed".into()), reflog: Err("no reflog".into()), status: None };
    let (repo, commits, reflog, status) = launch_data(Some(read));
    assert_eq!(repo.path, "/work/r");
    assert!(commits.is_empty() && reflog.is_empty() && status.is_none());
    let (_, demo_commits, demo_reflog) = seed();
    let read = RepoRead { repo: real_repo(), commits: Ok(demo_commits), reflog: Ok(demo_reflog), status: None };
    let (_, commits, reflog, _) = launch_data(Some(read));
    assert_eq!((commits.len(), reflog.len()), (20, 15));
}
