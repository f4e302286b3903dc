use gitara::app::{is_demo_repo, CommitModalState, Toast, ToastKind};
use gitara::model::diff::{FileChange, FileStatus, Hunk};

fn fc(path: &str, status: FileStatus) -> FileChange {
    FileChange { path: path.into(), old_path: None, status, staged: false, additions: 0, deletions: 0 }
}

fn hunk() -> Hunk {
    Hunk { old_start: 1, old_len: 1, new_start: 1, new_len: 1, header: "@@".into(), lines: vec![] }
}

#[test]
fn demo_paths_are_recognised() {
    assert!(is_demo_repo("/nonexistent/demo/ordo"));
    assert!(is_demo_repo("/nonexistent/demo"));
    assert!(!is_demo_repo("/nonexistent/demolition"));
    assert!(!is_demo_repo("/home/me/repo"));
}

#[test]
fn toasts_carry_their_kind() {
    let t = Toast::info("ok".into());
    assert_eq!(t.kind, ToastKind::Info);
    assert_eq!(t.message, "ok");
    assert_eq!(Toast::error("bad".into()).kind, ToastKind::Error);
}

#[test]
fn open_selects_the_first_staged_file() {
    // An untracked first staged file is still the one selected.
    let s = CommitModalState::open(Ok((
        vec![fc("u.txt", FileStatus::Modified)],
        vec![fc("new.txt", FileStatus::Untracked), fc("s.txt", FileStatus::Added)],
    )));
    assert_eq!(s.selected_path.as_deref(), Some("new.txt"));
    assert!(s.selected_staged);
    assert!(s.read_error.is_none());
    assert!(s.message.is_empty() && !s.amend);
}

#[test]
fn open_falls_back_to_the_first_unstaged_file_then_none() {
    let s = CommitModalState::open(Ok((
        vec![fc("n.txt", FileStatus::Untracked), fc("m.txt", FileStatus::Modified)],
        vec![],
    )));
    assert_eq!(s.selected_path.as_deref(), Some("n.txt"));
    assert!(!s.selected_staged);
    let s = CommitModalState::open(Ok((vec![], vec![])));
    assert!(s.selected_path.is_none());
    assert!(s.hunks.is_empty());
}

#[test]
fn open_reports_a_failed_read() {
    let s = CommitModalState::open(Err("permission denied".into()));
    assert_eq!(s.read_error.as_deref(), Some("failed to read working tree: permission denied"));
    assert!(s.staged.is_empty() && s.unstaged.is_empty());
}

#[test]
fn reload_keeps_follows_or_clears_the_selection() {
    let mut s = CommitModalState::open(Ok((vec![fc("a", FileStatus::Modified)], vec![])));
    assert_eq!(s.selected_path.as_deref(), Some("a"));
    assert!(!s.selected_staged);
    // Staged: it moves to the staged side.
    s.reload_lists(Ok((vec![], vec![fc("a", FileStatus::Modified)])));
    assert_eq!(s.selected_path.as_deref(), Some("a"));
    assert!(s.selected_staged);
    // Listed on neither side: the selection is cleared.
    s.reload_lists(Ok((vec![fc("b", FileStatus::Modified)], vec![])));
    assert!(s.selected_path.is_none());
    // Without a selection, the first staged file is picked, else the first unstaged one.
    s.reload_lists(Ok((vec![fc("b", FileStatus::Modified)], vec![fc("c", FileStatus::Added)])));
    assert_eq!(s.selected_path.as_deref(), Some("c"));
    assert!(s.selected_staged);
    s.reload_lists(Ok((vec![], vec![])));
    assert!(s.selected_path.is_none());
    s.reload_lists(Ok((vec![fc("b", FileStatus::Modified)], vec![])));
    assert_eq!(s.hunk_source(), Some(("b".to_string(), false)));
}

#[test]
fn failed_reload_keeps_the_lists() {
    let mut s = CommitModalState::open(Ok((vec![fc("a", FileStatus::Modified)], vec![])));
    s.reload_lists(Err("boom".into()));
    assert_eq!(s.unstaged.len(), 1);
    assert_eq!(s.selected_path.as_deref(), Some("a"));
    assert_eq!(s.read_error.as_deref(), Some("failed to read working tree: boom"));
    s.reload_lists(Ok((vec![fc("a", FileStatus::Modified)], vec![])));
    assert!(s.read_error.is_none());
}

#[test]
fn hunks_follow_the_selection() {
    let mut s = CommitModalState::open(Ok((vec![fc("a", FileStatus::Modified)], vec![])));
    assert_eq!(s.hunk_source(), Some(("a".to_string(), false)));
    s.reload_hunks(Ok(vec![("a".into(), hunk())]));
    assert_eq!(s.hunks.len(), 1);
    s.reload_hunks(Err("no diff".into()));
    assert_eq!(s.hunks.len(), 1);
    assert_eq!(s.read_error.as_deref(), Some("failed to read diff: no diff"));
    let mut empty = CommitModalState::open(Ok((vec![], vec![])));
    assert_eq!(empty.hunk_source(), None);
    empty.reload_hunks(Ok(vec![("a".into(), hunk())]));
    assert!(empty.hunks.is_empty());
}

#[test]
fn refresh_names_the_next_diff_to_read() {
    let mut s = CommitModalState::open(Ok((vec![fc("a", FileStatus::Modified)], vec![])));
    let next = s.refresh(Ok((vec![], vec![fc("a", FileStatus::Modified)])));
    assert_eq!(next, Some(("a".to_string(), true)));
}

#[test]
fn second_click_within_400ms_is_a_double_click() {
    let mut s = CommitModalState::open(Ok((vec![fc("a", FileStatus::Modified), fc("b", FileStatus::Modified)], vec![])));
    assert!(!s.click("a", false, 1000));
    assert!(s.click("a", false, 1399));
    assert!(!s.click("a", false, 1799 + 1));
    assert!(!s.click("b", false, 1900));
    assert_eq!(s.selected_path.as_deref(), Some("b"));
    assert!(s.is_selected("b", false));
    assert!(!s.is_selected("b", true));
}

#[test]
fn toggling_moves_the_selection_to_the_other_side() {
    let mut s = CommitModalState::open(Ok((vec![fc("a", FileStatus::Modified)], vec![])));
    s.error = Some("old".into());
    s.toggled("a", false);
    assert!(s.selected_staged);
    assert!(s.error.is_none());
    s.toggled("zzz", true);
    assert!(s.selected_staged);
}

#[test]
fn paths_are_compared_as_paths() {
    // A trailing slash names the same path.
    let mut s = CommitModalState::open(Ok((vec![fc("a/b", FileStatus::Modified)], vec![])));
    assert!(s.is_selected("a/b/", false));
    s.reload_lists(Ok((vec![], vec![fc("a/b/", FileStatus::Modified)])));
    assert_eq!(s.selected_path.as_deref(), Some("a/b"));
    assert!(s.selected_staged);
}
