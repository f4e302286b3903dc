use gitara::git::diff::{
    collect_hunks, file_change_from_delta, file_changes, file_status, hunk_from_raw, per_file_stats,
    DeltaKind, RawDelta, RawHunk, RawLine, RawPatch,
};
use gitara::model::diff::{DiffOrigin, FileStatus};

fn delta(kind: DeltaKind, new_path: Option<&str>, old_path: Option<&str>) -> RawDelta {
    RawDelta {
        kind,
        new_path: new_path.map(|s| s.to_string()),
        old_path: old_path.map(|s| s.to_string()),
        stats: Some((3, 5, 2)),
    }
}

#[test]
fn delta_kinds_map_to_statuses() {
    assert_eq!(file_status(DeltaKind::Added), FileStatus::Added);
    assert_eq!(file_status(DeltaKind::Copied), FileStatus::Added);
    assert_eq!(file_status(DeltaKind::Deleted), FileStatus::Deleted);
    assert_eq!(file_status(DeltaKind::Modified), FileStatus::Modified);
    assert_eq!(file_status(DeltaKind::Renamed), FileStatus::Renamed);
    assert_eq!(file_status(DeltaKind::Typechange), FileStatus::TypeChange);
    assert_eq!(file_status(DeltaKind::Conflicted), FileStatus::Conflicted);
    assert_eq!(file_status(DeltaKind::Untracked), FileStatus::Untracked);
    assert_eq!(file_status(DeltaKind::Ignored), FileStatus::Modified);
    assert_eq!(file_status(DeltaKind::Unreadable), FileStatus::Modified);
    assert_eq!(file_status(DeltaKind::Unmodified), FileStatus::Modified);
}

#[test]
fn files_for_commit_root() {
    let fc = file_change_from_delta(&delta(DeltaKind::Added, Some("0.txt"), Some("0.txt")), false);
    assert_eq!(fc.path, "0.txt");
    assert!(matches!(fc.status, FileStatus::Added));
    assert!(fc.old_path.is_none());
}

#[test]
fn renamed_file_keeps_its_old_path() {
    let fc = file_change_from_delta(&delta(DeltaKind::Renamed, Some("new.rs"), Some("old.rs")), true);
    assert_eq!(fc.path, "new.rs");
    assert_eq!(fc.old_path.as_deref(), Some("old.rs"));
    assert!(fc.staged);
    assert_eq!((fc.additions, fc.deletions), (5, 2));
    let gone = file_change_from_delta(&delta(DeltaKind::Deleted, None, Some("x")), false);
    assert_eq!(gone.path, "");
    assert_eq!(gone.old_path.as_deref(), Some("x"));
}

#[test]
fn stats_are_cut_to_32_bits_or_zero() {
    assert_eq!(per_file_stats(None), (0, 0));
    assert_eq!(per_file_stats(Some((0, 7, 9))), (7, 9));
    assert_eq!(per_file_stats(Some((0, (1usize << 32) + 3, 1))), (3, 1));
}

#[test]
fn file_changes_mark_their_side() {
    let ds = vec![delta(DeltaKind::Added, Some("a"), None), delta(DeltaKind::Modified, Some("b"), Some("b"))];
    let fs = file_changes(&ds, true);
    assert_eq!(fs.len(), 2);
    assert!(fs.iter().all(|f| f.staged));
    assert_eq!(fs[1].path, "b");
    assert!(file_changes(&ds, false).iter().all(|f| !f.staged));
}

fn line(origin: char, content: &str) -> RawLine {
    RawLine { origin, old_lineno: Some(1), new_lineno: None, content: content.as_bytes().to_vec() }
}

#[test]
fn hunks_for_commit_returns_diff_lines() {
    let raw = RawHunk {
        old_start: 1,
        old_lines: 1,
        new_start: 1,
        new_lines: 2,
        header: b"@@ -1 +1,2 @@  \n".to_vec(),
        lines: vec![line(' ', "first\n"), line('+', "added line\n\n"), line('-', "gone"), line('=', "x")],
    };
    let h = hunk_from_raw(&raw);
    assert_eq!(h.header, "@@ -1 +1,2 @@");
    assert_eq!((h.old_start, h.old_len, h.new_start, h.new_len), (1, 1, 1, 2));
    assert_eq!(h.lines.len(), 4);
    assert!(matches!(h.lines[0].origin, DiffOrigin::Context));
    assert!(matches!(h.lines[1].origin, DiffOrigin::Added));
    assert!(matches!(h.lines[2].origin, DiffOrigin::Removed));
    assert!(matches!(h.lines[3].origin, DiffOrigin::Context));
    assert_eq!(h.lines[1].content, "added line");
    assert_eq!(h.lines[0].old_lineno, Some(1));
    assert_eq!(h.lines[0].new_lineno, None);
}

#[test]
fn hunks_carry_their_paths_and_skip_missing_patches() {
    let h = |n: u32| RawHunk { old_start: n, old_lines: 0, new_start: n, new_lines: 0, header: vec![], lines: vec![] };
    let patches = vec![
        Some(RawPatch { path: Some("a.txt".into()), hunks: vec![h(1), h(2)] }),
        None,
        Some(RawPatch { path: None, hunks: vec![h(3)] }),
    ];
    let hs = collect_hunks(&patches);
    assert_eq!(hs.len(), 3);
    assert_eq!(hs[0].0, "a.txt");
    assert_eq!(hs[1].1.old_start, 2);
    assert_eq!(hs[2].0, "");
    assert_eq!(hs[2].1.new_start, 3);
}

#[test]
fn staged_files_lists_only_index_changes() {
    let staged = file_changes(&vec![delta(DeltaKind::Added, Some("new.txt"), Some("new.txt"))], true);
    assert_eq!(staged.len(), 1, "expected just new.txt staged");
    assert_eq!(staged[0].path, "new.txt");
    assert!(matches!(staged[0].status, FileStatus::Added));
    assert!(staged[0].staged);
}

#[test]
fn dirty_tree_shows_modified_and_untracked() {
    let changes = file_changes(
        &vec![
            delta(DeltaKind::Modified, Some("0.txt"), Some("0.txt")),
            delta(DeltaKind::Untracked, Some("new.txt"), Some("new.txt")),
        ],
        false,
    );
    let mods = changes.iter().filter(|c| matches!(c.status, FileStatus::Modified)).count();
    let news = changes.iter().filter(|c| matches!(c.status, FileStatus::Untracked)).count();
    assert_eq!(mods, 1);
    assert_eq!(news, 1);
}

#[test]
fn files_for_commit_modified() {
    let files = file_changes(&vec![delta(DeltaKind::Modified, Some("0.txt"), Some("0.txt"))], false);
    assert_eq!(files.len(), 1);
    assert!(matches!(files[0].status, FileStatus::Modified));
    assert!(files[0].additions >= 1);
}

#[test]
fn unstaged_files_excludes_staged_changes() {
    // The index-to-workdir diff reports only the file edited after staging.
    let unstaged = file_changes(&vec![delta(DeltaKind::Modified, Some("0.txt"), Some("0.txt"))], false);
    assert!(unstaged.iter().any(|f| f.path == "0.txt"));
    assert!(!unstaged.iter().any(|f| f.path == "new.txt"));
    assert!(unstaged.iter().all(|f| !f.staged));
}

#[test]
fn hunks_unstaged_for_path_returns_only_workdir_diff() {
    let raw = RawHunk {
        old_start: 1,
        old_lines: 1,
        new_start: 1,
        new_lines: 2,
        header: b"@@ -1 +1,2 @@\n".to_vec(),
        lines: vec![line(' ', "first\n"), line('+', "added by hand\n")],
    };
    let hunks = collect_hunks(&vec![Some(RawPatch { path: Some("0.txt".into()), hunks: vec![raw] })]);
    assert!(!hunks.is_empty());
    assert!(hunks.iter().any(|(_, h)| h.lines.iter().any(|l| matches!(l.origin, DiffOrigin::Added))));
}
