use gitara::git::status::{StatusFlags, WorkingStatus};

fn st(conflicted: u32, staged: u32, modified: u32, untracked: u32) -> WorkingStatus {
    WorkingStatus { staged, modified, untracked, conflicted }
}

#[test]
fn clean_tree() {
    let s = WorkingStatus::tally(&vec![]);
    assert!(!s.is_dirty());
    assert_eq!(s.summary(), "clean");
}

#[test]
fn summary_lists_nonzero_counts_in_order() {
    assert_eq!(st(1, 2, 3, 4).summary(), "1 conflicted · 2 staged · 3 modified · 4 untracked");
    assert_eq!(st(0, 1, 0, 2).summary(), "1 staged · 2 untracked");
    assert_eq!(st(0, 0, 10, 0).summary(), "10 modified");
}

#[test]
fn summary_is_clean_exactly_when_not_dirty() {
    for s in [st(0, 0, 0, 0), st(1, 0, 0, 0), st(0, 0, 0, 1), st(0, 3, 0, 0)] {
        assert_eq!(s.summary() == "clean", !s.is_dirty());
    }
}

#[test]
fn untracked_file_counted() {
    let f = StatusFlags { wt_new: true, ..Default::default() };
    let s = WorkingStatus::tally(&vec![f]);
    assert_eq!(s.untracked, 1);
    assert_eq!(s.modified, 0);
    assert_eq!(s.staged, 0);
    assert!(s.is_dirty());
}

#[test]
fn modified_and_staged_counted_separately() {
    let modified = StatusFlags { wt_modified: true, ..Default::default() };
    let staged = StatusFlags { index_modified: true, ..Default::default() };
    let both = StatusFlags { index_new: true, wt_deleted: true, ..Default::default() };
    let s = WorkingStatus::tally(&vec![modified, staged, both]);
    assert_eq!(s.staged, 2);
    assert_eq!(s.modified, 2);
}

#[test]
fn conflicts_and_new_files_count_once() {
    let c = StatusFlags { conflicted: true, index_modified: true, wt_modified: true, ..Default::default() };
    let n = StatusFlags { wt_new: true, index_new: true, ..Default::default() };
    let s = WorkingStatus::tally(&vec![c, n]);
    assert_eq!((s.conflicted, s.untracked, s.staged, s.modified), (1, 1, 0, 0));
}
