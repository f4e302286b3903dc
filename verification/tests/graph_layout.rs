use gitara::graph_layout::compute;
use gitara::model::commit::{Author, Commit};

fn mk(oid: &str, parents: &[&str]) -> Commit {
    let now = time::OffsetDateTime::now_utc();
    let a = Author { name: "t".into(), email: "t@t".into() };
    Commit {
        oid: oid.into(),
        short: oid[..oid.len().min(7)].into(),
        subject: "".into(),
        body: None,
        author: a.clone(),
        committer: a,
        date: now,
        parents: parents.iter().map(|s| (*s).to_string()).collect(),
        refs: vec![],
        signed: false,
    }
}

#[test]
fn single_line_history() {
    let commits = vec![mk("a", &["b"]), mk("b", &["c"]), mk("c", &[])];
    let rows = compute(&commits);
    assert_eq!(rows[0].column, 0);
    assert_eq!(rows[1].column, 0);
    assert_eq!(rows[2].column, 0);
    for r in &rows {
        assert!(r.through.is_empty());
    }
}

#[test]
fn simple_merge() {
    let commits = vec![mk("a", &["b", "c"]), mk("b", &["d"]), mk("c", &["d"]), mk("d", &[])];
    let rows = compute(&commits);
    assert!(rows[0].is_merge);
    assert_eq!(rows[0].column, 0);
    assert_eq!(rows[0].extra_parent_columns, vec![1u8]);
    assert_eq!(rows[1].column, 0);
    assert_eq!(rows[1].through, vec![1u8]);
    assert_eq!(rows[2].column, 1);
    assert_eq!(rows[3].column, 0);
    assert!(rows[3].terminating.contains(&1u8));
}

#[test]
fn empty_history_has_no_rows() {
    assert!(compute(&[]).is_empty());
}

#[test]
fn one_row_per_commit_with_shared_max_column() {
    let commits = vec![
        mk("m", &["x", "y", "z"]),
        mk("x", &["r"]),
        mk("y", &["r"]),
        mk("z", &["r"]),
        mk("r", &[]),
    ];
    let rows = compute(&commits);
    assert_eq!(rows.len(), commits.len());
    assert_eq!(rows[0].extra_parent_columns, vec![1u8, 2u8]);
    let max = rows.iter().map(|r| r.column).max().unwrap();
    for r in &rows {
        assert_eq!(r.max_column, rows[0].max_column);
        assert!(r.column <= r.max_column);
    }
    assert!(max <= rows[0].max_column);
}

#[test]
fn tips_and_roots_are_marked() {
    let commits = vec![mk("a", &["b"]), mk("b", &[])];
    let rows = compute(&commits);
    assert!(rows[0].lane_starts_here);
    assert!(!rows[1].lane_starts_here);
    assert!(!rows[0].lane_ends_here);
    assert!(rows[1].lane_ends_here);
    assert!(!rows[0].is_merge);
}

#[test]
fn first_parent_stays_in_the_column() {
    let commits = vec![mk("a", &["b"]), mk("c", &["d"]), mk("b", &[]), mk("d", &[])];
    let rows = compute(&commits);
    assert_eq!(rows[0].column, 0);
    assert_eq!(rows[1].column, 1);
    assert_eq!(rows[2].column, 0);
    assert_eq!(rows[3].column, 1);
    assert_eq!(rows[2].through, vec![1u8]);
}

#[test]
fn terminating_columns_stay_within_max_column() {
    // Two lanes both expecting the same base commit: one terminates there.
    let cs = vec![mk("m", &["a", "b"]), mk("a", &["base"]), mk("b", &["base"]), mk("base", &[])];
    let rows = compute(&cs);
    assert_eq!(rows[3].terminating, vec![1]);
    assert!(rows.iter().all(|r| r.terminating.iter().all(|&t| t <= r.max_column)));
}

#[test]
fn a_lane_starts_only_where_no_earlier_commit_names_it() {
    let cs = vec![mk("x", &["base"]), mk("y", &["base"]), mk("base", &[])];
    let rows = compute(&cs);
    assert!(rows[0].lane_starts_here);
    // `y` is nobody's parent: a new lane, in the lowest free column.
    assert!(rows[1].lane_starts_here);
    assert_eq!(rows[1].column, 1);
    assert_eq!(rows[1].through, vec![0]);
    assert!(!rows[2].lane_starts_here);
}
