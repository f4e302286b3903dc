use gitara::inspector::{
    changes_source, diff_pane, diff_source, files_pane, files_source, parents_text, selected_commit,
    signed_label, tags_text, working_tree_selected, DiffPane, FilesPane, PaneSource, Target,
};
use gitara::model::commit::{Author, Commit, RefChip};
use gitara::model::diff::{FileChange, FileStatus, Hunk};
use gitara::present::Tone;

fn commit(oid: &str, parents: &[&str], refs: Vec<RefChip>) -> Commit {
    let a = Author { name: "a".into(), email: "e".into() };
    Commit {
        oid: oid.into(),
        short: oid.into(),
        subject: "s".into(),
        body: None,
        author: a.clone(),
        committer: a,
        date: time::OffsetDateTime::now_utc(),
        parents: parents.iter().map(|p| p.to_string()).collect(),
        refs,
        signed: false,
    }
}

fn describe(s: &PaneSource) -> String {
    match s {
        PaneSource::Note(n) => format!("note {n}"),
        PaneSource::Read { target: Target::WorkingTree, empty } => format!("tree / {empty}"),
        PaneSource::Read { target: Target::Commit(o), empty } => format!("commit {o} / {empty}"),
    }
}

#[test]
fn shown_commit_defaults_to_the_first() {
    let cs = vec![commit("a", &[], vec![]), commit("b", &[], vec![])];
    assert_eq!(selected_commit(&None, &cs), Some(0));
    assert_eq!(selected_commit(&Some("b".into()), &cs), Some(1));
    assert_eq!(selected_commit(&Some("__working_tree__".into()), &cs), None);
    assert_eq!(selected_commit(&Some("zz".into()), &cs), None);
    assert_eq!(selected_commit(&None, &vec![]), None);
    assert!(working_tree_selected(&Some("__working_tree__".into())));
    assert!(!working_tree_selected(&None));
}

#[test]
fn details_lines() {
    let root = commit("r", &[], vec![]);
    assert_eq!(parents_text(&root), "(root)");
    let merge = commit("m", &["0123456789", "abcdef0123"], vec![]);
    assert_eq!(parents_text(&merge), "0123456   abcdef0");
    let tagged = commit("t", &[], vec![
        RefChip::Tag { name: "v1".into(), annotated: true },
        RefChip::Head,
        RefChip::Tag { name: "v2".into(), annotated: false },
    ]);
    assert_eq!(tags_text(&tagged).as_deref(), Some("v1   v2"));
    assert!(tags_text(&root).is_none());
    assert_eq!(signed_label(true), ("✓ signed", Tone::Added));
    assert_eq!(signed_label(false), ("not signed", Tone::Muted));
}

#[test]
fn tabs_pick_what_to_read() {
    let cs = vec![commit("a", &[], vec![])];
    let wt = Some("__working_tree__".to_string());
    let a = Some("a".to_string());
    assert_eq!(describe(&changes_source(true, &a, &cs)), "note demo mode — changes are only shown for real repos");
    assert_eq!(describe(&changes_source(false, &None, &cs)), "tree / No uncommitted changes.");
    assert_eq!(describe(&changes_source(false, &wt, &cs)), "tree / No uncommitted changes.");
    assert_eq!(describe(&changes_source(false, &a, &cs)), "commit a / No files changed.");
    assert_eq!(describe(&changes_source(false, &Some("x".into()), &cs)), "note Select a commit or the working-tree row.");
    assert_eq!(describe(&files_source(false, &wt, &cs)), "note Working-tree files — see the Changes tab.");
    assert_eq!(describe(&files_source(true, &a, &cs)), "note demo mode — files are only shown for real repos");
    assert_eq!(describe(&files_source(false, &None, &cs)), "commit a / No files changed.");
    assert_eq!(describe(&files_source(false, &None, &vec![])), "note Select a commit to see its files.");
    assert_eq!(describe(&diff_source(false, &wt, &cs)), "tree / No uncommitted changes.");
    assert_eq!(describe(&diff_source(false, &a, &cs)), "commit a / No changes in this commit.");
    assert_eq!(describe(&diff_source(true, &wt, &cs)), "note demo mode — diffs are only shown for real repos");
}

#[test]
fn panes_show_notes_for_empty_or_failed_reads() {
    let f = FileChange { path: "a".into(), old_path: None, status: FileStatus::Added, staged: false, additions: 1, deletions: 0 };
    assert!(matches!(files_pane(Ok(vec![]), "nothing"), FilesPane::Note(n) if n == "nothing"));
    assert!(matches!(files_pane(Ok(vec![f]), "nothing"), FilesPane::Files(v) if v.len() == 1));
    assert!(matches!(files_pane(Err("bad".into()), "nothing"), FilesPane::Note(n) if n == "error: bad"));
    let h = Hunk { old_start: 1, old_len: 1, new_start: 1, new_len: 1, header: "@@".into(), lines: vec![] };
    assert!(matches!(diff_pane(Ok(vec![]), "none"), DiffPane::Note(n) if n == "none"));
    assert!(matches!(diff_pane(Ok(vec![("p".into(), h)]), "none"), DiffPane::Rows(r) if r.len() == 3));
    assert!(matches!(diff_pane(Err("x".into()), "none"), DiffPane::Note(n) if n == "error: x"));
}
