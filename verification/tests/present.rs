use gitara::app::PushModalState;
use gitara::model::repo::{Remote, RemoteBranch, RepoView};
use gitara::present::{diff_pane_note, file_list_note, push_view, section_header};
use gitara::app::{CommitModalState, CtxMenuKind, Selection};
use gitara::model::commit::{Author, Commit, RefChip};
use gitara::model::diff::{DiffLine, DiffOrigin, FileChange, FileStatus, Hunk};
use gitara::model::reflog::ReflogAction;
use gitara::model::repo::{Branch, HeadState, Stash};
use gitara::present::{
    action_word, all_refs_label, author_label, branch_row_text, branch_subtitle, byline, can_commit,
    chip_label, chip_menu, chip_tone, commit_button, diff_rows, file_counts, head_text, lane_index,
    line_text, name_row_text, rename_subtitle, reset_subtitle, row_menu, selection_summary,
    stage_button, stash_row_text, status_letter, status_tone, tag_subtitle, theme_label, wrap_label,
    DiffRow, Tone,
};
use gitara::theme::ThemeMode;

fn author(name: &str, email: &str) -> Author {
    Author { name: name.into(), email: email.into() }
}

fn commit(oid: &str, short: &str, subject: &str) -> Commit {
    Commit {
        oid: oid.into(),
        short: short.into(),
        subject: subject.into(),
        body: None,
        author: author("a", "e"),
        committer: author("a", "e"),
        date: time::OffsetDateTime::now_utc(),
        parents: vec![],
        refs: vec![],
        signed: false,
    }
}

#[test]
fn author_column_adds_the_address_when_known() {
    assert_eq!(author_label(&author("Ana", "ana@x")), "Ana  <ana@x>");
    assert_eq!(author_label(&author("Ana", "")), "Ana");
    assert_eq!(byline(&author("Ana", "ana@x")), "Ana · ana@x");
}

#[test]
fn chips_show_their_kind() {
    let cur = RefChip::Branch { name: "main".into(), current: true };
    let other = RefChip::Branch { name: "dev".into(), current: false };
    let remote = RefChip::Remote { name: "origin/main".into() };
    let tag = RefChip::Tag { name: "v1".into(), annotated: true };
    assert_eq!(chip_label(&RefChip::Head), "HEAD");
    assert_eq!(chip_label(&cur), "main");
    assert_eq!(chip_label(&tag), "tag: v1");
    assert_eq!(chip_tone(&RefChip::Head), Tone::Accent);
    assert_eq!(chip_tone(&cur), Tone::Accent);
    assert_eq!(chip_tone(&other), Tone::Plain);
    assert_eq!(chip_tone(&remote), Tone::Muted);
    assert_eq!(chip_tone(&tag), Tone::Warn);
    assert!(matches!(chip_menu(&other), Some(CtxMenuKind::Branch { name }) if name == "dev"));
    assert!(matches!(chip_menu(&tag), Some(CtxMenuKind::Tag { name }) if name == "v1"));
    assert!(chip_menu(&remote).is_none());
    assert!(chip_menu(&RefChip::Head).is_none());
    assert!(matches!(row_menu("abc", true), Some(CtxMenuKind::Commit { oid }) if oid == "abc"));
    assert!(row_menu("abc", false).is_none());
}

#[test]
fn small_labels() {
    assert_eq!(action_word(ReflogAction::CherryPick), "cherry-pick");
    assert_eq!(action_word(ReflogAction::Other), "other");
    assert_eq!(wrap_label(true), "✓ wrap");
    assert_eq!(wrap_label(false), "wrap");
    assert_eq!(all_refs_label(true), "✓ all branches");
    assert_eq!(theme_label(ThemeMode::Dark), "Dark");
    assert_eq!(theme_label(ThemeMode::Light), "Light");
    assert_eq!(stage_button(true), "−");
    assert_eq!(stage_button(false), "+");
    assert_eq!(commit_button(true), "Amend");
    assert_eq!(commit_button(false), "Commit");
    assert_eq!(lane_index(9, 4), Some(1));
    assert_eq!(lane_index(3, 0), None);
}

#[test]
fn sidebar_rows() {
    let b = Branch { name: "main".into(), current: true, upstream: None, ahead: 2, behind: 13, tip_oid: "t".into() };
    assert_eq!(branch_row_text(&b), "●  main  ↑2 ↓13");
    let quiet = Branch { name: "dev".into(), current: false, upstream: None, ahead: 0, behind: 0, tip_oid: "t".into() };
    assert_eq!(branch_row_text(&quiet), "   dev");
    assert_eq!(name_row_text("origin"), "   origin");
    let s = Stash { idx: 4, message: "wip".into(), date: time::OffsetDateTime::now_utc(), on_branch: "main".into() };
    assert_eq!(stash_row_text(&s), "   stash@{4} · wip");
}

#[test]
fn status_bar_texts() {
    assert_eq!(head_text(&HeadState::Branch { name: "main".into() }), "main");
    assert_eq!(head_text(&HeadState::Detached { oid: "0123456789".into() }), "HEAD @ 0123456");
    assert_eq!(head_text(&HeadState::Unborn), "(unborn)");
    let cs = vec![commit("aaa", "a1", "first"), commit("bbb", "b2", "second")];
    let mut sel = Selection::only("bbb");
    assert_eq!(selection_summary(&sel, &cs), "b2 · second");
    sel.set.push("aaa".into());
    assert_eq!(selection_summary(&sel, &cs), "2 commits selected");
    assert_eq!(selection_summary(&Selection::empty(), &cs), "");
    assert_eq!(selection_summary(&Selection::only("zzz"), &cs), "");
}

#[test]
fn file_rows() {
    assert_eq!(status_letter(FileStatus::Conflicted), "!");
    assert_eq!(status_letter(FileStatus::Untracked), "?");
    assert_eq!(status_tone(FileStatus::Deleted), Tone::Removed);
    assert_eq!(status_tone(FileStatus::Untracked), Tone::Dim);
    let f = FileChange { path: "a".into(), old_path: None, status: FileStatus::Modified, staged: false, additions: 3, deletions: 0 };
    assert_eq!(file_counts(&f), "+3 −0");
    let z = FileChange { additions: 0, ..f.clone() };
    assert_eq!(file_counts(&z), "");
    let mut s = CommitModalState::open(Ok((vec![], vec![])));
    assert!(!can_commit(&s));
    s.amend = true;
    assert!(can_commit(&s));
    s.amend = false;
    s.staged.push(f);
    assert!(can_commit(&s));
}

#[test]
fn subtitles_show_short_oids() {
    assert_eq!(branch_subtitle(&Some("0123456789".into())), "Create a branch starting at 0123456");
    assert_eq!(branch_subtitle(&Some("abc".into())), "Create a branch starting at abc");
    assert_eq!(branch_subtitle(&None), "Create a branch from the current HEAD");
    assert_eq!(tag_subtitle(&Some("0123456789".into())), "Tag commit 0123456");
    assert_eq!(tag_subtitle(&None), "Tag the current HEAD");
    assert_eq!(reset_subtitle("0123456789"), "Move HEAD to 0123456");
    assert_eq!(rename_subtitle("dev"), "Rename branch dev");
}

fn line(origin: DiffOrigin, content: &str) -> DiffLine {
    DiffLine { origin, old_lineno: None, new_lineno: None, content: content.into() }
}

#[test]
fn diff_rows_head_each_file_once() {
    let h = |header: &str, lines: Vec<DiffLine>| Hunk { old_start: 1, old_len: 1, new_start: 1, new_len: 1, header: header.into(), lines };
    let hunks = vec![
        ("a.rs".to_string(), h("@@ 1", vec![line(DiffOrigin::Added, "x"), line(DiffOrigin::Removed, "y")])),
        ("a.rs".to_string(), h("@@ 2", vec![line(DiffOrigin::Context, "z")])),
        ("b.rs".to_string(), h("@@ 3", vec![])),
    ];
    let rows = diff_rows(&hunks);
    let shown: Vec<String> = rows
        .iter()
        .map(|r| match r {
            DiffRow::File(p) => format!("F {p}"),
            DiffRow::Header(t) => format!("H {t}"),
            DiffRow::Line(_, t) => format!("L {t}"),
            DiffRow::Gap => "G".to_string(),
        })
        .collect();
    assert_eq!(
        shown,
        vec!["F a.rs", "H @@ 1", "L + x", "L − y", "G", "H @@ 2", "L   z", "G", "F b.rs", "H @@ 3", "G"]
    );
    assert_eq!(line_text(&line(DiffOrigin::Context, "c")), "  c");
}

#[test]
fn push_dialog_shows_the_remotes_and_their_branches() {
    let repo = RepoView {
        path: "/r".into(),
        name: "r".into(),
        head: HeadState::Branch { name: "main".into() },
        branches: vec![],
        remotes: vec![
            Remote {
                name: "origin".into(),
                url: "u".into(),
                branches: vec![
                    RemoteBranch { name: "origin/main".into(), tip_oid: "a".into() },
                    RemoteBranch { name: "origin/dev".into(), tip_oid: "b".into() },
                ],
                last_fetched: None,
            },
            Remote { name: "fork".into(), url: "v".into(), branches: vec![], last_fetched: None },
        ],
        tags: vec![],
        stashes: vec![],
    };
    let mut s = PushModalState {
        remote: "origin".into(),
        branch: "main".into(),
        target_branch: "main".into(),
        force_with_lease: false,
        error: None,
        running: false,
    };
    let v = push_view(&s, &repo);
    assert_eq!((v.title.as_str(), v.subtitle.as_str()), ("Push", "Push the current branch"));
    assert_eq!(v.source, "main");
    assert_eq!(v.remotes, vec![("origin".to_string(), true), ("fork".to_string(), false)]);
    assert!(v.remotes_note.is_none());
    assert_eq!(v.targets, vec![("dev".to_string(), false), ("main".to_string(), true)]);
    assert!(v.targets_note.is_none());
    assert_eq!(v.status, "");
    s.remote = "fork".into();
    s.branch = String::new();
    s.running = true;
    let v = push_view(&s, &repo);
    assert_eq!(v.source, "(no current branch)");
    assert_eq!(v.targets_note.as_deref(), Some("(no existing branches on this remote)"));
    assert_eq!(v.status, "pushing…");
    s.error = Some("rejected".into());
    assert_eq!(push_view(&s, &repo).status, "rejected");
    let empty = RepoView { remotes: vec![], ..repo };
    assert_eq!(push_view(&s, &empty).remotes_note.as_deref(), Some("(no remotes configured)"));
}

#[test]
fn workbench_panes_say_what_is_empty() {
    let mut s = CommitModalState::open(Ok((vec![], vec![])));
    assert_eq!(section_header(true, 0), ("Staged", "0".to_string()));
    assert_eq!(section_header(false, 12), ("Unstaged", "12".to_string()));
    assert_eq!(file_list_note(&s, true), Some("nothing staged yet"));
    assert_eq!(file_list_note(&s, false), Some("clean — nothing to stage"));
    assert_eq!(diff_pane_note(&s), Some("Select a file to view its diff."));
    s.selected_path = Some("a".into());
    assert_eq!(diff_pane_note(&s), Some("No diff for this file."));
    s.hunks = vec![("a".into(), Hunk { header: "@@".into(), old_start: 1, old_len: 1, new_start: 1, new_len: 1, lines: vec![] })];
    assert_eq!(diff_pane_note(&s), None);
}
