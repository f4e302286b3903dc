use gitara::git::refs::{
    group_remotes, local_branches, parse_reflog_message, parse_stash_message, reflog_entries,
    repo_name, stash_entries, tag_entry, RawReflogEntry, RawStash,
};
use gitara::clock::{git_time_date, GitTime};
use gitara::model::reflog::ReflogAction;
use gitara::model::repo::RemoteBranch;

#[test]
fn stash_messages_split_branch_and_text() {
    assert_eq!(
        parse_stash_message("WIP on main: 0123abc subject"),
        ("main".to_string(), "0123abc subject".to_string())
    );
    assert_eq!(parse_stash_message("  On feat/x: note  "), ("feat/x".to_string(), "note".to_string()));
    assert_eq!(parse_stash_message("custom text"), (String::new(), "custom text".to_string()));
    assert_eq!(parse_stash_message("On main without colon"), (String::new(), "On main without colon".to_string()));
}

#[test]
fn reflog_verbs_map_to_actions() {
    let cases = [
        ("commit (amend): fix", ReflogAction::Amend, "fix"),
        ("commit: subject", ReflogAction::Commit, "subject"),
        ("commit (initial): first", ReflogAction::Commit, "first"),
        ("merge feat: Fast-forward", ReflogAction::Merge, "Fast-forward"),
        ("checkout: moving from a to b", ReflogAction::Checkout, "moving from a to b"),
        ("rebase (finish): returning", ReflogAction::Rebase, "returning"),
        ("reset: moving to HEAD~3", ReflogAction::Reset, "moving to HEAD~3"),
        ("pull origin main: Fast-forward", ReflogAction::Pull, "Fast-forward"),
        ("push: x", ReflogAction::Push, "x"),
        ("clone: from u", ReflogAction::Clone, "from u"),
        ("cherry-pick: s", ReflogAction::CherryPick, "s"),
        ("branch: Created from HEAD", ReflogAction::Other, "Created from HEAD"),
    ];
    for (raw, action, subject) in cases {
        let (a, s) = parse_reflog_message(raw);
        assert_eq!(a, action, "{raw}");
        assert_eq!(s, subject, "{raw}");
    }
}

#[test]
fn reflog_without_rest_keeps_the_whole_message() {
    assert_eq!(parse_reflog_message("  checkout:  "), (ReflogAction::Checkout, "checkout:".to_string()));
    assert_eq!(parse_reflog_message("weird"), (ReflogAction::Other, "weird".to_string()));
}

#[test]
fn reflog_entries_are_numbered_and_shortened() {
    let raws = vec![
        RawReflogEntry { new_oid: "0123456789abcdef".into(), message: "commit: one".into(), seconds: 10 },
        RawReflogEntry { new_oid: "fedcba9876543210".into(), message: "reset: moving to HEAD~1".into(), seconds: 20 },
    ];
    let es = reflog_entries(&raws);
    assert_eq!(es.len(), 2);
    assert_eq!(es[0].idx, 0);
    assert_eq!(es[1].idx, 1);
    assert_eq!(es[0].short, "0123456");
    assert_eq!(es[1].oid, "fedcba9876543210");
    assert_eq!(es[1].action, ReflogAction::Reset);
    assert_eq!(es[1].subject, "moving to HEAD~1");
    assert_eq!(es[0].date.unix_timestamp(), 10);
}

#[test]
fn stash_entries_keep_index_and_branch() {
    let raws = vec![RawStash { idx: 0, message: "WIP on main: abc msg".into() }, RawStash { idx: 1, message: "plain".into() }];
    let ss = stash_entries(&raws);
    assert_eq!(ss.len(), 2);
    assert_eq!(ss[0].idx, 0);
    assert_eq!(ss[0].on_branch, "main");
    assert_eq!(ss[0].message, "abc msg");
    assert_eq!(ss[1].idx, 1);
    assert_eq!(ss[1].on_branch, "");
    assert_eq!(ss[1].message, "plain");
}

#[test]
fn local_branch_named_like_head_is_current() {
    let raw = vec![("main".to_string(), "a1".to_string()), ("dev".to_string(), "b2".to_string())];
    let bs = local_branches(&raw, &"dev".to_string());
    assert_eq!(bs.len(), 2);
    assert!(!bs[0].current);
    assert!(bs[1].current);
    assert_eq!(bs[1].tip_oid, "b2");
    assert!(bs[0].upstream.is_none());
}

#[test]
fn remote_branches_are_grouped_by_remote() {
    let names = vec!["origin".to_string(), "up".to_string(), "origin".to_string()];
    let urls = vec!["u1".to_string(), "u2".to_string(), "u3".to_string()];
    let branches = vec![
        RemoteBranch { name: "origin/main".into(), tip_oid: "1".into() },
        RemoteBranch { name: "up/main".into(), tip_oid: "2".into() },
        RemoteBranch { name: "origin/dev".into(), tip_oid: "3".into() },
        RemoteBranch { name: "noslash".into(), tip_oid: "4".into() },
    ];
    let rs = group_remotes(&names, &urls, &branches);
    assert_eq!(rs.len(), 3);
    assert_eq!(rs[0].name, "origin");
    assert_eq!(rs[0].url, "u1");
    let n0: Vec<&str> = rs[0].branches.iter().map(|b| b.name.as_str()).collect();
    assert_eq!(n0, vec!["origin/main", "origin/dev"]);
    assert_eq!(rs[1].branches.len(), 1);
    assert!(rs[2].branches.is_empty());
    assert!(rs[0].last_fetched.is_none());
}

fn at(seconds: i64, offset_minutes: i32) -> GitTime {
    GitTime { seconds, offset_minutes }
}

#[test]
fn lightweight_tag_is_not_annotated_and_has_commit_date() {
    let t = tag_entry("v1.0", "abc", "abc", Some(at(2000, 0)), at(1000, 0)).unwrap();
    assert!(!t.annotated, "lightweight tag should not be annotated");
    assert_eq!(t.date, time::OffsetDateTime::from_unix_timestamp(1000).unwrap());
    assert_eq!(t.name, "v1.0");
    assert_eq!(t.oid, "abc");
}

#[test]
fn annotated_tag_is_marked_annotated_and_has_tagger_date() {
    let t = tag_entry("v2.0", "abc", "tagobj", Some(at(2000, 0)), at(1000, 0)).unwrap();
    assert!(t.annotated, "annotated tag should be marked annotated");
    assert_eq!(t.date, time::OffsetDateTime::from_unix_timestamp(2000).unwrap());
    let untagged = tag_entry("v2.0", "abc", "tagobj", None, at(1000, 0)).unwrap();
    assert!(untagged.annotated);
    assert_eq!(untagged.date, time::OffsetDateTime::from_unix_timestamp(1000).unwrap());
}

#[test]
fn tag_dates_keep_their_offset() {
    let t = tag_entry("v3", "abc", "abc", None, at(0, 90)).unwrap();
    assert_eq!(t.date.unix_timestamp(), 0);
    assert_eq!(t.date.offset().whole_minutes(), 90);
    assert_eq!((t.date.hour(), t.date.minute()), (1, 30));
    // An offset beyond ±25:59:59 falls back to UTC.
    let t = tag_entry("v4", "abc", "abc", None, at(0, 2000)).unwrap();
    assert_eq!(t.date.offset().whole_seconds(), 0);
    // The last second of the calendar seen one hour east leaves it.
    assert!(tag_entry("v5", "abc", "abc", None, at(253_402_300_799, 60)).is_none());
    assert!(git_time_date(at(253_402_300_799, 0)).is_some());
}

#[test]
fn reflog_returns_entries_for_seeded_repo() {
    let raws: Vec<RawReflogEntry> = ["commit: c", "commit: b", "commit (initial): a"]
        .iter()
        .enumerate()
        .map(|(i, m)| RawReflogEntry { new_oid: format!("{i}234567890"), message: m.to_string(), seconds: 100 })
        .collect();
    let entries = reflog_entries(&raws);
    assert!(entries.len() >= 3, "expected at least 3 reflog entries, got {}", entries.len());
    assert!(matches!(entries[0].action, ReflogAction::Commit | ReflogAction::Other));
}

#[test]
fn stashes_loaded_from_stash_list() {
    let raws = vec![RawStash { idx: 0, message: "On main: test stash entry".into() }];
    let stashes = stash_entries(&raws);
    assert_eq!(stashes.len(), 1);
    assert_eq!(stashes[0].idx, 0);
    assert!(stashes[0].message.contains("test stash entry"));
}

#[test]
fn a_repository_is_named_by_its_working_directory() {
    assert_eq!(repo_name(Some("/home/u/src/ordo"), "/home/u/src/ordo"), "ordo");
    assert_eq!(repo_name(Some("/home/u/src/ordo/"), "/home/u/src/ordo/"), "ordo");
    assert_eq!(repo_name(None, "/srv/bare.git"), "/srv/bare.git");
    assert_eq!(repo_name(Some("/"), "/"), "/");
}
