use gitara::git::log::{
    build_commits, chips_for_commit, is_hex_oid, short_oid, split_message, walk_starts, RawCommit,
    RawSignature,
};
use gitara::model::commit::RefChip;
use gitara::model::repo::{Branch, HeadState, Remote, RemoteBranch, RepoView, Tag};

#[test]
fn blank_line_separator_keeps_body() {
    let (sub, body) = split_message(b"subject line\n\nbody l1\nbody l2\n");
    assert_eq!(sub, "subject line");
    assert_eq!(body.as_deref(), Some("body l1\nbody l2"));
}

#[test]
fn no_blank_line_still_extracts_body() {
    let (sub, body) = split_message(b"subject\nbody l1\nbody l2");
    assert_eq!(sub, "subject");
    assert_eq!(body.as_deref(), Some("body l1\nbody l2"));
}

#[test]
fn single_line_has_no_body() {
    let (sub, body) = split_message(b"only one line");
    assert_eq!(sub, "only one line");
    assert!(body.is_none());
}

#[test]
fn trailing_blank_lines_dropped() {
    let (_sub, body) = split_message(b"subj\n\nbody\n\n\n");
    assert_eq!(body.as_deref(), Some("body"));
}

#[test]
fn subject_and_body_read_back() {
    let (sub, body) = split_message(b"Fix the thing\n\nIt was broken.\nNow it is not.");
    assert_eq!(sub, "Fix the thing");
    assert_eq!(body.as_deref(), Some("It was broken.\nNow it is not."));
}

#[test]
fn body_of_only_newlines_is_none() {
    let (sub, body) = split_message(b"subj\n\n\n\n");
    assert_eq!(sub, "subj");
    assert!(body.is_none());
}

#[test]
fn invalid_utf8_is_replaced() {
    let (sub, body) = split_message(b"caf\xff");
    assert_eq!(sub, "caf\u{fffd}");
    assert!(body.is_none());
}

#[test]
fn short_oid_takes_seven_bytes() {
    assert_eq!(short_oid("0123456789abcdef"), "0123456");
    assert_eq!(short_oid("abc"), "abc");
}

#[test]
fn hex_oid_check() {
    assert!(is_hex_oid("0123456789abcdef0123456789abcdef01234567"));
    assert!(!is_hex_oid("refs/heads/main"));
    assert!(!is_hex_oid(""));
}

fn now() -> time::OffsetDateTime {
    time::OffsetDateTime::now_utc()
}

fn repo() -> RepoView {
    RepoView {
        path: "/r".to_string(),
        name: "r".to_string(),
        head: HeadState::Branch { name: "main".to_string() },
        branches: vec![
            Branch { name: "main".into(), current: true, upstream: None, ahead: 0, behind: 0, tip_oid: "aaaaaaa1".into() },
            Branch { name: "side".into(), current: false, upstream: None, ahead: 0, behind: 0, tip_oid: "bbbbbbb2".into() },
        ],
        remotes: vec![Remote {
            name: "origin".into(),
            url: "u".into(),
            branches: vec![RemoteBranch { name: "origin/main".into(), tip_oid: "aaaaaaa1".into() }],
            last_fetched: None,
        }],
        tags: vec![Tag { name: "v1".into(), oid: "aaaaaaa1".into(), annotated: false, date: now() }],
        stashes: vec![],
    }
}

#[test]
fn chips_come_in_rank_order() {
    let chips = chips_for_commit(&repo(), &Some("aaaaaaa1".to_string()), &"aaaaaaa1".to_string());
    let names: Vec<String> = chips
        .iter()
        .map(|c| match c {
            RefChip::Head => "HEAD".to_string(),
            RefChip::Branch { name, current } => format!("b:{name}:{current}"),
            RefChip::Remote { name } => format!("r:{name}"),
            RefChip::Tag { name, .. } => format!("t:{name}"),
        })
        .collect();
    assert_eq!(names, vec!["b:main:true", "HEAD", "r:origin/main", "t:v1"]);
    let none = chips_for_commit(&repo(), &None, &"ccccccc3".to_string());
    assert!(none.is_empty());
}

#[test]
fn walk_starts_follow_the_all_refs_switch() {
    let head = Some("aaaaaaa1".to_string());
    let only_head = walk_starts(&repo(), false, &head);
    assert_eq!(only_head, vec!["aaaaaaa1".to_string()]);
    let all = walk_starts(&repo(), true, &head);
    assert!(all.contains(&"aaaaaaa1".to_string()));
    assert!(!all.is_empty());
}

#[test]
fn commits_are_built_from_the_walk() {
    let raws = vec![RawCommit {
        oid: "aaaaaaa1ffff".into(),
        message: b"Subject\n\nBody".to_vec(),
        parents: vec!["bbbbbbb2".into()],
        author: Some(RawSignature { name: "Ann".into(), email: "ann@x".into(), seconds: Some(0) }),
        signed: true,
    }];
    let cs = build_commits(&raws, &repo(), &None, 200);
    assert_eq!(cs.len(), 1);
    let c = &cs[0];
    assert_eq!(c.short, "aaaaaaa");
    assert_eq!(c.subject, "Subject");
    assert_eq!(c.body.as_deref(), Some("Body"));
    assert_eq!(c.author.name, "Ann");
    assert_eq!(c.committer.email, "ann@x");
    assert_eq!(c.parents, vec!["bbbbbbb2".to_string()]);
    assert_eq!(c.date.unix_timestamp(), 0);
    assert!(c.signed);
    let anon = vec![RawCommit { oid: "c".into(), message: vec![], parents: vec![], author: None, signed: false }];
    let cs = build_commits(&anon, &repo(), &None, 200);
    assert_eq!(cs[0].author.name, "?");
    assert_eq!(cs[0].author.email, "?");
}

#[test]
fn history_stops_at_the_limit() {
    let raw = |oid: &str| RawCommit { oid: oid.into(), message: b"s".to_vec(), parents: vec![], author: None, signed: false };
    let raws = vec![raw("a"), raw("b"), raw("c")];
    let cs = build_commits(&raws, &repo(), &None, 2);
    assert_eq!(cs.iter().map(|c| c.oid.as_str()).collect::<Vec<_>>(), vec!["a", "b"]);
    assert!(build_commits(&raws, &repo(), &None, 0).is_empty());
    assert_eq!(build_commits(&raws, &repo(), &None, 10).len(), 3);
}
