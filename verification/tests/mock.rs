use gitara::model::commit::RefChip;
use gitara::app::is_demo_repo;
use gitara::graph_layout::compute;
use gitara::mock::seed;
use gitara::model::repo::HeadState;

#[test]
fn demo_data_is_a_demo_repo() {
    let (repo, commits, reflog) = seed();
    assert!(is_demo_repo(&repo.path));
    assert_eq!(repo.name, "ordo (demo)");
    assert!(matches!(repo.head, HeadState::Branch { ref name } if name == "main"));
    assert_eq!((repo.branches.len(), repo.remotes.len(), repo.tags.len(), repo.stashes.len()), (5, 2, 4, 3));
    assert_eq!(commits.len(), 20);
    assert_eq!(reflog.len(), 15);
}

#[test]
fn demo_oids_are_padded_shorts() {
    let (_, commits, reflog) = seed();
    for c in &commits {
        assert_eq!(c.oid, format!("{}00000", c.short));
        assert!(c.body.is_none());
        assert!(!c.signed);
        assert_eq!(c.author.name, c.committer.name);
    }
    for (i, e) in reflog.iter().enumerate() {
        assert_eq!(e.idx as usize, i);
        assert_eq!(e.oid, format!("{}00000", e.short));
    }
    assert_eq!(commits[2].parents, vec!["c3e1a2200000".to_string(), "9f8d4e600000".to_string()]);
    assert!(commits[19].parents.is_empty());
}

#[test]
fn demo_history_is_topological() {
    let (_, commits, _) = seed();
    for (i, c) in commits.iter().enumerate() {
        for p in &c.parents {
            let j = commits.iter().position(|x| &x.oid == p).expect("parent present");
            assert!(j > i);
        }
    }
    let rows = compute(&commits);
    assert_eq!(rows.len(), commits.len());
    assert!(rows[2].is_merge);
}

#[test]
fn demo_commits_carry_their_subjects_parents_and_refs() {
    let (repo, commits, reflog) = seed();
    assert_eq!(commits[0].subject, "Graph: soften lane colors in light theme");
    assert_eq!(commits[0].author.email, "ana@ordo.dev");
    assert!(matches!(&commits[0].refs[..], [RefChip::Branch { name, current: true }, RefChip::Head, RefChip::Remote { name: r }] if name == "main" && r == "origin/main"));
    assert_eq!(commits[7].parents, vec!["11fa04d00000".to_string(), "b6c5e2900000".to_string()]);
    assert!(matches!(&commits[15].refs[..], [RefChip::Tag { name, annotated: true }] if name == "v2.3.2"));
    assert_eq!(commits[15].author.name, "release-bot");
    assert_eq!(reflog[14].subject, "clone: from git@github.com:ordo/ordo.git");
    assert_eq!(repo.branches[2].behind, 12);
    assert_eq!(repo.remotes[0].branches[1].tip_oid, "f4a2c10");
    assert_eq!(repo.stashes[1].message, "experimenting with flat toolbar");
    assert_eq!(repo.tags[3].name, "v2.3.0");
}
