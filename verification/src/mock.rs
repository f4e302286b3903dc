//! Sample data for demo mode: a small repository with branches, remotes,
//! tags, stashes, a merge-rich history and its reflog. Its path is the
//! demo path, so write operations refuse.
use vstd::prelude::*;
use time::OffsetDateTime;

use crate::clock::now_utc;
use crate::app::{demo_root, is_child_of};
use crate::model::commit::{chips_view, Author, ChipView, Commit, RefChip};
use crate::model::reflog::{ReflogAction, ReflogEntry};
use crate::model::repo::{Branch, HeadState, Remote, RemoteBranch, RepoView, Stash, Tag};
use crate::text::{owned, strings_view};

verus! {

/// Sample oids are seven hex digits padded to full length with zeros.
pub open spec fn padded(short: Seq<char>) -> Seq<char> {
    short + "00000"@
}

fn pad(short: &str) -> (r: String)
    ensures
        r@ == padded(short@),
{
    let mut s = owned(short);
    s.append("00000");
    s
}

fn copy_author(a: &Author) -> (r: Author)
    ensures
        r.name@ == a.name@,
        r.email@ == a.email@,
{
    Author { name: a.name.clone(), email: a.email.clone() }
}

fn author(name: &str, email: &str) -> (r: Author)
    ensures
        r.name@ == name@,
        r.email@ == email@,
{
    Author { name: owned(name), email: owned(email) }
}

pub open spec fn padded_all(ps: Seq<&str>) -> Seq<Seq<char>> {
    ps.map_values(|p: &str| padded(p@))
}

/// A sample commit: `short` padded to its oid, its parents as given,
/// authored and committed by `name <email>`, with no body and no signature.
pub open spec fn sample_commit(c: Commit, short: Seq<char>, parents: Seq<Seq<char>>, name: Seq<char>, email: Seq<char>, subject: Seq<char>, date: OffsetDateTime) -> bool {
    &&& c.oid@ == padded(short)
    &&& c.short@ == short
    &&& c.subject@ == subject
    &&& c.body is None
    &&& c.author.name@ == name && c.author.email@ == email
    &&& c.committer.name@ == name && c.committer.email@ == email
    &&& c.date == date
    &&& strings_view(c.parents@) == parents
    &&& !c.signed
}

fn cmt(oid: &str, parents: &[&str], a: &Author, subject: &str, refs: Vec<RefChip>, date: OffsetDateTime) -> (c: Commit)
    ensures
        sample_commit(c, oid@, padded_all(parents@), a.name@, a.email@, subject@, date),
        c.refs == refs,
{
    let mut ps: Vec<String> = Vec::new();
    let mut i: usize = 0;
    while i < parents.len()
        invariant
            i <= parents@.len(),
            strings_view(ps@) == padded_all(parents@.take(i as int)),
        decreases parents@.len() - i,
    {
        let ghost before = ps@;
        ps.push(pad(parents[i]));
        proof {
            crate::text::lemma_strings_view_push(before, ps@.last());
            assert(padded_all(parents@.take(i + 1)) =~= padded_all(parents@.take(i as int)).push(padded(parents@[i as int]@)));
        }
        i = i + 1;
    }
    proof {
        assert(parents@.take(parents@.len() as int) =~= parents@);
    }
    Commit {
        oid: pad(oid),
        short: owned(oid),
        subject: owned(subject),
        body: None,
        author: copy_author(a),
        committer: copy_author(a),
        date,
        parents: ps,
        refs,
        signed: false,
    }
}

/// A sample reflog entry, its oid padded like the commits'.
pub open spec fn sample_entry(e: ReflogEntry, idx: u32, short: Seq<char>, action: ReflogAction, subject: Seq<char>, date: OffsetDateTime) -> bool {
    &&& e.idx == idx
    &&& e.oid@ == padded(short)
    &&& e.short@ == short
    &&& e.action == action
    &&& e.subject@ == subject
    &&& e.date == date
}

fn reflog_entry(idx: u32, oid: &str, action: ReflogAction, subject: &str, date: OffsetDateTime) -> (e: ReflogEntry)
    ensures
        sample_entry(e, idx, oid@, action, subject@, date),
{
    ReflogEntry { idx, oid: pad(oid), short: owned(oid), action, subject: owned(subject), date }
}

fn branch(name: &str, current: bool, upstream: &str, ahead: u32, behind: u32, tip: &str) -> (b: Branch)
    ensures
        b.name@ == name@,
        b.current == current,
        b.upstream matches Some(u) && u@ == upstream@,
        b.ahead == ahead,
        b.behind == behind,
        b.tip_oid@ == tip@,
{
    Branch { name: owned(name), current, upstream: Some(owned(upstream)), ahead, behind, tip_oid: owned(tip) }
}

fn remote_branch(name: &str, tip: &str) -> (b: RemoteBranch)
    ensures
        b.name@ == name@,
        b.tip_oid@ == tip@,
{
    RemoteBranch { name: owned(name), tip_oid: owned(tip) }
}

fn tag(name: &str, oid: &str, date: OffsetDateTime) -> (t: Tag)
    ensures
        t.name@ == name@,
        t.oid@ == oid@,
        t.annotated,
        t.date == date,
{
    Tag { name: owned(name), oid: owned(oid), annotated: true, date }
}

fn stash(idx: u32, message: &str, on_branch: &str, date: OffsetDateTime) -> (s: Stash)
    ensures
        s.idx == idx,
        s.message@ == message@,
        s.on_branch@ == on_branch@,
        s.date == date,
{
    Stash { idx, message: owned(message), date, on_branch: owned(on_branch) }
}

/// A commit of the demo history in plain values: its short oid, its
/// parents' short oids, its author, subject and ref chips.
pub struct DemoCommit {
    pub short: Seq<char>,
    pub parents: Seq<Seq<char>>,
    pub author: Seq<char>,
    pub email: Seq<char>,
    pub subject: Seq<char>,
    pub refs: Seq<ChipView>,
}

/// The demo history, newest first.
pub open spec fn demo_history() -> Seq<DemoCommit> {
    seq![
        DemoCommit {
            short: "a1f3b2c"@,
            parents: seq!["7d2e9a1"@],
            author: "Ana Petrova"@,
            email: "ana@ordo.dev"@,
            subject: "Graph: soften lane colors in light theme"@,
            refs: seq![ChipView::Branch("main"@, true), ChipView::Head, ChipView::Remote("origin/main"@)],
        },
        DemoCommit {
            short: "7d2e9a1"@,
            parents: seq!["2b4c8f0"@],
            author: "Ana Petrova"@,
            email: "ana@ordo.dev"@,
            subject: "Inspector: lazy-load diff hunks over 500 lines"@,
            refs: seq![],
        },
        DemoCommit {
            short: "2b4c8f0"@,
            parents: seq!["c3e1a22"@, "9f8d4e6"@],
            author: "Miro Tanaka"@,
            email: "miro@ordo.dev"@,
            subject: "Merge branch 'feat/commit-graph' into main"@,
            refs: seq![],
        },
        DemoCommit {
            short: "9f8d4e6"@,
            parents: seq!["5a7b1c2"@],
            author: "Ana Petrova"@,
            email: "ana@ordo.dev"@,
            subject: "Add orthogonal routing for merge edges"@,
            refs: seq![ChipView::Branch("feat/commit-graph"@, false)],
        },
        DemoCommit {
            short: "c3e1a22"@,
            parents: seq!["e8d2f90"@],
            author: "Miro Tanaka"@,
            email: "miro@ordo.dev"@,
            subject: "Docs: describe packfile walker heuristic"@,
            refs: seq![],
        },
        DemoCommit {
            short: "5a7b1c2"@,
            parents: seq!["e8d2f90"@],
            author: "Ana Petrova"@,
            email: "ana@ordo.dev"@,
            subject: "Graph: cache lane assignments per viewport"@,
            refs: seq![],
        },
        DemoCommit {
            short: "e8d2f90"@,
            parents: seq!["8c9a6b3"@],
            author: "Yuki Hoffmann"@,
            email: "yuki@ordo.dev"@,
            subject: "Keybinding map rewritten around intents, not keys"@,
            refs: seq![ChipView::Tag("v2.4.0-rc1"@, true)],
        },
        DemoCommit {
            short: "8c9a6b3"@,
            parents: seq!["11fa04d"@, "b6c5e29"@],
            author: "Miro Tanaka"@,
            email: "miro@ordo.dev"@,
            subject: "Merge branch 'fix/diff-whitespace'"@,
            refs: seq![],
        },
        DemoCommit {
            short: "b6c5e29"@,
            parents: seq!["3d0a7c1"@],
            author: "Yuki Hoffmann"@,
            email: "yuki@ordo.dev"@,
            subject: "Diff: ignore trailing whitespace behind a setting"@,
            refs: seq![ChipView::Branch("fix/diff-whitespace"@, false), ChipView::Remote("origin/fix/diff-whitespace"@)],
        },
        DemoCommit {
            short: "11fa04d"@,
            parents: seq!["ff1b9e0"@],
            author: "Ana Petrova"@,
            email: "ana@ordo.dev"@,
            subject: "Status bar: surface detached HEAD state"@,
            refs: seq![],
        },
        DemoCommit {
            short: "3d0a7c1"@,
            parents: seq!["ff1b9e0"@],
            author: "Yuki Hoffmann"@,
            email: "yuki@ordo.dev"@,
            subject: "Normalize line endings in test fixtures"@,
            refs: seq![],
        },
        DemoCommit {
            short: "ff1b9e0"@,
            parents: seq!["6a3f20d"@],
            author: "Miro Tanaka"@,
            email: "miro@ordo.dev"@,
            subject: "Refactor: split Repository::open into open/discover"@,
            refs: seq![],
        },
        DemoCommit {
            short: "6a3f20d"@,
            parents: seq!["4e2c88a"@],
            author: "Ana Petrova"@,
            email: "ana@ordo.dev"@,
            subject: "Remotes: show last fetched time as relative"@,
            refs: seq![],
        },
        DemoCommit {
            short: "4e2c88a"@,
            parents: seq!["d9b4710"@],
            author: "Yuki Hoffmann"@,
            email: "yuki@ordo.dev"@,
            subject: "Fix crash when opening empty repository"@,
            refs: seq![],
        },
        DemoCommit {
            short: "d9b4710"@,
            parents: seq!["7e9d0a1"@],
            author: "Miro Tanaka"@,
            email: "miro@ordo.dev"@,
            subject: "Bump libgit2 to 1.8.1"@,
            refs: seq![],
        },
        DemoCommit {
            short: "7e9d0a1"@,
            parents: seq!["c4b8f20"@],
            author: "release-bot"@,
            email: "bot@ordo.dev"@,
            subject: "Release 2.3.2"@,
            refs: seq![ChipView::Tag("v2.3.2"@, true)],
        },
        DemoCommit {
            short: "c4b8f20"@,
            parents: seq!["91ae44d"@],
            author: "Ana Petrova"@,
            email: "ana@ordo.dev"@,
            subject: "Diff: word-wrap toggle (off by default)"@,
            refs: seq![ChipView::Tag("v2.3.1"@, true)],
        },
        DemoCommit {
            short: "91ae44d"@,
            parents: seq!["a02bb15"@],
            author: "Miro Tanaka"@,
            email: "miro@ordo.dev"@,
            subject: "Release 2.3.0"@,
            refs: seq![ChipView::Tag("v2.3.0"@, true)],
        },
        DemoCommit {
            short: "a02bb15"@,
            parents: seq!["5fe911c"@],
            author: "Yuki Hoffmann"@,
            email: "yuki@ordo.dev"@,
            subject: "Stashes panel: inline rename"@,
            refs: seq![],
        },
        DemoCommit {
            short: "5fe911c"@,
            parents: seq![],
            author: "Ana Petrova"@,
            email: "ana@ordo.dev"@,
            subject: "Build: reproducible release artifacts"@,
            refs: seq![],
        },
    ]
}

/// `c` is the demo commit `d` at `date`: oids padded, authored and committed
/// by the same person, no body, unsigned.
pub open spec fn is_demo_commit(c: Commit, d: DemoCommit, date: OffsetDateTime) -> bool {
    &&& sample_commit(c, d.short, d.parents.map_values(|p: Seq<char>| padded(p)), d.author, d.email, d.subject, date)
    &&& chips_view(c.refs@) == d.refs
}

/// A reflog entry of the demo repository in plain values.
pub struct DemoEntry {
    pub short: Seq<char>,
    pub action: ReflogAction,
    pub subject: Seq<char>,
}

/// The demo reflog, newest first.
pub open spec fn demo_reflog() -> Seq<DemoEntry> {
    seq![
        DemoEntry { short: "a1f3b2c"@, action: ReflogAction::Commit, subject: "Graph: soften lane colors in light theme"@ },
        DemoEntry { short: "7d2e9a1"@, action: ReflogAction::Commit, subject: "Inspector: lazy-load diff hunks over 500 lines"@ },
        DemoEntry { short: "2b4c8f0"@, action: ReflogAction::Merge, subject: "Merge branch 'feat/commit-graph' into main"@ },
        DemoEntry { short: "c3e1a22"@, action: ReflogAction::Checkout, subject: "moving from feat/commit-graph to main"@ },
        DemoEntry { short: "9f8d4e6"@, action: ReflogAction::Commit, subject: "Add orthogonal routing for merge edges"@ },
        DemoEntry { short: "5a7b1c2"@, action: ReflogAction::Rebase, subject: "rebase (finish): returning to refs/heads/feat/commit-graph"@ },
        DemoEntry { short: "5a7b1c2"@, action: ReflogAction::Rebase, subject: "rebase (pick): Graph: cache lane assignments per viewport"@ },
        DemoEntry { short: "e8d2f90"@, action: ReflogAction::Reset, subject: "reset: moving to HEAD~3"@ },
        DemoEntry { short: "e8d2f90"@, action: ReflogAction::Pull, subject: "pull origin main: Fast-forward"@ },
        DemoEntry { short: "8c9a6b3"@, action: ReflogAction::Commit, subject: "Merge branch 'fix/diff-whitespace'"@ },
        DemoEntry { short: "b6c5e29"@, action: ReflogAction::Checkout, subject: "moving from main to fix/diff-whitespace"@ },
        DemoEntry { short: "11fa04d"@, action: ReflogAction::CherryPick, subject: "cherry-pick: Status bar: surface detached HEAD state"@ },
        DemoEntry { short: "ff1b9e0"@, action: ReflogAction::Amend, subject: "Refactor: split Repository::open into open/discover"@ },
        DemoEntry { short: "6a3f20d"@, action: ReflogAction::Commit, subject: "Remotes: show last fetched time as relative"@ },
        DemoEntry { short: "5fe911c"@, action: ReflogAction::Clone, subject: "clone: from git@github.com:ordo/ordo.git"@ },
    ]
}
/// The demo history at `now`.
fn history(now: OffsetDateTime) -> (v: Vec<Commit>)
    ensures
        v@.len() == demo_history().len(),
        forall|i: int| 0 <= i < v@.len() ==> is_demo_commit(#[trigger] v@[i], demo_history()[i], now),
{
    let ana = author("Ana Petrova", "ana@ordo.dev");
    let miro = author("Miro Tanaka", "miro@ordo.dev");
    let yuki = author("Yuki Hoffmann", "yuki@ordo.dev");
    let bot = author("release-bot", "bot@ordo.dev");
    let c0 = cmt("a1f3b2c", &["7d2e9a1"], &ana, "Graph: soften lane colors in light theme", vec![RefChip::Branch { name: owned("main"), current: true }, RefChip::Head, RefChip::Remote { name: owned("origin/main") }], now);
    proof {
        assert(strings_view(c0.parents@) =~= demo_history()[0].parents.map_values(|p: Seq<char>| padded(p)));
        assert(chips_view(c0.refs@) =~= demo_history()[0].refs);
        assert(is_demo_commit(c0, demo_history()[0], now));
    }
    let c1 = cmt("7d2e9a1", &["2b4c8f0"], &ana, "Inspector: lazy-load diff hunks over 500 lines", Vec::new(), now);
    proof {
        assert(strings_view(c1.parents@) =~= demo_history()[1].parents.map_values(|p: Seq<char>| padded(p)));
        assert(chips_view(c1.refs@) =~= demo_history()[1].refs);
        assert(is_demo_commit(c1, demo_history()[1], now));
    }
    let c2 = cmt("2b4c8f0", &["c3e1a22", "9f8d4e6"], &miro, "Merge branch 'feat/commit-graph' into main", Vec::new(), now);
    proof {
        assert(strings_view(c2.parents@) =~= demo_history()[2].parents.map_values(|p: Seq<char>| padded(p)));
        assert(chips_view(c2.refs@) =~= demo_history()[2].refs);
        assert(is_demo_commit(c2, demo_history()[2], now));
    }
    let c3 = cmt("9f8d4e6", &["5a7b1c2"], &ana, "Add orthogonal routing for merge edges", vec![RefChip::Branch { name: owned("feat/commit-graph"), current: false }], now);
    proof {
        assert(strings_view(c3.parents@) =~= demo_history()[3].parents.map_values(|p: Seq<char>| padded(p)));
        assert(chips_view(c3.refs@) =~= demo_history()[3].refs);
        assert(is_demo_commit(c3, demo_history()[3], now));
    }
    let c4 = cmt("c3e1a22", &["e8d2f90"], &miro, "Docs: describe packfile walker heuristic", Vec::new(), now);
    proof {
        assert(strings_view(c4.parents@) =~= demo_history()[4].parents.map_values(|p: Seq<char>| padded(p)));
        assert(chips_view(c4.refs@) =~= demo_history()[4].refs);
        assert(is_demo_commit(c4, demo_history()[4], now));
    }
    let c5 = cmt("5a7b1c2", &["e8d2f90"], &ana, "Graph: cache lane assignments per viewport", Vec::new(), now);
    proof {
        assert(strings_view(c5.parents@) =~= demo_history()[5].parents.map_values(|p: Seq<char>| padded(p)));
        assert(chips_view(c5.refs@) =~= demo_history()[5].refs);
        assert(is_demo_commit(c5, demo_history()[5], now));
    }
    let c6 = cmt("e8d2f90", &["8c9a6b3"], &yuki, "Keybinding map rewritten around intents, not keys", vec![RefChip::Tag { name: owned("v2.4.0-rc1"), annotated: true }], now);
    proof {
        assert(strings_view(c6.parents@) =~= demo_history()[6].parents.map_values(|p: Seq<char>| padded(p)));
        assert(chips_view(c6.refs@) =~= demo_history()[6].refs);
        assert(is_demo_commit(c6, demo_history()[6], now));
    }
    let c7 = cmt("8c9a6b3", &["11fa04d", "b6c5e29"], &miro, "Merge branch 'fix/diff-whitespace'", Vec::new(), now);
    proof {
        assert(strings_view(c7.parents@) =~= demo_history()[7].parents.map_values(|p: Seq<char>| padded(p)));
        assert(chips_view(c7.refs@) =~= demo_history()[7].refs);
        assert(is_demo_commit(c7, demo_history()[7], now));
    }
    let c8 = cmt("b6c5e29", &["3d0a7c1"], &yuki, "Diff: ignore trailing whitespace behind a setting", vec![RefChip::Branch { name: owned("fix/diff-whitespace"), current: false }, RefChip::Remote { name: owned("origin/fix/diff-whitespace") }], now);
    proof {
        assert(strings_view(c8.parents@) =~= demo_history()[8].parents.map_values(|p: Seq<char>| padded(p)));
        assert(chips_view(c8.refs@) =~= demo_history()[8].refs);
        assert(is_demo_commit(c8, demo_history()[8], now));
    }
    let c9 = cmt("11fa04d", &["ff1b9e0"], &ana, "Status bar: surface detached HEAD state", Vec::new(), now);
    proof {
        assert(strings_view(c9.parents@) =~= demo_history()[9].parents.map_values(|p: Seq<char>| padded(p)));
        assert(chips_view(c9.refs@) =~= demo_history()[9].refs);
        assert(is_demo_commit(c9, demo_history()[9], now));
    }
    let c10 = cmt("3d0a7c1", &["ff1b9e0"], &yuki, "Normalize line endings in test fixtures", Vec::new(), now);
    proof {
        assert(strings_view(c10.parents@) =~= demo_history()[10].parents.map_values(|p: Seq<char>| padded(p)));
        assert(chips_view(c10.refs@) =~= demo_history()[10].refs);
        assert(is_demo_commit(c10, demo_history()[10], now));
    }
    let c11 = cmt("ff1b9e0", &["6a3f20d"], &miro, "Refactor: split Repository::open into open/discover", Vec::new(), now);
    proof {
        assert(strings_view(c11.parents@) =~= demo_history()[11].parents.map_values(|p: Seq<char>| padded(p)));
        assert(chips_view(c11.refs@) =~= demo_history()[11].refs);
        assert(is_demo_commit(c11, demo_history()[11], now));
    }
    let c12 = cmt("6a3f20d", &["4e2c88a"], &ana, "Remotes: show last fetched time as relative", Vec::new(), now);
    proof {
        assert(strings_view(c12.parents@) =~= demo_history()[12].parents.map_values(|p: Seq<char>| padded(p)));
        assert(chips_view(c12.refs@) =~= demo_history()[12].refs);
        assert(is_demo_commit(c12, demo_history()[12], now));
    }
    let c13 = cmt("4e2c88a", &["d9b4710"], &yuki, "Fix crash when opening empty repository", Vec::new(), now);
    proof {
        assert(strings_view(c13.parents@) =~= demo_history()[13].parents.map_values(|p: Seq<char>| padded(p)));
        assert(chips_view(c13.refs@) =~= demo_history()[13].refs);
        assert(is_demo_commit(c13, demo_history()[13], now));
    }
    let c14 = cmt("d9b4710", &["7e9d0a1"], &miro, "Bump libgit2 to 1.8.1", Vec::new(), now);
    proof {
        assert(strings_view(c14.parents@) =~= demo_history()[14].parents.map_values(|p: Seq<char>| padded(p)));
        assert(chips_view(c14.refs@) =~= demo_history()[14].refs);
        assert(is_demo_commit(c14, demo_history()[14], now));
    }
    let c15 = cmt("7e9d0a1", &["c4b8f20"], &bot, "Release 2.3.2", vec![RefChip::Tag { name: owned("v2.3.2"), annotated: true }], now);
    proof {
        assert(strings_view(c15.parents@) =~= demo_history()[15].parents.map_values(|p: Seq<char>| padded(p)));
        assert(chips_view(c15.refs@) =~= demo_history()[15].refs);
        assert(is_demo_commit(c15, demo_history()[15], now));
    }
    let c16 = cmt("c4b8f20", &["91ae44d"], &ana, "Diff: word-wrap toggle (off by default)", vec![RefChip::Tag { name: owned("v2.3.1"), annotated: true }], now);
    proof {
        assert(strings_view(c16.parents@) =~= demo_history()[16].parents.map_values(|p: Seq<char>| padded(p)));
        assert(chips_view(c16.refs@) =~= demo_history()[16].refs);
        assert(is_demo_commit(c16, demo_history()[16], now));
    }
    let c17 = cmt("91ae44d", &["a02bb15"], &miro, "Release 2.3.0", vec![RefChip::Tag { name: owned("v2.3.0"), annotated: true }], now);
    proof {
        assert(strings_view(c17.parents@) =~= demo_history()[17].parents.map_values(|p: Seq<char>| padded(p)));
        assert(chips_view(c17.refs@) =~= demo_history()[17].refs);
        assert(is_demo_commit(c17, demo_history()[17], now));
    }
    let c18 = cmt("a02bb15", &["5fe911c"], &yuki, "Stashes panel: inline rename", Vec::new(), now);
    proof {
        assert(strings_view(c18.parents@) =~= demo_history()[18].parents.map_values(|p: Seq<char>| padded(p)));
        assert(chips_view(c18.refs@) =~= demo_history()[18].refs);
        assert(is_demo_commit(c18, demo_history()[18], now));
    }
    let c19 = cmt("5fe911c", &[], &ana, "Build: reproducible release artifacts", Vec::new(), now);
    proof {
        assert(strings_view(c19.parents@) =~= demo_history()[19].parents.map_values(|p: Seq<char>| padded(p)));
        assert(chips_view(c19.refs@) =~= demo_history()[19].refs);
        assert(is_demo_commit(c19, demo_history()[19], now));
    }
    let v = vec![c0, c1, c2, c3, c4, c5, c6, c7, c8, c9, c10, c11, c12, c13, c14, c15, c16, c17, c18, c19];
    assert forall|i: int| 0 <= i < v@.len() implies is_demo_commit(#[trigger] v@[i], demo_history()[i], now) by {
        if i == 0 {
            assert(v@[i] == c0);
        } else if i == 1 {
            assert(v@[i] == c1);
        } else if i == 2 {
            assert(v@[i] == c2);
        } else if i == 3 {
            assert(v@[i] == c3);
        } else if i == 4 {
            assert(v@[i] == c4);
        } else if i == 5 {
            assert(v@[i] == c5);
        } else if i == 6 {
            assert(v@[i] == c6);
        } else if i == 7 {
            assert(v@[i] == c7);
        } else if i == 8 {
            assert(v@[i] == c8);
        } else if i == 9 {
            assert(v@[i] == c9);
        } else if i == 10 {
            assert(v@[i] == c10);
        } else if i == 11 {
            assert(v@[i] == c11);
        } else if i == 12 {
            assert(v@[i] == c12);
        } else if i == 13 {
            assert(v@[i] == c13);
        } else if i == 14 {
            assert(v@[i] == c14);
        } else if i == 15 {
            assert(v@[i] == c15);
        } else if i == 16 {
            assert(v@[i] == c16);
        } else if i == 17 {
            assert(v@[i] == c17);
        } else if i == 18 {
            assert(v@[i] == c18);
        } else if i == 19 {
            assert(v@[i] == c19);
        }
    }
    v
}

/// The entry at index `i` of the demo reflog, at `date`.
pub open spec fn is_demo_entry(e: ReflogEntry, i: int, d: DemoEntry, date: OffsetDateTime) -> bool {
    sample_entry(e, i as u32, d.short, d.action, d.subject, date)
}

/// The demo reflog at `now`.
fn reflog(now: OffsetDateTime) -> (v: Vec<ReflogEntry>)
    ensures
        v@.len() == demo_reflog().len(),
        forall|i: int| 0 <= i < v@.len() ==> is_demo_entry(#[trigger] v@[i], i, demo_reflog()[i], now),
{
    let e0 = reflog_entry(0, "a1f3b2c", ReflogAction::Commit, "Graph: soften lane colors in light theme", now);
    let e1 = reflog_entry(1, "7d2e9a1", ReflogAction::Commit, "Inspector: lazy-load diff hunks over 500 lines", now);
    let e2 = reflog_entry(2, "2b4c8f0", ReflogAction::Merge, "Merge branch 'feat/commit-graph' into main", now);
    let e3 = reflog_entry(3, "c3e1a22", ReflogAction::Checkout, "moving from feat/commit-graph to main", now);
    let e4 = reflog_entry(4, "9f8d4e6", ReflogAction::Commit, "Add orthogonal routing for merge edges", now);
    let e5 = reflog_entry(5, "5a7b1c2", ReflogAction::Rebase, "rebase (finish): returning to refs/heads/feat/commit-graph", now);
    let e6 = reflog_entry(6, "5a7b1c2", ReflogAction::Rebase, "rebase (pick): Graph: cache lane assignments per viewport", now);
    let e7 = reflog_entry(7, "e8d2f90", ReflogAction::Reset, "reset: moving to HEAD~3", now);
    let e8 = reflog_entry(8, "e8d2f90", ReflogAction::Pull, "pull origin main: Fast-forward", now);
    let e9 = reflog_entry(9, "8c9a6b3", ReflogAction::Commit, "Merge branch 'fix/diff-whitespace'", now);
    let e10 = reflog_entry(10, "b6c5e29", ReflogAction::Checkout, "moving from main to fix/diff-whitespace", now);
    let e11 = reflog_entry(11, "11fa04d", ReflogAction::CherryPick, "cherry-pick: Status bar: surface detached HEAD state", now);
    let e12 = reflog_entry(12, "ff1b9e0", ReflogAction::Amend, "Refactor: split Repository::open into open/discover", now);
    let e13 = reflog_entry(13, "6a3f20d", ReflogAction::Commit, "Remotes: show last fetched time as relative", now);
    let e14 = reflog_entry(14, "5fe911c", ReflogAction::Clone, "clone: from git@github.com:ordo/ordo.git", now);
    let v = vec![e0, e1, e2, e3, e4, e5, e6, e7, e8, e9, e10, e11, e12, e13, e14];
    assert forall|i: int| 0 <= i < v@.len() implies is_demo_entry(#[trigger] v@[i], i, demo_reflog()[i], now) by {
        if i == 0 {
            assert(v@[i] == e0);
        } else if i == 1 {
            assert(v@[i] == e1);
        } else if i == 2 {
            assert(v@[i] == e2);
        } else if i == 3 {
            assert(v@[i] == e3);
        } else if i == 4 {
            assert(v@[i] == e4);
        } else if i == 5 {
            assert(v@[i] == e5);
        } else if i == 6 {
            assert(v@[i] == e6);
        } else if i == 7 {
            assert(v@[i] == e7);
        } else if i == 8 {
            assert(v@[i] == e8);
        } else if i == 9 {
            assert(v@[i] == e9);
        } else if i == 10 {
            assert(v@[i] == e10);
        } else if i == 11 {
            assert(v@[i] == e11);
        } else if i == 12 {
            assert(v@[i] == e12);
        } else if i == 13 {
            assert(v@[i] == e13);
        } else if i == 14 {
            assert(v@[i] == e14);
        }
    }
    v
}

/// The demo branches: name, whether current, upstream, ahead, behind, tip.
pub open spec fn demo_branches() -> Seq<(Seq<char>, bool, Seq<char>, u32, u32, Seq<char>)> {
    seq![
        ("main"@, true, "origin/main"@, 2u32, 0u32, "a1f3b2c"@),
        ("feat/commit-graph"@, false, "origin/feat/commit-graph"@, 7u32, 3u32, "9f8d4e6"@),
        ("fix/diff-whitespace"@, false, "origin/fix/diff-whitespace"@, 1u32, 12u32, "b6c5e29"@),
        ("chore/bump-deps"@, false, "origin/chore/bump-deps"@, 0u32, 5u32, "d9b4710"@),
        ("release/2.4"@, false, "origin/release/2.4"@, 0u32, 0u32, "e8d2f90"@),
    ]
}

/// The demo remotes: name, url, and their branches as (name, tip).
pub open spec fn demo_remotes() -> Seq<(Seq<char>, Seq<char>, Seq<(Seq<char>, Seq<char>)>)> {
    seq![
        ("origin"@, "git@github.com:ordo/ordo.git"@, seq![
            ("origin/main"@, "a1f3b2c"@),
            ("origin/feat/commit-graph"@, "f4a2c10"@),
            ("origin/fix/diff-whitespace"@, "b6c5e29"@),
        ]),
        ("upstream"@, "git@github.com:ordo-upstream/ordo.git"@, seq![("upstream/main"@, "a1f3b2c"@)]),
    ]
}

/// The demo tags, all annotated: name and target.
pub open spec fn demo_tags() -> Seq<(Seq<char>, Seq<char>)> {
    seq![
        ("v2.4.0-rc1"@, "e8d2f90"@),
        ("v2.3.2"@, "7e9d0a1"@),
        ("v2.3.1"@, "c4b8f20"@),
        ("v2.3.0"@, "91ae44d"@),
    ]
}

/// The demo stashes, by index: message and the branch they were made on.
pub open spec fn demo_stashes() -> Seq<(Seq<char>, Seq<char>)> {
    seq![
        ("WIP on feat/commit-graph: lane color work"@, "feat/commit-graph"@),
        ("experimenting with flat toolbar"@, "main"@),
        ("debug prints in rebase modal"@, "main"@),
    ]
}

pub open spec fn is_demo_branch(b: Branch, d: (Seq<char>, bool, Seq<char>, u32, u32, Seq<char>)) -> bool {
    &&& b.name@ == d.0
    &&& b.current == d.1
    &&& b.upstream matches Some(u) && u@ == d.2
    &&& b.ahead == d.3
    &&& b.behind == d.4
    &&& b.tip_oid@ == d.5
}

pub open spec fn is_demo_remote(r: Remote, d: (Seq<char>, Seq<char>, Seq<(Seq<char>, Seq<char>)>), date: OffsetDateTime) -> bool {
    &&& r.name@ == d.0
    &&& r.url@ == d.1
    &&& r.last_fetched == Some(date)
    &&& r.branches@.len() == d.2.len()
    &&& forall|j: int| 0 <= j < d.2.len() ==> (#[trigger] r.branches@[j]).name@ == d.2[j].0 && r.branches@[j].tip_oid@ == d.2[j].1
}

/// `v` is the demo repository at `date`: its path is the demo path, HEAD is
/// on `main`, and its branches, remotes, tags and stashes are the tables'.
pub open spec fn is_demo_repo_view(v: RepoView, date: OffsetDateTime) -> bool {
    &&& v.path@ == "/nonexistent/demo/ordo"@
    &&& v.name@ == "ordo (demo)"@
    &&& v.head matches HeadState::Branch { name } && name@ == "main"@
    &&& v.branches@.len() == demo_branches().len()
    &&& forall|i: int| 0 <= i < v.branches@.len() ==> is_demo_branch(#[trigger] v.branches@[i], demo_branches()[i])
    &&& v.remotes@.len() == demo_remotes().len()
    &&& forall|i: int| 0 <= i < v.remotes@.len() ==> is_demo_remote(#[trigger] v.remotes@[i], demo_remotes()[i], date)
    &&& v.tags@.len() == demo_tags().len()
    &&& forall|i: int| 0 <= i < v.tags@.len() ==> (#[trigger] v.tags@[i]).name@ == demo_tags()[i].0
        && v.tags@[i].oid@ == demo_tags()[i].1 && v.tags@[i].annotated && v.tags@[i].date == date
    &&& v.stashes@.len() == demo_stashes().len()
    &&& forall|i: int| 0 <= i < v.stashes@.len() ==> (#[trigger] v.stashes@[i]).idx == i
        && v.stashes@[i].message@ == demo_stashes()[i].0 && v.stashes@[i].on_branch@ == demo_stashes()[i].1
        && v.stashes@[i].date == date
}

/// The demo repository at `now`.
fn demo_repo(now: OffsetDateTime) -> (v: RepoView)
    ensures
        is_demo_repo_view(v, now),
{
    let b0 = branch("main", true, "origin/main", 2, 0, "a1f3b2c");
    let b1 = branch("feat/commit-graph", false, "origin/feat/commit-graph", 7, 3, "9f8d4e6");
    let b2 = branch("fix/diff-whitespace", false, "origin/fix/diff-whitespace", 1, 12, "b6c5e29");
    let b3 = branch("chore/bump-deps", false, "origin/chore/bump-deps", 0, 5, "d9b4710");
    let b4 = branch("release/2.4", false, "origin/release/2.4", 0, 0, "e8d2f90");
    let branches = vec![b0, b1, b2, b3, b4];
    let o0 = remote_branch("origin/main", "a1f3b2c");
    let o1 = remote_branch("origin/feat/commit-graph", "f4a2c10");
    let o2 = remote_branch("origin/fix/diff-whitespace", "b6c5e29");
    let u0 = remote_branch("upstream/main", "a1f3b2c");
    let origin = Remote {
        name: owned("origin"),
        url: owned("git@github.com:ordo/ordo.git"),
        branches: vec![o0, o1, o2],
        last_fetched: Some(now),
    };
    let upstream = Remote {
        name: owned("upstream"),
        url: owned("git@github.com:ordo-upstream/ordo.git"),
        branches: vec![u0],
        last_fetched: Some(now),
    };
    assert forall|j: int| 0 <= j < 3 implies (#[trigger] origin.branches@[j]).name@ == demo_remotes()[0].2[j].0
        && origin.branches@[j].tip_oid@ == demo_remotes()[0].2[j].1 by {
        if j == 0 {
            assert(origin.branches@[j] == o0);
        } else if j == 1 {
            assert(origin.branches@[j] == o1);
        } else {
            assert(origin.branches@[j] == o2);
        }
    }
    assert(is_demo_remote(origin, demo_remotes()[0], now));
    assert(upstream.branches@[0] == u0);
    assert(is_demo_remote(upstream, demo_remotes()[1], now));
    let remotes = vec![origin, upstream];
    let t0 = tag("v2.4.0-rc1", "e8d2f90", now);
    let t1 = tag("v2.3.2", "7e9d0a1", now);
    let t2 = tag("v2.3.1", "c4b8f20", now);
    let t3 = tag("v2.3.0", "91ae44d", now);
    let tags = vec![t0, t1, t2, t3];
    let s0 = stash(0, "WIP on feat/commit-graph: lane color work", "feat/commit-graph", now);
    let s1 = stash(1, "experimenting with flat toolbar", "main", now);
    let s2 = stash(2, "debug prints in rebase modal", "main", now);
    let stashes = vec![s0, s1, s2];
    let v = RepoView {
        path: owned("/nonexistent/demo/ordo"),
        name: owned("ordo (demo)"),
        head: HeadState::Branch { name: owned("main") },
        branches,
        remotes,
        tags,
        stashes,
    };
    assert forall|i: int| 0 <= i < v.branches@.len() implies is_demo_branch(#[trigger] v.branches@[i], demo_branches()[i]) by {
        if i == 0 {
            assert(v.branches@[i] == b0);
        } else if i == 1 {
            assert(v.branches@[i] == b1);
        } else if i == 2 {
            assert(v.branches@[i] == b2);
        } else if i == 3 {
            assert(v.branches@[i] == b3);
        } else {
            assert(v.branches@[i] == b4);
        }
    }
    assert forall|i: int| 0 <= i < v.remotes@.len() implies is_demo_remote(#[trigger] v.remotes@[i], demo_remotes()[i], now) by {
        if i == 0 {
            assert(v.remotes@[i] == origin);
        } else {
            assert(v.remotes@[i] == upstream);
        }
    }
    assert forall|i: int| 0 <= i < v.tags@.len() implies (#[trigger] v.tags@[i]).name@ == demo_tags()[i].0
        && v.tags@[i].oid@ == demo_tags()[i].1 && v.tags@[i].annotated && v.tags@[i].date == now by {
        if i == 0 {
            assert(v.tags@[i] == t0);
        } else if i == 1 {
            assert(v.tags@[i] == t1);
        } else if i == 2 {
            assert(v.tags@[i] == t2);
        } else {
            assert(v.tags@[i] == t3);
        }
    }
    assert forall|i: int| 0 <= i < v.stashes@.len() implies (#[trigger] v.stashes@[i]).idx == i
        && v.stashes@[i].message@ == demo_stashes()[i].0 && v.stashes@[i].on_branch@ == demo_stashes()[i].1
        && v.stashes@[i].date == now by {
        if i == 0 {
            assert(v.stashes@[i] == s0);
        } else if i == 1 {
            assert(v.stashes@[i] == s1);
        } else {
            assert(v.stashes@[i] == s2);
        }
    }
    v
}

/// The demo repository, its history (newest first) and its reflog, all
/// carrying the time of the call.
pub fn seed() -> (r: (RepoView, Vec<Commit>, Vec<ReflogEntry>))
    ensures
        is_demo_repo_view(r.0, r.1@[0].date),
        is_child_of(r.0.path@, demo_root()),
        r.1@.len() == demo_history().len(),
        forall|i: int| 0 <= i < r.1@.len() ==> is_demo_commit(#[trigger] r.1@[i], demo_history()[i], r.1@[0].date),
        r.2@.len() == demo_reflog().len(),
        forall|i: int| 0 <= i < r.2@.len() ==> is_demo_entry(#[trigger] r.2@[i], i, demo_reflog()[i], r.1@[0].date),
{
    let now = now_utc();
    let repo = demo_repo(now);
    let commits = history(now);
    let reflog = reflog(now);
    assert(commits@.len() > 0);
    proof {
        reveal_strlit("/nonexistent/demo/ordo");
        reveal_strlit("/nonexistent/demo");
        reveal_strlit("/");
        let c = "ordo"@;
        reveal_strlit("ordo");
        assert(repo.path@ =~= demo_root() + "/"@ + c);
        assert(!c.contains('/'));
    }
    (repo, commits, reflog)
}

} // verus!
