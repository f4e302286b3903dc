//! Branches, remotes, stashes and the reflog: what is computed from the
//! references a repository read hands over.
use vstd::prelude::*;
use vstd::utf8::encode_utf8;

use crate::clock::{self, checked_at_offset, date_or_now, git_time_date, max_unix, min_unix, offset_fits, offset_or_utc, unix_datetime, GitTime};
use crate::git::log::{short_len, short_ok, short_oid};
use crate::model::reflog::{ReflogAction, ReflogEntry};
use crate::model::repo::{Branch, Remote, RemoteBranch, Stash, Tag};
use time::OffsetDateTime;
use crate::text::{chars_of, split_once, split_once_str, starts_with, starts_with_exec, trim, trim_str};

verus! {

// ── stash messages ──────────────────────────────────────────────────────

/// Branch and message of a stash description such as `WIP on main: 0123abc
/// subject` or `On main: subject`; without that shape, no branch and the
/// whole (trimmed) text.
pub open spec fn parse_stash_spec(raw: Seq<char>) -> (Seq<char>, Seq<char>) {
    let t = trim(raw);
    let rest = if starts_with(t, "WIP on "@) {
        Some(t.skip("WIP on "@.len() as int))
    } else if starts_with(t, "On "@) {
        Some(t.skip("On "@.len() as int))
    } else {
        None
    };
    match rest {
        Some(r) => match split_once(r, ": "@) {
            Some((b, m)) => (b, m),
            None => (Seq::empty(), t),
        },
        None => (Seq::empty(), t),
    }
}

/// `(on_branch, message)` of a stash description.
pub fn parse_stash_message(raw: &str) -> (r: (String, String))
    ensures
        r.0@ == parse_stash_spec(raw@).0,
        r.1@ == parse_stash_spec(raw@).1,
{
    let t = trim_str(raw);
    let tv = chars_of(t.as_str());
    let wip = chars_of("WIP on ");
    let on = chars_of("On ");
    let sep = chars_of(": ");
    let plen: usize = if starts_with_exec(&tv, &wip) {
        wip.len()
    } else if starts_with_exec(&tv, &on) {
        on.len()
    } else {
        return (String::new(), t);
    };
    let rest = crate::text::substring(t.as_str(), plen, tv.len());
    proof {
        assert(t@.subrange(plen as int, t@.len() as int) =~= t@.skip(plen as int));
    }
    let rv = chars_of(rest.as_str());
    match split_once_str(rest.as_str(), &rv, &sep) {
        Some((b, m)) => (b, m),
        None => (String::new(), t),
    }
}

// ── reflog messages ─────────────────────────────────────────────────────

/// The action a reflog verb names.
pub open spec fn reflog_action_of(head: Seq<char>) -> ReflogAction {
    if starts_with(head, "commit (amend)"@) {
        ReflogAction::Amend
    } else if starts_with(head, "commit"@) {
        ReflogAction::Commit
    } else if starts_with(head, "merge"@) {
        ReflogAction::Merge
    } else if starts_with(head, "checkout"@) {
        ReflogAction::Checkout
    } else if starts_with(head, "rebase"@) {
        ReflogAction::Rebase
    } else if starts_with(head, "reset"@) {
        ReflogAction::Reset
    } else if starts_with(head, "pull"@) {
        ReflogAction::Pull
    } else if starts_with(head, "push"@) {
        ReflogAction::Push
    } else if starts_with(head, "clone"@) {
        ReflogAction::Clone
    } else if starts_with(head, "cherry-pick"@) {
        ReflogAction::CherryPick
    } else {
        ReflogAction::Other
    }
}

/// A reflog message such as `checkout: moving from X to Y` or `commit:
/// subject`: the verb before the first `:` gives the action, the trimmed
/// rest the subject; when the rest is empty the subject is the whole
/// (trimmed) message.
pub open spec fn parse_reflog_spec(raw: Seq<char>) -> (ReflogAction, Seq<char>) {
    let t = trim(raw);
    let (head, rest) = match split_once(t, ":"@) {
        Some((h, r)) => (h, r),
        None => (t, Seq::empty()),
    };
    let subject = trim(rest);
    (reflog_action_of(trim(head)), if subject.len() == 0 { t } else { subject })
}

fn action_of(h: &Vec<char>) -> (a: ReflogAction)
    ensures
        a == reflog_action_of(h@),
{
    if starts_with_exec(h, &chars_of("commit (amend)")) {
        ReflogAction::Amend
    } else if starts_with_exec(h, &chars_of("commit")) {
        ReflogAction::Commit
    } else if starts_with_exec(h, &chars_of("merge")) {
        ReflogAction::Merge
    } else if starts_with_exec(h, &chars_of("checkout")) {
        ReflogAction::Checkout
    } else if starts_with_exec(h, &chars_of("rebase")) {
        ReflogAction::Rebase
    } else if starts_with_exec(h, &chars_of("reset")) {
        ReflogAction::Reset
    } else if starts_with_exec(h, &chars_of("pull")) {
        ReflogAction::Pull
    } else if starts_with_exec(h, &chars_of("push")) {
        ReflogAction::Push
    } else if starts_with_exec(h, &chars_of("clone")) {
        ReflogAction::Clone
    } else if starts_with_exec(h, &chars_of("cherry-pick")) {
        ReflogAction::CherryPick
    } else {
        ReflogAction::Other
    }
}

/// Action and subject of a reflog message.
pub fn parse_reflog_message(raw: &str) -> (r: (ReflogAction, String))
    ensures
        r.0 == parse_reflog_spec(raw@).0,
        r.1@ == parse_reflog_spec(raw@).1,
{
    let t = trim_str(raw);
    let tv = chars_of(t.as_str());
    let colon = chars_of(":");
    let (head, rest) = match split_once_str(t.as_str(), &tv, &colon) {
        Some((h, r)) => (h, r),
        None => (t.clone(), String::new()),
    };
    let subject = trim_str(rest.as_str());
    let h = trim_str(head.as_str());
    let action = action_of(&chars_of(h.as_str()));
    let subject = if subject.unicode_len() == 0 { t } else { subject };
    (action, subject)
}

// ── reflog entries ──────────────────────────────────────────────────────

/// What the reflog read gives for one entry, newest first.
#[derive(Clone, Debug)]
pub struct RawReflogEntry {
    /// Full hex id the entry moved HEAD to.
    pub new_oid: String,
    /// The message, empty when it has none.
    pub message: String,
    /// Committer time in seconds since the epoch.
    pub seconds: i64,
}

/// One row of the reflog view per read entry, numbered from 0.
pub fn reflog_entries(raws: &Vec<RawReflogEntry>) -> (r: Vec<ReflogEntry>)
    requires
        forall|i: int| 0 <= i < raws@.len() ==> short_ok(#[trigger] raws@[i].new_oid@),
    ensures
        r@.len() == raws@.len(),
        forall|i: int| 0 <= i < r@.len() ==> {
            let e = #[trigger] r@[i];
            let raw = raws@[i];
            &&& e.idx == i as u32
            &&& e.oid@ == raw.new_oid@
            &&& encode_utf8(e.short@) == encode_utf8(raw.new_oid@).take(short_len(encode_utf8(raw.new_oid@)))
            &&& e.action == parse_reflog_spec(raw.message@).0
            &&& e.subject@ == parse_reflog_spec(raw.message@).1
            &&& (min_unix() <= raw.seconds <= max_unix() ==> e.date == unix_datetime(raw.seconds))
        },
{
    let mut out: Vec<ReflogEntry> = Vec::new();
    let mut i: usize = 0;
    while i < raws.len()
        invariant
            i <= raws@.len(),
            out@.len() == i,
            forall|k: int| 0 <= k < raws@.len() ==> short_ok(#[trigger] raws@[k].new_oid@),
            forall|k: int| 0 <= k < i ==> {
                let e = #[trigger] out@[k];
                let raw = raws@[k];
                &&& e.idx == k as u32
                &&& e.oid@ == raw.new_oid@
                &&& encode_utf8(e.short@) == encode_utf8(raw.new_oid@).take(short_len(encode_utf8(raw.new_oid@)))
                &&& e.action == parse_reflog_spec(raw.message@).0
                &&& e.subject@ == parse_reflog_spec(raw.message@).1
                &&& (min_unix() <= raw.seconds <= max_unix() ==> e.date == unix_datetime(raw.seconds))
            },
        decreases raws@.len() - i,
    {
        let raw = &raws[i];
        let (action, subject) = parse_reflog_message(raw.message.as_str());
        let e = ReflogEntry {
            idx: #[verifier::truncate] (i as u32),
            oid: raw.new_oid.clone(),
            short: short_oid(raw.new_oid.as_str()),
            action,
            subject,
            date: date_or_now(Some(raw.seconds)),
        };
        out.push(e);
        i = i + 1;
    }
    out
}

// ── stashes ─────────────────────────────────────────────────────────────

/// What the stash list read gives for one stash, newest first.
#[derive(Clone, Debug)]
pub struct RawStash {
    pub idx: usize,
    pub message: String,
}

/// One stash row per read stash; the message is split by `parse_stash_spec`
/// and the date is the time of the read.
pub fn stash_entries(raws: &Vec<RawStash>) -> (r: Vec<Stash>)
    ensures
        r@.len() == raws@.len(),
        forall|i: int| 0 <= i < r@.len() ==> {
            let s = #[trigger] r@[i];
            let raw = raws@[i];
            &&& s.idx == raw.idx as u32
            &&& s.on_branch@ == parse_stash_spec(raw.message@).0
            &&& s.message@ == parse_stash_spec(raw.message@).1
        },
{
    let mut out: Vec<Stash> = Vec::new();
    let mut i: usize = 0;
    while i < raws.len()
        invariant
            i <= raws@.len(),
            out@.len() == i,
            forall|k: int| 0 <= k < i ==> {
                let s = #[trigger] out@[k];
                let raw = raws@[k];
                &&& s.idx == raw.idx as u32
                &&& s.on_branch@ == parse_stash_spec(raw.message@).0
                &&& s.message@ == parse_stash_spec(raw.message@).1
            },
        decreases raws@.len() - i,
    {
        let raw = &raws[i];
        let (on_branch, message) = parse_stash_message(raw.message.as_str());
        out.push(Stash {
            idx: #[verifier::truncate] (raw.idx as u32),
            message,
            date: clock::now_utc(),
            on_branch,
        });
        i = i + 1;
    }
    out
}

// ── tags ────────────────────────────────────────────────────────────────

/// The time a tag is dated by: its tagger's when the reference points at a
/// tag object (rather than at the commit) and the tagger is known, the
/// commit's committer's otherwise.
pub open spec fn tag_time(commit_oid: Seq<char>, target: Seq<char>, tagger: Option<GitTime>, committed: GitTime) -> GitTime {
    if target != commit_oid {
        match tagger { Some(g) => g, None => committed }
    } else {
        committed
    }
}

/// A tag whose reference points at `target` and peels to the commit
/// `commit_oid`: annotated when the reference points at a tag object, and
/// dated by `tag_time` at its own offset. None when that local date
/// leaves the calendar.
pub fn tag_entry(name: &str, commit_oid: &str, target: &str, tagger: Option<GitTime>, committed: GitTime) -> (t: Option<Tag>)
    requires
        offset_fits(tag_time(commit_oid@, target@, tagger, committed).offset_minutes),
    ensures
        t matches Some(x) ==> x.name@ == name@ && x.oid@ == commit_oid@ && x.annotated == (target@ != commit_oid@),
        ({
            let g = tag_time(commit_oid@, target@, tagger, committed);
            min_unix() <= g.seconds <= max_unix() ==> (match t { Some(x) => Some(x.date), None => None })
                == checked_at_offset(unix_datetime(g.seconds), offset_or_utc(g.offset_minutes))
        }),
{
    let annotated = !crate::text::same_text(target, commit_oid);
    let when = if annotated {
        match tagger {
            Some(g) => g,
            None => committed,
        }
    } else {
        committed
    };
    match git_time_date(when) {
        Some(date) => Some(Tag { name: crate::text::owned(name), oid: crate::text::owned(commit_oid), annotated, date }),
        None => None,
    }
}

// ── the repository's name ───────────────────────────────────────────────

/// A single path component that names a file: not empty, no separator,
/// and neither `.` nor `..`.
pub open spec fn is_plain_name(c: Seq<char>) -> bool {
    c.len() > 0 && !c.contains('/') && c != "."@ && c != ".."@
}

/// What `Path::file_name` gives for this path.
pub uninterp spec fn file_name_of(p: Seq<char>) -> Option<Seq<char>>;

/// `Path::file_name`: the path's final component, when it names a file.
/// A path that is a plain name, or ends in a separator and a plain name,
/// has that name; other paths are left to the name.
#[verifier::external_body]
fn file_name(p: &str) -> (r: Option<String>)
    ensures
        match r {
            Some(n) => file_name_of(p@) == Some(n@) && forall|b: Seq<char>, c: Seq<char>|
                is_plain_name(c) && (p@ == c || p@ == b + "/"@ + c) ==> n@ == c,
            None => file_name_of(p@) is None && forall|b: Seq<char>, c: Seq<char>|
                !(is_plain_name(c) && (p@ == c || p@ == b + "/"@ + c)),
        },
{
    std::path::Path::new(p).file_name().and_then(|n| n.to_str()).map(|n| n.to_string())
}

/// The name a repository is shown by: the last component of its working
/// directory, else its path as text.
pub fn repo_name(workdir: Option<&str>, path_text: &str) -> (r: String)
    ensures
        r@ == match workdir {
            Some(w) => match file_name_of(w@) { Some(n) => n, None => path_text@ },
            None => path_text@,
        },
{
    match workdir {
        Some(w) => match file_name(w) {
            Some(n) => n,
            None => crate::text::owned(path_text),
        },
        None => crate::text::owned(path_text),
    }
}

// ── branches and remotes ────────────────────────────────────────────────

/// Local branches from `(short name, tip oid)` pairs: the one named like
/// HEAD's branch is current; no upstream information.
pub fn local_branches(raw: &Vec<(String, String)>, head_short: &String) -> (r: Vec<Branch>)
    ensures
        r@.len() == raw@.len(),
        forall|i: int| 0 <= i < r@.len() ==> {
            let b = #[trigger] r@[i];
            &&& b.name@ == raw@[i].0@
            &&& b.tip_oid@ == raw@[i].1@
            &&& b.current == (raw@[i].0@ == head_short@)
            &&& b.upstream is None
            &&& b.ahead == 0
            &&& b.behind == 0
        },
{
    let mut out: Vec<Branch> = Vec::new();
    let mut i: usize = 0;
    while i < raw.len()
        invariant
            i <= raw@.len(),
            out@.len() == i,
            forall|k: int| 0 <= k < i ==> {
                let b = #[trigger] out@[k];
                &&& b.name@ == raw@[k].0@
                &&& b.tip_oid@ == raw@[k].1@
                &&& b.current == (raw@[k].0@ == head_short@)
                &&& b.upstream is None
                &&& b.ahead == 0
                &&& b.behind == 0
            },
        decreases raw@.len() - i,
    {
        let (name, tip) = &raw[i];
        let current = *name == *head_short;
        out.push(Branch { name: name.clone(), current, upstream: None, ahead: 0, behind: 0, tip_oid: tip.clone() });
        i = i + 1;
    }
    out
}

/// The remote a remote-tracking branch such as `origin/main` belongs to:
/// the text before its first `/` (none without one).
pub open spec fn remote_of(full: Seq<char>) -> Option<Seq<char>> {
    match split_once(full, "/"@) {
        Some((r, _)) => Some(r),
        None => None,
    }
}

pub open spec fn branches_of_remote(bs: Seq<RemoteBranch>, name: Seq<char>, n: int) -> Seq<RemoteBranch>
    decreases n,
{
    if n <= 0 {
        Seq::empty()
    } else if remote_of(bs[n - 1].name@) == Some(name) {
        branches_of_remote(bs, name, n - 1).push(bs[n - 1])
    } else {
        branches_of_remote(bs, name, n - 1)
    }
}

pub open spec fn rb_view(b: RemoteBranch) -> (Seq<char>, Seq<char>) {
    (b.name@, b.tip_oid@)
}

pub open spec fn rbs_view(bs: Seq<RemoteBranch>) -> Seq<(Seq<char>, Seq<char>)> {
    bs.map_values(|b: RemoteBranch| rb_view(b))
}

/// Whether `names[i]` is the first remote with its name (only that one gets
/// the remote's branches).
pub open spec fn first_of_name(names: Seq<String>, i: int) -> bool {
    forall|j: int| 0 <= j < i ==> names[j]@ != names[i]@
}

fn remote_of_exec(full: &String) -> (r: Option<String>)
    ensures
        match remote_of(full@) {
            Some(x) => r matches Some(y) && y@ == x,
            None => r is None,
        },
{
    let v = chars_of(full.as_str());
    match split_once_str(full.as_str(), &v, &chars_of("/")) {
        Some((a, _)) => Some(a),
        None => None,
    }
}

fn seen_before(names: &Vec<String>, i: usize) -> (r: bool)
    requires
        i < names@.len(),
    ensures
        r == !first_of_name(names@, i as int),
{
    let mut j: usize = 0;
    while j < i
        invariant
            i < names@.len(),
            j <= i,
            forall|k: int| 0 <= k < j ==> names@[k]@ != names@[i as int]@,
        decreases i - j,
    {
        if names[j] == names[i] {
            return true;
        }
        j = j + 1;
    }
    false
}

/// Remotes in the order of `names`, each with its fetch URL and the
/// remote-tracking branches whose prefix before the first `/` is its name
/// (in the order given); branches of unknown remotes are dropped.
pub fn group_remotes(names: &Vec<String>, urls: &Vec<String>, branches: &Vec<RemoteBranch>) -> (r: Vec<Remote>)
    requires
        urls@.len() == names@.len(),
    ensures
        r@.len() == names@.len(),
        forall|i: int| 0 <= i < r@.len() ==> {
            let rm = #[trigger] r@[i];
            &&& rm.name@ == names@[i]@
            &&& rm.url@ == urls@[i]@
            &&& rm.last_fetched is None
            &&& rbs_view(rm.branches@) == (if first_of_name(names@, i) {
                rbs_view(branches_of_remote(branches@, names@[i]@, branches@.len() as int))
            } else {
                Seq::empty()
            })
        },
{
    let mut out: Vec<Remote> = Vec::new();
    let mut i: usize = 0;
    while i < names.len()
        invariant
            urls@.len() == names@.len(),
            i <= names@.len(),
            out@.len() == i,
            forall|k: int| 0 <= k < i ==> {
                let rm = #[trigger] out@[k];
                &&& rm.name@ == names@[k]@
                &&& rm.url@ == urls@[k]@
                &&& rm.last_fetched is None
                &&& rbs_view(rm.branches@) == (if first_of_name(names@, k) {
                    rbs_view(branches_of_remote(branches@, names@[k]@, branches@.len() as int))
                } else {
                    Seq::empty()
                })
            },
        decreases names@.len() - i,
    {
        let name = &names[i];
        let mut mine: Vec<RemoteBranch> = Vec::new();
        if !seen_before(names, i) {
            let mut j: usize = 0;
            while j < branches.len()
                invariant
                    j <= branches@.len(),
                    rbs_view(mine@) == rbs_view(branches_of_remote(branches@, name@, j as int)),
                decreases branches@.len() - j,
            {
                let b = &branches[j];
                let belongs = match remote_of_exec(&b.name) {
                    Some(rn) => rn == *name,
                    None => false,
                };
                if belongs {
                    let ghost prev = mine@;
                    mine.push(RemoteBranch { name: b.name.clone(), tip_oid: b.tip_oid.clone() });
                    proof {
                        assert(rbs_view(mine@) =~= rbs_view(prev).push(rb_view(*b)));
                        assert(rbs_view(branches_of_remote(branches@, name@, j + 1)) =~= rbs_view(
                            branches_of_remote(branches@, name@, j as int)).push(rb_view(*b)));
                    }
                }
                j = j + 1;
            }
        } else {
            proof {
                assert(rbs_view(mine@) =~= Seq::<(Seq<char>, Seq<char>)>::empty());
            }
        }
        out.push(Remote { name: name.clone(), url: urls[i].clone(), branches: mine, last_fetched: None });
        i = i + 1;
    }
    out
}

} // verus!
