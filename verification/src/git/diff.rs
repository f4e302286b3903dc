//! Diff plumbing: the changed files and hunks of a diff, built from what
//! the diff library reports for each delta, hunk and line.
use vstd::prelude::*;

use crate::git::log::{from_utf8_lossy, trim_trailing_newlines, utf8_lossy};
use crate::model::diff::{DiffLine, DiffOrigin, FileChange, FileStatus, Hunk};
use crate::text::{trim_end, trim_end_char, trim_end_str};

verus! {

/// The kind of change of one delta, as the diff library reports it.
#[derive(Clone, Copy, Debug, PartialEq, Eq, Structural)]
pub enum DeltaKind {
    Unmodified,
    Added,
    Deleted,
    Modified,
    Renamed,
    Copied,
    Ignored,
    Untracked,
    Typechange,
    Unreadable,
    Conflicted,
}

/// One delta of a diff in plain values: its kind, the paths of its new and
/// old sides (none where the library gives none), and its line statistics
/// `(context, additions, deletions)` when its patch could be built.
#[derive(Clone, Debug)]
pub struct RawDelta {
    pub kind: DeltaKind,
    pub new_path: Option<String>,
    pub old_path: Option<String>,
    pub stats: Option<(usize, usize, usize)>,
}

pub open spec fn status_of(k: DeltaKind) -> FileStatus {
    match k {
        DeltaKind::Added | DeltaKind::Copied => FileStatus::Added,
        DeltaKind::Deleted => FileStatus::Deleted,
        DeltaKind::Modified => FileStatus::Modified,
        DeltaKind::Renamed => FileStatus::Renamed,
        DeltaKind::Typechange => FileStatus::TypeChange,
        DeltaKind::Conflicted => FileStatus::Conflicted,
        DeltaKind::Untracked => FileStatus::Untracked,
        _ => FileStatus::Modified,
    }
}

/// The file status a delta kind shows as; copies show as additions, and
/// the kinds the views have no letter for as modifications.
pub fn file_status(k: DeltaKind) -> (s: FileStatus)
    ensures
        s == status_of(k),
{
    match k {
        DeltaKind::Added | DeltaKind::Copied => FileStatus::Added,
        DeltaKind::Deleted => FileStatus::Deleted,
        DeltaKind::Modified => FileStatus::Modified,
        DeltaKind::Renamed => FileStatus::Renamed,
        DeltaKind::Typechange => FileStatus::TypeChange,
        DeltaKind::Conflicted => FileStatus::Conflicted,
        DeltaKind::Untracked => FileStatus::Untracked,
        _ => FileStatus::Modified,
    }
}

/// What `Path == Path` answers for these two paths.
pub uninterp spec fn same_path(a: Seq<char>, b: Seq<char>) -> bool;

/// `std::path::Path`'s equality: the two paths have the same components.
/// Identical texts are the same path; how components are compared
/// otherwise is left to the name.
#[verifier::external_body]
pub(crate) fn path_eq(a: &str, b: &str) -> (r: bool)
    ensures
        r == same_path(a@, b@),
        a@ == b@ ==> r,
{
    std::path::Path::new(a) == std::path::Path::new(b)
}

pub open spec fn path_or_empty(p: Option<String>) -> Seq<char> {
    match p {
        Some(x) => x@,
        None => Seq::empty(),
    }
}

/// The delta's additions and deletions, each cut to 32 bits; zero when the
/// patch or its statistics could not be built.
pub open spec fn stats_of(s: Option<(usize, usize, usize)>) -> (u32, u32) {
    match s {
        Some((_c, a, d)) => (a as u32, d as u32),
        None => (0, 0),
    }
}

pub fn per_file_stats(s: Option<(usize, usize, usize)>) -> (r: (u32, u32))
    ensures
        r == stats_of(s),
{
    match s {
        Some((_c, a, d)) => (a as u32, d as u32),
        None => (0, 0),
    }
}

/// The changed file a delta describes: its new path (empty when it has
/// none), its old path only where that differs, and its status.
pub open spec fn describes(d: RawDelta, f: FileChange, staged: bool) -> bool {
    &&& f.path@ == path_or_empty(d.new_path)
    &&& match d.old_path {
        Some(o) => if same_path(o@, path_or_empty(d.new_path)) { f.old_path is None } else { f.old_path matches Some(x) && x@ == o@ },
        None => f.old_path is None,
    }
    &&& f.status == status_of(d.kind)
    &&& f.staged == staged
    &&& (f.additions, f.deletions) == stats_of(d.stats)
}

pub fn file_change_from_delta(d: &RawDelta, staged: bool) -> (f: FileChange)
    ensures
        describes(*d, f, staged),
{
    let path = match &d.new_path {
        Some(p) => p.clone(),
        None => String::new(),
    };
    let old_path = match &d.old_path {
        Some(o) => if path_eq(o.as_str(), path.as_str()) { None } else { Some(o.clone()) },
        None => None,
    };
    let (additions, deletions) = per_file_stats(d.stats);
    FileChange { path, old_path, status: file_status(d.kind), staged, additions, deletions }
}

/// The changed files of a diff, one per delta, in order; `staged` marks
/// them as the index side of the commit workbench.
pub fn file_changes(deltas: &Vec<RawDelta>, staged: bool) -> (r: Vec<FileChange>)
    ensures
        r@.len() == deltas@.len(),
        forall|i: int| 0 <= i < deltas@.len() ==> describes(deltas@[i], #[trigger] r@[i], staged),
{
    let mut out: Vec<FileChange> = Vec::new();
    let mut i: usize = 0;
    while i < deltas.len()
        invariant
            i <= deltas@.len(),
            out@.len() == i,
            forall|j: int| 0 <= j < i ==> describes(deltas@[j], #[trigger] out@[j], staged),
        decreases deltas@.len() - i,
    {
        out.push(file_change_from_delta(&deltas[i], staged));
        i = i + 1;
    }
    out
}

// ── hunks ───────────────────────────────────────────────────────────────

/// One line of a hunk as the diff library reports it.
#[derive(Clone, Debug)]
pub struct RawLine {
    pub origin: char,
    pub old_lineno: Option<u32>,
    pub new_lineno: Option<u32>,
    pub content: Vec<u8>,
}

/// One hunk as the diff library reports it.
#[derive(Clone, Debug)]
pub struct RawHunk {
    pub old_start: u32,
    pub old_lines: u32,
    pub new_start: u32,
    pub new_lines: u32,
    pub header: Vec<u8>,
    pub lines: Vec<RawLine>,
}

/// The patch of one delta: its new path (if any) and its hunks.
#[derive(Clone, Debug)]
pub struct RawPatch {
    pub path: Option<String>,
    pub hunks: Vec<RawHunk>,
}

pub open spec fn origin_of(c: char) -> DiffOrigin {
    if c == '+' {
        DiffOrigin::Added
    } else if c == '-' {
        DiffOrigin::Removed
    } else {
        DiffOrigin::Context
    }
}

/// A line shows its origin, its line numbers, and its text decoded with
/// replacement and without trailing newlines.
pub open spec fn line_of(raw: RawLine, l: DiffLine) -> bool {
    &&& l.origin == origin_of(raw.origin)
    &&& l.old_lineno == raw.old_lineno
    &&& l.new_lineno == raw.new_lineno
    &&& l.content@ == trim_end_char(utf8_lossy(raw.content@), '\n')
}

/// A hunk keeps its ranges, shows its header decoded and without trailing
/// whitespace, and its lines one for one.
pub open spec fn hunk_of(raw: RawHunk, h: Hunk) -> bool {
    &&& h.old_start == raw.old_start
    &&& h.old_len == raw.old_lines
    &&& h.new_start == raw.new_start
    &&& h.new_len == raw.new_lines
    &&& h.header@ == trim_end(utf8_lossy(raw.header@))
    &&& h.lines@.len() == raw.lines@.len()
    &&& forall|i: int| 0 <= i < raw.lines@.len() ==> line_of(raw.lines@[i], #[trigger] h.lines@[i])
}

fn origin(c: char) -> (o: DiffOrigin)
    ensures
        o == origin_of(c),
{
    if c == '+' {
        DiffOrigin::Added
    } else if c == '-' {
        DiffOrigin::Removed
    } else {
        DiffOrigin::Context
    }
}

pub fn hunk_from_raw(raw: &RawHunk) -> (h: Hunk)
    ensures
        hunk_of(*raw, h),
{
    let header = trim_end_str(from_utf8_lossy(raw.header.as_slice()).as_str());
    let mut lines: Vec<DiffLine> = Vec::new();
    let mut i: usize = 0;
    while i < raw.lines.len()
        invariant
            i <= raw.lines@.len(),
            lines@.len() == i,
            forall|j: int| 0 <= j < i ==> line_of(raw.lines@[j], #[trigger] lines@[j]),
        decreases raw.lines@.len() - i,
    {
        let l = &raw.lines[i];
        let text = from_utf8_lossy(l.content.as_slice());
        lines.push(DiffLine {
            origin: origin(l.origin),
            old_lineno: l.old_lineno,
            new_lineno: l.new_lineno,
            content: trim_trailing_newlines(text.as_str()),
        });
        i = i + 1;
    }
    Hunk {
        old_start: raw.old_start,
        old_len: raw.old_lines,
        new_start: raw.new_start,
        new_len: raw.new_lines,
        header,
        lines,
    }
}

/// The hunks of the patches in order, each with its patch's path (empty
/// when it has none); deltas without a patch contribute nothing.
pub open spec fn all_hunks(ps: Seq<Option<RawPatch>>) -> Seq<(Seq<char>, RawHunk)>
    decreases ps.len(),
{
    if ps.len() == 0 {
        Seq::empty()
    } else {
        all_hunks(ps.drop_last()) + match ps.last() {
            Some(p) => p.hunks@.map_values(|h: RawHunk| (path_or_empty(p.path), h)),
            None => Seq::empty(),
        }
    }
}

/// Every hunk of the diff with the path of its file.
pub fn collect_hunks(patches: &Vec<Option<RawPatch>>) -> (r: Vec<(String, Hunk)>)
    ensures
        r@.len() == all_hunks(patches@).len(),
        forall|i: int| 0 <= i < r@.len() ==> (#[trigger] r@[i]).0@ == all_hunks(patches@)[i].0
            && hunk_of(all_hunks(patches@)[i].1, r@[i].1),
{
    let mut out: Vec<(String, Hunk)> = Vec::new();
    let mut k: usize = 0;
    while k < patches.len()
        invariant
            k <= patches@.len(),
            out@.len() == all_hunks(patches@.take(k as int)).len(),
            forall|i: int| 0 <= i < out@.len() ==> (#[trigger] out@[i]).0@ == all_hunks(patches@.take(k as int))[i].0
                && hunk_of(all_hunks(patches@.take(k as int))[i].1, out@[i].1),
        decreases patches@.len() - k,
    {
        let ghost before = all_hunks(patches@.take(k as int));
        let ghost start = out@.len();
        assert(patches@.take(k + 1).drop_last() =~= patches@.take(k as int));
        match &patches[k] {
            Some(p) => {
                let path = match &p.path {
                    Some(x) => x.clone(),
                    None => String::new(),
                };
                let ghost added = p.hunks@.map_values(|h: RawHunk| (path_or_empty(p.path), h));
                assert(all_hunks(patches@.take(k + 1)) == before + added);
                let mut h: usize = 0;
                while h < p.hunks.len()
                    invariant
                        h <= p.hunks@.len(),
                        out@.len() == start + h,
                        start == before.len(),
                        added == p.hunks@.map_values(|h: RawHunk| (path_or_empty(p.path), h)),
                        path@ == path_or_empty(p.path),
                        forall|i: int| 0 <= i < out@.len() ==> (#[trigger] out@[i]).0@ == (before + added)[i].0
                            && hunk_of((before + added)[i].1, out@[i].1),
                    decreases p.hunks@.len() - h,
                {
                    out.push((path.clone(), hunk_from_raw(&p.hunks[h])));
                    h = h + 1;
                }
            },
            None => {
                assert(all_hunks(patches@.take(k + 1)) =~= before);
            },
        }
        k = k + 1;
    }
    assert(patches@.take(patches@.len() as int) =~= patches@);
    out
}

} // verus!
