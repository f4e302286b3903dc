//! Writes and network ops. These run the `git` CLI rather than a library
//! so the user's git config, hooks, signing and credentials all apply.
//!
//! Each operation validates its input and produces a `GitPlan`: the git
//! commands to run, in order, stopping at the first failure. The caller
//! runs them one by one and feeds each outcome to `next_step`, which
//! decides whether to run the next command or what the operation returns.
//!
//! Every user-controlled positional argument comes after
//! `--end-of-options`, so a name such as `-fhostile` can never be read as
//! a flag.
use vstd::prelude::*;

use crate::app::ResetMode;
use crate::git::log::utf8_lossy;
use crate::text::{decimal, is_blank, join, owned, strings_view, trim, trim_str, u32_to_string};

verus! {

/// Why an operation failed.
#[derive(Clone, Debug)]
pub enum OpError {
    /// The request was refused before git ran, e.g. an empty name.
    Invalid(String),
    /// A git command failed: `git <args>: <git's message>`.
    Git(String),
}

impl OpError {
    pub open spec fn text(&self) -> Seq<char> {
        match self {
            OpError::Invalid(m) => m@,
            OpError::Git(m) => m@,
        }
    }

    /// The error's text.
    pub fn message(&self) -> (r: String)
        ensures
            r@ == self.text(),
    {
        match self {
            OpError::Invalid(m) => m.clone(),
            OpError::Git(m) => m.clone(),
        }
    }
}

/// The git commands of one operation, each given by its arguments after
/// `git`; `yields_output` when the operation returns the trimmed output of
/// its last command.
#[derive(Clone, Debug)]
pub struct GitPlan {
    pub commands: Vec<Vec<String>>,
    pub yields_output: bool,
}

pub open spec fn commands_view(p: GitPlan) -> Seq<Seq<Seq<char>>> {
    p.commands@.map_values(|c: Vec<String>| strings_view(c@))
}

/// What running one git command gave.
#[derive(Clone, Debug)]
pub struct GitOutput {
    pub success: bool,
    pub stdout: Vec<u8>,
    pub stderr: Vec<u8>,
}

/// What to do next: run a git command, or the operation's result.
#[derive(Debug)]
pub enum GitStep {
    Run(Vec<String>),
    Finished(Result<String, OpError>),
}

/// The message of a failed command: trimmed stderr, or trimmed stdout when
/// stderr is blank.
pub open spec fn failure_detail(out: GitOutput) -> Seq<char> {
    let e = trim(utf8_lossy(out.stderr@));
    if e.len() > 0 { e } else { trim(utf8_lossy(out.stdout@)) }
}

/// `git <args joined by spaces>: <detail>`.
pub open spec fn failure_text(args: Seq<Seq<char>>, out: GitOutput) -> Seq<char> {
    "git "@ + join(args, " "@) + ": "@ + failure_detail(out)
}

/// What the operation returns once every command succeeded.
pub open spec fn success_value(p: GitPlan, last: Option<GitOutput>) -> Seq<char> {
    match last {
        Some(out) => if p.yields_output { trim(utf8_lossy(out.stdout@)) } else { Seq::empty() },
        None => Seq::empty(),
    }
}

pub open spec fn step_is(s: GitStep, want_run: Option<Seq<Seq<char>>>, done: Option<Result<Seq<char>, Seq<char>>>) -> bool {
    match s {
        GitStep::Run(args) => want_run == Some(strings_view(args@)),
        GitStep::Finished(Ok(v)) => done == Some(Ok::<Seq<char>, Seq<char>>(v@)),
        GitStep::Finished(Err(OpError::Git(m))) => done == Some(Err::<Seq<char>, Seq<char>>(m@)),
        GitStep::Finished(Err(OpError::Invalid(_))) => false,
    }
}

fn copy_args(v: &Vec<String>) -> (r: Vec<String>)
    ensures
        strings_view(r@) == strings_view(v@),
{
    let mut out: Vec<String> = Vec::new();
    let mut i: usize = 0;
    while i < v.len()
        invariant
            i <= v@.len(),
            strings_view(out@) == strings_view(v@.take(i as int)),
        decreases v@.len() - i,
    {
        let ghost prev = out@;
        out.push(v[i].clone());
        proof {
            crate::text::lemma_strings_view_push(prev, v@[i as int]);
            assert(v@.take(i + 1) =~= v@.take(i as int).push(v@[i as int]));
            crate::text::lemma_strings_view_push(v@.take(i as int), v@[i as int]);
        }
        i = i + 1;
    }
    proof {
        assert(v@.take(v@.len() as int) =~= v@);
    }
    out
}

/// The first step of a plan: its first command, or success at once when it has none.
pub fn first_step(plan: &GitPlan) -> (s: GitStep)
    ensures
        plan.commands@.len() > 0 ==> step_is(s, Some(commands_view(*plan)[0]), None),
        plan.commands@.len() == 0 ==> step_is(s, None, Some(Ok(Seq::empty()))),
{
    if plan.commands.len() > 0 {
        GitStep::Run(copy_args(&plan.commands[0]))
    } else {
        GitStep::Finished(Ok(String::new()))
    }
}

/// The step after command `ran` gave `out`: a failure ends the operation
/// with git's message; a success runs the next command, or ends the
/// operation with its value after the last one.
pub fn next_step(plan: &GitPlan, ran: usize, out: &GitOutput) -> (s: GitStep)
    requires
        ran < plan.commands@.len(),
    ensures
        !out.success ==> step_is(s, None, Some(Err(failure_text(commands_view(*plan)[ran as int], *out)))),
        out.success && ran + 1 < plan.commands@.len() ==> step_is(s, Some(commands_view(*plan)[ran + 1]), None),
        out.success && ran + 1 == plan.commands@.len() ==> step_is(s, None, Some(Ok(success_value(*plan, Some(*out))))),
{
    if !out.success {
        let e = trim_str(crate::git::log::from_utf8_lossy(out.stderr.as_slice()).as_str());
        let detail = if e.unicode_len() > 0 {
            e
        } else {
            trim_str(crate::git::log::from_utf8_lossy(out.stdout.as_slice()).as_str())
        };
        let mut m = owned("git ");
        m.append(crate::text::join_strings(&plan.commands[ran], " ").as_str());
        m.append(": ");
        m.append(detail.as_str());
        proof {
            assert(plan.commands@[ran as int]@ == plan.commands@[ran as int]@);
            assert(commands_view(*plan)[ran as int] == strings_view(plan.commands@[ran as int]@));
        }
        return GitStep::Finished(Err(OpError::Git(m)));
    }
    if ran < plan.commands.len() - 1 {
        return GitStep::Run(copy_args(&plan.commands[ran + 1]));
    }
    if plan.yields_output {
        GitStep::Finished(Ok(trim_str(crate::git::log::from_utf8_lossy(out.stdout.as_slice()).as_str())))
    } else {
        GitStep::Finished(Ok(String::new()))
    }
}

// ── argument lists ──────────────────────────────────────────────────────

pub open spec fn blank(s: Seq<char>) -> bool {
    trim(s).len() == 0
}

pub open spec fn opt_arg(o: Option<Seq<char>>) -> Seq<Seq<char>> {
    match o {
        Some(x) => seq![x],
        None => Seq::empty(),
    }
}

pub open spec fn opt_view(o: Option<&str>) -> Option<Seq<char>> {
    match o {
        Some(x) => Some(x@),
        None => None,
    }
}

pub open spec fn plan_is(r: Result<GitPlan, OpError>, cmds: Seq<Seq<Seq<char>>>, yields: bool) -> bool {
    r matches Ok(p) && commands_view(p) == cmds && p.yields_output == yields
}

pub open spec fn refused_with(r: Result<GitPlan, OpError>, msg: Seq<char>) -> bool {
    r matches Err(OpError::Invalid(m)) && m@ == msg
}

fn plan_of(cmds: Vec<Vec<String>>, yields_output: bool) -> (r: Result<GitPlan, OpError>)
    ensures
        plan_is(r, cmds_view(cmds@), yields_output),
{
    assert(cmds_view(cmds@) =~= cmds@.map_values(|c: Vec<String>| strings_view(c@)));
    Ok(GitPlan { commands: cmds, yields_output })
}

fn refuse(msg: &str) -> (r: Result<GitPlan, OpError>)
    ensures
        refused_with(r, msg@),
{
    Err(OpError::Invalid(owned(msg)))
}

fn args1(a: &str) -> (r: Vec<String>)
    ensures
        strings_view(r@) == seq![a@],
{
    let mut v: Vec<String> = Vec::new();
    v.push(owned(a));
    proof {
        assert(strings_view(v@) =~= seq![a@]);
    }
    v
}

fn push_arg(v: &mut Vec<String>, a: &str)
    ensures
        strings_view(final(v)@) == strings_view(old(v)@).push(a@),
{
    let ghost prev = v@;
    let s = owned(a);
    v.push(s);
    proof {
        crate::text::lemma_strings_view_push(prev, s);
    }
}

fn one(c: Vec<String>) -> (r: Vec<Vec<String>>)
    ensures
        r@.map_values(|x: Vec<String>| strings_view(x@)) == seq![strings_view(c@)],
{
    let mut v: Vec<Vec<String>> = Vec::new();
    let ghost cv = strings_view(c@);
    v.push(c);
    proof {
        assert(v@.map_values(|x: Vec<String>| strings_view(x@)) =~= seq![cv]);
    }
    v
}

// ── operations ──────────────────────────────────────────────────────────

pub open spec fn create_branch_cmds(name: Seq<char>, from: Option<Seq<char>>, checkout: bool) -> Seq<Seq<Seq<char>>> {
    seq![seq!["branch"@, "--end-of-options"@, name] + opt_arg(from)]
        + (if checkout { seq![seq!["checkout"@, "--end-of-options"@, name]] } else { Seq::empty() })
        + seq![seq!["rev-parse"@, "refs/heads/"@ + name]]
}

pub open spec fn cmds_view(v: Seq<Vec<String>>) -> Seq<Seq<Seq<char>>> {
    v.map_values(|x: Vec<String>| strings_view(x@))
}

fn push_cmd(cmds: &mut Vec<Vec<String>>, c: Vec<String>)
    ensures
        cmds_view(final(cmds)@) == cmds_view(old(cmds)@).push(strings_view(c@)),
{
    let ghost prev = cmds@;
    let ghost cv = strings_view(c@);
    cmds.push(c);
    proof {
        assert(cmds_view(cmds@) =~= cmds_view(prev).push(cv));
    }
}

/// Create a local branch `name` at `from` (HEAD when none), optionally
/// check it out, and return its resolved tip oid.
pub fn create_branch(name: &str, from: Option<&str>, checkout: bool) -> (r: Result<GitPlan, OpError>)
    ensures
        blank(name@) ==> refused_with(r, "branch name is empty"@),
        !blank(name@) ==> plan_is(r, create_branch_cmds(name@, opt_view(from), checkout), true),
{
    if is_blank(name) {
        return refuse("branch name is empty");
    }
    let mut branch = args1("branch");
    push_arg(&mut branch, "--end-of-options");
    push_arg(&mut branch, name);
    match from {
        Some(rev) => push_arg(&mut branch, rev),
        None => {},
    }
    let ghost bv = strings_view(branch@);
    proof {
        assert(bv =~= seq!["branch"@, "--end-of-options"@, name@] + opt_arg(opt_view(from)));
    }
    let mut cmds: Vec<Vec<String>> = Vec::new();
    assert(cmds_view(cmds@) =~= Seq::<Seq<Seq<char>>>::empty());
    push_cmd(&mut cmds, branch);
    assert(cmds_view(cmds@) =~= seq![bv]);
    if checkout {
        let mut co = args1("checkout");
        push_arg(&mut co, "--end-of-options");
        push_arg(&mut co, name);
        assert(strings_view(co@) =~= seq!["checkout"@, "--end-of-options"@, name@]);
        push_cmd(&mut cmds, co);
    }
    let ghost mid = cmds_view(cmds@);
    assert(mid =~= seq![bv] + (if checkout { seq![seq!["checkout"@, "--end-of-options"@, name@]] } else { Seq::empty() }));
    let mut target = owned("refs/heads/");
    target.append(name);
    let mut rp = args1("rev-parse");
    push_arg(&mut rp, target.as_str());
    assert(strings_view(rp@) =~= seq!["rev-parse"@, "refs/heads/"@ + name@]);
    push_cmd(&mut cmds, rp);
    proof {
        assert(cmds_view(cmds@) =~= create_branch_cmds(name@, opt_view(from), checkout));
    }
    plan_of(cmds, true)
}

fn single(args: Vec<String>, Ghost(expect): Ghost<Seq<Seq<char>>>) -> (r: Result<GitPlan, OpError>)
    requires
        strings_view(args@) == expect,
    ensures
        plan_is(r, seq![expect], false),
{
    let cmds = one(args);
    proof {
        assert(cmds_view(cmds@) =~= cmds@.map_values(|x: Vec<String>| strings_view(x@)));
    }
    plan_of(cmds, false)
}

pub open spec fn strs_view(v: Seq<&str>) -> Seq<Seq<char>> {
    v.map_values(|s: &str| s@)
}

fn push_all(v: &mut Vec<String>, xs: &[&str])
    ensures
        strings_view(final(v)@) == strings_view(old(v)@) + strs_view(xs@),
{
    let ghost base = strings_view(v@);
    let mut i: usize = 0;
    while i < xs.len()
        invariant
            i <= xs@.len(),
            strings_view(v@) == base + strs_view(xs@.take(i as int)),
        decreases xs@.len() - i,
    {
        push_arg(v, xs[i]);
        proof {
            assert(strs_view(xs@.take(i + 1)) =~= strs_view(xs@.take(i as int)).push(xs@[i as int]@));
        }
        i = i + 1;
    }
    proof {
        assert(xs@.take(xs@.len() as int) =~= xs@);
    }
}

/// `git branch -d <name>` (safe) or `-D` (force).
pub fn delete_branch(name: &str, force: bool) -> (r: Result<GitPlan, OpError>)
    ensures
        blank(name@) ==> refused_with(r, "branch name is empty"@),
        !blank(name@) ==> plan_is(r, seq![seq!["branch"@, if force { "-D"@ } else { "-d"@ }, "--end-of-options"@, name@]], false),
{
    if is_blank(name) {
        return refuse("branch name is empty");
    }
    let mut a = args1("branch");
    push_arg(&mut a, if force { "-D" } else { "-d" });
    push_arg(&mut a, "--end-of-options");
    push_arg(&mut a, name);
    let ghost e = seq!["branch"@, if force { "-D"@ } else { "-d"@ }, "--end-of-options"@, name@];
    assert(strings_view(a@) =~= e);
    single(a, Ghost(e))
}

/// `git branch -m <old> <new>`.
pub fn rename_branch(old: &str, new: &str) -> (r: Result<GitPlan, OpError>)
    ensures
        blank(old@) || blank(new@) ==> refused_with(r, "rename: empty name"@),
        !blank(old@) && !blank(new@) ==> plan_is(r, seq![seq!["branch"@, "-m"@, "--end-of-options"@, old@, new@]], false),
{
    if is_blank(old) || is_blank(new) {
        return refuse("rename: empty name");
    }
    let mut a = args1("branch");
    push_arg(&mut a, "-m");
    push_arg(&mut a, "--end-of-options");
    push_arg(&mut a, old);
    push_arg(&mut a, new);
    let ghost e = seq!["branch"@, "-m"@, "--end-of-options"@, old@, new@];
    assert(strings_view(a@) =~= e);
    single(a, Ghost(e))
}

/// `git remote remove <name>`.
pub fn remove_remote(name: &str) -> (r: Result<GitPlan, OpError>)
    ensures
        blank(name@) ==> refused_with(r, "remote name is empty"@),
        !blank(name@) ==> plan_is(r, seq![seq!["remote"@, "remove"@, "--end-of-options"@, name@]], false),
{
    if is_blank(name) {
        return refuse("remote name is empty");
    }
    let mut a = args1("remote");
    push_arg(&mut a, "remove");
    push_arg(&mut a, "--end-of-options");
    push_arg(&mut a, name);
    let ghost e = seq!["remote"@, "remove"@, "--end-of-options"@, name@];
    assert(strings_view(a@) =~= e);
    single(a, Ghost(e))
}

/// `git tag -d <name>`.
pub fn delete_tag(name: &str) -> (r: Result<GitPlan, OpError>)
    ensures
        blank(name@) ==> refused_with(r, "tag name is empty"@),
        !blank(name@) ==> plan_is(r, seq![seq!["tag"@, "-d"@, "--end-of-options"@, name@]], false),
{
    if is_blank(name) {
        return refuse("tag name is empty");
    }
    let mut a = args1("tag");
    push_arg(&mut a, "-d");
    push_arg(&mut a, "--end-of-options");
    push_arg(&mut a, name);
    let ghost e = seq!["tag"@, "-d"@, "--end-of-options"@, name@];
    assert(strings_view(a@) =~= e);
    single(a, Ghost(e))
}

pub open spec fn create_tag_args(name: Seq<char>, oid: Option<Seq<char>>, message: Seq<char>) -> Seq<Seq<char>> {
    seq!["tag"@] + (if !blank(message) { seq!["-a"@, "-m"@, message] } else { Seq::empty() })
        + seq!["--end-of-options"@, name] + opt_arg(oid)
}

/// Create a tag: annotated (`-a -m <message>`) when the message is not
/// blank, lightweight otherwise; at `oid`, or HEAD when none.
pub fn create_tag(name: &str, oid: Option<&str>, message: &str) -> (r: Result<GitPlan, OpError>)
    ensures
        blank(name@) ==> refused_with(r, "tag name is empty"@),
        !blank(name@) ==> plan_is(r, seq![create_tag_args(name@, opt_view(oid), message@)], false),
{
    if is_blank(name) {
        return refuse("tag name is empty");
    }
    let mut a = args1("tag");
    if !is_blank(message) {
        push_arg(&mut a, "-a");
        push_arg(&mut a, "-m");
        push_arg(&mut a, message);
    }
    push_arg(&mut a, "--end-of-options");
    push_arg(&mut a, name);
    match oid {
        Some(rev) => push_arg(&mut a, rev),
        None => {},
    }
    proof {
        assert(strings_view(a@) =~= create_tag_args(name@, opt_view(oid), message@));
    }
    single(a, Ghost(create_tag_args(name@, opt_view(oid), message@)))
}

/// `stash@{<idx>}`.
pub open spec fn stash_ref(idx: u32) -> Seq<char> {
    "stash@{"@ + decimal(idx as nat) + "}"@
}

fn stash_op(verb: &str, idx: u32) -> (r: Result<GitPlan, OpError>)
    ensures
        plan_is(r, seq![seq!["stash"@, verb@, stash_ref(idx)]], false),
{
    let mut target = owned("stash@{");
    target.append(u32_to_string(idx).as_str());
    target.append("}");
    let mut a = args1("stash");
    push_arg(&mut a, verb);
    push_arg(&mut a, target.as_str());
    let ghost e = seq!["stash"@, verb@, stash_ref(idx)];
    assert(strings_view(a@) =~= e);
    single(a, Ghost(e))
}

/// `git stash apply stash@{idx}` — applies the stash but keeps it.
pub fn stash_apply(idx: u32) -> (r: Result<GitPlan, OpError>)
    ensures
        plan_is(r, seq![seq!["stash"@, "apply"@, stash_ref(idx)]], false),
{
    stash_op("apply", idx)
}

/// `git stash pop stash@{idx}` — applies and drops on success.
pub fn stash_pop(idx: u32) -> (r: Result<GitPlan, OpError>)
    ensures
        plan_is(r, seq![seq!["stash"@, "pop"@, stash_ref(idx)]], false),
{
    stash_op("pop", idx)
}

/// `git stash drop stash@{idx}`.
pub fn stash_drop(idx: u32) -> (r: Result<GitPlan, OpError>)
    ensures
        plan_is(r, seq![seq!["stash"@, "drop"@, stash_ref(idx)]], false),
{
    stash_op("drop", idx)
}

/// Check out a branch, ref, or commit.
pub fn checkout(refspec: &str) -> (r: Result<GitPlan, OpError>)
    ensures
        blank(refspec@) ==> refused_with(r, "checkout target is empty"@),
        !blank(refspec@) ==> plan_is(r, seq![seq!["checkout"@, "--end-of-options"@, refspec@]], false),
{
    if is_blank(refspec) {
        return refuse("checkout target is empty");
    }
    let mut a = args1("checkout");
    push_arg(&mut a, "--end-of-options");
    push_arg(&mut a, refspec);
    let ghost e = seq!["checkout"@, "--end-of-options"@, refspec@];
    assert(strings_view(a@) =~= e);
    single(a, Ghost(e))
}

fn paths_op(prefix: Vec<String>, paths: &[&str], Ghost(pre): Ghost<Seq<Seq<char>>>) -> (r: Result<GitPlan, OpError>)
    requires
        strings_view(prefix@) == pre,
    ensures
        paths@.len() == 0 ==> plan_is(r, Seq::empty(), false),
        paths@.len() > 0 ==> plan_is(r, seq![pre + strs_view(paths@)], false),
{
    if paths.len() == 0 {
        let cmds: Vec<Vec<String>> = Vec::new();
        proof {
            assert(cmds_view(cmds@) =~= Seq::<Seq<Seq<char>>>::empty());
        }
        return plan_of(cmds, false);
    }
    let mut a = prefix;
    push_all(&mut a, paths);
    single(a, Ghost(pre + strs_view(paths@)))
}

/// Stage paths: `git add -- <paths>`; nothing to run for no paths.
pub fn stage(paths: &[&str]) -> (r: Result<GitPlan, OpError>)
    ensures
        paths@.len() == 0 ==> plan_is(r, Seq::empty(), false),
        paths@.len() > 0 ==> plan_is(r, seq![seq!["add"@, "--"@] + strs_view(paths@)], false),
{
    let mut a = args1("add");
    push_arg(&mut a, "--");
    let ghost e = seq!["add"@, "--"@];
    assert(strings_view(a@) =~= e);
    paths_op(a, paths, Ghost(e))
}

/// Unstage paths: `git reset HEAD -- <paths>`; nothing to run for no paths.
pub fn unstage(paths: &[&str]) -> (r: Result<GitPlan, OpError>)
    ensures
        paths@.len() == 0 ==> plan_is(r, Seq::empty(), false),
        paths@.len() > 0 ==> plan_is(r, seq![seq!["reset"@, "HEAD"@, "--"@] + strs_view(paths@)], false),
{
    let mut a = args1("reset");
    push_arg(&mut a, "HEAD");
    push_arg(&mut a, "--");
    let ghost e = seq!["reset"@, "HEAD"@, "--"@];
    assert(strings_view(a@) =~= e);
    paths_op(a, paths, Ghost(e))
}

/// Discard working-tree changes: `git checkout -- <paths>`; nothing to run for no paths.
pub fn discard(paths: &[&str]) -> (r: Result<GitPlan, OpError>)
    ensures
        paths@.len() == 0 ==> plan_is(r, Seq::empty(), false),
        paths@.len() > 0 ==> plan_is(r, seq![seq!["checkout"@, "--"@] + strs_view(paths@)], false),
{
    let mut a = args1("checkout");
    push_arg(&mut a, "--");
    let ghost e = seq!["checkout"@, "--"@];
    assert(strings_view(a@) =~= e);
    paths_op(a, paths, Ghost(e))
}

pub open spec fn commit_cmds(message: Seq<char>, amend: bool) -> Seq<Seq<Seq<char>>> {
    seq![seq!["commit"@, "-m"@, message] + (if amend { seq!["--amend"@] } else { Seq::empty() }),
        seq!["rev-parse"@, "HEAD"@]]
}

/// Commit on HEAD with `message` (rewriting the last commit when `amend`)
/// and return the new HEAD oid. A blank message is refused unless amending.
pub fn commit(message: &str, amend: bool) -> (r: Result<GitPlan, OpError>)
    ensures
        blank(message@) && !amend ==> refused_with(r, "commit message is empty"@),
        !(blank(message@) && !amend) ==> plan_is(r, commit_cmds(message@, amend), true),
{
    if is_blank(message) && !amend {
        return refuse("commit message is empty");
    }
    let mut a = args1("commit");
    push_arg(&mut a, "-m");
    push_arg(&mut a, message);
    if amend {
        push_arg(&mut a, "--amend");
    }
    assert(strings_view(a@) =~= seq!["commit"@, "-m"@, message@] + (if amend { seq!["--amend"@] } else { Seq::empty() }));
    let mut cmds: Vec<Vec<String>> = Vec::new();
    assert(cmds_view(cmds@) =~= Seq::<Seq<Seq<char>>>::empty());
    push_cmd(&mut cmds, a);
    let ghost first = cmds_view(cmds@);
    let mut b = args1("rev-parse");
    push_arg(&mut b, "HEAD");
    assert(strings_view(b@) =~= seq!["rev-parse"@, "HEAD"@]);
    push_cmd(&mut cmds, b);
    proof {
        assert(first =~= seq![seq!["commit"@, "-m"@, message@] + (if amend { seq!["--amend"@] } else { Seq::empty() })]);
        assert(cmds_view(cmds@) =~= commit_cmds(message@, amend));
    }
    plan_of(cmds, true)
}

pub open spec fn nonempty_arg(s: Seq<char>) -> Seq<Seq<char>> {
    if s.len() > 0 { seq![s] } else { Seq::empty() }
}

/// `git fetch [--prune] --end-of-options [<remote>]`.
pub fn fetch(remote: &str, prune: bool) -> (r: Result<GitPlan, OpError>)
    ensures
        plan_is(r, seq![seq!["fetch"@] + (if prune { seq!["--prune"@] } else { Seq::empty() })
            + seq!["--end-of-options"@] + nonempty_arg(remote@)], false),
{
    let mut a = args1("fetch");
    if prune {
        push_arg(&mut a, "--prune");
    }
    push_arg(&mut a, "--end-of-options");
    if remote.unicode_len() > 0 {
        push_arg(&mut a, remote);
    }
    let ghost e = seq!["fetch"@] + (if prune { seq!["--prune"@] } else { Seq::empty() })
        + seq!["--end-of-options"@] + nonempty_arg(remote@);
    assert(strings_view(a@) =~= e);
    single(a, Ghost(e))
}

/// The refspec `push` uses: none for an empty `local`; `<local>` when
/// `target` is empty or equal to it; `<local>:<target>` otherwise.
pub open spec fn push_refspec_spec(local: Seq<char>, target: Seq<char>) -> Option<Seq<char>> {
    if local.len() == 0 {
        None
    } else if target.len() > 0 && target != local {
        Some(local + ":"@ + target)
    } else {
        Some(local)
    }
}

/// Build the refspec argument for [`push`].
pub fn build_push_refspec(local: &str, target: &str) -> (r: Option<String>)
    ensures
        match push_refspec_spec(local@, target@) {
            Some(s) => r matches Some(x) && x@ == s,
            None => r is None,
        },
{
    if local.unicode_len() == 0 {
        return None;
    }
    if target.unicode_len() > 0 && !crate::text::same_text(target, local) {
        let mut s = owned(local);
        s.append(":");
        s.append(target);
        Some(s)
    } else {
        Some(owned(local))
    }
}

pub open spec fn push_args(remote: Seq<char>, local: Seq<char>, target: Seq<char>, force: bool) -> Seq<Seq<char>> {
    seq!["push"@] + (if force { seq!["--force-with-lease"@] } else { Seq::empty() }) + seq!["--end-of-options"@]
        + nonempty_arg(remote) + match push_refspec_spec(local, target) {
        Some(rs) => seq![rs],
        None => Seq::empty(),
    }
}

/// `git push [--force-with-lease] --end-of-options [<remote>] [<refspec>]`.
pub fn push(remote: &str, local: &str, target: &str, force_with_lease: bool) -> (r: Result<GitPlan, OpError>)
    ensures
        plan_is(r, seq![push_args(remote@, local@, target@, force_with_lease)], false),
{
    let mut a = args1("push");
    if force_with_lease {
        push_arg(&mut a, "--force-with-lease");
    }
    push_arg(&mut a, "--end-of-options");
    if remote.unicode_len() > 0 {
        push_arg(&mut a, remote);
    }
    let ghost mid = strings_view(a@);
    match build_push_refspec(local, target) {
        Some(rs) => push_arg(&mut a, rs.as_str()),
        None => {},
    }
    proof {
        assert(strings_view(a@) =~= push_args(remote@, local@, target@, force_with_lease));
    }
    single(a, Ghost(push_args(remote@, local@, target@, force_with_lease)))
}

/// `git pull`.
pub fn pull() -> (r: Result<GitPlan, OpError>)
    ensures
        plan_is(r, seq![seq!["pull"@]], false),
{
    let ghost e = seq!["pull"@];
    single(args1("pull"), Ghost(e))
}

/// `git merge [--no-ff] --end-of-options <from>`.
pub fn merge(from: &str, no_ff: bool) -> (r: Result<GitPlan, OpError>)
    ensures
        plan_is(r, seq![seq!["merge"@] + (if no_ff { seq!["--no-ff"@] } else { Seq::empty() })
            + seq!["--end-of-options"@, from@]], false),
{
    let mut a = args1("merge");
    if no_ff {
        push_arg(&mut a, "--no-ff");
    }
    push_arg(&mut a, "--end-of-options");
    push_arg(&mut a, from);
    let ghost e = seq!["merge"@] + (if no_ff { seq!["--no-ff"@] } else { Seq::empty() })
        + seq!["--end-of-options"@, from@];
    assert(strings_view(a@) =~= e);
    single(a, Ghost(e))
}

/// `git rebase --end-of-options <onto>`.
pub fn rebase(onto: &str) -> (r: Result<GitPlan, OpError>)
    ensures
        plan_is(r, seq![seq!["rebase"@, "--end-of-options"@, onto@]], false),
{
    let mut a = args1("rebase");
    push_arg(&mut a, "--end-of-options");
    push_arg(&mut a, onto);
    let ghost e = seq!["rebase"@, "--end-of-options"@, onto@];
    assert(strings_view(a@) =~= e);
    single(a, Ghost(e))
}

/// `git remote add --end-of-options <name> <url>`.
pub fn add_remote(name: &str, url: &str) -> (r: Result<GitPlan, OpError>)
    ensures
        blank(name@) ==> refused_with(r, "remote name is empty"@),
        !blank(name@) && blank(url@) ==> refused_with(r, "remote URL is empty"@),
        !blank(name@) && !blank(url@) ==> plan_is(r, seq![seq!["remote"@, "add"@, "--end-of-options"@, name@, url@]], false),
{
    if is_blank(name) {
        return refuse("remote name is empty");
    }
    if is_blank(url) {
        return refuse("remote URL is empty");
    }
    let mut a = args1("remote");
    push_arg(&mut a, "add");
    push_arg(&mut a, "--end-of-options");
    push_arg(&mut a, name);
    push_arg(&mut a, url);
    let ghost e = seq!["remote"@, "add"@, "--end-of-options"@, name@, url@];
    assert(strings_view(a@) =~= e);
    single(a, Ghost(e))
}

pub open spec fn reset_flag(mode: ResetMode) -> Seq<char> {
    match mode {
        ResetMode::Soft => "--soft"@,
        ResetMode::Mixed => "--mixed"@,
        ResetMode::Hard => "--hard"@,
    }
}

/// `git reset {--soft|--mixed|--hard} --end-of-options <oid>`.
pub fn reset(oid: &str, mode: ResetMode) -> (r: Result<GitPlan, OpError>)
    ensures
        blank(oid@) ==> refused_with(r, "reset target is empty"@),
        !blank(oid@) ==> plan_is(r, seq![seq!["reset"@, reset_flag(mode), "--end-of-options"@, oid@]], false),
{
    if is_blank(oid) {
        return refuse("reset target is empty");
    }
    let flag = match mode {
        ResetMode::Soft => "--soft",
        ResetMode::Mixed => "--mixed",
        ResetMode::Hard => "--hard",
    };
    let mut a = args1("reset");
    push_arg(&mut a, flag);
    push_arg(&mut a, "--end-of-options");
    push_arg(&mut a, oid);
    let ghost e = seq!["reset"@, reset_flag(mode), "--end-of-options"@, oid@];
    assert(strings_view(a@) =~= e);
    single(a, Ghost(e))
}

/// `git cherry-pick [--no-commit] --end-of-options <oids>`; nothing to run for no oids.
pub fn cherry_pick(oids: &[&str], no_commit: bool) -> (r: Result<GitPlan, OpError>)
    ensures
        oids@.len() == 0 ==> plan_is(r, Seq::empty(), false),
        oids@.len() > 0 ==> plan_is(r, seq![seq!["cherry-pick"@] + (if no_commit { seq!["--no-commit"@] } else { Seq::empty() })
            + seq!["--end-of-options"@] + strs_view(oids@)], false),
{
    let mut a = args1("cherry-pick");
    if no_commit {
        push_arg(&mut a, "--no-commit");
    }
    push_arg(&mut a, "--end-of-options");
    let ghost pre = strings_view(a@);
    assert(pre =~= seq!["cherry-pick"@] + (if no_commit { seq!["--no-commit"@] } else { Seq::empty() })
        + seq!["--end-of-options"@]);
    paths_op(a, oids, Ghost(pre))
}

// ── laws ────────────────────────────────────────────────────────────────

/// The command ends with `--end-of-options` followed by exactly the
/// positional arguments `pos`.
pub open spec fn ends_with_positional(cmd: Seq<Seq<char>>, pos: Seq<Seq<char>>) -> bool {
    &&& cmd.len() > pos.len()
    &&& cmd[cmd.len() - pos.len() - 1] == "--end-of-options"@
    &&& cmd.skip(cmd.len() - pos.len()) == pos
}

/// Every name, ref, oid and remote the user supplies reaches git after
/// `--end-of-options`, as the command's last arguments, so a name such as
/// `-fhostile` is never read as a flag.
pub proof fn law_positional_after_end_of_options(
    name: Seq<char>,
    other: Seq<char>,
    from: Option<Seq<char>>,
    flag: bool,
    message: Seq<char>,
    remote: Seq<char>,
    local: Seq<char>,
    target: Seq<char>,
    mode: ResetMode,
    oids: Seq<Seq<char>>,
)
    ensures
        ends_with_positional(create_branch_cmds(name, from, flag)[0], seq![name] + opt_arg(from)),
        flag ==> ends_with_positional(create_branch_cmds(name, from, flag)[1], seq![name]),
        ends_with_positional(create_tag_args(name, from, message), seq![name] + opt_arg(from)),
        ends_with_positional(push_args(remote, local, target, flag), nonempty_arg(remote) + opt_arg(push_refspec_spec(local, target))),
        ends_with_positional(seq!["fetch"@] + (if flag { seq!["--prune"@] } else { Seq::empty() })
            + seq!["--end-of-options"@] + nonempty_arg(remote), nonempty_arg(remote)),
        ends_with_positional(seq!["merge"@] + (if flag { seq!["--no-ff"@] } else { Seq::empty() })
            + seq!["--end-of-options"@, name], seq![name]),
        ends_with_positional(seq!["cherry-pick"@] + (if flag { seq!["--no-commit"@] } else { Seq::empty() })
            + seq!["--end-of-options"@] + oids, oids),
        ends_with_positional(seq!["reset"@, reset_flag(mode), "--end-of-options"@, name], seq![name]),
        ends_with_positional(seq!["branch"@, if flag { "-D"@ } else { "-d"@ }, "--end-of-options"@, name], seq![name]),
        ends_with_positional(seq!["branch"@, "-m"@, "--end-of-options"@, name, other], seq![name, other]),
        ends_with_positional(seq!["checkout"@, "--end-of-options"@, name], seq![name]),
        ends_with_positional(seq!["rebase"@, "--end-of-options"@, name], seq![name]),
        ends_with_positional(seq!["tag"@, "-d"@, "--end-of-options"@, name], seq![name]),
        ends_with_positional(seq!["remote"@, "remove"@, "--end-of-options"@, name], seq![name]),
        ends_with_positional(seq!["remote"@, "add"@, "--end-of-options"@, name, other], seq![name, other]),
{
    let c0 = create_branch_cmds(name, from, flag)[0];
    assert(c0.skip(2) =~= seq![name] + opt_arg(from));
    if flag {
        assert(create_branch_cmds(name, from, flag)[1] =~= seq!["checkout"@, "--end-of-options"@, name]);
        assert(seq!["checkout"@, "--end-of-options"@, name].skip(2) =~= seq![name]);
    }
    let t = create_tag_args(name, from, message);
    let tp = seq![name] + opt_arg(from);
    assert(t.skip(t.len() - tp.len()) =~= tp);
    let p = push_args(remote, local, target, flag);
    let pp = nonempty_arg(remote) + opt_arg(push_refspec_spec(local, target));
    assert(p.skip(p.len() - pp.len()) =~= pp);
    let f = seq!["fetch"@] + (if flag { seq!["--prune"@] } else { Seq::empty() }) + seq!["--end-of-options"@] + nonempty_arg(remote);
    assert(f.skip(f.len() - nonempty_arg(remote).len()) =~= nonempty_arg(remote));
    let m = seq!["merge"@] + (if flag { seq!["--no-ff"@] } else { Seq::empty() }) + seq!["--end-of-options"@, name];
    assert(m.skip(m.len() - 1) =~= seq![name]);
    let c = seq!["cherry-pick"@] + (if flag { seq!["--no-commit"@] } else { Seq::empty() }) + seq!["--end-of-options"@] + oids;
    assert(c.skip(c.len() - oids.len()) =~= oids);
    assert(seq!["reset"@, reset_flag(mode), "--end-of-options"@, name].skip(3) =~= seq![name]);
    assert(seq!["branch"@, if flag { "-D"@ } else { "-d"@ }, "--end-of-options"@, name].skip(3) =~= seq![name]);
    assert(seq!["branch"@, "-m"@, "--end-of-options"@, name, other].skip(3) =~= seq![name, other]);
    assert(seq!["checkout"@, "--end-of-options"@, name].skip(2) =~= seq![name]);
    assert(seq!["rebase"@, "--end-of-options"@, name].skip(2) =~= seq![name]);
    assert(seq!["tag"@, "-d"@, "--end-of-options"@, name].skip(3) =~= seq![name]);
    assert(seq!["remote"@, "remove"@, "--end-of-options"@, name].skip(3) =~= seq![name]);
    assert(seq!["remote"@, "add"@, "--end-of-options"@, name, other].skip(3) =~= seq![name, other]);
}

} // verus!
