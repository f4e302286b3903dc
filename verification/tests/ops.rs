use gitara::app::ResetMode;
use gitara::git::ops::{
    add_remote, build_push_refspec, checkout, cherry_pick, commit, create_branch, create_tag,
    delete_branch, delete_tag, discard, fetch, first_step, merge, next_step, pull, push, rebase,
    remove_remote, rename_branch, reset, stage, stash_apply, stash_drop, stash_pop, unstage,
    GitOutput, GitPlan, GitStep, OpError,
};

/// Run a plan against the outputs git gives for its commands in turn,
/// recording the commands that ran.
fn run(plan: &GitPlan, outs: &[GitOutput], ran: &mut Vec<Vec<String>>) -> Result<String, OpError> {
    let mut step = first_step(plan);
    let mut i = 0;
    loop {
        match step {
            GitStep::Run(args) => {
                ran.push(args);
                let out = &outs[i];
                step = next_step(plan, i, out);
                i += 1;
            }
            GitStep::Finished(r) => return r,
        }
    }
}

fn ok(stdout: &str) -> GitOutput {
    GitOutput { success: true, stdout: stdout.as_bytes().to_vec(), stderr: Vec::new() }
}

fn failed(stderr: &str) -> GitOutput {
    GitOutput { success: false, stdout: Vec::new(), stderr: stderr.as_bytes().to_vec() }
}

fn cmds(plan: &GitPlan) -> Vec<Vec<String>> {
    plan.commands.clone()
}

fn words(ws: &[&str]) -> Vec<String> {
    ws.iter().map(|w| w.to_string()).collect()
}

fn message(e: &OpError) -> String {
    e.message()
}

#[test]
fn create_branch_duplicate_fails() {
    let plan = create_branch("dup", None, false).unwrap();
    let mut ran = Vec::new();
    let first = run(&plan, &[ok(""), ok("0123abcd\n")], &mut ran);
    assert!(first.is_ok());
    let mut ran = Vec::new();
    let err = run(&plan, &[failed("fatal: a branch named 'dup' already exists\n")], &mut ran).unwrap_err();
    let msg = message(&err);
    assert!(msg.contains("dup") || msg.contains("exists"), "unexpected err: {msg}");
    assert_eq!(ran.len(), 1);
}

#[test]
fn create_branch_empty_name_fails() {
    let err = create_branch("   ", None, false).unwrap_err();
    assert!(message(&err).contains("empty"));
}

#[test]
fn checkout_unknown_ref_fails() {
    let plan = checkout("nope-never-existed").unwrap();
    let mut ran = Vec::new();
    let err = run(
        &plan,
        &[failed("error: pathspec 'nope-never-existed' did not match any file(s) known to git\n")],
        &mut ran,
    )
    .unwrap_err();
    let msg = message(&err);
    assert!(msg.contains("nope-never-existed") || msg.contains("did not match"));
}

#[test]
fn commit_empty_message_fails() {
    let err = commit("   ", false).unwrap_err();
    assert!(message(&err).contains("empty"));
}

#[test]
fn create_tag_empty_name_fails() {
    let err = create_tag("  ", None, "").unwrap_err();
    assert!(message(&err).contains("empty"));
}

#[test]
fn checkout_dash_prefixed_ref_does_not_inject_a_flag() {
    let plan = checkout("-fhostile").unwrap();
    assert_eq!(cmds(&plan), vec![words(&["checkout", "--end-of-options", "-fhostile"])]);
    let mut ran = Vec::new();
    let err = run(
        &plan,
        &[failed("error: pathspec '-fhostile' did not match any file(s) known to git\n")],
        &mut ran,
    )
    .unwrap_err();
    let msg = message(&err);
    assert!(
        msg.contains("-fhostile") || msg.contains("did not match") || msg.contains("not a"),
        "unexpected error (suggests the arg was interpreted as a flag): {msg}",
    );
}

#[test]
fn push_refspec_short_form_when_target_matches_local() {
    assert_eq!(build_push_refspec("main", "main").as_deref(), Some("main"));
    assert_eq!(build_push_refspec("main", "").as_deref(), Some("main"));
    assert_eq!(build_push_refspec("feature/x", "feature/x").as_deref(), Some("feature/x"));
}

#[test]
fn push_refspec_explicit_when_target_renames() {
    assert_eq!(build_push_refspec("feature/x", "pr-123").as_deref(), Some("feature/x:pr-123"));
    assert_eq!(build_push_refspec("main", "release").as_deref(), Some("main:release"));
}

#[test]
fn push_refspec_none_for_empty_local() {
    assert!(build_push_refspec("", "anything").is_none());
    assert!(build_push_refspec("", "").is_none());
}

#[test]
fn create_branch_with_dash_prefix_is_not_treated_as_flag() {
    let plan = create_branch("-fhostile", None, false).unwrap();
    assert_eq!(cmds(&plan)[0], words(&["branch", "--end-of-options", "-fhostile"]));
    let mut ran = Vec::new();
    let err = run(&plan, &[failed("fatal: '-fhostile' is not a valid branch name\n")], &mut ran).unwrap_err();
    let msg = message(&err);
    assert!(
        msg.contains("-fhostile") || msg.contains("not a valid"),
        "unexpected error (suggests the arg was interpreted as a flag): {msg}",
    );
}

#[test]
fn create_branch_plan_resolves_the_new_tip() {
    let plan = create_branch("feature/x", Some("HEAD~1"), true).unwrap();
    assert!(plan.yields_output);
    assert_eq!(
        cmds(&plan),
        vec![
            words(&["branch", "--end-of-options", "feature/x", "HEAD~1"]),
            words(&["checkout", "--end-of-options", "feature/x"]),
            words(&["rev-parse", "refs/heads/feature/x"]),
        ]
    );
    let mut ran = Vec::new();
    let tip = run(&plan, &[ok(""), ok(""), ok("  0123abc\n")], &mut ran).unwrap();
    assert_eq!(tip, "0123abc");
    assert_eq!(ran, cmds(&plan));
}

#[test]
fn failing_command_stops_the_plan_with_its_message() {
    let plan = create_branch("x", None, true).unwrap();
    let mut ran = Vec::new();
    let err = run(&plan, &[ok(""), failed("   \n"), ok("never")], &mut ran).unwrap_err();
    assert_eq!(ran.len(), 2);
    match err {
        OpError::Git(m) => assert_eq!(m, "git checkout --end-of-options x: "),
        OpError::Invalid(_) => panic!("expected a git failure"),
    }
    let plan = checkout("x").unwrap();
    let mut ran = Vec::new();
    let out = GitOutput { success: false, stdout: b" from stdout \n".to_vec(), stderr: b"  ".to_vec() };
    let err = run(&plan, &[out], &mut ran).unwrap_err();
    assert_eq!(message(&err), "git checkout --end-of-options x: from stdout");
}

#[test]
fn empty_plan_succeeds_at_once() {
    let plan = stage(&[]).unwrap();
    assert!(plan.commands.is_empty());
    match first_step(&plan) {
        GitStep::Finished(Ok(v)) => assert_eq!(v, ""),
        _ => panic!("expected an immediate success"),
    }
}

#[test]
fn path_ops_put_paths_after_double_dash() {
    assert_eq!(cmds(&stage(&["a.txt", "-b"]).unwrap()), vec![words(&["add", "--", "a.txt", "-b"])]);
    assert_eq!(cmds(&unstage(&["a.txt"]).unwrap()), vec![words(&["reset", "HEAD", "--", "a.txt"])]);
    assert_eq!(cmds(&discard(&["a.txt"]).unwrap()), vec![words(&["checkout", "--", "a.txt"])]);
}

#[test]
fn commit_plan_amends_and_reads_head() {
    let plan = commit("msg", true).unwrap();
    assert_eq!(
        cmds(&plan),
        vec![words(&["commit", "-m", "msg", "--amend"]), words(&["rev-parse", "HEAD"])]
    );
    assert!(commit("   ", true).is_ok());
}

#[test]
fn write_ops_guard_names_with_end_of_options() {
    assert_eq!(cmds(&delete_branch("b", true).unwrap()), vec![words(&["branch", "-D", "--end-of-options", "b"])]);
    assert_eq!(cmds(&delete_branch("b", false).unwrap()), vec![words(&["branch", "-d", "--end-of-options", "b"])]);
    assert_eq!(cmds(&rename_branch("a", "b").unwrap()), vec![words(&["branch", "-m", "--end-of-options", "a", "b"])]);
    assert_eq!(cmds(&remove_remote("o").unwrap()), vec![words(&["remote", "remove", "--end-of-options", "o"])]);
    assert_eq!(cmds(&delete_tag("t").unwrap()), vec![words(&["tag", "-d", "--end-of-options", "t"])]);
    assert_eq!(cmds(&rebase("main").unwrap()), vec![words(&["rebase", "--end-of-options", "main"])]);
    assert_eq!(cmds(&merge("f", true).unwrap()), vec![words(&["merge", "--no-ff", "--end-of-options", "f"])]);
    assert_eq!(cmds(&fetch("", true).unwrap()), vec![words(&["fetch", "--prune", "--end-of-options"])]);
    assert_eq!(cmds(&fetch("origin", false).unwrap()), vec![words(&["fetch", "--end-of-options", "origin"])]);
    assert_eq!(
        cmds(&add_remote("up", "https://x").unwrap()),
        vec![words(&["remote", "add", "--end-of-options", "up", "https://x"])]
    );
    assert_eq!(
        cmds(&reset("abc", ResetMode::Hard).unwrap()),
        vec![words(&["reset", "--hard", "--end-of-options", "abc"])]
    );
    assert_eq!(
        cmds(&cherry_pick(&["a", "b"], true).unwrap()),
        vec![words(&["cherry-pick", "--no-commit", "--end-of-options", "a", "b"])]
    );
    assert_eq!(cmds(&pull().unwrap()), vec![words(&["pull"])]);
}

#[test]
fn push_plan_uses_the_refspec() {
    assert_eq!(
        cmds(&push("origin", "main", "release", true).unwrap()),
        vec![words(&["push", "--force-with-lease", "--end-of-options", "origin", "main:release"])]
    );
    assert_eq!(cmds(&push("", "", "", false).unwrap()), vec![words(&["push", "--end-of-options"])]);
}

#[test]
fn tag_plans_annotate_only_with_a_message() {
    assert_eq!(
        cmds(&create_tag("v1", Some("abc"), "notes").unwrap()),
        vec![words(&["tag", "-a", "-m", "notes", "--end-of-options", "v1", "abc"])]
    );
    assert_eq!(cmds(&create_tag("v1", None, "  ").unwrap()), vec![words(&["tag", "--end-of-options", "v1"])]);
}

#[test]
fn refusals_name_the_missing_input() {
    assert_eq!(message(&delete_branch(" ", false).unwrap_err()), "branch name is empty");
    assert_eq!(message(&rename_branch("a", "").unwrap_err()), "rename: empty name");
    assert_eq!(message(&remove_remote("").unwrap_err()), "remote name is empty");
    assert_eq!(message(&delete_tag("").unwrap_err()), "tag name is empty");
    assert_eq!(message(&checkout("").unwrap_err()), "checkout target is empty");
    assert_eq!(message(&add_remote("", "u").unwrap_err()), "remote name is empty");
    assert_eq!(message(&add_remote("n", " ").unwrap_err()), "remote URL is empty");
    assert_eq!(message(&reset("", ResetMode::Soft).unwrap_err()), "reset target is empty");
    assert!(matches!(checkout(""), Err(OpError::Invalid(_))));
}

#[test]
fn stash_ops_name_the_stash() {
    assert_eq!(cmds(&stash_apply(0).unwrap()), vec![words(&["stash", "apply", "stash@{0}"])]);
    assert_eq!(cmds(&stash_pop(12).unwrap()), vec![words(&["stash", "pop", "stash@{12}"])]);
    assert_eq!(cmds(&stash_drop(3).unwrap()), vec![words(&["stash", "drop", "stash@{3}"])]);
}

const HEAD: &str = "1111111111111111111111111111111111111111";
const PARENT: &str = "2222222222222222222222222222222222222222";

#[test]
fn create_branch_from_head() {
    let plan = create_branch("feature/x", None, false).unwrap();
    let mut ran = Vec::new();
    let oid = run(&plan, &[ok(""), ok(&format!("{HEAD}\n"))], &mut ran).unwrap();
    assert_eq!(oid, HEAD);
    assert_eq!(ran[1], words(&["rev-parse", "refs/heads/feature/x"]));
}

#[test]
fn create_branch_from_explicit_rev() {
    let plan = create_branch("back", Some("HEAD~1"), false).unwrap();
    assert_eq!(cmds(&plan)[0], words(&["branch", "--end-of-options", "back", "HEAD~1"]));
    let mut ran = Vec::new();
    let oid = run(&plan, &[ok(""), ok(&format!("{PARENT}\n"))], &mut ran).unwrap();
    assert_eq!(oid, PARENT);
}

#[test]
fn create_branch_checkout_moves_head() {
    let plan = create_branch("feature/checkout", None, true).unwrap();
    assert_eq!(cmds(&plan)[1], words(&["checkout", "--end-of-options", "feature/checkout"]));
    let mut ran = Vec::new();
    assert!(run(&plan, &[ok(""), ok("Switched to branch 'feature/checkout'\n"), ok(HEAD)], &mut ran).is_ok());
    assert_eq!(ran.len(), 3);
}

#[test]
fn checkout_branch_moves_head() {
    let plan = checkout("side").unwrap();
    assert_eq!(cmds(&plan), vec![words(&["checkout", "--end-of-options", "side"])]);
    let mut ran = Vec::new();
    assert_eq!(run(&plan, &[ok("Switched to branch 'side'\n")], &mut ran).unwrap(), "");
}

#[test]
fn commit_creates_new_oid() {
    let staged = stage(&["new.txt"]).unwrap();
    let mut ran = Vec::new();
    assert!(run(&staged, &[ok("")], &mut ran).is_ok());
    let plan = commit("second", false).unwrap();
    let mut ran = Vec::new();
    let new_oid = run(&plan, &[ok("[main 1111111] second\n"), ok(&format!("{HEAD}\n"))], &mut ran).unwrap();
    assert_ne!(new_oid, PARENT);
    assert_eq!(new_oid, HEAD);
}

#[test]
fn create_lightweight_tag_at_head() {
    let plan = create_tag("v0.1.0", None, "").unwrap();
    assert_eq!(cmds(&plan), vec![words(&["tag", "--end-of-options", "v0.1.0"])]);
}

#[test]
fn create_annotated_tag_at_specific_commit() {
    let plan = create_tag("release", Some(PARENT), "release notes").unwrap();
    assert_eq!(
        cmds(&plan),
        vec![words(&["tag", "-a", "-m", "release notes", "--end-of-options", "release", PARENT])]
    );
    assert!(!plan.yields_output);
}
