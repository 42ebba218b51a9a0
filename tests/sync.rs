use mgit::git::StashMode;
use mgit::manifest::TomlRepo;
use mgit::sync::{Action, Phase, SyncMachine, SyncStep};

const URL: &str = "https://gitee.com/ForthEspada/CS-Books.git";
const SHA: &str = "8d90314117b4cb86abb6c4d55130437c6d87a30d";

fn ok(s: &str) -> Result<String, String> {
    Ok(s.to_string())
}

fn err(s: &str) -> Result<String, String> {
    Err(s.to_string())
}

fn git(a: &Action) -> Vec<String> {
    match a {
        Action::Git(v) => v.clone(),
        other => panic!("expected a git command, got {:?}", other),
    }
}

fn args(v: &[&str]) -> Vec<String> {
    v.iter().map(|s| s.to_string()).collect()
}

fn repo(commit: Option<&str>, branch: Option<&str>) -> TomlRepo {
    TomlRepo {
        local: Some("foobar-1".to_string()),
        remote: Some(URL.to_string()),
        branch: branch.map(|s| s.to_string()),
        tag: None,
        commit: commit.map(|s| s.to_string()),
    }
}

fn remote_list() -> Result<String, String> {
    Ok(format!("origin\t{} (fetch)\norigin\t{} (push)\n", URL, URL))
}

/// Drives an existing repository up to the point where the target is known.
fn to_resolved(m: &mut SyncMachine, target: &str) {
    assert!(matches!(m.start(), Action::CreateDir));
    assert!(matches!(m.step(ok("")), Action::CheckGitDir));
    assert_eq!(git(&m.step(ok(""))), args(&["rev-parse", "--show-cdup"]));
    assert_eq!(git(&m.step(ok("\n"))), args(&["remote", "-v"]));
    assert_eq!(git(&m.step(remote_list())), args(&["fetch", "origin"]));
    assert_eq!(git(&m.step(ok(""))), args(&["branch", "--contains", target, "-r"]));
}

#[test]
fn sync_hard_from_empty() {
    let mut m = SyncMachine::new(&repo(Some(SHA), None), &Some("develop".to_string()), StashMode::Normal, false, None);
    assert!(matches!(m.start(), Action::CreateDir));
    assert!(matches!(m.step(ok("")), Action::CheckGitDir));
    // no .git directory: the repository is created and the sync runs hard
    assert_eq!(git(&m.step(err("no .git"))), args(&["init", "-b", "master"]));
    assert_eq!(m.mode(), StashMode::Hard);
    assert_eq!(git(&m.step(ok(""))), args(&["remote", "add", "origin", URL]));
    assert_eq!(git(&m.step(ok(""))), args(&["remote", "-v"]));
    assert_eq!(git(&m.step(remote_list())), args(&["fetch", "origin"]));
    assert_eq!(git(&m.step(ok(""))), args(&["branch", "--contains", SHA, "-r"]));
    assert_eq!(git(&m.step(ok("  origin/master\n"))), args(&["clean", "-fd"]));
    assert_eq!(git(&m.step(ok(""))), args(&["branch", "--show-current"]));
    assert_eq!(git(&m.step(ok("master\n"))), args(&["branch", "-l", "master"]));
    // the unborn master is not listed
    assert_eq!(git(&m.step(ok(""))), args(&["branch", "-l", "commits/8d90314"]));
    assert_eq!(
        git(&m.step(ok(""))),
        args(&["checkout", "-B", "commits/8d90314", SHA, "--no-track", "-f"])
    );
    assert_eq!(git(&m.step(ok(""))), args(&["reset", "--hard", SHA]));
    match m.step(ok("HEAD is now at 8d90314")) {
        Action::Finish(r) => assert!(r.is_ok()),
        other => panic!("expected the end, got {:?}", other),
    }
    assert_eq!(m.phase(), Phase::Done);
}

#[test]
fn tracking_only_for_a_synced_branch() {
    let mut m = SyncMachine::new(&repo(None, Some("master")), &None, StashMode::Hard, true, None);
    to_resolved(&mut m, "origin/master");
    assert_eq!(m.tracking_args(false), None);
    m.step(ok(""));
    m.step(ok(""));
    assert!(matches!(m.step(ok("")), Action::Finish(Ok(()))));
    assert_eq!(m.tracking_args(false), Some(args(&["branch", "--set-upstream-to", "origin/master"])));
    assert_eq!(m.tracking_args(true), None);

    let mut m = SyncMachine::new(&repo(Some(SHA), Some("master")), &None, StashMode::Hard, true, None);
    to_resolved(&mut m, SHA);
    m.step(ok(""));
    m.step(ok(""));
    assert!(matches!(m.step(ok("")), Action::Finish(Ok(()))));
    assert_eq!(m.tracking_args(false), None);
}

#[test]
fn sync_second_run_is_a_no_op() {
    let mut m = SyncMachine::new(&repo(Some(SHA), None), &None, StashMode::Normal, false, None);
    to_resolved(&mut m, SHA);
    assert_eq!(git(&m.step(ok(""))), args(&["ls-files", "-o", "--exclude-standard"]));
    assert_eq!(git(&m.step(ok(""))), args(&["stash", "-u"]));
    assert_eq!(git(&m.step(ok(""))), args(&["branch", "--show-current"]));
    assert_eq!(git(&m.step(ok("commits/8d90314\n"))), args(&["branch", "-l", "commits/8d90314"]));
    // already on the branch: no checkout
    assert_eq!(git(&m.step(ok("* commits/8d90314\n"))), args(&["reset", "--hard", SHA]));
    match m.step(ok("")) {
        Action::Finish(r) => assert!(r.is_ok()),
        other => panic!("expected the end, got {:?}", other),
    }
}

#[test]
fn sync_commit_wins_over_branch() {
    let mut m = SyncMachine::new(&repo(Some(SHA), Some("master")), &None, StashMode::Hard, true, Some(1));
    assert!(matches!(m.start(), Action::CreateDir));
    assert!(matches!(m.step(ok("")), Action::CheckGitDir));
    assert_eq!(git(&m.step(ok(""))), args(&["rev-parse", "--show-cdup"]));
    assert_eq!(git(&m.step(ok(""))), args(&["remote", "-v"]));
    assert_eq!(git(&m.step(remote_list())), args(&["fetch", "origin", "--depth", "1"]));
    assert_eq!(git(&m.step(ok(""))), args(&["branch", "--contains", SHA, "-r"]));
    assert_eq!(git(&m.step(ok(""))), args(&["clean", "-fd"]));
    assert_eq!(git(&m.step(ok(""))), args(&["reset", "--hard", SHA]));
}

#[test]
fn sync_branch_from_default_branch() {
    let mut m = SyncMachine::new(&repo(None, None), &Some("develop".to_string()), StashMode::Normal, true, Some(12));
    assert!(matches!(m.start(), Action::CreateDir));
    assert!(matches!(m.step(ok("")), Action::CheckGitDir));
    assert_eq!(git(&m.step(ok(""))), args(&["rev-parse", "--show-cdup"]));
    assert_eq!(git(&m.step(ok(""))), args(&["remote", "-v"]));
    assert_eq!(git(&m.step(remote_list())), args(&["fetch", "origin", "--depth", "12"]));
    assert_eq!(git(&m.step(ok(""))), args(&["branch", "--contains", "origin/develop", "-r"]));
    // no checkout: a soft reset
    assert_eq!(git(&m.step(ok(""))), args(&["reset", "--soft", "origin/develop"]));
}

#[test]
fn sync_normal_pops_stash_after_failed_checkout() {
    let mut m = SyncMachine::new(&repo(None, Some("master")), &None, StashMode::Normal, false, None);
    to_resolved(&mut m, "origin/master");
    assert_eq!(git(&m.step(ok(""))), args(&["ls-files", "-o", "--exclude-standard"]));
    assert_eq!(git(&m.step(ok("new.txt\n"))), args(&["add", "new.txt"]));
    assert_eq!(git(&m.step(ok(""))), args(&["stash", "-u"]));
    assert_eq!(
        git(&m.step(ok("Saved working directory and index state WIP on master: 1234 msg"))),
        args(&["branch", "--show-current"])
    );
    assert_eq!(git(&m.step(ok("dev\n"))), args(&["branch", "-l", "dev"]));
    assert_eq!(git(&m.step(ok("  dev\n  master\n"))), args(&["branch", "-l", "master"]));
    assert_eq!(git(&m.step(ok("  master\n"))), args(&["checkout", "master"]));
    assert_eq!(git(&m.step(err("error: would be overwritten"))), args(&["stash", "pop"]));
    match m.step(err("conflict")) {
        Action::Finish(Err(e)) => {
            assert_eq!(e.step, SyncStep::Checkout);
            assert_eq!(e.message, "error: would be overwritten");
        },
        other => panic!("expected a failure, got {:?}", other),
    }
}

#[test]
fn sync_normal_pops_stash_after_success() {
    let mut m = SyncMachine::new(&repo(None, Some("master")), &None, StashMode::Normal, false, None);
    to_resolved(&mut m, "origin/master");
    assert_eq!(git(&m.step(ok(""))), args(&["ls-files", "-o", "--exclude-standard"]));
    assert_eq!(git(&m.step(ok(""))), args(&["stash", "-u"]));
    assert_eq!(git(&m.step(ok("Saved working directory and index state WIP on master"))), args(&["branch", "--show-current"]));
    assert_eq!(git(&m.step(ok("master\n"))), args(&["branch", "-l", "master"]));
    assert_eq!(git(&m.step(ok("* master\n"))), args(&["reset", "--hard", "origin/master"]));
    assert_eq!(git(&m.step(ok(""))), args(&["stash", "pop"]));
    match m.step(ok("")) {
        Action::Finish(r) => assert!(r.is_ok()),
        other => panic!("expected the end, got {:?}", other),
    }
}

#[test]
fn sync_stash_mode_keeps_stash_on_success() {
    let mut m = SyncMachine::new(&repo(None, Some("master")), &None, StashMode::Stash, true, None);
    to_resolved(&mut m, "origin/master");
    assert_eq!(git(&m.step(ok(""))), args(&["ls-files", "-o", "--exclude-standard"]));
    assert_eq!(git(&m.step(err("ls-files failed"))), args(&["reset", "--mixed", "origin/master"]));
    match m.step(ok("")) {
        Action::Finish(r) => assert!(r.is_ok()),
        other => panic!("expected the end, got {:?}", other),
    }
}

#[test]
fn sync_stash_mode_pops_on_failure() {
    let mut m = SyncMachine::new(&repo(None, Some("master")), &None, StashMode::Stash, false, None);
    to_resolved(&mut m, "origin/master");
    assert_eq!(git(&m.step(ok(""))), args(&["ls-files", "-o", "--exclude-standard"]));
    assert_eq!(git(&m.step(ok(""))), args(&["stash", "-u"]));
    assert_eq!(git(&m.step(ok("Saved ... WIP on dev"))), args(&["branch", "--show-current"]));
    assert_eq!(git(&m.step(err("detached"))), args(&["branch", "-l", "master"]));
    assert_eq!(git(&m.step(ok(""))), args(&["checkout", "-B", "master", "origin/master", "--no-track", "-f"]));
    assert_eq!(git(&m.step(ok(""))), args(&["reset", "--hard", "origin/master"]));
    assert_eq!(git(&m.step(err("reset failed"))), args(&["stash", "pop"]));
    match m.step(ok("")) {
        Action::Finish(Err(e)) => assert_eq!(e.step, SyncStep::Reset),
        other => panic!("expected a failure, got {:?}", other),
    }
}

#[test]
fn sync_tag_target() {
    let mut e = repo(None, Some("master"));
    e.tag = Some("v1.0".to_string());
    let mut m = SyncMachine::new(&e, &None, StashMode::Hard, false, None);
    to_resolved(&mut m, "v1.0");
    assert_eq!(git(&m.step(ok(""))), args(&["clean", "-fd"]));
    assert_eq!(git(&m.step(ok(""))), args(&["branch", "--show-current"]));
    assert_eq!(git(&m.step(ok(""))), args(&["branch", "-l", "tags/v1.0"]));
    assert_eq!(git(&m.step(ok("  tags/v1.0\n"))), args(&["checkout", "-B", "tags/v1.0", "-f"]));
}

fn finish_err(a: Action) -> SyncStep {
    match a {
        Action::Finish(Err(e)) => e.step,
        other => panic!("expected a failure, got {:?}", other),
    }
}

#[test]
fn sync_errors() {
    let mut m = SyncMachine::new(&TomlRepo::default(), &None, StashMode::Normal, false, None);
    assert_eq!(finish_err(m.start()), SyncStep::Entry);

    let mut m = SyncMachine::new(&repo(Some(SHA), None), &None, StashMode::Normal, false, None);
    m.start();
    assert_eq!(finish_err(m.step(err("permission denied"))), SyncStep::CreateDir);

    let mut m = SyncMachine::new(&repo(Some(SHA), None), &None, StashMode::Normal, false, None);
    m.start();
    m.step(ok(""));
    m.step(err(""));
    assert_eq!(finish_err(m.step(err("init failed"))), SyncStep::Init);

    let mut m = SyncMachine::new(&repo(Some(SHA), None), &None, StashMode::Normal, false, None);
    m.start();
    m.step(ok(""));
    m.step(ok(""));
    m.step(ok(""));
    match m.step(ok("upstream\thttps://elsewhere (fetch)\n")) {
        Action::Finish(Err(e)) => {
            assert_eq!(e.step, SyncStep::RemoteLookup);
            assert_eq!(e.message, format!("remote not found: {}", URL));
        },
        other => panic!("expected a failure, got {:?}", other),
    }

    let mut m = SyncMachine::new(&repo(Some(SHA), None), &None, StashMode::Normal, false, None);
    m.start();
    m.step(ok(""));
    m.step(ok(""));
    m.step(ok(""));
    m.step(remote_list());
    assert_eq!(finish_err(m.step(err("could not read from remote"))), SyncStep::Fetch);

    let mut m = SyncMachine::new(&repo(None, None), &None, StashMode::Normal, false, None);
    m.start();
    m.step(ok(""));
    m.step(ok(""));
    m.step(ok(""));
    m.step(remote_list());
    assert_eq!(finish_err(m.step(ok(""))), SyncStep::Resolve);

    let mut m = SyncMachine::new(&repo(Some(SHA), None), &None, StashMode::Hard, false, None);
    to_resolved(&mut m, SHA);
    assert_eq!(finish_err(m.step(err("malformed object name"))), SyncStep::Validate);

    let mut m = SyncMachine::new(&repo(Some(SHA), None), &None, StashMode::Hard, false, None);
    to_resolved(&mut m, SHA);
    m.step(ok(""));
    assert_eq!(finish_err(m.step(err("clean failed"))), SyncStep::Clean);
}
