use mgit::compare::{changes_desc, commit_desc, diff_desc, rev_list_desc, up_to_date_desc, CmpAction, Comparator};
use mgit::manifest::TomlRepo;

fn ok(s: &str) -> Result<String, String> {
    Ok(s.to_string())
}

fn git(a: &CmpAction) -> Vec<String> {
    match a {
        CmpAction::Git(v) => v.clone(),
        other => panic!("expected a git command, got {:?}", other),
    }
}

fn entry() -> TomlRepo {
    TomlRepo {
        local: Some("foobar-1".to_string()),
        remote: Some("https://a/x.git".to_string()),
        ..TomlRepo::default()
    }
}

#[test]
fn fragments() {
    assert_eq!(commit_desc(Some(("0".to_string(), "0".to_string()))), "");
    assert_eq!(commit_desc(Some(("2".to_string(), "0".to_string()))), "ahead 2, behind 0");
    assert_eq!(commit_desc(None), "unknown revision");
    assert_eq!(rev_list_desc(&ok("3\t5\n")), "ahead 3, behind 5");
    assert_eq!(rev_list_desc(&ok("0\t0\n")), "");
    assert_eq!(rev_list_desc(&ok("garbage")), "unknown revision");
    assert_eq!(rev_list_desc(&Err("fatal: bad revision".to_string())), "unknown revision");
    assert_eq!(changes_desc(0), "");
    assert_eq!(changes_desc(3), "3 changes");
    assert_eq!(diff_desc("origin/master", "ahead 1, behind 0", "2 changes"), "origin/master: ahead 1, behind 0, 2 changes");
    assert_eq!(diff_desc("v1", "", "2 changes"), "v1: 2 changes");
    assert_eq!(up_to_date_desc("[master] init"), "already update to date. [master] init");
    assert_eq!(up_to_date_desc(""), "already update to date.");
}

fn to_listing(c: &mut Comparator) {
    assert!(matches!(c.start(), CmpAction::CheckGitDir));
    assert_eq!(git(&c.step(ok(""))), vec!["rev-parse", "--show-cdup"]);
    assert_eq!(git(&c.step(ok(""))), vec!["remote", "-v"]);
    assert_eq!(git(&c.step(ok("origin\thttps://a/x.git (fetch)\n"))), vec!["ls-files", ".", "--exclude-standard", "--others"]);
}

#[test]
fn compare_counts_distinct_files() {
    let mut c = Comparator::new(&entry(), &Some("master".to_string()), false);
    to_listing(&mut c);
    assert_eq!(git(&c.step(ok("new.txt\n"))), vec!["diff", "--name-only"]);
    assert_eq!(git(&c.step(ok("a.txt\nb.txt\n"))), vec!["diff", "--cached", "--name-only"]);
    assert_eq!(git(&c.step(ok("a.txt\n"))), vec!["branch", "--show-current"]);
    assert_eq!(git(&c.step(ok("master\n"))), vec!["branch", "-l", "master"]);
    assert_eq!(git(&c.step(ok("* master\n"))), vec!["rev-list", "--count", "--left-right", "master...origin/master"]);
    match c.step(ok("1\t2\n")) {
        CmpAction::Done(Some(s)) => assert_eq!(s, "origin/master: ahead 1, behind 2, 3 changes"),
        other => panic!("unexpected {:?}", other),
    }
}

#[test]
fn compare_up_to_date() {
    let mut c = Comparator::new(&entry(), &Some("master".to_string()), false);
    to_listing(&mut c);
    c.step(ok(""));
    c.step(ok(""));
    c.step(ok(""));
    c.step(ok("master\n"));
    c.step(ok("* master\n"));
    assert_eq!(git(&c.step(ok("0\t0\n"))), vec!["show-branch", "--sha1-name", "master"]);
    match c.step(ok("[master] init\n")) {
        CmpAction::Done(Some(s)) => assert_eq!(s, "already update to date. [master] init"),
        other => panic!("unexpected {:?}", other),
    }
}

#[test]
fn compare_commit_target_is_shortened() {
    let mut e = entry();
    e.commit = Some("8d90314117b4cb86abb6c4d55130437c6d87a30d".to_string());
    let mut c = Comparator::new(&e, &None, false);
    assert!(matches!(c.start(), CmpAction::CheckGitDir));
    assert_eq!(git(&c.step(ok(""))), vec!["rev-parse", "--show-cdup"]);
    // a commit needs no remote lookup
    assert_eq!(git(&c.step(ok(""))), vec!["ls-files", ".", "--exclude-standard", "--others"]);
    c.step(ok(""));
    c.step(ok(""));
    c.step(ok(""));
    c.step(ok("master\n"));
    c.step(ok("* master\n"));
    match c.step(Err("unknown revision".to_string())) {
        CmpAction::Done(Some(s)) => assert_eq!(s, "8d90314: unknown revision"),
        other => panic!("unexpected {:?}", other),
    }
}

#[test]
fn compare_detached_head_is_init_commit() {
    let mut c = Comparator::new(&entry(), &Some("master".to_string()), false);
    to_listing(&mut c);
    c.step(ok(""));
    c.step(ok(""));
    assert_eq!(git(&c.step(ok(""))), vec!["branch", "--show-current"]);
    match c.step(ok("\n")) {
        CmpAction::Done(Some(s)) => assert_eq!(s, "init commit"),
        other => panic!("unexpected {:?}", other),
    }
}

#[test]
fn compare_unborn_branch_is_init_commit() {
    let mut c = Comparator::new(&entry(), &Some("master".to_string()), false);
    to_listing(&mut c);
    c.step(ok(""));
    c.step(ok(""));
    c.step(ok(""));
    assert_eq!(git(&c.step(ok("master\n"))), vec!["branch", "-l", "master"]);
    match c.step(ok("")) {
        CmpAction::Done(Some(s)) => assert_eq!(s, "init commit"),
        other => panic!("unexpected {:?}", other),
    }
}

#[test]
fn compare_with_tracking_branch() {
    let mut c = Comparator::new(&entry(), &None, true);
    assert!(matches!(c.start(), CmpAction::CheckGitDir));
    c.step(ok(""));
    assert_eq!(git(&c.step(ok(""))), vec!["rev-parse", "--symbolic-full-name", "--abbrev-ref", "@{u}"]);
    match c.step(ok("\n")) {
        CmpAction::Done(None) => {},
        other => panic!("unexpected {:?}", other),
    }
}

#[test]
fn compare_outside_a_repository() {
    let mut c = Comparator::new(&entry(), &None, false);
    c.start();
    match c.step(Err("no .git".to_string())) {
        CmpAction::Done(None) => {},
        other => panic!("unexpected {:?}", other),
    }
}
