use mgit::git::{
    add_untracked_files, check_remote_branch_exist, checkout, fetch, find_remote_name_by_url,
    find_remote_url_by_name, get_branch_log, get_current_branch, get_current_commit,
    get_head_tags, get_remote_branches, get_tracking_branch, init, is_remote_ref_valid,
    is_repository, local_branch_already_exist, new_local_tag, new_remote_branch, reset,
    set_tracking_remote_branch, sparse_checkout_set, GitError, ResetType,
};
use mgit::text::{decimal_string, lines, replace_str, split_char, trim_str};

fn args(v: &[&str]) -> Vec<String> {
    v.iter().map(|s| s.to_string()).collect()
}

#[test]
fn text_helpers() {
    assert_eq!(trim_str("  a b \n\t"), "a b");
    assert_eq!(trim_str("\u{3000}x\u{a0}"), "x");
    assert_eq!(lines("a\r\nb\n\nc\n"), args(&["a", "b", "", "c"]));
    assert!(lines("").is_empty());
    assert_eq!(split_char("a\nb\n", '\n'), args(&["a", "b", ""]));
    assert_eq!(replace_str("origin/a/origin/b", "origin/", ""), "a/b");
    assert_eq!(decimal_string(0), "0");
    assert_eq!(decimal_string(10203), "10203");
}

#[test]
fn repository_detection() {
    assert!(is_repository(true, &Ok("\n".to_string())).is_ok());
    assert_eq!(is_repository(true, &Ok("../\n".to_string())), Err(GitError::RepositoryNotFound));
    assert_eq!(is_repository(false, &Ok(String::new())), Err(GitError::RepositoryNotFound));
    assert_eq!(is_repository(true, &Err("fatal".to_string())), Err(GitError::RepositoryNotFound));
}

#[test]
fn remote_lookup() {
    let out = "origin\thttps://a/x.git (fetch)\norigin\thttps://a/x.git (push)\nup\thttps://b/y.git (fetch)\n";
    assert_eq!(find_remote_name_by_url(out, "https://b/y.git"), Ok("up".to_string()));
    assert_eq!(find_remote_name_by_url(out, "https://a/x.git"), Ok("origin".to_string()));
    assert_eq!(
        find_remote_name_by_url(out, "https://c/z.git"),
        Err(GitError::RemoteNotFound("https://c/z.git".to_string()))
    );
    assert_eq!(find_remote_url_by_name("origin", "  https://a/x.git \n"), Ok("https://a/x.git".to_string()));
    assert_eq!(find_remote_url_by_name("origin", "\n"), Err(GitError::RemoteNotFound("origin".to_string())));
}

#[test]
fn inspection() {
    assert_eq!(get_current_commit("abc123\n"), Ok("abc123".to_string()));
    assert_eq!(get_current_commit(""), Err(GitError::CommitNotFound));
    assert_eq!(get_tracking_branch("origin/master\n"), Ok("origin/master".to_string()));
    assert_eq!(get_tracking_branch(" \n"), Err(GitError::Untracked));
    assert_eq!(get_head_tags("v1\nv2\n"), Ok(args(&["v1", "v2"])));
    assert_eq!(get_head_tags(""), Ok(vec![]));
    assert!(matches!(get_head_tags("fatal: bad"), Err(GitError::Command(_))));
    assert_eq!(get_current_branch("master", &Ok("* master\n".to_string())), Ok("master".to_string()));
    assert_eq!(get_current_branch("master", &Ok("".to_string())), Err(GitError::CurrentBranchNotFound));
    assert_eq!(get_current_branch("master", &Err("boom".to_string())), Err(GitError::Command("boom".to_string())));
    assert_eq!(get_branch_log(&Ok(" [master] msg \n".to_string())), "[master] msg");
    assert_eq!(get_branch_log(&Err("x".to_string())), "");
    assert!(local_branch_already_exist("dev", "  dev\n"));
    assert!(!local_branch_already_exist("dev", "\n"));
    assert_eq!(
        get_remote_branches(&Ok("  origin/HEAD -> origin/master\n  origin/dev\n".to_string())),
        args(&["HEAD -> master", "dev"])
    );
    assert!(get_remote_branches(&Err("x".to_string())).is_empty());
    assert!(check_remote_branch_exist("dev", "1234\trefs/heads/dev\n"));
    assert!(!check_remote_branch_exist("dev", ""));
}

#[test]
fn snapshot_readers_on_the_test_tree() {
    assert_eq!(
        get_current_commit("8d90314117b4cb86abb6c4d55130437c6d87a30d\n"),
        Ok("8d90314117b4cb86abb6c4d55130437c6d87a30d".to_string())
    );
    assert_eq!(
        get_current_branch("master", &Ok("* master\n".to_string())),
        Ok("master".to_string())
    );
    assert_eq!(
        find_remote_url_by_name("origin", "https://gitee.com/ForthEspada/CS-Books.git\n"),
        Ok("https://gitee.com/ForthEspada/CS-Books.git".to_string())
    );
}

#[test]
fn ref_validity() {
    assert!(is_remote_ref_valid("origin/x", &Ok(String::new())).is_ok());
    assert_eq!(
        is_remote_ref_valid("origin/x", &Err("error".to_string())),
        Err(GitError::RemoteNotFound("origin/x".to_string()))
    );
}

#[test]
fn untracked_staging() {
    assert_eq!(add_untracked_files(""), None);
    assert_eq!(add_untracked_files("a.txt\nb/c.txt\n"), Some(args(&["add", "a.txt", "b/c.txt"])));
}

#[test]
fn argument_vectors() {
    assert_eq!(init(), args(&["init", "-b", "master"]));
    assert_eq!(reset(ResetType::Soft, "r"), args(&["reset", "--soft", "r"]));
    assert_eq!(reset(ResetType::Mixed, "r"), args(&["reset", "--mixed", "r"]));
    assert_eq!(reset(ResetType::Hard, "r"), args(&["reset", "--hard", "r"]));
    assert_eq!(checkout("b", "r", false, false), args(&["checkout", "-B", "b", "r", "--no-track"]));
    assert_eq!(checkout("b", "r", false, true), args(&["checkout", "-B", "b", "r", "--no-track", "-f"]));
    assert_eq!(checkout("b", "r", true, false), args(&["checkout", "b"]));
    assert_eq!(checkout("b", "r", true, true), args(&["checkout", "-B", "b", "-f"]));
    assert_eq!(fetch("origin", None), args(&["fetch", "origin"]));
    assert_eq!(fetch("origin", Some(30)), args(&["fetch", "origin", "--depth", "30"]));
    assert_eq!(
        new_remote_branch("master", "feat"),
        args(&["push", "origin", "origin/master:refs/heads/feat", "--force"])
    );
    assert_eq!(new_local_tag("", "v1"), args(&["tag", "v1", "--force"]));
    assert_eq!(new_local_tag("abc", "v1"), args(&["tag", "v1", "--force", "abc"]));
    assert_eq!(
        sparse_checkout_set(&args(&["a", "b"])),
        args(&["sparse-checkout", "set", "--no-cone", "a", "b"])
    );
}

#[test]
fn tracking_messages() {
    assert_eq!(
        set_tracking_remote_branch("foobar-1", "master", "origin/master", &Ok(String::new())),
        "foobar-1: master -> origin/master"
    );
    assert_eq!(
        set_tracking_remote_branch("foobar-1", "master", "origin/master", &Err(String::new())),
        "foobar-1: untracked, origin/master not found"
    );
}
