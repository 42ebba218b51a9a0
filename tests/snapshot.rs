use mgit::git::GitError;
use mgit::manifest::TomlRepo;
use mgit::snapshot::{snapshot, snapshot_entry};

const URL: &str = "https://gitee.com/ForthEspada/CS-Books.git";
const SHA_A: &str = "8d90314117b4cb86abb6c4d55130437c6d87a30d";
const SHA_B: &str = "1e835f92604ee5d0b37fc32ea7694d57ff19815e";

fn remote_out() -> Result<String, String> {
    Ok(format!("{}\n", URL))
}

fn entry(local: &str, head: &str, branch_mode: bool) -> TomlRepo {
    snapshot_entry(local, &remote_out(), Ok(head.to_string()), branch_mode)
}

fn manifest(found: Vec<TomlRepo>, force: bool, ignore: Option<Vec<&str>>) -> String {
    let ignore = ignore.map(|v| v.into_iter().map(|s| s.to_string()).collect());
    snapshot(found, force, ignore).serialize()
}

fn tree3(branch_mode: bool) -> Vec<TomlRepo> {
    let head = |sha: &str| if branch_mode { "master".to_string() } else { sha.to_string() };
    vec![
        entry("foobar-2/foobar-2-2", &head(SHA_B), branch_mode),
        entry("foobar-1", &head(SHA_A), branch_mode),
        entry(".", &head(SHA_B), branch_mode),
        entry("foobar-2", &head(SHA_A), branch_mode),
        entry("foobar-1/foobar-1-2", &head(SHA_B), branch_mode),
        entry("foobar-2/foobar-2-1", &head(SHA_B), branch_mode),
        entry("foobar-1/foobar-1-1", &head(SHA_B), branch_mode),
    ]
}

#[test]
fn cli_init_simple() {
    let found = vec![entry("foobar-2", "master", true), entry("foobar-1", "master", true)];
    let real_result = manifest(found, false, None);
    let expect_result = r#"
# This file is automatically @generated by mgit.
# Editing it as you wish.
default-branch = "develop"

[[repos]]
local = "foobar-1"
remote = "https://gitee.com/ForthEspada/CS-Books.git"
branch = "master"

[[repos]]
local = "foobar-2"
remote = "https://gitee.com/ForthEspada/CS-Books.git"
branch = "master"
"#;
    assert_eq!(real_result.trim(), expect_result.trim());
}

#[test]
fn cli_init_force1() {
    let found = vec![
        entry("foobar-1", "master", true),
        entry(".", "master", true),
        entry("foobar-2", "master", true),
    ];
    let real_result = manifest(found, true, None);
    let expect_result = r#"
# This file is automatically @generated by mgit.
# Editing it as you wish.
default-branch = "develop"

[[repos]]
local = "."
remote = "https://gitee.com/ForthEspada/CS-Books.git"
branch = "master"

[[repos]]
local = "foobar-1"
remote = "https://gitee.com/ForthEspada/CS-Books.git"
branch = "master"

[[repos]]
local = "foobar-2"
remote = "https://gitee.com/ForthEspada/CS-Books.git"
branch = "master"
"#;
    assert_eq!(real_result.trim(), expect_result.trim());
}

#[test]
fn cli_init_force2() {
    let real_result = manifest(tree3(true), true, None);
    let mut expect_result = String::from(
        "# This file is automatically @generated by mgit.\n# Editing it as you wish.\ndefault-branch = \"develop\"\n",
    );
    for local in [
        ".",
        "foobar-1",
        "foobar-1/foobar-1-1",
        "foobar-1/foobar-1-2",
        "foobar-2",
        "foobar-2/foobar-2-1",
        "foobar-2/foobar-2-2",
    ] {
        expect_result.push_str(&format!(
            "\n[[repos]]\nlocal = \"{}\"\nremote = \"{}\"\nbranch = \"master\"\n",
            local, URL
        ));
    }
    assert_eq!(real_result.trim(), expect_result.trim());
}

#[test]
fn cli_snapshot_simple() {
    let found = vec![entry("foobar-1", SHA_A, false), entry("foobar-2", SHA_A, false)];
    let real_result = manifest(found, false, None);
    let expect_result = r#"
# This file is automatically @generated by mgit.
# Editing it as you wish.
default-branch = "develop"

[[repos]]
local = "foobar-1"
remote = "https://gitee.com/ForthEspada/CS-Books.git"
commit = "8d90314117b4cb86abb6c4d55130437c6d87a30d"

[[repos]]
local = "foobar-2"
remote = "https://gitee.com/ForthEspada/CS-Books.git"
commit = "8d90314117b4cb86abb6c4d55130437c6d87a30d"
"#;
    assert_eq!(real_result.trim(), expect_result.trim());
}

#[test]
fn cli_snapshot_branch() {
    let found = vec![entry("foobar-1", "master", true), entry("foobar-2", "master", true)];
    let real_result = manifest(found, false, None);
    assert!(real_result.contains("branch = \"master\""));
    assert!(!real_result.contains("commit ="));
    let expect_result = r#"
# This file is automatically @generated by mgit.
# Editing it as you wish.
default-branch = "develop"

[[repos]]
local = "foobar-1"
remote = "https://gitee.com/ForthEspada/CS-Books.git"
branch = "master"

[[repos]]
local = "foobar-2"
remote = "https://gitee.com/ForthEspada/CS-Books.git"
branch = "master"
"#;
    assert_eq!(real_result.trim(), expect_result.trim());
}

#[test]
fn cli_snapshot_force() {
    let real_result = manifest(tree3(false), true, None);
    let expect_result = r#"
# This file is automatically @generated by mgit.
# Editing it as you wish.
default-branch = "develop"

[[repos]]
local = "."
remote = "https://gitee.com/ForthEspada/CS-Books.git"
commit = "1e835f92604ee5d0b37fc32ea7694d57ff19815e"

[[repos]]
local = "foobar-1"
remote = "https://gitee.com/ForthEspada/CS-Books.git"
commit = "8d90314117b4cb86abb6c4d55130437c6d87a30d"

[[repos]]
local = "foobar-1/foobar-1-1"
remote = "https://gitee.com/ForthEspada/CS-Books.git"
commit = "1e835f92604ee5d0b37fc32ea7694d57ff19815e"

[[repos]]
local = "foobar-1/foobar-1-2"
remote = "https://gitee.com/ForthEspada/CS-Books.git"
commit = "1e835f92604ee5d0b37fc32ea7694d57ff19815e"

[[repos]]
local = "foobar-2"
remote = "https://gitee.com/ForthEspada/CS-Books.git"
commit = "8d90314117b4cb86abb6c4d55130437c6d87a30d"

[[repos]]
local = "foobar-2/foobar-2-1"
remote = "https://gitee.com/ForthEspada/CS-Books.git"
commit = "1e835f92604ee5d0b37fc32ea7694d57ff19815e"

[[repos]]
local = "foobar-2/foobar-2-2"
remote = "https://gitee.com/ForthEspada/CS-Books.git"
commit = "1e835f92604ee5d0b37fc32ea7694d57ff19815e"
"#;
    assert_eq!(real_result.trim(), expect_result.trim());
}

#[test]
fn cli_snapshot_ignore() {
    let ignore = vec![".", "foobar-1/foobar-1-2", "foobar-2", "foobar-2/foobar-2-2"];
    let real_result = manifest(tree3(false), true, Some(ignore));
    let expect_result = r#"
# This file is automatically @generated by mgit.
# Editing it as you wish.
default-branch = "develop"

[[repos]]
local = "foobar-1"
remote = "https://gitee.com/ForthEspada/CS-Books.git"
commit = "8d90314117b4cb86abb6c4d55130437c6d87a30d"

[[repos]]
local = "foobar-1/foobar-1-1"
remote = "https://gitee.com/ForthEspada/CS-Books.git"
commit = "1e835f92604ee5d0b37fc32ea7694d57ff19815e"

[[repos]]
local = "foobar-2/foobar-2-1"
remote = "https://gitee.com/ForthEspada/CS-Books.git"
commit = "1e835f92604ee5d0b37fc32ea7694d57ff19815e"
"#;
    assert_eq!(real_result.trim(), expect_result.trim());
}

#[test]
fn snapshot_root_left_out_without_force() {
    let found = vec![entry(".", SHA_B, false), entry("foobar-1", SHA_A, false)];
    let real_result = manifest(found, false, None);
    assert!(!real_result.contains("local = \".\""));
    assert!(real_result.contains("local = \"foobar-1\""));
}

#[test]
fn snapshot_entry_without_remote() {
    let e = snapshot_entry("a", &Err("fatal: No such remote".to_string()), Err(GitError::CommitNotFound), false);
    assert_eq!(e.local.as_deref(), Some("a"));
    assert!(e.remote.is_none());
    assert!(e.commit.is_none());
    assert!(e.branch.is_none());
}

#[test]
fn snapshot_orders_by_code_point() {
    let found = vec![entry("a/c", SHA_A, false), entry("a-b", SHA_A, false), entry("a", SHA_A, false)];
    let cfg = snapshot(found, false, None);
    let locals: Vec<String> = cfg.repos.unwrap().into_iter().map(|r| r.local.unwrap()).collect();
    assert_eq!(locals, vec!["a", "a-b", "a/c"]);
}
