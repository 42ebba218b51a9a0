use mgit::git::{GitError, RemoteRef};
use mgit::manifest::{display_path, exclude_ignore, TomlConfig, TomlRepo};

fn repo(local: &str) -> TomlRepo {
    TomlRepo { local: Some(local.to_string()), ..TomlRepo::default() }
}

const LIST: &str = "origin\thttps://a/x.git (fetch)\norigin\thttps://a/x.git (push)\n";

#[test]
fn remote_ref_precedence() {
    let mut r = repo("a");
    r.remote = Some("https://a/x.git".to_string());
    r.branch = Some("dev".to_string());
    assert_eq!(r.get_remote_ref(LIST), Ok(RemoteRef::Branch("origin/dev".to_string())));
    r.tag = Some("v1".to_string());
    assert_eq!(r.get_remote_ref(LIST), Ok(RemoteRef::Tag("v1".to_string())));
    r.commit = Some("abc".to_string());
    assert_eq!(r.get_remote_ref(LIST), Ok(RemoteRef::Commit("abc".to_string())));
    assert_eq!(r.get_remote_name(LIST), Ok("origin".to_string()));
}

#[test]
fn remote_ref_errors() {
    let mut r = repo("a");
    assert_eq!(r.get_remote_ref(LIST), Err(GitError::RemoteRefInvalid));
    r.branch = Some("dev".to_string());
    assert_eq!(r.get_remote_ref(LIST), Err(GitError::RemoteUrlMissing));
    r.remote = Some("https://a/x.git".to_string());
    assert_eq!(r.get_remote_ref(""), Err(GitError::RemoteNotFound("https://a/x.git".to_string())));
    r.branch = None;
    assert_eq!(r.get_remote_ref(LIST), Err(GitError::RemoteRefInvalid));
    assert_eq!(GitError::RemoteRefInvalid.message(), "remote ref is invalid!");
}

#[test]
fn commit_and_tag_need_no_remote() {
    let mut r = repo("a");
    r.commit = Some("abc".to_string());
    r.branch = Some("dev".to_string());
    // no remote at all, and no remote list
    assert_eq!(r.get_remote_ref(""), Ok(RemoteRef::Commit("abc".to_string())));
    r.commit = None;
    r.tag = Some("v1".to_string());
    r.remote = Some("https://elsewhere".to_string());
    assert_eq!(r.get_remote_ref(LIST), Ok(RemoteRef::Tag("v1".to_string())));
}

#[test]
fn ignore_removes_every_match() {
    let mut rs = vec![repo("a"), repo("b"), repo("a"), repo("a\\")];
    exclude_ignore(&mut rs, Some(vec!["a".to_string()]));
    let locals: Vec<String> = rs.iter().map(|r| r.local.clone().unwrap()).collect();
    assert_eq!(locals, vec!["b", "a\\"]);
}

#[test]
fn paths_as_shown() {
    assert_eq!(display_path(""), ".");
    assert_eq!(display_path("."), ".");
    assert_eq!(display_path("a\\b"), "a/b");
}

#[test]
fn ignore_removes_matching_entries() {
    let mut rs = vec![repo("."), repo("a"), repo("a\\b"), repo("c")];
    exclude_ignore(&mut rs, Some(vec![".".to_string(), "a/b".to_string(), "zzz".to_string()]));
    let locals: Vec<String> = rs.iter().map(|r| r.local.clone().unwrap()).collect();
    assert_eq!(locals, vec!["a", "c"]);
    let mut rs2 = vec![repo("a")];
    exclude_ignore(&mut rs2, None);
    assert_eq!(rs2.len(), 1);
}

#[test]
fn serialize_fields_in_order() {
    let cfg = TomlConfig {
        version: Some("1.0".to_string()),
        default_branch: Some("develop".to_string()),
        default_remote: None,
        repos: Some(vec![TomlRepo {
            local: Some("a".to_string()),
            remote: Some("r".to_string()),
            branch: Some("b".to_string()),
            tag: Some("t".to_string()),
            commit: Some("c".to_string()),
        }]),
    };
    assert_eq!(
        cfg.serialize(),
        "# This file is automatically @generated by mgit.\n# Editing it as you wish.\nversion = \"1.0\"\ndefault-branch = \"develop\"\n\n[[repos]]\nlocal = \"a\"\nremote = \"r\"\nbranch = \"b\"\ntag = \"t\"\ncommit = \"c\"\n\n"
    );
}

#[test]
fn serialize_quotes_with_toml_rules() {
    let cfg = TomlConfig {
        repos: Some(vec![repo("we\"ird\\path")]),
        ..TomlConfig::default()
    };
    let out = cfg.serialize();
    // a string with a quote or a backslash is written as a literal string
    assert!(out.contains("local = 'we\"ird\\path'"), "{}", out);
    assert!(!out.contains("local = we"));
}

#[test]
fn serialize_empty() {
    let cfg = TomlConfig::default();
    assert_eq!(
        cfg.serialize(),
        "# This file is automatically @generated by mgit.\n# Editing it as you wish.\n\n"
    );
}
