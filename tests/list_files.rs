use mgit::list_files::{list_files, ListFilesOptions};
use mgit::manifest::TomlRepo;

fn repo(local: Option<&str>) -> TomlRepo {
    TomlRepo { local: local.map(|s| s.to_string()), ..TomlRepo::default() }
}

#[test]
fn options_defaults() {
    let o = ListFilesOptions::new(None, None);
    assert_eq!(o.path, ".");
    assert_eq!(o.config_path, "./.gitrepos");
    let o = ListFilesOptions::new(Some("/w".to_string()), None);
    assert_eq!(o.config_path, "/w/.gitrepos");
    let o = ListFilesOptions::new(Some("/w".to_string()), Some("/c/m".to_string()));
    assert_eq!(o.config_path, "/c/m");
}

#[test]
fn files_seen_from_the_root() {
    let repos = vec![repo(Some(".")), repo(Some("sub")), repo(Some("w\\")), repo(None), repo(Some("gone"))];
    let outs = vec![
        Ok("100644 abc 0\tREADME.md\n".to_string()),
        Ok("100644 def 0\tsrc/lib.rs\nno tab here\n".to_string()),
        Ok("100644 123 0\ta.txt\n".to_string()),
        Ok("100644 999 0\tx\n".to_string()),
        Err("fatal".to_string()),
    ];
    assert_eq!(
        list_files(&repos, &outs),
        vec![
            "100644 abc 0\tREADME.md".to_string(),
            "100644 def 0\tsub/src/lib.rs".to_string(),
            "100644 123 0\tw/a.txt".to_string(),
        ]
    );
}
