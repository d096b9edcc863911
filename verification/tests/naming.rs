use mist::naming::derive_name;

fn name(path: &str, ext: &str) -> Option<String> {
    derive_name(path, ext)
}

#[test]
fn archive_is_named_after_the_staging_directory() {
    assert_eq!(name("/tmp/sync-folder", "tar.gz.gpg"), Some("sync-folder.tar.gz.gpg".to_string()));
}

#[test]
fn sidecar_is_named_after_the_staging_directory() {
    assert_eq!(name("/tmp/sync-folder", "gpg.xxhash"), Some("sync-folder.gpg.xxhash".to_string()));
}

#[test]
fn trailing_separators_and_dots_are_passed_over() {
    assert_eq!(name("/tmp/stage/", "x"), Some("stage.x".to_string()));
    assert_eq!(name("/tmp/stage/.", "x"), Some("stage.x".to_string()));
    assert_eq!(name("/tmp/stage/.//", "x"), Some("stage.x".to_string()));
    assert_eq!(name("stage", "x"), Some("stage.x".to_string()));
    assert_eq!(name("./stage", "x"), Some("stage.x".to_string()));
}

#[test]
fn an_existing_extension_is_replaced() {
    assert_eq!(name("/tmp/sync.d", "tar.gz.gpg"), Some("sync.tar.gz.gpg".to_string()));
    assert_eq!(name("/tmp/a.b.c", "x"), Some("a.b.x".to_string()));
    assert_eq!(name("/tmp/stage.", "x"), Some("stage.x".to_string()));
}

#[test]
fn a_leading_dot_starts_no_extension() {
    assert_eq!(name("/home/me/.stage", "x"), Some(".stage.x".to_string()));
}

#[test]
fn paths_without_a_last_component_have_no_name() {
    assert_eq!(name("", "x"), None);
    assert_eq!(name("/", "x"), None);
    assert_eq!(name(".", "x"), None);
    assert_eq!(name("./", "x"), None);
    assert_eq!(name("..", "x"), None);
    assert_eq!(name("/tmp/stage/..", "x"), None);
    assert_eq!(name("/tmp/stage/../", "x"), None);
}

#[test]
fn names_agree_with_the_standard_path_rules() {
    let paths = [
        "/tmp/sync-folder", "/tmp/stage/", "/tmp/stage/.", "stage", "/tmp/sync.d", "/tmp/a.b.c",
        "/home/me/.stage", "/tmp/stage.", "a/./b", "../up", "/tmp/é/ü.ö", "/", "", "..", "a/..",
    ];
    for p in paths {
        let std_name = std::path::PathBuf::from(p)
            .with_extension("tar.gz.gpg")
            .file_name()
            .map(|n| n.to_str().unwrap().to_string());
        assert_eq!(name(p, "tar.gz.gpg"), std_name, "{}", p);
    }
}

#[test]
fn archive_and_sidecar_never_share_a_name() {
    for p in ["/tmp/sync-folder", "stage", "/tmp/a.tar", "/tmp/x.gpg", "/tmp/.hidden", "/t/a.b.c/"] {
        let archive = name(p, "tar.gz.gpg").unwrap();
        let sidecar = name(p, "gpg.xxhash").unwrap();
        assert_ne!(archive, sidecar, "{}", p);
        assert!(!archive.contains('/') && !sidecar.contains('/'), "{}", p);
    }
}
