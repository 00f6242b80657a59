use nedots::errors::Error;
use nedots::paths::{
    finish_resolution, join_paths, path_join, prepend_home, resolve_candidate, resolve_path,
    split_segments,
};

#[test]
fn resolve_missing_file_path_fails() {
    let path = "resolve_path_test.txt";
    assert!(resolve_path(path).is_err())
}

#[test]
fn resolve_root_is_identity() {
    // The filesystem root exists and is already canonical, so resolving it
    // hands it back unchanged.
    assert_eq!(resolve_path("/").unwrap(), "/");
}

#[test]
fn resolve_failure_names_the_path() {
    let err = resolve_path("resolve_path_test.txt").unwrap_err();
    match &err {
        Error::ResolvePath { path, .. } => assert_eq!(path, "resolve_path_test.txt"),
        other => panic!("unexpected error {:?}", other),
    }
    assert!(err.message().starts_with("Failed to resolve `resolve_path_test.txt` ("));
}

#[test]
fn candidate_keeps_existing_path() {
    assert_eq!(resolve_candidate(".bashrc", None, true).unwrap(), ".bashrc");
    assert_eq!(
        resolve_candidate(".bashrc", Some("/home/u"), true).unwrap(),
        ".bashrc"
    );
}

#[test]
fn candidate_prefixes_home_for_missing_path() {
    assert_eq!(
        resolve_candidate(".bashrc", Some("/home/u"), false).unwrap(),
        "/home/u/.bashrc"
    );
}

#[test]
fn candidate_without_home_fails() {
    let err = resolve_candidate(".bashrc", None, false).unwrap_err();
    assert!(matches!(err, Error::ResolvePath { .. }));
}

#[test]
fn finish_resolution_passes_canonical_path_through() {
    let r = finish_resolution(".bashrc", Ok(String::from("/home/u/.bashrc")));
    assert_eq!(r.unwrap(), "/home/u/.bashrc");
}

#[test]
fn finish_resolution_wraps_the_failure() {
    let r = finish_resolution(".bashrc", Err(String::from("not found")));
    match r.unwrap_err() {
        Error::ResolvePath { path, err } => {
            assert_eq!(path, ".bashrc");
            assert_eq!(err, "not found");
        }
        other => panic!("unexpected error {:?}", other),
    }
}

#[test]
fn join_paths_rebuilds_an_absolute_path() {
    assert_eq!(join_paths("a/b", "c"), "/a/b/c");
    assert_eq!(join_paths("/backups/123", "/home/u/.bashrc"), "/backups/123/home/u/.bashrc");
}

#[test]
fn join_paths_drops_empty_segments() {
    assert_eq!(join_paths("//a//", "b/"), "/a/b");
    assert_eq!(join_paths("", ""), "/");
}

#[test]
fn path_join_follows_unix_join_rules() {
    assert_eq!(path_join("/home/u", ".bashrc"), "/home/u/.bashrc");
    assert_eq!(path_join("/home/u/", ".bashrc"), "/home/u/.bashrc");
    assert_eq!(path_join("/home/u", "/etc/hosts"), "/etc/hosts");
    assert_eq!(path_join("", "x"), "x");
}

#[test]
fn prepend_home_joins_unconditionally() {
    assert_eq!(prepend_home("/home/u", ".config/app"), "/home/u/.config/app");
    assert_eq!(prepend_home("/home/u", "/abs"), "/abs");
}

#[test]
fn split_segments_keeps_empty_parts() {
    let parts = split_segments("a//b/");
    assert_eq!(parts, vec!["a", "", "b", ""]);
    assert_eq!(split_segments(""), vec![""]);
    assert_eq!(split_segments("/x"), vec!["", "x"]);
}

#[test]
fn error_messages_follow_the_documented_forms() {
    let e = Error::Command(String::from("git pull"));
    assert_eq!(e.message(), "`git pull` failed! Review the output & try again");
    let e = Error::MakeDir { path: String::from("/a"), err: String::from("denied") };
    assert_eq!(e.message(), "Failed to make dir @ `/a` (denied)");
    let e = Error::Metadata(String::from("/b"));
    assert_eq!(e.message(), "No metadata (/b)");
    let e = Error::IoError(String::from("broken pipe"));
    assert_eq!(e.message(), "broken pipe");
    let e = Error::_RemoveDir { path: String::from("/c"), err: String::from("busy") };
    assert_eq!(e.message(), "Failed to remove dir @ `/c` (busy)");
    let e = Error::_ModifiedTime(String::from("/d"));
    assert_eq!(e.message(), "No modified time (/d)");
}
