use docker_executor::context_builder::{
    classify_tar_entry, join_segments, path_segments, rel_segments, ContextBuilder,
    TarEntryAction, CONTEXT_FILE_MODE,
};

#[test]
fn test_is_ignored() {
    let dir = tempfile::tempdir().unwrap();
    let context_path = dir.path().to_str().unwrap().to_string();

    fs_err::write(dir.path().join(".gitignore"), "*.log\n").unwrap();
    fs_err::write(dir.path().join(".dockerignore"), "*.tmp\n").unwrap();

    let dockerfile = tempfile::NamedTempFile::new().unwrap();
    let dockerfile_path = dockerfile.path().to_str().unwrap().to_string();

    let context_builder = ContextBuilder::from_path(context_path.clone(), dockerfile_path).unwrap();

    let log_file = dir.path().join("test.log");
    let tmp_file = dir.path().join("test.tmp");
    let txt_file = dir.path().join("test.txt");

    fs_err::write(&log_file, "").unwrap();
    fs_err::write(&tmp_file, "").unwrap();
    fs_err::write(&txt_file, "").unwrap();

    assert!(context_builder.is_ignored(log_file.to_str().unwrap()));
    assert!(context_builder.is_ignored(tmp_file.to_str().unwrap()));
    assert!(!context_builder.is_ignored(txt_file.to_str().unwrap()));
}

#[test]
fn test_adds_git_even_if_in_ignore() {
    let dir = tempfile::tempdir().unwrap();
    let context_path = dir.path().to_str().unwrap().to_string();

    fs_err::write(dir.path().join(".gitignore"), ".git\n").unwrap();

    let dockerfile = tempfile::NamedTempFile::new().unwrap();
    let dockerfile_path = dockerfile.path().to_str().unwrap().to_string();
    let context_builder = ContextBuilder::from_path(context_path, dockerfile_path).unwrap();

    assert!(!context_builder.is_ignored(".git"));
}

#[test]
fn test_works_without_gitignore() {
    let dir = tempfile::tempdir().unwrap();
    let context_path = dir.path().to_str().unwrap().to_string();

    let dockerfile = tempfile::NamedTempFile::new().unwrap();
    let dockerfile_path = dockerfile.path().to_str().unwrap().to_string();

    let context_builder = ContextBuilder::from_path(context_path, dockerfile_path).unwrap();

    assert!(!context_builder.is_ignored(".git"));
    assert!(!context_builder.is_ignored("Dockerfile"));

    fs_err::write(dir.path().join("Dockerfile"), "").unwrap();

    assert!(!context_builder.is_ignored("Dockerfile"));
}

#[test]
fn git_directory_contents_are_never_ignored() {
    let dir = tempfile::tempdir().unwrap();
    let context_path = dir.path().to_str().unwrap().to_string();

    fs_err::write(dir.path().join(".gitignore"), ".git\n*.log\n").unwrap();

    let dockerfile = tempfile::NamedTempFile::new().unwrap();
    let dockerfile_path = dockerfile.path().to_str().unwrap().to_string();
    let context_builder = ContextBuilder::from_path(context_path, dockerfile_path).unwrap();

    let head = dir.path().join(".git").join("HEAD");
    assert!(!context_builder.is_ignored(head.to_str().unwrap()));
    let log_in_git = dir.path().join(".git").join("gc.log");
    assert!(!context_builder.is_ignored(log_in_git.to_str().unwrap()));
}

#[test]
fn paths_outside_the_context_are_not_ignored() {
    let dir = tempfile::tempdir().unwrap();
    let context_path = dir.path().to_str().unwrap().to_string();

    fs_err::write(dir.path().join(".gitignore"), "*\n").unwrap();

    let dockerfile = tempfile::NamedTempFile::new().unwrap();
    let dockerfile_path = dockerfile.path().to_str().unwrap().to_string();
    let context_builder = ContextBuilder::from_path(context_path, dockerfile_path).unwrap();

    assert!(!context_builder.is_ignored("/somewhere/else/entirely.log"));
}

#[test]
fn path_segments_drop_empty_and_dot_pieces() {
    assert_eq!(path_segments("/a//b/./c"), vec!["a", "b", "c"]);
    assert_eq!(path_segments("a/b/"), vec!["a", "b"]);
    assert_eq!(path_segments(""), Vec::<String>::new());
}

#[test]
fn relative_segments_require_matching_roots_and_prefix() {
    assert_eq!(rel_segments("/ctx/a/b", "/ctx"), Some(vec!["a".to_string(), "b".to_string()]));
    assert_eq!(rel_segments("/ctx", "/ctx"), Some(Vec::new()));
    assert_eq!(rel_segments("/elsewhere/a", "/ctx"), None);
    assert_eq!(rel_segments("a/b", "/ctx"), None);
}

#[test]
fn joined_segments_use_single_separators() {
    assert_eq!(join_segments(&vec!["a".to_string(), "b".to_string()]), "a/b");
    assert_eq!(join_segments(&Vec::new()), "");
}

#[test]
fn tar_entries_are_classified_in_walk_order() {
    assert!(matches!(classify_tar_entry(true, false, true), TarEntryAction::Directory));
    assert!(matches!(classify_tar_entry(false, false, true), TarEntryAction::Skip));
    assert!(matches!(classify_tar_entry(true, true, true), TarEntryAction::Skip));
    assert!(matches!(classify_tar_entry(false, true, false), TarEntryAction::Symlink));
    assert!(matches!(classify_tar_entry(false, false, false), TarEntryAction::File));
}

#[test]
fn archive_file_mode_is_rw_r_r() {
    assert_eq!(CONTEXT_FILE_MODE, 0o644);
}
