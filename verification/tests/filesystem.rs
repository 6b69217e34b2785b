use are_daemon::fs::{
    creation_path, delete_decision, rename_decision, entry_path, fs_error_from_io, hash_bytes, make_metadata,
    verify_expected_hash, with_content_hash, Canonical, DeleteAction, FilesystemBackend, FilesystemConfig,
    FsError, IoKind, LeafProbe, MkdirStep, PrefixProbe, ResolveProbe, TargetProbe, WriteStep, DEFAULT_MAX_FILE_BYTES,
};

const ROOT: &str = "/tmp/are-root";

fn root_ok(path: &str) -> (String, Result<String, String>) {
    (path.to_string(), Ok(path.to_string()))
}

fn make_backend() -> FilesystemBackend {
    FilesystemBackend::new(FilesystemConfig::new(&[root_ok(ROOT)]).expect("config"))
}

fn found(p: &str) -> Canonical {
    Canonical::Found(p.to_string())
}

fn probe(target: Canonical, parent: Canonical) -> Vec<ResolveProbe> {
    vec![ResolveProbe { target, parent }]
}

#[test]
fn config_rejects_empty_roots() {
    let result = FilesystemConfig::new(&[]);
    assert!(matches!(result, Err(FsError::InvalidPath(_))));
}

#[test]
fn config_rejects_nonexistent_root() {
    let result = FilesystemConfig::new(&[(
        "/nonexistent/path/that/doesnt/exist".to_string(),
        Err("No such file or directory (os error 2)".to_string()),
    )]);
    assert!(matches!(result, Err(FsError::InvalidPath(_))));
}

#[test]
fn config_accepts_valid_root() {
    let result = FilesystemConfig::new(&[root_ok(ROOT)]);
    assert!(result.is_ok());
    let config = result.unwrap();
    assert_eq!(config.allowed_roots, vec![ROOT.to_string()]);
    assert_eq!(config.max_file_bytes, DEFAULT_MAX_FILE_BYTES);
}

#[test]
fn config_names_the_failing_root() {
    let result = FilesystemConfig::with_max_file_bytes(
        &[root_ok(ROOT), ("/gone".to_string(), Err("boom".to_string()))],
        10,
    );
    match result {
        Err(FsError::InvalidPath(m)) => {
            assert_eq!(m, "failed to canonicalize root '/gone': boom");
        }
        other => panic!("expected InvalidPath, got {other:?}"),
    }
}

#[test]
fn hash_bytes_is_stable_64_hex() {
    let h1 = hash_bytes(b"hello");
    let h2 = hash_bytes(b"hello");
    assert_eq!(h1, h2);
    assert_eq!(h1.len(), 64);
    assert!(h1.bytes().all(|b| b.is_ascii_hexdigit()));
    assert_ne!(h1, hash_bytes(b"hello!"));
    assert_eq!(hash_bytes(b"").len(), 64);
}

#[test]
fn hash_bytes_matches_known_digest() {
    // BLAKE3 of the empty input.
    assert_eq!(
        hash_bytes(b""),
        "af1349b9f5f9a1a6a0404dea36dcc9499bcb25c9adc112b7cc9a93cae41f3262"
    );
}

#[test]
fn resolve_rejects_empty_path() {
    let backend = make_backend();
    let result = backend.resolve("", &probe(Canonical::Missing, Canonical::Missing));
    assert!(matches!(result, Err(FsError::InvalidPath(_))));
}

#[test]
fn resolve_rejects_absolute_unix_path() {
    let backend = make_backend();
    let result = backend.resolve("/etc/passwd", &probe(found("/etc/passwd"), Canonical::Missing));
    assert!(matches!(result, Err(FsError::InvalidPath(_))));
}

#[test]
fn resolve_rejects_absolute_backslash_path() {
    let backend = make_backend();
    let result = backend.resolve("\\etc\\passwd", &probe(Canonical::Missing, Canonical::Missing));
    assert!(matches!(result, Err(FsError::InvalidPath(_))));
}

#[test]
fn resolve_rejects_drive_letters_and_nul() {
    let backend = make_backend();
    for path in ["C:/secret", "c:\\x", "a\0b"] {
        let result = backend.resolve(path, &probe(Canonical::Missing, Canonical::Missing));
        assert!(matches!(result, Err(FsError::InvalidPath(_))), "{path:?}");
    }
    // A non-ASCII first character followed by ':' has no drive letter.
    let result = backend.resolve("é:x", &probe(found("/tmp/are-root/é:x"), Canonical::Missing));
    assert_eq!(result.unwrap(), "/tmp/are-root/é:x");
}

#[test]
fn resolve_rejects_path_traversal() {
    let backend = make_backend();
    let result = backend.resolve("../etc/passwd", &probe(found("/tmp/etc/passwd"), Canonical::Missing));
    assert!(matches!(result, Err(FsError::FilesystemEscape(_))));
}

#[test]
fn resolve_allows_valid_relative_path() {
    let backend = make_backend();
    let result = backend.resolve("hello.txt", &probe(found("/tmp/are-root/hello.txt"), Canonical::Missing));
    assert!(result.unwrap().ends_with("hello.txt"));
}

#[test]
fn resolve_allows_nested_path() {
    let backend = make_backend();
    let result = backend.resolve("src/lib/mod.rs", &probe(found("/tmp/are-root/src/lib/mod.rs"), Canonical::Missing));
    assert!(result.is_ok());
}

#[test]
fn resolve_rejects_symlink_outside_root() {
    let backend = make_backend();
    let result = backend.resolve("escape.txt", &probe(found("/tmp/outside/secret.txt"), Canonical::Missing));
    assert!(matches!(result, Err(FsError::FilesystemEscape(_))));
}

#[test]
fn resolve_rejects_sibling_prefix_root() {
    // `/tmp/are-root2` is not under `/tmp/are-root`.
    let backend = make_backend();
    let result = backend.resolve("x", &probe(found("/tmp/are-root2/x"), Canonical::Missing));
    assert!(matches!(result, Err(FsError::FilesystemEscape(_))));
}

#[test]
fn resolve_handles_missing_file_parent_exists() {
    let backend = make_backend();
    let result = backend.resolve("nonexistent.txt", &probe(Canonical::Missing, found(ROOT)));
    assert_eq!(result.unwrap(), "/tmp/are-root/nonexistent.txt");
}

#[test]
fn resolve_handles_missing_nested_file() {
    let backend = make_backend();
    let result = backend.resolve("src/nonexistent.rs", &probe(Canonical::Missing, found("/tmp/are-root/src")));
    assert_eq!(result.unwrap(), "/tmp/are-root/src/nonexistent.rs");
}

#[test]
fn resolve_missing_everywhere_is_not_found_and_failures_are_io() {
    let backend = make_backend();
    let result = backend.resolve("a/b", &probe(Canonical::Missing, Canonical::Missing));
    match result {
        Err(FsError::NotFound(m)) => assert_eq!(m, "parent directory does not exist: a/b"),
        other => panic!("expected NotFound, got {other:?}"),
    }
    let result = backend.resolve("a/b", &probe(Canonical::Failed, Canonical::Missing));
    assert!(matches!(result, Err(FsError::Io(_))));
    let result = backend.resolve("a/b", &probe(Canonical::Missing, Canonical::Failed));
    assert!(matches!(result, Err(FsError::Io(_))));
    let result = backend.resolve("a/..", &probe(Canonical::Missing, found(ROOT)));
    assert!(matches!(result, Err(FsError::InvalidPath(_))));
}

#[test]
fn resolve_no_follow_keeps_the_link_name() {
    let backend = make_backend();
    let result = backend.resolve_no_follow("dir/link", &[found("/tmp/are-root/dir")]);
    assert_eq!(result.unwrap(), "/tmp/are-root/dir/link");
    let result = backend.resolve_no_follow("dir/link", &[Canonical::Missing]);
    assert!(matches!(result, Err(FsError::NotFound(_))));
    let result = backend.resolve_no_follow("dir/link", &[found("/elsewhere")]);
    assert!(matches!(result, Err(FsError::FilesystemEscape(_))));
    let result = backend.resolve_no_follow("..", &[found(ROOT)]);
    assert!(matches!(result, Err(FsError::InvalidPath(_))));
}

#[test]
fn relativize_and_creation_paths() {
    let backend = make_backend();
    assert_eq!(backend.relativize("/tmp/are-root/logs/x").unwrap(), "logs/x");
    assert_eq!(backend.relativize("/tmp/are-root").unwrap(), ".");
    assert!(backend.relativize("/etc").is_none());
    assert_eq!(backend.creation_rel("a/./b//c/").unwrap(), "a/b/c");
    assert!(matches!(backend.creation_rel("a/../b"), Err(FsError::InvalidPath(_))));
    assert!(matches!(creation_path("./."), Err(FsError::InvalidPath(_))));
    assert!(matches!(creation_path("/abs"), Err(FsError::InvalidPath(_))));
}

#[test]
fn read_and_write_checks() {
    let backend = FilesystemBackend::new(FilesystemConfig::with_max_file_bytes(&[root_ok(ROOT)], 1024).unwrap());
    assert!(matches!(backend.check_read("d", true, 0), Err(FsError::IsADirectory(_))));
    match backend.check_read("big.bin", false, 2048) {
        Err(FsError::FileTooLarge { path, size, limit }) => {
            assert_eq!(path, "big.bin");
            assert_eq!(size, 2048);
            assert_eq!(limit, 1024);
        }
        other => panic!("expected FileTooLarge, got {other:?}"),
    }
    assert!(backend.check_read("ok", false, 1024).is_ok());
    assert!(backend.metadata_wants_hash(true, 1024));
    assert!(!backend.metadata_wants_hash(true, 1025));
    assert!(!backend.metadata_wants_hash(false, 1));
    assert!(matches!(backend.check_write_size("w", 1025), Err(FsError::FileTooLarge { .. })));
    assert!(backend.check_write_size("w", 1024).is_ok());

    let file = TargetProbe::File { size: 10 };
    assert!(matches!(backend.check_write_target("d", &TargetProbe::Directory, true, false), Err(FsError::IsADirectory(_))));
    assert!(matches!(backend.check_write_target("f", &file, false, false), Err(FsError::Conflict(_))));
    assert_eq!(backend.check_write_target("f", &file, true, false).unwrap(), WriteStep::Commit);
    assert_eq!(backend.check_write_target("f", &file, true, true).unwrap(), WriteStep::VerifyHash);
    assert!(matches!(
        backend.check_write_target("f", &TargetProbe::File { size: 4096 }, true, true),
        Err(FsError::FileTooLarge { .. })
    ));
    assert!(matches!(backend.check_write_target("m", &TargetProbe::Missing, true, true), Err(FsError::Conflict(_))));
    assert_eq!(backend.check_write_target("m", &TargetProbe::Missing, false, false).unwrap(), WriteStep::Commit);
    let denied = TargetProbe::Error { kind: IoKind::PermissionDenied, text: "denied".to_string() };
    assert!(matches!(backend.check_write_target("p", &denied, true, false), Err(FsError::PermissionDenied(_))));
}

#[test]
fn expected_hash_is_compared_case_insensitively() {
    let h = hash_bytes(b"content");
    assert!(verify_expected_hash("f", b"content", &h).is_ok());
    assert!(verify_expected_hash("f", b"content", &h.to_ascii_uppercase()).is_ok());
    match verify_expected_hash("f", b"other", &h) {
        Err(FsError::Conflict(m)) => assert_eq!(m, "file changed since read: f"),
        other => panic!("expected Conflict, got {other:?}"),
    }
}

#[test]
fn delete_and_rename_decisions() {
    assert_eq!(delete_decision("l", &LeafProbe::Symlink).unwrap(), DeleteAction::RemoveFile);
    assert_eq!(delete_decision("f", &LeafProbe::File).unwrap(), DeleteAction::RemoveFile);
    assert_eq!(delete_decision("d", &LeafProbe::Directory { empty: true }).unwrap(), DeleteAction::RemoveDir);
    assert!(matches!(delete_decision("d", &LeafProbe::Directory { empty: false }), Err(FsError::Conflict(_))));
    assert!(matches!(delete_decision("m", &LeafProbe::Missing), Err(FsError::NotFound(_))));
    assert!(matches!(delete_decision("s", &LeafProbe::Other), Err(FsError::InvalidPath(_))));

    assert!(matches!(rename_decision("a", "a/.", "/r/a", "/r/a", &LeafProbe::File, false), Err(FsError::InvalidPath(_))));
    assert!(matches!(rename_decision("a", "b", "/r/a", "/r/b", &LeafProbe::Missing, false), Err(FsError::NotFound(_))));
    assert!(matches!(rename_decision("a", "b", "/r/a", "/r/b", &LeafProbe::File, true), Err(FsError::Conflict(_))));
    assert!(rename_decision("a", "b", "/r/a", "/r/b", &LeafProbe::Symlink, false).is_ok());
}

#[test]
fn io_errors_map_by_kind() {
    assert!(matches!(fs_error_from_io(IoKind::NotFound, "x".into()), FsError::NotFound(_)));
    assert!(matches!(fs_error_from_io(IoKind::PermissionDenied, "x".into()), FsError::PermissionDenied(_)));
    assert!(matches!(fs_error_from_io(IoKind::Other, "x".into()), FsError::Io(_)));
}

#[test]
fn listing_paths_and_metadata() {
    assert_eq!(entry_path(".", "a.txt"), "a.txt");
    assert_eq!(entry_path("", "a.txt"), "a.txt");
    assert_eq!(entry_path("src//", "lib.rs"), "src/lib.rs");
    assert_eq!(entry_path("src", "lib.rs"), "src/lib.rs");
    let m = with_content_hash(make_metadata(5, None, false, true), b"hello");
    assert_eq!(m.hash, Some(hash_bytes(b"hello")));
    let d = with_content_hash(make_metadata(0, Some(7), true, false), b"");
    assert_eq!(d.hash, None);
    assert_eq!(d.modified_at, Some(7));
}

#[test]
fn temp_names_are_prefixed_hex_and_exhaustion_is_io() {
    let name = are_daemon::fs::temp_file_name().unwrap();
    assert!(name.starts_with(".are-tmp-"));
    assert_eq!(name.len(), ".are-tmp-".len() + 32);
    match are_daemon::fs::temp_name_exhausted() {
        FsError::Io(m) => assert_eq!(m, "failed to create temporary file: 8 name collisions"),
        other => panic!("expected Io, got {other:?}"),
    }
}

#[test]
fn listing_needs_a_directory() {
    assert!(are_daemon::fs::check_list_target("logs", true).is_ok());
    match are_daemon::fs::check_list_target("hello.txt", false) {
        Err(FsError::NotADirectory(p)) => assert_eq!(p, "hello.txt"),
        other => panic!("expected NotADirectory, got {other:?}"),
    }
}

#[test]
fn vanished_file_during_hash_check_is_conflict() {
    match are_daemon::fs::hash_read_error("a.txt", IoKind::NotFound, "gone".into()) {
        FsError::Conflict(m) => assert_eq!(m, "file changed since read: a.txt"),
        other => panic!("expected Conflict, got {other:?}"),
    }
    assert!(matches!(
        are_daemon::fs::hash_read_error("a.txt", IoKind::PermissionDenied, "denied".into()),
        FsError::PermissionDenied(_)
    ));
}

#[test]
fn write_needs_an_existing_parent() {
    assert!(are_daemon::fs::check_write_parent("d/a.txt", true, true).is_ok());
    match are_daemon::fs::check_write_parent("missing-dir/a.txt", true, false) {
        Err(FsError::NotFound(m)) => assert_eq!(m, "parent directory does not exist: missing-dir/a.txt"),
        other => panic!("expected NotFound, got {other:?}"),
    }
    assert!(matches!(are_daemon::fs::check_write_parent("x", false, false), Err(FsError::InvalidPath(_))));
}

#[test]
fn noreplace_rename_onto_existing_is_conflict() {
    match are_daemon::fs::noreplace_error(IoKind::AlreadyExists, "exists".into()) {
        FsError::Conflict(m) => assert_eq!(m, "destination exists"),
        other => panic!("expected Conflict, got {other:?}"),
    }
    assert!(matches!(are_daemon::fs::noreplace_error(IoKind::Other, "xdev".into()), FsError::Io(_)));
}

#[test]
fn creation_plan_walks_components_under_the_primary_root() {
    let backend = make_backend();
    let (root, comps) = backend.creation_plan("./a/b/./c/").unwrap();
    assert_eq!(root, "/tmp/are-root");
    assert_eq!(comps, vec!["a".to_string(), "b".to_string(), "c".to_string()]);
    match backend.creation_plan("a/../b") {
        Err(FsError::InvalidPath(m)) => assert_eq!(m, "invalid component in directory path: a/../b"),
        other => panic!("expected InvalidPath, got {other:?}"),
    }
    match backend.creation_plan(".") {
        Err(FsError::InvalidPath(m)) => assert_eq!(m, "no directory name in path: ."),
        other => panic!("expected InvalidPath, got {other:?}"),
    }
}

#[test]
fn temp_attempts_count_up_to_the_bound() {
    assert_eq!(are_daemon::fs::next_temp_attempt(0).unwrap(), 1);
    assert_eq!(are_daemon::fs::next_temp_attempt(7).unwrap(), 8);
    match are_daemon::fs::next_temp_attempt(8) {
        Err(FsError::Io(m)) => assert_eq!(m, "failed to create temporary file: 8 name collisions"),
        other => panic!("expected Io, got {other:?}"),
    }
}

#[test]
fn mkdir_again_descends_through_existing_directories() {
    let backend = FilesystemBackend::new(FilesystemConfig::new(&[root_ok(ROOT)]).expect("config"));
    let dir = |is_symlink: bool| PrefixProbe::Exists {
        is_symlink,
        is_dir: !is_symlink,
        canonical: Ok(format!("{ROOT}/a")),
        target_is_dir: true,
    };
    for is_final in [false, true] {
        for is_symlink in [false, true] {
            match backend.mkdir_step("a", is_final, &dir(is_symlink)) {
                Ok(MkdirStep::Descend(d)) => assert_eq!(d, format!("{ROOT}/a")),
                other => panic!("expected Descend, got {other:?}"),
            }
        }
    }
    assert_eq!(backend.mkdir_step("b", true, &PrefixProbe::Missing).unwrap(), MkdirStep::Create);
    let file = PrefixProbe::Exists { is_symlink: false, is_dir: false, canonical: Ok(format!("{ROOT}/f")), target_is_dir: false };
    assert!(matches!(backend.mkdir_step("f", true, &file), Err(FsError::Conflict(_))));
}
