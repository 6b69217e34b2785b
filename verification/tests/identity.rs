use are_daemon::auth::{blake3_hex, caller_from_peer_certs, fingerprint_der, Caller};
use are_daemon::framing::{decode_frame_len, encode_frame, FramingError, DEFAULT_MAX_PAYLOAD};
use are_daemon::grants::{
    grants_allow_exec, grants_allow_fs, normalize_grant_root, validate_fingerprint, FsGrantKind, Grant,
    GrantsTable, RawPrincipalGrants,
};
use are_daemon::names::normalize_program_name;

const FP_A: &str = "blake3:aaaaaaaaaaaaaaaaaaaaaaaaaaaaaaaaaaaaaaaaaaaaaaaaaaaaaaaaaaaaaaaa";
const FP_B: &str = "blake3:bbbbbbbbbbbbbbbbbbbbbbbbbbbbbbbbbbbbbbbbbbbbbbbbbbbbbbbbbbbbbbbb";

#[test]
fn fingerprint_shape_is_blake3_prefixed_hex() {
    let fp = fingerprint_der(b"fake-der-bytes");
    assert!(fp.starts_with("blake3:"), "got: {fp}");
    let hex = fp.strip_prefix("blake3:").unwrap();
    assert_eq!(hex.len(), 64);
    assert!(hex.bytes().all(|b| b.is_ascii_hexdigit()));
    assert!(!hex.bytes().any(|b| b.is_ascii_uppercase()));
}

#[test]
fn fingerprint_is_deterministic_and_sensitive() {
    let a = fingerprint_der(b"cert-a");
    assert_eq!(a, fingerprint_der(b"cert-a"));
    assert_ne!(a, fingerprint_der(b"cert-b"));
    assert_ne!(a, fingerprint_der(b""));
}

#[test]
fn fingerprint_of_empty_input_is_known() {
    assert_eq!(
        fingerprint_der(b""),
        "blake3:af1349b9f5f9a1a6a0404dea36dcc9499bcb25c9adc112b7cc9a93cae41f3262"
    );
    assert_eq!(blake3_hex(b""), "af1349b9f5f9a1a6a0404dea36dcc9499bcb25c9adc112b7cc9a93cae41f3262");
}

#[test]
fn caller_from_peer_certs_needs_a_leaf() {
    assert!(caller_from_peer_certs(None).is_none());
    let empty: Vec<Vec<u8>> = vec![];
    assert!(caller_from_peer_certs(Some(&empty)).is_none());
    let certs = vec![vec![1u8, 2, 3], vec![9u8]];
    let caller = caller_from_peer_certs(Some(&certs)).unwrap();
    assert_eq!(caller.fingerprint, fingerprint_der(&[1u8, 2, 3]));
    assert_eq!(Caller::from_leaf_der(&[1u8, 2, 3]), caller);
    assert_eq!(Caller::new("x".into()).fingerprint, "x");
}

#[test]
fn frames_roundtrip_and_refuse_oversize() {
    let frame = encode_frame(b"hello", DEFAULT_MAX_PAYLOAD).unwrap();
    assert_eq!(frame, vec![0, 0, 0, 5, b'h', b'e', b'l', b'l', b'o']);
    assert_eq!(decode_frame_len(&frame[..4], DEFAULT_MAX_PAYLOAD).unwrap(), 5);
    match encode_frame(&[0u8; 600], 512) {
        Err(FramingError::ResponseTooLarge { size, max }) => {
            assert_eq!(size, 600);
            assert_eq!(max, 512);
        }
        other => panic!("expected ResponseTooLarge, got {other:?}"),
    }
    assert!(decode_frame_len(&[0, 0, 2, 1], 512).is_err());
}

fn raw(read: &[&str], write: &[&str], list: &[&str], exec: &[&str], inspect: bool, terminate: bool) -> RawPrincipalGrants {
    let v = |xs: &[&str]| xs.iter().map(|s| s.to_string()).collect::<Vec<String>>();
    RawPrincipalGrants {
        filesystem_read: v(read),
        filesystem_write: v(write),
        filesystem_list: v(list),
        process_execute: v(exec),
        process_inspect: inspect,
        process_terminate: terminate,
    }
}

#[test]
fn grants_table_normalizes_and_scopes() {
    let raws = vec![
        (FP_A.to_string(), raw(&["logs", ".", "/project/"], &["project"], &[""], &["cargo", "Git"], true, true)),
        (FP_B.to_string(), raw(&["logs"], &[], &[], &[], false, false)),
    ];
    let table = GrantsTable::from_raw(&raws).unwrap();
    assert_eq!(table.len(), 2);
    assert!(table.is_known(FP_A));
    assert!(table.is_known(FP_B));
    assert!(!table.is_known("blake3:cccc"));
    let a: &[Grant] = table.grants_for(FP_A).unwrap();
    assert!(grants_allow_fs(a, FsGrantKind::Read, "logs/x"));
    assert!(grants_allow_fs(a, FsGrantKind::Read, "anything"));
    assert!(grants_allow_fs(a, FsGrantKind::Write, "project/a"));
    assert!(grants_allow_fs(a, FsGrantKind::List, "logs"));
    assert!(grants_allow_exec(a, "cargo"));
    assert!(grants_allow_exec(a, "git.exe"));
    let b = table.grants_for(FP_B).unwrap();
    assert!(grants_allow_fs(b, FsGrantKind::Read, "logs/x"));
    assert!(!grants_allow_fs(b, FsGrantKind::Read, "logs2/x"));
    assert!(!grants_allow_fs(b, FsGrantKind::Read, "project/x"));
    assert!(!grants_allow_exec(b, "cargo"));
}

#[test]
fn grants_table_rejects_bad_roots_programs_fingerprints() {
    let bad_root = vec![(FP_A.to_string(), raw(&[".."], &[], &[], &[], false, false))];
    assert!(GrantsTable::from_raw(&bad_root).is_err());
    let bad_program = vec![(FP_A.to_string(), raw(&[], &[], &[], &[""], false, false))];
    assert!(GrantsTable::from_raw(&bad_program).is_err());
    let bad_fp = vec![("not-a-fingerprint".to_string(), raw(&[], &[], &[], &[], false, false))];
    assert!(GrantsTable::from_raw(&bad_fp).is_err());
    let short_fp = vec![("blake3:short".to_string(), raw(&[], &[], &[], &[], false, false))];
    assert!(GrantsTable::from_raw(&short_fp).is_err());
    assert!(GrantsTable::from_raw(&Vec::new()).unwrap().is_empty());
    assert!(validate_fingerprint(FP_A).is_ok());
    assert!(validate_fingerprint(&FP_A.to_uppercase().replacen("BLAKE3", "blake3", 1)).is_ok());
    assert!(validate_fingerprint("blake3:zz").is_err());
}

#[test]
fn grant_roots_normalize() {
    assert_eq!(normalize_grant_root(".").unwrap(), "");
    assert_eq!(normalize_grant_root("/project/").unwrap(), "project");
    assert_eq!(normalize_grant_root("a/./b").unwrap(), "a/b");
    assert!(normalize_grant_root("a/../b").is_err());
    assert_eq!(normalize_program_name("/usr/bin/GIT.EXE"), "git");
}
