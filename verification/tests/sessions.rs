use are_daemon::ids::random_id;
use are_daemon::session::{
    sanitize_stored_env, CreateSessionRequest, SessionConfig, SessionError, SessionManager, Viewer, WorkdirStatus,
    DEFAULT_MAX_PROCESSES_PER_SESSION, DEFAULT_MAX_SESSIONS, DEFAULT_SESSION_IDLE_TIMEOUT_SECS,
    DEFAULT_SESSION_MAX_LIFETIME_SECS,
};

const ENV: &str = "test-env";
const T0: u64 = 1_700_000_000;

fn pairs(v: &[(&str, &str)]) -> Vec<(String, String)> {
    v.iter().map(|(k, val)| (k.to_string(), val.to_string())).collect()
}

fn get<'a>(v: &'a [(String, String)], k: &str) -> Option<&'a str> {
    v.iter().rev().find(|(key, _)| key == k).map(|(_, val)| val.as_str())
}

fn manager(config: SessionConfig) -> SessionManager {
    SessionManager::new(ENV.to_string(), config)
}

fn create_req(workdir: Option<&str>, env: Vec<(String, String)>) -> CreateSessionRequest {
    CreateSessionRequest {
        environment_id: ENV.to_string(),
        working_directory: workdir.map(str::to_string),
        env_vars: env,
    }
}

const DIR: WorkdirStatus = WorkdirStatus::Directory;

#[test]
fn create_get_roundtrip_preserves_workdir_and_env() {
    let mut mgr = manager(SessionConfig::default());
    let (info, purged) = mgr.create(&create_req(Some("."), pairs(&[("FOO", "bar")])), &DIR, T0).unwrap();
    assert!(purged.is_empty());
    assert!(info.session_id.starts_with("sess-"));
    assert_eq!(info.working_directory, ".");
    assert_eq!(get(&info.env_vars, "FOO"), Some("bar"));
    assert!(info.created_at > 0);
    assert_eq!(info.last_activity, info.created_at);

    let resumed = mgr.get(&info.session_id, T0 + 5).unwrap();
    assert_eq!(resumed.session_id, info.session_id);
    assert_eq!(resumed.working_directory, ".");
    assert_eq!(get(&resumed.env_vars, "FOO"), Some("bar"));
    assert!(resumed.last_activity >= info.last_activity);
    assert_eq!(resumed.last_activity, T0 + 5);
}

#[test]
fn create_defaults_workdir_to_dot() {
    let mut mgr = manager(SessionConfig::default());
    let (info, _) = mgr.create(&create_req(None, Vec::new()), &DIR, T0).unwrap();
    assert_eq!(info.working_directory, ".");
    assert_eq!(info.owner, None);
}

#[test]
fn create_rejects_unknown_workdir() {
    let mut mgr = manager(SessionConfig::default());
    let err = mgr.create(&create_req(Some("no-such-dir"), Vec::new()), &WorkdirStatus::Missing, T0).unwrap_err();
    assert!(matches!(err, SessionError::InvalidRequest(_)));
    for status in [
        WorkdirStatus::NoBackend,
        WorkdirStatus::Unresolvable,
        WorkdirStatus::Escapes,
        WorkdirStatus::PermissionDenied,
        WorkdirStatus::OtherError("x".into()),
        WorkdirStatus::NotADirectory,
    ] {
        let err = mgr.create(&create_req(Some("d"), Vec::new()), &status, T0).unwrap_err();
        assert!(matches!(err, SessionError::InvalidRequest(_)));
    }
    assert_eq!(mgr.session_count(), 0);
}

#[test]
fn create_rejects_path_env() {
    let mut mgr = manager(SessionConfig::default());
    let err = mgr.create(&create_req(None, pairs(&[("PATH", "/tmp/evil")])), &DIR, T0).unwrap_err();
    assert!(matches!(err, SessionError::InvalidRequest(_)));
}

#[test]
fn create_strips_loader_keys() {
    let mut mgr = manager(SessionConfig::default());
    let env = pairs(&[("LD_PRELOAD", "/tmp/evil.so"), ("DYLD_INSERT_LIBRARIES", "/tmp/evil.dylib"), ("KEEP", "yes")]);
    let (info, _) = mgr.create(&create_req(None, env), &DIR, T0).unwrap();
    assert_eq!(get(&info.env_vars, "LD_PRELOAD"), None);
    assert_eq!(get(&info.env_vars, "DYLD_INSERT_LIBRARIES"), None);
    assert_eq!(get(&info.env_vars, "KEEP"), Some("yes"));
    assert_eq!(sanitize_stored_env(&pairs(&[("LD_X", "1"), ("Y", "2")])), pairs(&[("Y", "2")]));
}

#[test]
fn get_unknown_id_is_not_found() {
    let mut mgr = manager(SessionConfig::default());
    let err = mgr.get("sess-nope", T0).unwrap_err();
    assert!(matches!(err, SessionError::NotFound(_)));
}

#[test]
fn idle_expiry_removes_entry() {
    let mut mgr = manager(SessionConfig { idle_timeout_secs: 1, max_lifetime_secs: 86400, ..SessionConfig::default() });
    let (info, _) = mgr.create(&create_req(None, Vec::new()), &DIR, T0).unwrap();
    let err = mgr.get(&info.session_id, T0 + 2).unwrap_err();
    assert!(matches!(err, SessionError::Expired(_)));
    let err = mgr.get(&info.session_id, T0 + 2).unwrap_err();
    assert!(matches!(err, SessionError::NotFound(_)));
}

#[test]
fn idle_timeout_is_strict() {
    let mut mgr = manager(SessionConfig { idle_timeout_secs: 10, ..SessionConfig::default() });
    let (info, _) = mgr.create(&create_req(None, Vec::new()), &DIR, T0).unwrap();
    // Exactly the timeout is still live.
    assert!(mgr.touch(&info.session_id, T0 + 10).is_ok());
    assert!(mgr.touch(&info.session_id, T0 + 20).is_ok());
    assert!(matches!(mgr.touch(&info.session_id, T0 + 31), Err(SessionError::Expired(_))));
}

#[test]
fn session_max_lifetime_expires_despite_activity() {
    let mut mgr = manager(SessionConfig { idle_timeout_secs: 86400, max_lifetime_secs: 1, ..SessionConfig::default() });
    let (info, _) = mgr.create(&create_req(None, Vec::new()), &DIR, T0).unwrap();
    let _ = mgr.get(&info.session_id, T0).unwrap();
    let err = mgr.touch(&info.session_id, T0 + 2).unwrap_err();
    assert!(matches!(err, SessionError::Expired(_)));
}

#[test]
fn list_filters_by_env_and_purges_expired() {
    let mut mgr = manager(SessionConfig { idle_timeout_secs: 1, ..SessionConfig::default() });
    let (live, _) = mgr.create(&create_req(None, Vec::new()), &DIR, T0).unwrap();
    let (fresh, purged) = mgr.create(&create_req(None, Vec::new()), &DIR, T0 + 2).unwrap();
    assert!(purged.contains(&live.session_id));
    let (sessions, _) = mgr.list(ENV, T0 + 2);
    assert_eq!(sessions.len(), 1);
    assert_eq!(sessions[0].session_id, fresh.session_id);
    assert!(sessions.iter().all(|s| s.session_id != live.session_id));
    assert!(mgr.list("other-env", T0 + 2).0.is_empty());
}

#[test]
fn terminate_removes_session() {
    let mut mgr = manager(SessionConfig::default());
    let (info, _) = mgr.create(&create_req(None, Vec::new()), &DIR, T0).unwrap();
    mgr.terminate(&info.session_id, T0).unwrap();
    let err = mgr.get(&info.session_id, T0).unwrap_err();
    assert!(matches!(err, SessionError::NotFound(_)));
}

#[test]
fn terminate_unknown_is_not_found() {
    let mut mgr = manager(SessionConfig::default());
    let err = mgr.terminate("sess-nope", T0).unwrap_err();
    assert!(matches!(err, SessionError::NotFound(_)));
}

#[test]
fn max_sessions_bound_purges_expired_first() {
    let mut mgr = manager(SessionConfig { idle_timeout_secs: 1, max_sessions: 2, ..SessionConfig::default() });
    let _a = mgr.create(&create_req(None, Vec::new()), &DIR, T0).unwrap();
    let _b = mgr.create(&create_req(None, Vec::new()), &DIR, T0).unwrap();
    let err = mgr.create(&create_req(None, Vec::new()), &DIR, T0).unwrap_err();
    assert!(matches!(err, SessionError::TooManySessions(_)));
    let c = mgr.create(&create_req(None, Vec::new()), &DIR, T0 + 2);
    assert!(c.is_ok());
    assert_eq!(mgr.session_count(), 1);
}

#[test]
fn environment_mismatch_rejected() {
    let mut mgr = manager(SessionConfig::default());
    let err = mgr
        .create(
            &CreateSessionRequest {
                environment_id: "other-env".into(),
                working_directory: None,
                env_vars: Vec::new(),
            },
            &DIR,
            T0,
        )
        .unwrap_err();
    assert!(matches!(err, SessionError::EnvironmentMismatch(_)));
}

#[test]
fn session_allocated_ids_are_unique_and_well_formed() {
    let mut seen = std::collections::HashSet::new();
    for _ in 0..100 {
        let id = random_id("sess-").expect("alloc");
        assert!(id.starts_with("sess-"));
        assert_eq!(id.len(), "sess-".len() + 32);
        assert!(id.chars().skip("sess-".len()).all(|c| c.is_ascii_hexdigit() && !c.is_ascii_uppercase()));
        assert!(seen.insert(id), "id collision");
    }
}

#[test]
fn default_session_bounds() {
    let config = SessionConfig::default();
    assert_eq!(config.idle_timeout_secs, DEFAULT_SESSION_IDLE_TIMEOUT_SECS);
    assert_eq!(config.max_lifetime_secs, DEFAULT_SESSION_MAX_LIFETIME_SECS);
    assert_eq!(config.max_sessions, DEFAULT_MAX_SESSIONS);
    assert_eq!(config.max_processes_per_session, DEFAULT_MAX_PROCESSES_PER_SESSION);
}

#[test]
fn owned_sessions_are_hidden_from_other_principals() {
    let mut mgr = manager(SessionConfig { idle_timeout_secs: 10, ..SessionConfig::default() });
    let alice = Viewer::Caller(Some("blake3:alice".into()));
    let bob = Viewer::Caller(Some("blake3:bob".into()));
    let (info, _) = mgr
        .create_owned(&create_req(None, Vec::new()), &DIR, Some("blake3:alice".into()), T0)
        .unwrap();
    assert_eq!(info.owner.as_deref(), Some("blake3:alice"));
    assert!(matches!(mgr.touch_owned(&info.session_id, &bob, T0).0, Err(SessionError::NotFound(_))));
    assert!(mgr.touch_owned(&info.session_id, &alice, T0).0.is_ok());
    assert!(mgr.list_owned(ENV, &bob, T0).0.is_empty());
    assert_eq!(mgr.list_owned(ENV, &alice, T0).0.len(), 1);
    // After expiry a non-owner still sees NotFound (never Expired), and the
    // removal is reported.
    let (r, purged) = mgr.touch_owned(&info.session_id, &bob, T0 + 100);
    assert!(matches!(r, Err(SessionError::NotFound(_))));
    assert_eq!(purged, vec![info.session_id.clone()]);
    assert!(matches!(mgr.terminate_owned(&info.session_id, &alice, T0).0, Err(SessionError::NotFound(_))));
}
